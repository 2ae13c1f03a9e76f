use crate::database::DatabaseView;
use crate::error::DatabaseError;
use crate::record::RecordView;
use vstd::prelude::*;

verus! {

/// A record created in an empty database is stored: the creation succeeds,
/// the database then contains the record, and it holds nothing else.
pub proof fn law_created_item_is_contained(
    label: Seq<char>,
    save_path: Option<Seq<char>>,
    strict_dupes: bool,
    a: RecordView,
)
    ensures
        DatabaseView::empty(label, save_path, strict_dupes).create_outcome(a) is Ok,
        DatabaseView::empty(label, save_path, strict_dupes).created(a).items.contains(a),
        DatabaseView::empty(label, save_path, strict_dupes).created(a).items.len() == 1,
{
    let db = DatabaseView::empty(label, save_path, strict_dupes);
    assert(db.created(a).items =~= set![a]);
}

/// In a database that reports duplicates, creating a record a second time
/// fails with `DupeFound` and changes nothing: the number of records stays
/// what it was after the first time, which is 1 where the database was
/// empty before.
pub proof fn law_strict_duplicate_is_refused(db: DatabaseView, a: RecordView)
    requires
        db.strict_dupes,
        db.items.finite(),
    ensures
        db.created(a).create_outcome(a) == Err::<(), DatabaseError>(DatabaseError::DupeFound),
        db.created(a).created(a) == db.created(a),
        db.created(a).created(a).items.len() == db.created(a).items.len(),
        db.items.len() == 0 ==> db.created(a).create_outcome(a) is Err && db.create_outcome(a) is Ok
            && db.created(a).created(a).items.len() == 1,
{
    if db.items.len() == 0 {
        assert(!db.items.contains(a));
        assert(db.created(a).items.len() == 1);
    }
}

/// In a database that does not report duplicates, creating a record twice
/// succeeds both times and stores it once: the second time changes
/// nothing, and the number of records is 1 where the database was empty
/// before.
pub proof fn law_lenient_duplicate_is_dropped(db: DatabaseView, a: RecordView)
    requires
        !db.strict_dupes,
        db.items.finite(),
    ensures
        db.create_outcome(a) is Ok,
        db.created(a).create_outcome(a) is Ok,
        db.created(a).created(a) == db.created(a),
        db.created(a).created(a).items.len() == db.created(a).items.len(),
        db.items.len() == 0 ==> db.created(a).created(a).items.len() == 1,
{
    assert(db.created(a).items.insert(a) =~= db.created(a).items);
    if db.items.len() == 0 {
        assert(!db.items.contains(a));
    }
}

/// Destroying a record that is not stored fails with `ItemNotFound` and
/// changes nothing, so the number of records stays the same.
pub proof fn law_destroy_absent_is_refused(db: DatabaseView, a: RecordView)
    requires
        !db.items.contains(a),
    ensures
        db.destroy_outcome(a) == Err::<(), DatabaseError>(DatabaseError::ItemNotFound),
        db.destroyed(a) == db,
        db.destroyed(a).items.len() == db.items.len(),
{
}

/// Updating a stored record to one that is not stored succeeds: the old
/// record is gone, the new one is stored, and the number of records stays
/// the same.
pub proof fn law_update_replaces(db: DatabaseView, old_item: RecordView, new_item: RecordView)
    requires
        db.items.finite(),
        db.items.contains(old_item),
        !db.items.contains(new_item),
    ensures
        db.update_outcome(old_item, new_item) is Ok,
        !db.updated(old_item, new_item).items.contains(old_item),
        db.updated(old_item, new_item).items.contains(new_item),
        db.updated(old_item, new_item).items.len() == db.items.len(),
{
}

/// A failed update is not undone: where duplicates are reported and the new
/// record is equal to another stored one, the update fails with `DupeFound`,
/// the old record is gone and the database holds one record fewer.
pub proof fn law_update_collision_removes(
    db: DatabaseView,
    old_item: RecordView,
    new_item: RecordView,
)
    requires
        db.strict_dupes,
        db.items.finite(),
        db.items.contains(old_item),
        db.items.contains(new_item),
        old_item != new_item,
    ensures
        db.update_outcome(old_item, new_item) == Err::<(), DatabaseError>(
            DatabaseError::DupeFound,
        ),
        !db.updated(old_item, new_item).items.contains(old_item),
        db.updated(old_item, new_item).items.contains(new_item),
        db.updated(old_item, new_item).items.len() == db.items.len() - 1,
{
}

} // verus!
