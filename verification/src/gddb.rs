use crate::database::{lemma_listed_are_stored, Database, DatabaseView};
use crate::error::DatabaseError;
use crate::items::lists;
use crate::record::{is_random_uuid_text, Record, RecordView};
use crate::search::passes_over;
use vstd::prelude::*;

verus! {

/// The store behind a game: a database named `GAME` that is kept in memory
/// and drops duplicates silently, with records addressed by their
/// identifier.
pub struct GDDB {
    storage: Database,
}

impl View for GDDB {
    type V = Set<RecordView>;

    open spec fn view(&self) -> Set<RecordView> {
        self.database().items
    }
}

/// No record of `items` has the identifier `uuid`.
pub open spec fn holds_no(items: Set<RecordView>, uuid: Seq<char>) -> bool {
    forall|v: RecordView| #[trigger] items.contains(v) ==> v.uuid != uuid
}

/// The identifier of a record: the field by which the store finds it.
pub fn uuid_of(record: &Record) -> (field: &String)
    ensures
        *field == record.uuid,
{
    &record.uuid
}

impl GDDB {
    /// The database that the store keeps its records in.
    pub closed spec fn database(&self) -> DatabaseView {
        self.storage@
    }

    /// The store is as [`GDDB::new`] set it up: its database does not
    /// report duplicates.
    pub open spec fn wf(&self) -> bool {
        !self.database().strict_dupes
    }

    /// A store without records: its database is named `GAME`, has no path
    /// of its own to be saved at, and does not report duplicates.
    pub fn new() -> (db: Self)
        ensures
            db.database() == DatabaseView::empty("GAME"@, None, false),
            db.wf(),
            db@ == Set::<RecordView>::empty(),
    {
        GDDB { storage: Database::new("GAME".to_owned(), None, false) }
    }

    /// Stores a new record of the given model and attributes and returns
    /// the identifier it was given.
    pub fn create(&mut self, model: String, attributes: String) -> (uuid: String)
        requires
            old(self).wf(),
        ensures
            final(self).wf(),
            final(self).database() == old(self).database().with_items(final(self)@),
            is_random_uuid_text(uuid@),
            final(self)@ == old(self)@.insert(
                RecordView { uuid: uuid@, model: model@, attributes: attributes@ },
            ),
    {
        let mut record = Record::new(model);
        let uuid = record.uuid.clone();
        record.attributes = attributes;
        let _ = self.storage.create(record);
        uuid
    }

    /// A stored record with the identifier `uuid`, or `ItemNotFound` where
    /// there is none.
    pub fn find(&self, uuid: String) -> (r: Result<&Record, DatabaseError>)
        ensures
            match r {
                Ok(record) => self@.contains(record@) && record.uuid@ == uuid@,
                Err(e) => e == DatabaseError::ItemNotFound && holds_no(self@, uuid@),
            },
    {
        let r = self.storage.find(uuid_of, uuid);
        proof {
            if r is Err {
                let all = choose|all: Seq<&Record>|
                    {
                        &&& #[trigger] lists(all, self@)
                        &&& forall|i: int|
                            0 <= i < all.len() ==> passes_over(uuid_of, &uuid, #[trigger] all[i])
                    };
                lemma_listed_are_stored(all, self@);
                assert forall|v: RecordView| #[trigger] self@.contains(v) implies v.uuid
                    != uuid@ by {
                    let i = choose|i: int| 0 <= i < all.len() && all[i]@ == v;
                    assert(passes_over(uuid_of, &uuid, all[i]));
                }
            }
        }
        r
    }

    /// Replaces the record that has the identifier `uuid` by one with the
    /// same identifier and the given model and attributes, or fails with
    /// `ItemNotFound`, and changes nothing, where no record has it.
    pub fn update(&mut self, uuid: String, model: String, attributes: String) -> (r: Result<
        (),
        DatabaseError,
    >)
        requires
            old(self).wf(),
        ensures
            final(self).wf(),
            final(self).database() == old(self).database().with_items(final(self)@),
            match r {
                Ok(()) => exists|replaced: RecordView|
                    {
                        &&& #[trigger] old(self)@.contains(replaced)
                        &&& replaced.uuid == uuid@
                        &&& final(self)@ == old(self)@.remove(replaced).insert(
                            RecordView { uuid: uuid@, model: model@, attributes: attributes@ },
                        )
                    },
                Err(e) => {
                    &&& e == DatabaseError::ItemNotFound
                    &&& holds_no(old(self)@, uuid@)
                    &&& final(self)@ == old(self)@
                },
            },
    {
        let new = Record { uuid, model, attributes };
        let replaced = match self.find(new.uuid.clone()) {
            Ok(record) => record.clone(),
            Err(e) => {
                return Err(e);
            },
        };
        let r = self.storage.update(&replaced, new);
        assert(old(self)@.contains(replaced@));
        r
    }

    /// Takes out the record that has exactly this identifier, model and
    /// attributes, or fails with `ItemNotFound`, and changes nothing, where
    /// it is not stored.
    pub fn destroy(&mut self, uuid: String, model: String, attributes: String) -> (r: Result<
        (),
        DatabaseError,
    >)
        requires
            old(self).wf(),
        ensures
            final(self).wf(),
            final(self).database() == old(self).database().with_items(final(self)@),
            match r {
                Ok(()) => {
                    &&& old(self)@.contains(
                        RecordView { uuid: uuid@, model: model@, attributes: attributes@ },
                    )
                    &&& final(self)@ == old(self)@.remove(
                        RecordView { uuid: uuid@, model: model@, attributes: attributes@ },
                    )
                },
                Err(e) => {
                    &&& e == DatabaseError::ItemNotFound
                    &&& !old(self)@.contains(
                        RecordView { uuid: uuid@, model: model@, attributes: attributes@ },
                    )
                    &&& final(self)@ == old(self)@
                },
            },
    {
        let record = Record { uuid, model, attributes };
        self.storage.destroy(&record)
    }
}

} // verus!
