use crate::error::DatabaseError;
use crate::items::{lists, record_views, ItemSet};
use crate::path::{default_path, extension};
use crate::record::{Record, RecordCheck, RecordView};
use crate::search::{
    find_in, is_marked, lemma_picked_are_marked, marked_at, marks, passes_over, picked, query_in,
    selects, selects_none,
};
use vstd::prelude::*;

verus! {

/// A database as a value: its name, where it is saved, how it treats
/// duplicates, and the set of records it holds.
pub struct DatabaseView {
    pub label: Seq<char>,
    pub save_path: Option<Seq<char>>,
    pub strict_dupes: bool,
    pub items: Set<RecordView>,
}

impl DatabaseView {
    /// A database without records.
    pub open spec fn empty(
        label: Seq<char>,
        save_path: Option<Seq<char>>,
        strict_dupes: bool,
    ) -> Self {
        DatabaseView { label, save_path, strict_dupes, items: Set::empty() }
    }

    /// The same database holding `items`.
    pub open spec fn with_items(self, items: Set<RecordView>) -> Self {
        DatabaseView { items, ..self }
    }

    /// Where the database is saved: at its path, or else in a file named
    /// by its label.
    pub open spec fn smart_path(self) -> Seq<char> {
        match self.save_path {
            Some(path) => path,
            None => self.label + extension(),
        }
    }

    /// Creating `item` is refused when duplicates are reported and an equal
    /// record is stored.
    pub open spec fn create_outcome(self, item: RecordView) -> Result<(), DatabaseError> {
        if self.strict_dupes && self.items.contains(item) {
            Err(DatabaseError::DupeFound)
        } else {
            Ok(())
        }
    }

    /// The database after an attempt to create `item`.
    pub open spec fn created(self, item: RecordView) -> Self {
        if self.create_outcome(item) is Ok {
            self.with_items(self.items.insert(item))
        } else {
            self
        }
    }

    /// Destroying `item` is refused when no equal record is stored.
    pub open spec fn destroy_outcome(self, item: RecordView) -> Result<(), DatabaseError> {
        if self.items.contains(item) {
            Ok(())
        } else {
            Err(DatabaseError::ItemNotFound)
        }
    }

    /// The database after an attempt to destroy `item`.
    pub open spec fn destroyed(self, item: RecordView) -> Self {
        if self.destroy_outcome(item) is Ok {
            self.with_items(self.items.remove(item))
        } else {
            self
        }
    }

    /// Updating destroys `item` and then creates `new`; the first refusal
    /// is the outcome.
    pub open spec fn update_outcome(self, item: RecordView, new: RecordView) -> Result<
        (),
        DatabaseError,
    > {
        if self.destroy_outcome(item) is Ok {
            self.destroyed(item).create_outcome(new)
        } else {
            self.destroy_outcome(item)
        }
    }

    /// The database after an attempt to update `item` to `new`. Where `new`
    /// is refused, `item` is gone all the same.
    pub open spec fn updated(self, item: RecordView, new: RecordView) -> Self {
        if self.destroy_outcome(item) is Ok {
            self.destroyed(item).created(new)
        } else {
            self
        }
    }
}

/// Every record of a listing of `items` is a member of `items`, and every
/// member is the view of a listed record.
pub proof fn lemma_listed_are_stored(all: Seq<&Record>, items: Set<RecordView>)
    requires
        lists(all, items),
    ensures
        items.finite(),
        items.len() == all.len(),
        forall|i: int| 0 <= i < all.len() ==> items.contains((#[trigger] all[i])@),
        forall|v: RecordView| #[trigger]
            items.contains(v) ==> exists|i: int| 0 <= i < all.len() && all[i]@ == v,
{
    let views = record_views(all);
    views.unique_seq_to_set();
    assert forall|i: int| 0 <= i < all.len() implies items.contains((#[trigger] all[i])@) by {
        assert(views[i] == all[i]@);
        assert(views.contains(views[i]));
    }
    assert forall|v: RecordView| #[trigger] items.contains(v) implies exists|i: int|
        0 <= i < all.len() && all[i]@ == v by {
        assert(views.contains(v));
        let i = choose|i: int| 0 <= i < views.len() && views[i] == v;
        assert(all[i]@ == v);
    }
}

/// An in-memory store of records, with the name and the path under which it
/// is saved.
#[derive(Debug, PartialEq, Eq)]
pub struct Database {
    /// The name of the database, and the stem of the file it is saved in
    /// when no `save_path` is given.
    pub label: String,
    /// Where the database is saved, if not under its label.
    pub save_path: Option<String>,
    /// Whether creating a record equal to a stored one is an error. The
    /// database holds no duplicates either way.
    pub strict_dupes: bool,
    /// The stored records.
    pub items: ItemSet,
}

impl View for Database {
    type V = DatabaseView;

    open spec fn view(&self) -> DatabaseView {
        DatabaseView {
            label: self.label@,
            save_path: self.save_path.deep_view(),
            strict_dupes: self.strict_dupes,
            items: self.items@,
        }
    }
}

impl Database {
    /// A database without records.
    pub fn new(label: String, save_path: Option<String>, strict_dupes: bool) -> (db: Self)
        ensures
            db.label == label,
            db.save_path == save_path,
            db@ == DatabaseView::empty(label@, save_path.deep_view(), strict_dupes),
    {
        Database { label, save_path, strict_dupes, items: ItemSet::new() }
    }

    /// Stores `item`. Where an equal record is stored already, the database
    /// stays as it is, and the call fails with `DupeFound` if duplicates are
    /// reported.
    pub fn create(&mut self, item: Record) -> (r: Result<(), DatabaseError>)
        ensures
            r == old(self)@.create_outcome(item@),
            final(self)@ == old(self)@.created(item@),
    {
        if self.strict_dupes {
            if self.items.contains(&item) {
                return Err(DatabaseError::DupeFound);
            }
        }
        self.items.insert(item);
        Ok(())
    }

    /// Takes out the record equal to `item`, or fails with `ItemNotFound`
    /// and leaves the database as it is.
    pub fn destroy(&mut self, item: &Record) -> (r: Result<(), DatabaseError>)
        ensures
            r == old(self)@.destroy_outcome(item@),
            final(self)@ == old(self)@.destroyed(item@),
    {
        if self.items.remove(item) {
            Ok(())
        } else {
            assert(self.items@ =~= old(self).items@);
            Err(DatabaseError::ItemNotFound)
        }
    }

    /// Replaces `item` by `new`: destroys the one, then creates the other.
    ///
    /// Fails with `ItemNotFound`, and changes nothing, where `item` is not
    /// stored. Fails with `DupeFound` where duplicates are reported and `new`
    /// is equal to another stored record: `item` has then been taken out and
    /// `new` has not been stored.
    pub fn update(&mut self, item: &Record, new: Record) -> (r: Result<(), DatabaseError>)
        ensures
            r == old(self)@.update_outcome(item@, new@),
            final(self)@ == old(self)@.updated(item@, new@),
    {
        match self.destroy(item) {
            Ok(()) => {},
            Err(e) => {
                return Err(e);
            },
        }
        self.create(new)
    }

    /// A stored record whose field, as `value` hands it out, is equal to
    /// `query`, or `ItemNotFound` where there is none. Where several records
    /// match, any of them may come back.
    pub fn find<Q: RecordCheck, V: Fn(&Record) -> &Q>(&self, value: V, query: Q) -> (r: Result<
        &Record,
        DatabaseError,
    >)
        requires
            forall|item: &Record| self@.items.contains(item@) ==> call_requires(value, (item,)),
        ensures
            match r {
                Ok(item) => self@.items.contains(item@) && selects(value, &query, item),
                Err(e) => {
                    &&& e == DatabaseError::ItemNotFound
                    &&& exists|all: Seq<&Record>|
                        {
                            &&& #[trigger] lists(all, self@.items)
                            &&& forall|i: int|
                                0 <= i < all.len() ==> passes_over(value, &query, #[trigger] all[i])
                        }
                },
            },
            selects_none(value, &query, self@.items) ==> r is Err,
    {
        let all = self.items.records();
        proof {
            lemma_listed_are_stored(all@, self@.items);
        }
        find_in(&all, value, query)
    }

    /// All stored records whose field, as `value` hands it out, is equal to
    /// `query`, in no particular order, or `ItemNotFound` where there is
    /// none: the list that comes back is never empty.
    pub fn query<Q: PartialEq, V: Fn(&Record) -> &Q>(&self, value: V, query: Q) -> (r: Result<
        Vec<&Record>,
        DatabaseError,
    >)
        requires
            forall|item: &Record| self@.items.contains(item@) ==> call_requires(value, (item,)),
        ensures
            match r {
                Ok(found) => {
                    &&& found.len() > 0
                    &&& exists|all: Seq<&Record>, hits: Seq<bool>|
                        {
                            &&& #[trigger] lists(all, self@.items)
                            &&& #[trigger] marks(value, &query, all, hits)
                            &&& found@ == picked(all, hits)
                        }
                    &&& forall|j: int|
                        0 <= j < found.len() ==> {
                            &&& self@.items.contains((#[trigger] found[j])@)
                            &&& selects(value, &query, found[j])
                        }
                },
                Err(e) => {
                    &&& e == DatabaseError::ItemNotFound
                    &&& exists|all: Seq<&Record>|
                        {
                            &&& #[trigger] lists(all, self@.items)
                            &&& forall|i: int|
                                0 <= i < all.len() ==> passes_over(value, &query, #[trigger] all[i])
                        }
                },
            },
            selects_none(value, &query, self@.items) ==> r is Err,
    {
        let all = self.items.records();
        proof {
            lemma_listed_are_stored(all@, self@.items);
        }
        let r = query_in(&all, value, query);
        proof {
            if r is Ok {
                let found = r->Ok_0;
                let hits = choose|hits: Seq<bool>| #[trigger]
                    marks(value, &query, all@, hits) && found@ == picked(all@, hits);
                lemma_picked_are_marked(all@, hits);
                assert forall|j: int| 0 <= j < found.len() implies {
                    &&& self@.items.contains((#[trigger] found[j])@)
                    &&& selects(value, &query, found[j])
                } by {
                    assert(is_marked(all@, hits, found@[j]));
                    let i = choose|i: int| #[trigger] marked_at(all@, hits, i, found@[j]);
                    assert(hits[i]);
                }
                assert(self@.items.contains(found[0]@) && selects(value, &query, found[0]));
            }
        }
        r
    }

    /// The path of the file that the database is saved in: `save_path`
    /// where it is set, or else the label with the default extension.
    pub fn smart_path_get(&self) -> (path: String)
        ensures
            path@ == self@.smart_path(),
    {
        match &self.save_path {
            Some(path) => path.clone(),
            None => default_path(self.label.as_str()),
        }
    }

    /// Whether a record equal to `query` is stored.
    pub fn contains(&self, query: &Record) -> (found: bool)
        ensures
            found == self@.items.contains(query@),
    {
        self.items.contains(query)
    }

    /// The number of stored records, cut to the 32 bits of the result.
    pub fn len(&self) -> (n: i32)
        ensures
            self@.items.finite(),
            n == self@.items.len() as i32,
            self@.items.len() <= i32::MAX ==> n == self@.items.len(),
    {
        #[verifier::truncate]
        (self.items.len() as i32)
    }
}

} // verus!
