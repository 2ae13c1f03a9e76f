use crate::record::{Record, RecordView};
use vstd::prelude::*;

verus! {

/// The records of a database, held in a `hashbrown::HashSet`.
///
/// The set finds a record by its hash and the equality of [`Record`], which
/// compares the text of the three fields, so it never holds two records with
/// the same view. What it holds is known only through [`item_set_contents`].
///
/// The set's type has an allocator parameter bound by a trait that is
/// private to `hashbrown`, so the type cannot be declared to the verifier
/// as it is; it is kept behind this struct, whose methods make the calls.
#[verifier::external_body]
#[derive(Debug, PartialEq, Eq)]
pub struct ItemSet {
    inner: hashbrown::HashSet<Record>,
}

/// The records that a set holds, each by its view.
pub uninterp spec fn item_set_contents(items: ItemSet) -> Set<RecordView>;

/// The views of a sequence of records, in the same order.
pub open spec fn record_views(records: Seq<&Record>) -> Seq<RecordView> {
    records.map_values(|r: &Record| r@)
}

/// `records` holds each member of `items` once, and nothing else.
pub open spec fn lists(records: Seq<&Record>, items: Set<RecordView>) -> bool {
    &&& record_views(records).no_duplicates()
    &&& record_views(records).to_set() == items
}

/// `items` has exactly `n` members.
pub open spec fn counts(items: Set<RecordView>, n: usize) -> bool {
    items.finite() && items.len() == n
}

impl View for ItemSet {
    type V = Set<RecordView>;

    open spec fn view(&self) -> Set<RecordView> {
        item_set_contents(*self)
    }
}

impl ItemSet {
    /// `hashbrown::HashSet::new`: a set that holds nothing.
    #[verifier::external_body]
    pub(crate) fn new() -> (items: ItemSet)
        ensures
            item_set_contents(items) == Set::<RecordView>::empty(),
    {
        ItemSet { inner: hashbrown::HashSet::new() }
    }

    /// `hashbrown::HashSet::len`: how many records the set holds.
    #[verifier::external_body]
    pub(crate) fn len(&self) -> (n: usize)
        ensures
            counts(item_set_contents(*self), n),
    {
        self.inner.len()
    }

    /// `hashbrown::HashSet::contains`: whether a record equal to `item` is held.
    #[verifier::external_body]
    pub(crate) fn contains(&self, item: &Record) -> (found: bool)
        ensures
            found == item_set_contents(*self).contains(item@),
    {
        self.inner.contains(item)
    }

    /// `hashbrown::HashSet::insert`: adds `item` unless an equal record is
    /// held already, in which case the set stays as it is; says whether the
    /// record was added.
    #[verifier::external_body]
    pub(crate) fn insert(&mut self, item: Record) -> (added: bool)
        ensures
            item_set_contents(*final(self)) == item_set_contents(*old(self)).insert(item@),
            added == !item_set_contents(*old(self)).contains(item@),
    {
        self.inner.insert(item)
    }

    /// `hashbrown::HashSet::remove`: takes out the record equal to `item`, if
    /// one is held, and says whether one was.
    #[verifier::external_body]
    pub(crate) fn remove(&mut self, item: &Record) -> (removed: bool)
        ensures
            item_set_contents(*final(self)) == item_set_contents(*old(self)).remove(item@),
            removed == item_set_contents(*old(self)).contains(item@),
    {
        self.inner.remove(item)
    }

    /// `hashbrown::HashSet::iter`, collected: every held record once, in the
    /// order in which the set happens to walk them. Two calls may differ in
    /// that order.
    #[verifier::external_body]
    pub(crate) fn records(&self) -> (all: Vec<&Record>)
        ensures
            lists(all@, item_set_contents(*self)),
    {
        self.inner.iter().collect()
    }
}

} // verus!
