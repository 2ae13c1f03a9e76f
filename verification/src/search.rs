use crate::error::DatabaseError;
use crate::record::{Record, RecordView};
use vstd::prelude::*;

verus! {

/// `value` can hand out a field of `item` that compares equal to `query`.
pub open spec fn selects<Q: PartialEq, V: Fn(&Record) -> &Q>(
    value: V,
    query: &Q,
    item: &Record,
) -> bool {
    exists|field: &Q| #[trigger]
        call_ensures(value, (item,), field) && call_ensures(
            <Q as PartialEq>::eq,
            (field, query),
            true,
        )
}

/// `value` can hand out a field of `item` that compares unequal to `query`.
pub open spec fn passes_over<Q: PartialEq, V: Fn(&Record) -> &Q>(
    value: V,
    query: &Q,
    item: &Record,
) -> bool {
    exists|field: &Q| #[trigger]
        call_ensures(value, (item,), field) && call_ensures(
            <Q as PartialEq>::eq,
            (field, query),
            false,
        )
}

/// The search takes no record whose view is in `items`.
pub open spec fn selects_none<Q: PartialEq, V: Fn(&Record) -> &Q>(
    value: V,
    query: &Q,
    items: Set<RecordView>,
) -> bool {
    forall|item: &Record| #[trigger] items.contains(item@) ==> !selects(value, query, item)
}

/// `hits` says of each record whether the search takes it.
pub open spec fn marks<Q: PartialEq, V: Fn(&Record) -> &Q>(
    value: V,
    query: &Q,
    records: Seq<&Record>,
    hits: Seq<bool>,
) -> bool {
    &&& hits.len() == records.len()
    &&& forall|i: int|
        0 <= i < records.len() ==> if #[trigger] hits[i] {
            selects(value, query, records[i])
        } else {
            passes_over(value, query, records[i])
        }
}

/// The records that `hits` marks, in the order of `records`.
pub open spec fn picked(records: Seq<&Record>, hits: Seq<bool>) -> Seq<&Record>
    recommends
        hits.len() == records.len(),
    decreases records.len(),
{
    if records.len() == 0 || hits.len() == 0 {
        Seq::empty()
    } else if hits.last() {
        picked(records.drop_last(), hits.drop_last()).push(records.last())
    } else {
        picked(records.drop_last(), hits.drop_last())
    }
}

/// `item` is the record at `i`, and `hits` marks it.
pub open spec fn marked_at(records: Seq<&Record>, hits: Seq<bool>, i: int, item: &Record) -> bool {
    0 <= i < records.len() && i < hits.len() && hits[i] && records[i] == item
}

/// `item` is one of the records that `hits` marks.
pub open spec fn is_marked(records: Seq<&Record>, hits: Seq<bool>, item: &Record) -> bool {
    exists|i: int| #[trigger] marked_at(records, hits, i, item)
}

/// Each picked record is one of `records` that `hits` marks, and each marked
/// record is picked.
pub proof fn lemma_picked_are_marked(records: Seq<&Record>, hits: Seq<bool>)
    requires
        hits.len() == records.len(),
    ensures
        picked(records, hits).len() <= records.len(),
        forall|j: int|
            0 <= j < picked(records, hits).len() ==> is_marked(
                records,
                hits,
                #[trigger] picked(records, hits)[j],
            ),
        forall|i: int|
            0 <= i < records.len() && #[trigger] hits[i] ==> picked(records, hits).contains(
                records[i],
            ),
    decreases records.len(),
{
    if records.len() > 0 {
        let shorter = records.drop_last();
        let fewer = hits.drop_last();
        let last = records.len() - 1;
        lemma_picked_are_marked(shorter, fewer);
        let now = picked(records, hits);
        let before = picked(shorter, fewer);
        assert forall|j: int| 0 <= j < now.len() implies is_marked(
            records,
            hits,
            #[trigger] now[j],
        ) by {
            if j < before.len() {
                assert(is_marked(shorter, fewer, before[j]));
                let i = choose|i: int| #[trigger] marked_at(shorter, fewer, i, before[j]);
                assert(marked_at(records, hits, i, now[j]));
            } else {
                assert(marked_at(records, hits, last, now[j]));
            }
        }
        assert forall|i: int| 0 <= i < records.len() && #[trigger] hits[i] implies now.contains(
            records[i],
        ) by {
            if i < last {
                assert(fewer[i]);
                assert(before.contains(shorter[i]));
                let j = choose|j: int| 0 <= j < before.len() && before[j] == shorter[i];
                assert(now[j] == records[i]);
            } else {
                assert(now[now.len() - 1] == records[i]);
            }
        }
    }
}

/// The first of `records` that the search takes, or `ItemNotFound` where it
/// takes none. Every record before the one returned was passed over.
pub fn find_in<'a, Q: PartialEq, V: Fn(&Record) -> &Q>(
    records: &Vec<&'a Record>,
    value: V,
    query: Q,
) -> (r: Result<&'a Record, DatabaseError>)
    requires
        forall|i: int| 0 <= i < records.len() ==> call_requires(value, (#[trigger] records[i],)),
    ensures
        match r {
            Ok(item) => exists|at: int|
                {
                    &&& 0 <= at < records.len()
                    &&& item == #[trigger] records[at]
                    &&& selects(value, &query, item)
                    &&& forall|i: int|
                        0 <= i < at ==> passes_over(value, &query, #[trigger] records[i])
                },
            Err(e) => {
                &&& e == DatabaseError::ItemNotFound
                &&& forall|i: int|
                    0 <= i < records.len() ==> passes_over(value, &query, #[trigger] records[i])
            },
        },
{
    let mut i: usize = 0;
    while i < records.len()
        invariant
            i <= records.len(),
            forall|j: int|
                0 <= j < records.len() ==> call_requires(value, (#[trigger] records[j],)),
            forall|j: int| 0 <= j < i ==> passes_over(value, &query, #[trigger] records[j]),
        decreases records.len() - i,
    {
        let item: &'a Record = records[i];
        if value(item).eq(&query) {
            return Ok(item);
        }
        i += 1;
    }
    Err(DatabaseError::ItemNotFound)
}

/// Every one of `records` that the search takes, in their order, or
/// `ItemNotFound` where it takes none.
pub fn query_in<'a, Q: PartialEq, V: Fn(&Record) -> &Q>(
    records: &Vec<&'a Record>,
    value: V,
    query: Q,
) -> (r: Result<Vec<&'a Record>, DatabaseError>)
    requires
        forall|i: int| 0 <= i < records.len() ==> call_requires(value, (#[trigger] records[i],)),
    ensures
        match r {
            Ok(found) => {
                &&& found.len() > 0
                &&& exists|hits: Seq<bool>| #[trigger]
                    marks(value, &query, records@, hits) && found@ == picked(records@, hits)
            },
            Err(e) => {
                &&& e == DatabaseError::ItemNotFound
                &&& forall|i: int|
                    0 <= i < records.len() ==> passes_over(value, &query, #[trigger] records[i])
            },
        },
{
    let mut found: Vec<&'a Record> = Vec::new();
    let ghost mut hits: Seq<bool> = Seq::empty();
    let mut i: usize = 0;
    while i < records.len()
        invariant
            i <= records.len(),
            forall|j: int|
                0 <= j < records.len() ==> call_requires(value, (#[trigger] records[j],)),
            marks(value, &query, records@.take(i as int), hits),
            found@ == picked(records@.take(i as int), hits),
            found.len() == 0 ==> forall|j: int| 0 <= j < i ==> !#[trigger] hits[j],
        decreases records.len() - i,
    {
        let item: &'a Record = records[i];
        let hit = value(item).eq(&query);
        if hit {
            found.push(item);
        }
        proof {
            let before = records@.take(i as int);
            let after = records@.take(i + 1);
            assert(after.drop_last() =~= before);
            assert(after.last() == item);
            assert(hits.push(hit).drop_last() =~= hits);
            hits = hits.push(hit);
        }
        i += 1;
    }
    assert(records@.take(i as int) =~= records@);
    if found.len() > 0 {
        assert(marks(value, &query, records@, hits) && found@ == picked(records@, hits));
        return Ok(found);
    }
    assert forall|j: int| 0 <= j < records.len() implies passes_over(
        value,
        &query,
        #[trigger] records[j],
    ) by {
        assert(!hits[j]);
    }
    Err(DatabaseError::ItemNotFound)
}

} // verus!
