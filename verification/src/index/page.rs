//! Pages of the records of a session.

use crate::types;
use crate::types::{Record, RecordModel};
use vstd::prelude::*;

verus! {

/// How many records a page holds: as many as are asked for, at least one, and no more than are left
/// after `offset`. There is no page at or after the end.
pub open spec fn page_size(total: int, offset: int, limit: int) -> Option<int> {
    if offset >= total {
        None
    } else {
        let asked = if limit < 1 {
            1
        } else {
            limit
        };
        Some(
            if asked > total - offset {
                total - offset
            } else {
                asked
            },
        )
    }
}

/// How many records the page at `offset` holds, `None` where there is no such page.
pub fn page_limit(total: usize, offset: usize, limit: usize) -> (r: Option<usize>)
    ensures
        match r {
            Some(size) => page_size(total as int, offset as int, limit as int) == Some(size as int),
            None => page_size(total as int, offset as int, limit as int) is None,
        },
        r is None <==> offset >= total,
        r matches Some(size) ==> 1 <= size <= total - offset && (size <= limit || size == 1),
        r matches Some(size) ==> size >= limit || size == total - offset,
{
    if offset >= total {
        return None;
    }
    let asked: usize = if limit < 1 {
        1
    } else {
        limit
    };
    let left: usize = total - offset;
    Some(
        if asked > left {
            left
        } else {
            asked
        },
    )
}

/// A page is never empty, never longer than asked for and never reaches over the end, and only the
/// last one is shorter than asked for: pages that follow one another take up every position once.
/// Where none is asked for, a page holds one record.
pub proof fn law_pages_cover(total: int, offset: int, limit: int)
    requires
        0 <= offset < total,
    ensures
        ({
            let size = page_size(total, offset, limit)->0;
            &&& page_size(total, offset, limit) is Some
            &&& 1 <= size
            &&& offset + size <= total
            &&& size <= limit || size == 1
            &&& size < limit ==> offset + size == total
            &&& page_size(total, offset + size, limit) is None <==> offset + size == total
        }),
{
}

/// There is a page wherever a record is left, and nowhere else.
pub proof fn law_pages_end_with_the_records(total: int, offset: int, limit: int)
    ensures
        page_size(total, offset, limit) is Some <==> offset < total,
{
}

/// What the records of a page are ordered by: their turn, then their time, then their id.
pub open spec fn page_key(record: RecordModel) -> (u32, u64, u64) {
    (record.turn_id, record.ts, record.doc_id)
}

/// A key comes before another, or is the same.
pub open spec fn key_le(a: (u32, u64, u64), b: (u32, u64, u64)) -> bool {
    ||| a.0 < b.0
    ||| a.0 == b.0 && a.1 < b.1
    ||| a.0 == b.0 && a.1 == b.1 && a.2 <= b.2
}

/// The records come in the order of their keys.
pub open spec fn in_page_order(records: Seq<RecordModel>) -> bool {
    forall|i: int, j: int|
        0 <= i < j < records.len() ==> key_le(
            page_key(#[trigger] records[i]),
            page_key(#[trigger] records[j]),
        )
}

/// The records that have a key, in the order in which they come.
pub open spec fn having_key(records: Seq<RecordModel>, key: (u32, u64, u64)) -> Seq<RecordModel>
    decreases records.len(),
{
    if records.len() == 0 {
        seq![]
    } else if page_key(records.last()) == key {
        having_key(records.drop_last(), key).push(records.last())
    } else {
        having_key(records.drop_last(), key)
    }
}

/// `a` holds the records of `b`, and those with the same key in the same order.
pub open spec fn stably_permuted(a: Seq<RecordModel>, b: Seq<RecordModel>) -> bool {
    &&& a.len() == b.len()
    &&& forall|key: (u32, u64, u64)| #[trigger] having_key(a, key) == having_key(b, key)
}

/// Having a key is having it in either part.
proof fn lemma_having_key_adds(a: Seq<RecordModel>, b: Seq<RecordModel>, key: (u32, u64, u64))
    ensures
        having_key(a + b, key) == having_key(a, key) + having_key(b, key),
    decreases b.len(),
{
    if b.len() == 0 {
        assert(a + b =~= a);
        assert(having_key(a, key) + having_key(b, key) =~= having_key(a, key));
    } else {
        assert((a + b).drop_last() =~= a + b.drop_last());
        lemma_having_key_adds(a, b.drop_last(), key);
        assert(having_key(a + b, key) =~= having_key(a, key) + having_key(b, key));
    }
}

/// Where no record has a key, none is found.
proof fn lemma_key_absent(records: Seq<RecordModel>, key: (u32, u64, u64))
    requires
        forall|i: int| 0 <= i < records.len() ==> page_key(#[trigger] records[i]) != key,
    ensures
        having_key(records, key) == Seq::<RecordModel>::empty(),
    decreases records.len(),
{
    if records.len() > 0 {
        let rest = records.drop_last();
        assert forall|i: int| 0 <= i < rest.len() implies page_key(#[trigger] rest[i]) != key by {
            assert(rest[i] == records[i]);
        }
        lemma_key_absent(rest, key);
        assert(records[records.len() - 1] == records.last());
    }
}

/// Putting a record before later ones only keeps the order among those with the same key.
proof fn lemma_insertion(sorted: Seq<RecordModel>, at: int, record: RecordModel)
    requires
        0 <= at <= sorted.len(),
        forall|i: int|
            at <= i < sorted.len() ==> page_key(#[trigger] sorted[i]) != page_key(record),
    ensures
        forall|key: (u32, u64, u64)| #[trigger]
            having_key(sorted.insert(at, record), key) == having_key(sorted.push(record), key),
{
    let front = sorted.take(at);
    let back = sorted.skip(at);
    let one = seq![record];
    assert forall|key: (u32, u64, u64)| #[trigger]
        having_key(sorted.insert(at, record), key) == having_key(sorted.push(record), key) by {
        assert(sorted.insert(at, record) =~= front + one + back);
        assert(sorted.push(record) =~= front + back + one);
        lemma_having_key_adds(front + one, back, key);
        lemma_having_key_adds(front, one, key);
        lemma_having_key_adds(front + back, one, key);
        lemma_having_key_adds(front, back, key);
        if key == page_key(record) {
            assert forall|i: int| 0 <= i < back.len() implies page_key(#[trigger] back[i])
                != key by {
                assert(back[i] == sorted[at + i]);
            }
            lemma_key_absent(back, key);
        } else {
            assert forall|i: int| 0 <= i < one.len() implies page_key(#[trigger] one[i]) != key by {
            }
            lemma_key_absent(one, key);
        }
        assert(having_key(sorted.insert(at, record), key) =~= having_key(sorted.push(record), key));
    }
}

/// Whether a record comes strictly before another.
fn comes_before(a: &Record, b: &Record) -> (r: bool)
    ensures
        r == !key_le(page_key(b@), page_key(a@)),
{
    if a.turn_id != b.turn_id {
        a.turn_id < b.turn_id
    } else if a.ts != b.ts {
        a.ts < b.ts
    } else {
        a.doc_id < b.doc_id
    }
}

/// The records of a page in the order of their turn, their time and their id. Records that agree
/// in all three stay in the order in which they came.
pub fn sort_page(records: Vec<Record>) -> (r: Vec<Record>)
    ensures
        in_page_order(types::records_model(r@)),
        stably_permuted(types::records_model(r@), types::records_model(records@)),
        forall|i: int, j: int|
            0 <= i < j < r@.len() ==> {
                let (a, b) = (#[trigger] r@[i], #[trigger] r@[j]);
                &&& a.turn_id <= b.turn_id
                &&& a.turn_id == b.turn_id ==> a.ts <= b.ts
                &&& a.turn_id == b.turn_id && a.ts == b.ts ==> a.doc_id <= b.doc_id
            },
        types::records_model(r@).to_multiset() == types::records_model(records@).to_multiset(),
{
    let mut sorted: Vec<Record> = Vec::new();
    let ghost all = types::records_model(records@);
    assert(types::records_model(sorted@) =~= all.take(0));
    for record in it: records
        invariant
            it.seq() == records@,
            all == types::records_model(records@),
            in_page_order(types::records_model(sorted@)),
            stably_permuted(types::records_model(sorted@), all.take(it.index() as int)),
    {
        let ghost index = it.index() as int;
        let ghost before = types::records_model(sorted@);
        let n = sorted.len();
        let mut at: usize = n;
        while at > 0 && comes_before(&record, &sorted[at - 1])
            invariant
                at <= n,
                n == sorted@.len(),
                before == types::records_model(sorted@),
                in_page_order(before),
                forall|i: int|
                    at <= i < n ==> !key_le(page_key(#[trigger] before[i]), page_key(record@)),
            decreases at,
        {
            assert(before[at - 1] == sorted@[at - 1]@);
            at -= 1;
        }
        proof {
            lemma_insertion(before, at as int, record@);
            assert(at > 0 ==> before[at - 1] == sorted@[at - 1]@);
        }
        sorted.insert(at, record);
        let ghost after = types::records_model(sorted@);
        assert(after =~= before.insert(at as int, record@));
        assert(all.take(index + 1).drop_last() =~= all.take(index));
        assert(all.take(index + 1).last() == record@);
        assert forall|key: (u32, u64, u64)| #[trigger]
            having_key(after, key) == having_key(all.take(index + 1), key) by {
            assert(before.push(record@).drop_last() =~= before);
            assert(having_key(before, key) == having_key(all.take(index), key));
        }
    }
    assert(all.take(all.len() as int) =~= all);
    proof {
        let page = types::records_model(sorted@);
        law_page_holds_the_same_records(page, all);
        assert forall|i: int, j: int| 0 <= i < j < sorted@.len() implies {
            let (a, b) = (#[trigger] sorted@[i], #[trigger] sorted@[j]);
            &&& a.turn_id <= b.turn_id
            &&& a.turn_id == b.turn_id ==> a.ts <= b.ts
            &&& a.turn_id == b.turn_id && a.ts == b.ts ==> a.doc_id <= b.doc_id
        } by {
            assert(page[i] == sorted@[i]@ && page[j] == sorted@[j]@);
        }
    }
    sorted
}

/// A page is in one order only: two orders of the same records, each by the keys and each keeping
/// those with the same key in place, are the same.
pub proof fn law_page_order_is_unique(a: Seq<RecordModel>, b: Seq<RecordModel>)
    requires
        in_page_order(a),
        in_page_order(b),
        stably_permuted(a, b),
    ensures
        a == b,
    decreases a.len(),
{
    if a.len() == 0 {
        assert(a =~= b);
    } else {
        let x = a.last();
        let y = b.last();
        let kx = page_key(x);
        let ky = page_key(y);
        assert(having_key(a, kx).last() == x);
        assert(having_key(b, ky).last() == y);
        assert(having_key(b, kx) == having_key(a, kx));
        assert(having_key(a, ky) == having_key(b, ky));
        lemma_key_present(b, kx);
        lemma_key_present(a, ky);
        let i = choose|i: int| 0 <= i < b.len() && page_key(#[trigger] b[i]) == kx;
        let j = choose|j: int| 0 <= j < a.len() && page_key(#[trigger] a[j]) == ky;
        assert(i < b.len() - 1 ==> key_le(page_key(b[i]), page_key(b[b.len() - 1])));
        assert(j < a.len() - 1 ==> key_le(page_key(a[j]), page_key(a[a.len() - 1])));
        assert(kx == ky);
        assert(x == y);
        let ra = a.drop_last();
        let rb = b.drop_last();
        assert forall|key: (u32, u64, u64)| #[trigger]
            having_key(ra, key) == having_key(rb, key) by {
            assert(having_key(a, key) == having_key(b, key));
            if key == kx {
                assert(having_key(a, key).drop_last() =~= having_key(ra, key));
                assert(having_key(b, key).drop_last() =~= having_key(rb, key));
            }
        }
        law_page_order_is_unique(ra, rb);
        assert(a =~= ra.push(x));
        assert(b =~= rb.push(y));
    }
}

/// A key under which records are found is one that a record has.
proof fn lemma_key_present(records: Seq<RecordModel>, key: (u32, u64, u64))
    requires
        having_key(records, key).len() > 0,
    ensures
        exists|i: int| 0 <= i < records.len() && page_key(#[trigger] records[i]) == key,
{
    if forall|i: int| 0 <= i < records.len() ==> page_key(#[trigger] records[i]) != key {
        lemma_key_absent(records, key);
    }
}

/// A record occurs as often as it does among those with its key.
proof fn lemma_counted_by_key(records: Seq<RecordModel>, record: RecordModel)
    ensures
        records.to_multiset().count(record) == having_key(
            records,
            page_key(record),
        ).to_multiset().count(record),
    decreases records.len(),
{
    broadcast use vstd::seq_lib::group_to_multiset_ensures;

    if records.len() > 0 {
        let rest = records.drop_last();
        lemma_counted_by_key(rest, record);
        assert(records =~= rest.push(records.last()));
        let found = having_key(rest, page_key(record));
        assert(found.push(records.last()).to_multiset().count(record) == found.to_multiset().insert(
            records.last(),
        ).count(record));
    }
}

/// Putting a page into order neither drops, adds nor changes a record.
pub proof fn law_page_holds_the_same_records(a: Seq<RecordModel>, b: Seq<RecordModel>)
    requires
        stably_permuted(a, b),
    ensures
        a.to_multiset() == b.to_multiset(),
{
    assert forall|record: RecordModel| #[trigger]
        a.to_multiset().count(record) == b.to_multiset().count(record) by {
        lemma_counted_by_key(a, record);
        lemma_counted_by_key(b, record);
        assert(having_key(a, page_key(record)) == having_key(b, page_key(record)));
    }
    assert(a.to_multiset() =~= b.to_multiset());
}

/// Records come by their turn, those of one turn by their time, and those of one time by their id.
pub proof fn law_page_order(records: Seq<RecordModel>, i: int, j: int)
    requires
        in_page_order(records),
        0 <= i < j < records.len(),
    ensures
        records[i].turn_id <= records[j].turn_id,
        records[i].turn_id == records[j].turn_id ==> records[i].ts <= records[j].ts,
        records[i].turn_id == records[j].turn_id && records[i].ts == records[j].ts
            ==> records[i].doc_id <= records[j].doc_id,
{
}

/// Records that agree in their turn, their time and their id keep the order in which they came.
pub proof fn law_page_order_is_stable(page: Seq<RecordModel>, came: Seq<RecordModel>)
    requires
        in_page_order(page),
        stably_permuted(page, came),
        forall|i: int, j: int|
            0 <= i < j < came.len() ==> (#[trigger] came[i]).turn_id == (
            #[trigger] came[j]).turn_id && came[i].ts == came[j].ts && came[i].doc_id
                == came[j].doc_id,
    ensures
        page == came,
{
    assert(in_page_order(came));
    law_page_order_is_unique(page, came);
}

} // verus!
