//! Newest-first order of rows: by timestamp descending, and among equal
//! timestamps the row inserted later (the larger id) first.
use vstd::prelude::*;
use crate::stamp::{text_lt, lemma_text_lt_order};

verus! {

/// What a row is ordered by: its timestamp and its id.
pub type RowKey = (Seq<char>, i64);

/// The row with key `a` comes before the row with key `b`.
pub open spec fn key_newer(a: RowKey, b: RowKey) -> bool {
    text_lt(b.0, a.0) || (!text_lt(a.0, b.0) && a.1 > b.1)
}

/// Every row comes before each row that follows it.
pub open spec fn newest_first(ks: Seq<RowKey>) -> bool {
    forall|i: int, j: int| 0 <= i < j < ks.len() ==> #[trigger] key_newer(ks[i], ks[j])
}

/// Where a row with key `k` goes: after every row that comes before it.
pub open spec fn insert_index(ks: Seq<RowKey>, k: RowKey) -> int
    decreases ks.len(),
{
    if ks.len() == 0 {
        0
    } else if key_newer(ks[0], k) {
        1 + insert_index(ks.drop_first(), k)
    } else {
        0
    }
}

pub proof fn lemma_key_newer_transitive(a: RowKey, b: RowKey, c: RowKey)
    requires
        key_newer(a, b),
        key_newer(b, c),
    ensures
        key_newer(a, c),
{
    lemma_text_lt_order(a.0, b.0, c.0);
    lemma_text_lt_order(c.0, b.0, a.0);
    lemma_text_lt_order(b.0, c.0, a.0);
    lemma_text_lt_order(a.0, c.0, b.0);
    lemma_text_lt_order(b.0, a.0, c.0);
    lemma_text_lt_order(c.0, a.0, b.0);
}

/// The scan that stops at the first row not before `k` finds `insert_index`.
pub proof fn lemma_insert_index_at(ks: Seq<RowKey>, k: RowKey, i: int)
    requires
        0 <= i <= ks.len(),
        forall|j: int| 0 <= j < i ==> #[trigger] key_newer(ks[j], k),
        i == ks.len() || !key_newer(ks[i], k),
    ensures
        insert_index(ks, k) == i,
    decreases i,
{
    if i > 0 {
        assert(key_newer(ks[0], k));
        let rest = ks.drop_first();
        assert forall|j: int| 0 <= j < i - 1 implies #[trigger] key_newer(rest[j], k) by {
            assert(rest[j] == ks[j + 1]);
        }
        lemma_insert_index_at(rest, k, i - 1);
    }
}

/// `insert_index` stops after the rows that come before `k`, at the first
/// that does not.
pub proof fn lemma_insert_index_bounds(ks: Seq<RowKey>, k: RowKey)
    ensures
        0 <= insert_index(ks, k) <= ks.len(),
        forall|j: int| 0 <= j < insert_index(ks, k) ==> #[trigger] key_newer(ks[j], k),
        insert_index(ks, k) == ks.len() || !key_newer(ks[insert_index(ks, k)], k),
    decreases ks.len(),
{
    if ks.len() > 0 && key_newer(ks[0], k) {
        let rest = ks.drop_first();
        lemma_insert_index_bounds(rest, k);
        assert forall|j: int| 0 <= j < insert_index(ks, k) implies #[trigger] key_newer(ks[j], k) by {
            if j > 0 {
                assert(ks[j] == rest[j - 1]);
            }
        }
        if insert_index(ks, k) < ks.len() {
            assert(ks[insert_index(ks, k)] == rest[insert_index(rest, k)]);
        }
    }
}

/// Inserting at the scan's stop keeps the order, when the new key's id is
/// unlike every other.
pub proof fn lemma_insert_keeps_order(ks: Seq<RowKey>, k: RowKey, i: int)
    requires
        newest_first(ks),
        0 <= i <= ks.len(),
        forall|j: int| 0 <= j < i ==> #[trigger] key_newer(ks[j], k),
        i == ks.len() || !key_newer(ks[i], k),
        forall|j: int| 0 <= j < ks.len() ==> (#[trigger] ks[j]).1 != k.1,
    ensures
        newest_first(ks.insert(i, k)),
{
    let r = ks.insert(i, k);
    if i < ks.len() {
        assert(ks[i].1 != k.1);
        assert(key_newer(k, ks[i]));
    }
    assert forall|a: int, b: int| 0 <= a < b < r.len() implies #[trigger] key_newer(r[a], r[b]) by {
        if b < i {
            assert(key_newer(ks[a], ks[b]));
        } else if b == i {
            assert(r[b] == k);
        } else if a < i {
            assert(key_newer(ks[a], ks[b - 1]));
        } else if a == i {
            assert(r[a] == k);
            if b - 1 > i {
                assert(key_newer(ks[i], ks[b - 1]));
                lemma_key_newer_transitive(k, ks[i], ks[b - 1]);
            }
        } else {
            assert(key_newer(ks[a - 1], ks[b - 1]));
        }
    }
}

/// Order between neighbours gives order between every pair.
pub proof fn lemma_neighbours_newest_first(ks: Seq<RowKey>)
    requires
        forall|i: int| 0 <= i < ks.len() - 1 ==> #[trigger] key_newer(ks[i], ks[i + 1]),
    ensures
        newest_first(ks),
{
    assert forall|i: int, j: int| 0 <= i < j < ks.len() implies #[trigger] key_newer(ks[i], ks[j]) by {
        lemma_chain(ks, i, j);
    }
}

proof fn lemma_chain(ks: Seq<RowKey>, i: int, j: int)
    requires
        forall|a: int| 0 <= a < ks.len() - 1 ==> #[trigger] key_newer(ks[a], ks[a + 1]),
        0 <= i < j < ks.len(),
    ensures
        key_newer(ks[i], ks[j]),
    decreases j - i,
{
    if j > i + 1 {
        lemma_chain(ks, i, j - 1);
        let a = j - 1;
        assert(key_newer(ks[a], ks[a + 1]));
        assert(ks[a + 1] == ks[j]);
        lemma_key_newer_transitive(ks[i], ks[j - 1], ks[j]);
    } else {
        assert(key_newer(ks[i], ks[i + 1]));
    }
}

pub proof fn lemma_remove_keeps_order(ks: Seq<RowKey>, i: int)
    requires
        newest_first(ks),
        0 <= i < ks.len(),
    ensures
        newest_first(ks.remove(i)),
{
    let r = ks.remove(i);
    assert forall|a: int, b: int| 0 <= a < b < r.len() implies #[trigger] key_newer(r[a], r[b]) by {
        let a2 = if a < i { a } else { a + 1 };
        let b2 = if b < i { b } else { b + 1 };
        assert(r[a] == ks[a2] && r[b] == ks[b2]);
        assert(key_newer(ks[a2], ks[b2]));
    }
}

} // verus!
