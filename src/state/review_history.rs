//! The append-only log of review runs.
use vstd::prelude::*;
use crate::error::StoreError;
use crate::store_view::{after_record, can_record, history_key, history_keys, most_recent, recorded_row};
use crate::models::ReviewHistory;
use crate::order::{key_newer, lemma_insert_index_at, lemma_insert_keeps_order};
use crate::stamp::text_less;
use super::{AppState, history_view};

verus! {

/// Whether row `a` comes before row `b` in the log's newest-first order.
fn history_newer(a: &ReviewHistory, b: &ReviewHistory) -> (r: bool)
    ensures
        r == key_newer(history_key(a@), history_key(b@)),
{
    text_less(&b.reviewed_at, &a.reviewed_at) || (!text_less(&a.reviewed_at, &b.reviewed_at) && a.id > b.id)
}

/// Logs one review run at time `now` and returns the id the store gave it.
pub fn save_review_history(
    state: &mut AppState,
    file_path: String,
    framework: String,
    language: String,
    review_result: String,
    issues_found: i32,
    now: String,
) -> (r: Result<i64, StoreError>)
    requires
        old(state).wf(),
    ensures
        final(state).wf(),
        can_record(old(state)@) ==> r == Ok::<i64, StoreError>((old(state)@.last_history_id + 1) as i64)
            && final(state)@ == after_record(
            old(state)@,
            file_path@,
            framework@,
            language@,
            review_result@,
            issues_found,
            now@,
        ),
        !can_record(old(state)@) ==> (r matches Err(StoreError::Query(_))) && final(state)@ == old(state)@,
{
    if !state.ready {
        return Err(StoreError::Query(String::from_str("no such table: review_history")));
    }
    if state.last_history_id == i64::MAX {
        return Err(StoreError::Query(String::from_str("database or disk is full")));
    }
    let ghost s0 = state@;
    let id = state.last_history_id + 1;
    let ghost rv = recorded_row(file_path@, framework@, language@, review_result@, issues_found, id, now@);
    let row = ReviewHistory { id, file_path, framework, language, review_result, issues_found, reviewed_at: now };
    assert(row@ == rv);
    let ghost ks = history_keys(s0.history);
    let ghost k = history_key(row@);
    let mut i: usize = 0;
    loop
        invariant
            state@ == s0,
            s0.history == history_view(state.history@),
            ks == history_keys(s0.history),
            k == history_key(row@),
            i <= ks.len(),
            forall|j: int| 0 <= j < i ==> #[trigger] key_newer(ks[j], k),
        ensures
            i <= ks.len(),
            forall|j: int| 0 <= j < i ==> #[trigger] key_newer(ks[j], k),
            i == ks.len() || !key_newer(ks[i as int], k),
        decreases ks.len() - i,
    {
        if i == state.history.len() {
            break;
        }
        assert(s0.history[i as int] == state.history@[i as int]@);
        assert(ks[i as int] == history_key(state.history@[i as int]@));
        if !history_newer(&state.history[i], &row) {
            break;
        }
        i = i + 1;
    }
    proof {
        assert forall|j: int| 0 <= j < ks.len() implies (#[trigger] ks[j]).1 != k.1 by {
            assert(ks[j] == history_key(s0.history[j]));
        }
        lemma_insert_index_at(ks, k, i as int);
        lemma_insert_keeps_order(ks, k, i as int);
    }
    state.history.insert(i, row);
    state.last_history_id = id;
    proof {
        let t = s0.history.insert(i as int, rv);
        assert(history_view(state.history@) =~= t);
        assert(history_keys(t) =~= ks.insert(i as int, k));
        assert forall|a: int, b: int|
            0 <= a < t.len() && 0 <= b < t.len() && a != b
            implies (#[trigger] t[a]).id != (#[trigger] t[b]).id by {
            if a != i && b != i {
                let a2 = if a < i { a } else { a - 1 };
                let b2 = if b < i { b } else { b - 1 };
                assert(s0.history[a2].id != s0.history[b2].id);
            } else if a != i {
                let a2 = if a < i { a } else { a - 1 };
                assert(s0.history[a2].id <= s0.last_history_id);
            } else {
                let b2 = if b < i { b } else { b - 1 };
                assert(s0.history[b2].id <= s0.last_history_id);
            }
        }
        assert forall|a: int| 0 <= a < t.len() implies 1 <= (#[trigger] t[a]).id <= id by {
            if a != i {
                let a2 = if a < i { a } else { a - 1 };
                assert(t[a] == s0.history[a2]);
            }
        }
    }
    Ok(id)
}

/// The `limit` most recent runs, newest first; none when `limit` is not
/// positive.
pub fn get_review_history(state: &AppState, limit: i32) -> (r: Result<Vec<ReviewHistory>, StoreError>)
    requires
        state.wf(),
    ensures
        state@.ready ==> (r matches Ok(v) && history_view(v@) == most_recent(state@.history, limit)),
        !state@.ready ==> (r matches Err(StoreError::Query(_))),
{
    if !state.ready {
        return Err(StoreError::Query(String::from_str("no such table: review_history")));
    }
    let ghost t = state@.history;
    let n: usize = if limit <= 0 {
        0
    } else if limit as usize >= state.history.len() {
        state.history.len()
    } else {
        limit as usize
    };
    let mut out: Vec<ReviewHistory> = Vec::new();
    let mut i: usize = 0;
    while i < n
        invariant
            t == history_view(state.history@),
            n <= t.len(),
            i <= n,
            history_view(out@) =~= t.subrange(0, i as int),
        decreases n - i,
    {
        let row = state.history[i].copy_exact();
        let ghost before = out@;
        assert(t[i as int] == row@);
        out.push(row);
        proof {
            assert(history_view(out@) =~= history_view(before).push(t[i as int]));
            assert(history_view(out@) =~= t.subrange(0, i + 1));
        }
        i = i + 1;
    }
    assert(t.subrange(0, t.len() as int) =~= t);
    assert(Seq::<crate::models::ReviewHistoryView>::empty() =~= t.subrange(0, 0));
    Ok(out)
}

} // verus!
