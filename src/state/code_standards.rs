//! Create, list, look up, replace and remove code standards.
use vstd::prelude::*;
use crate::error::StoreError;
use crate::store_view::{
    after_create_standard, after_delete_standard, after_update_standard, can_create_standard, find_standard,
    has_standard, lemma_create_standard_wf, replaced_standard, standard_id, standard_index, standard_key, standard_keys, stored_standard,
    text_or_empty,
};
use crate::models::{CodeStandard, clone_text};
use crate::order::{key_newer, lemma_insert_index_at, lemma_remove_keeps_order};
use crate::stamp::text_less;
use super::{AppState, standards_view};

verus! {

/// Whether row `a` comes before row `b` in the table's newest-first order.
fn standard_newer(a: &CodeStandard, b: &CodeStandard) -> (r: bool)
    ensures
        r == key_newer(standard_key(a@), standard_key(b@)),
{
    let ida: i64 = match a.id {
        Some(i) => i,
        None => 0,
    };
    let idb: i64 = match b.id {
        Some(i) => i,
        None => 0,
    };
    let empty = String::new();
    let ta = match &a.created_at {
        Some(t) => t,
        None => &empty,
    };
    let tb = match &b.created_at {
        Some(t) => t,
        None => &empty,
    };
    assert(ta@ == text_or_empty(a@.created_at));
    assert(tb@ == text_or_empty(b@.created_at));
    text_less(tb, ta) || (!text_less(ta, tb) && ida > idb)
}

/// Where the row with this id stands in the table, if it is there.
fn position_of(state: &AppState, id: i64) -> (r: Option<usize>)
    requires
        state.wf(),
    ensures
        match r {
            Some(k) => has_standard(state@.standards, id) && k as int == standard_index(state@.standards, id)
                && k < state@.standards.len(),
            None => !has_standard(state@.standards, id),
        },
{
    let ghost t = state@.standards;
    let mut i: usize = 0;
    while i < state.standards.len()
        invariant
            state.wf(),
            t == state@.standards,
            t == standards_view(state.standards@),
            i <= t.len(),
            forall|j: int| 0 <= j < i ==> t[j].id != Some(id),
        decreases t.len() - i,
    {
        assert(t[i as int] == state.standards@[i as int]@);
        if state.standards[i].id == Some(id) {
            proof {
                assert(t[i as int].id == Some(id));
                let k = standard_index(t, id);
                assert(t[k].id == Some(id));
                assert(standard_id(t[k]) == standard_id(t[i as int]));
            }
            return Some(i);
        }
        i = i + 1;
    }
    None
}

/// Stores a new standard and returns the id the store gave it. The caller's
/// id and timestamp are ignored: the row gets the next id and `now`.
pub fn save_code_standard(state: &mut AppState, standard: CodeStandard, now: String) -> (r: Result<i64, StoreError>)
    requires
        old(state).wf(),
    ensures
        final(state).wf(),
        can_create_standard(old(state)@) ==> r == Ok::<i64, StoreError>((old(state)@.last_standard_id + 1) as i64)
            && final(state)@ == after_create_standard(old(state)@, standard@, now@),
        !can_create_standard(old(state)@) ==> (r matches Err(StoreError::Query(_))) && final(state)@ == old(state)@,
{
    if !state.ready {
        return Err(StoreError::Query(String::from_str("no such table: code_standards")));
    }
    if state.last_standard_id == i64::MAX {
        return Err(StoreError::Query(String::from_str("database or disk is full")));
    }
    let ghost s0 = state@;
    let id = state.last_standard_id + 1;
    let row = CodeStandard {
        id: Some(id),
        name: standard.name,
        framework: standard.framework,
        language: standard.language,
        rules: standard.rules,
        best_practices: standard.best_practices,
        created_at: Some(now),
    };
    assert(row@ == stored_standard(standard@, id, now@));
    let ghost ks = standard_keys(s0.standards);
    let ghost k = standard_key(row@);
    let mut i: usize = 0;
    loop
        invariant
            state@ == s0,
            s0.standards == standards_view(state.standards@),
            ks == standard_keys(s0.standards),
            k == standard_key(row@),
            i <= ks.len(),
            forall|j: int| 0 <= j < i ==> #[trigger] key_newer(ks[j], k),
        ensures
            i <= ks.len(),
            forall|j: int| 0 <= j < i ==> #[trigger] key_newer(ks[j], k),
            i == ks.len() || !key_newer(ks[i as int], k),
        decreases ks.len() - i,
    {
        if i == state.standards.len() {
            break;
        }
        assert(s0.standards[i as int] == state.standards@[i as int]@);
        assert(ks[i as int] == standard_key(state.standards@[i as int]@));
        if !standard_newer(&state.standards[i], &row) {
            break;
        }
        i = i + 1;
    }
    proof {
        lemma_insert_index_at(ks, k, i as int);
    }
    state.standards.insert(i, row);
    state.last_standard_id = id;
    proof {
        assert(standards_view(state.standards@) =~= s0.standards.insert(i as int, row@));
        lemma_create_standard_wf(s0, standard@, now@);
    }
    Ok(id)
}

/// All standards, newest first: by timestamp descending, and among equal
/// timestamps the later-inserted first.
pub fn get_code_standards(state: &AppState) -> (r: Result<Vec<CodeStandard>, StoreError>)
    requires
        state.wf(),
    ensures
        state@.ready ==> (r matches Ok(v) && standards_view(v@) == state@.standards),
        !state@.ready ==> (r matches Err(StoreError::Query(_))),
{
    if !state.ready {
        return Err(StoreError::Query(String::from_str("no such table: code_standards")));
    }
    let ghost t = state@.standards;
    let mut out: Vec<CodeStandard> = Vec::new();
    let mut i: usize = 0;
    while i < state.standards.len()
        invariant
            t == standards_view(state.standards@),
            i <= t.len(),
            standards_view(out@) =~= t.subrange(0, i as int),
        decreases t.len() - i,
    {
        let row = state.standards[i].copy_exact();
        let ghost before = out@;
        assert(t[i as int] == row@);
        out.push(row);
        proof {
            assert(out@ == before.push(row));
            assert(standards_view(out@) =~= standards_view(before).push(t[i as int]));
            assert(standards_view(out@) =~= t.subrange(0, i + 1));
        }
        i = i + 1;
    }
    assert(t.subrange(0, t.len() as int) =~= t);
    Ok(out)
}

/// The standard with this id; `NotFound` when no row has it.
pub fn get_code_standard_by_id(state: &AppState, id: i64) -> (r: Result<CodeStandard, StoreError>)
    requires
        state.wf(),
    ensures
        state@.ready ==> match r {
            Ok(v) => find_standard(state@.standards, id) == Some(v@),
            Err(e) => e is NotFound && find_standard(state@.standards, id) is None,
        },
        !state@.ready ==> (r matches Err(StoreError::Query(_))),
{
    if !state.ready {
        return Err(StoreError::Query(String::from_str("no such table: code_standards")));
    }
    match position_of(state, id) {
        Some(k) => {
            assert(state@.standards[k as int] == state.standards@[k as int]@);
            Ok(state.standards[k].copy_exact())
        },
        None => Err(StoreError::NotFound),
    }
}

/// Replaces the five caller-supplied fields of the row with this id; its id
/// and timestamp stay. Succeeds, changing nothing, when no row has the id.
pub fn update_code_standard(state: &mut AppState, id: i64, standard: CodeStandard) -> (r: Result<(), StoreError>)
    requires
        old(state).wf(),
    ensures
        final(state).wf(),
        old(state)@.ready ==> r is Ok && final(state)@ == after_update_standard(old(state)@, id, standard@),
        !old(state)@.ready ==> (r matches Err(StoreError::Query(_))) && final(state)@ == old(state)@,
{
    if !state.ready {
        return Err(StoreError::Query(String::from_str("no such table: code_standards")));
    }
    let ghost s0 = state@;
    match position_of(state, id) {
        Some(k) => {
            assert(s0.standards[k as int] == state.standards@[k as int]@);
            let row = CodeStandard {
                id: state.standards[k].id,
                name: standard.name,
                framework: standard.framework,
                language: standard.language,
                rules: standard.rules,
                best_practices: standard.best_practices,
                created_at: clone_text(&state.standards[k].created_at),
            };
            assert(row@ == replaced_standard(s0.standards[k as int], standard@));
            state.standards.set(k, row);
            proof {
                let t = s0.standards.update(k as int, row@);
                assert(standards_view(state.standards@) =~= t);
                assert(standard_keys(t) =~= standard_keys(s0.standards));
                assert forall|a: int, b: int|
                    0 <= a < t.len() && 0 <= b < t.len() && a != b
                    implies #[trigger] standard_id(t[a]) != #[trigger] standard_id(t[b]) by {
                    assert(standard_id(s0.standards[a]) != standard_id(s0.standards[b]));
                }
                assert forall|a: int| 0 <= a < t.len() implies {
                    let r = #[trigger] t[a];
                    &&& r.id is Some
                    &&& 1 <= standard_id(r) <= s0.last_standard_id
                    &&& r.created_at is Some
                } by {
                    assert(standard_id(t[a]) == standard_id(s0.standards[a]));
                }
            }
        },
        None => {},
    }
    Ok(())
}

/// Removes the row with this id; succeeds, changing nothing, when there is none.
pub fn delete_code_standard(state: &mut AppState, id: i64) -> (r: Result<(), StoreError>)
    requires
        old(state).wf(),
    ensures
        final(state).wf(),
        old(state)@.ready ==> r is Ok && final(state)@ == after_delete_standard(old(state)@, id),
        !old(state)@.ready ==> (r matches Err(StoreError::Query(_))) && final(state)@ == old(state)@,
{
    if !state.ready {
        return Err(StoreError::Query(String::from_str("no such table: code_standards")));
    }
    let ghost s0 = state@;
    match position_of(state, id) {
        Some(k) => {
            state.standards.remove(k);
            proof {
                let t = s0.standards.remove(k as int);
                assert(standards_view(state.standards@) =~= t);
                assert(standard_keys(t) =~= standard_keys(s0.standards).remove(k as int));
                lemma_remove_keeps_order(standard_keys(s0.standards), k as int);
                assert forall|a: int, b: int|
                    0 <= a < t.len() && 0 <= b < t.len() && a != b
                    implies #[trigger] standard_id(t[a]) != #[trigger] standard_id(t[b]) by {
                    let a2 = if a < k { a } else { a + 1 };
                    let b2 = if b < k { b } else { b + 1 };
                    assert(standard_id(s0.standards[a2]) != standard_id(s0.standards[b2]));
                }
                assert forall|a: int| 0 <= a < t.len() implies {
                    let r = #[trigger] t[a];
                    &&& r.id is Some
                    &&& 1 <= standard_id(r) <= s0.last_standard_id
                    &&& r.created_at is Some
                } by {
                    let a2 = if a < k { a } else { a + 1 };
                    assert(t[a] == s0.standards[a2]);
                }
            }
        },
        None => {},
    }
    Ok(())
}

} // verus!
