//! Making a store from rows read back from durable storage, after checking
//! that they could have come from one.
use vstd::prelude::*;
use crate::error::StoreError;
use crate::store_view::{history_key, history_keys, restored, standard_id, standard_key, standard_keys};
use crate::models::{CodeStandard, ReviewHistory, UserConfig};
use crate::order::{RowKey, key_newer, lemma_neighbours_newest_first, newest_first};
use crate::stamp::text_less;
use super::{AppState, configs_view, history_view, standards_view};

verus! {

pub open spec fn keys_view(v: Seq<(String, i64)>) -> Seq<RowKey> {
    v.map_values(|p: (String, i64)| (p.0@, p.1))
}

/// Whether the keys are in newest-first order.
fn keys_newest_first(ks: &Vec<(String, i64)>) -> (r: bool)
    ensures
        r == newest_first(keys_view(ks@)),
{
    let ghost v = keys_view(ks@);
    let mut i: usize = 0;
    while ks.len() > 0 && i < ks.len() - 1
        invariant
            v == keys_view(ks@),
            v.len() == ks@.len(),
            i <= v.len() || v.len() == 0,
            forall|j: int| 0 <= j < i && j + 1 < v.len() ==> #[trigger] key_newer(v[j], v[j + 1]),
        decreases ks@.len() - i,
    {
        let a = &ks[i];
        let b = &ks[i + 1];
        assert(v[i as int] == (a.0@, a.1) && v[i + 1] == (b.0@, b.1));
        let newer = text_less(&b.0, &a.0) || (!text_less(&a.0, &b.0) && a.1 > b.1);
        if !newer {
            assert(!key_newer(v[i as int], v[i + 1]));
            return false;
        }
        i = i + 1;
    }
    proof {
        lemma_neighbours_newest_first(v);
    }
    true
}

/// Whether no id occurs twice.
fn ids_distinct(ids: &Vec<i64>) -> (r: bool)
    ensures
        r == (forall|i: int, j: int| 0 <= i < ids@.len() && 0 <= j < ids@.len() && i != j ==> ids@[i] != ids@[j]),
{
    let mut i: usize = 0;
    while i < ids.len()
        invariant
            i <= ids@.len(),
            forall|a: int, b: int| 0 <= a < i && 0 <= b < ids@.len() && a != b ==> ids@[a] != ids@[b],
        decreases ids@.len() - i,
    {
        let mut j: usize = 0;
        while j < ids.len()
            invariant
                i < ids@.len(),
                j <= ids@.len(),
                forall|a: int, b: int| 0 <= a < i && 0 <= b < ids@.len() && a != b ==> ids@[a] != ids@[b],
                forall|b: int| 0 <= b < j && b != i ==> ids@[i as int] != ids@[b],
            decreases ids@.len() - j,
        {
            if j != i && ids[i] == ids[j] {
                return false;
            }
            j = j + 1;
        }
        i = i + 1;
    }
    true
}

/// Whether the standards could form a store's table under the counter `last`.
fn standards_table_valid(t: &Vec<CodeStandard>, last: i64) -> (r: bool)
    ensures
        r == ({
            let s = restored(standards_view(t@), last, Seq::empty(), 0, Seq::empty(), 0);
            &&& forall|i: int|
                0 <= i < s.standards.len() ==> {
                    let r = #[trigger] s.standards[i];
                    &&& r.id is Some
                    &&& 1 <= standard_id(r) <= last
                    &&& r.created_at is Some
                }
            &&& forall|i: int, j: int|
                0 <= i < s.standards.len() && 0 <= j < s.standards.len() && i != j
                    ==> #[trigger] standard_id(s.standards[i]) != #[trigger] standard_id(s.standards[j])
            &&& newest_first(standard_keys(s.standards))
        }),
{
    let ghost v = standards_view(t@);
    let mut ids: Vec<i64> = Vec::new();
    let mut keys: Vec<(String, i64)> = Vec::new();
    let mut i: usize = 0;
    while i < t.len()
        invariant
            v == standards_view(t@),
            i <= v.len(),
            forall|j: int|
                0 <= j < i ==> {
                    let r = #[trigger] v[j];
                    &&& r.id is Some
                    &&& 1 <= standard_id(r) <= last
                    &&& r.created_at is Some
                },
            ids@.len() == i,
            forall|j: int| 0 <= j < i ==> ids@[j] == standard_id(#[trigger] v[j]),
            keys_view(keys@) =~= standard_keys(v).subrange(0, i as int),
        decreases v.len() - i,
    {
        let row = &t[i];
        assert(v[i as int] == row@);
        let id = match row.id {
            Some(id) => id,
            None => return false,
        };
        if id < 1 || id > last {
            return false;
        }
        let at = match &row.created_at {
            Some(at) => at.clone(),
            None => return false,
        };
        let ghost before = keys@;
        ids.push(id);
        keys.push((at, id));
        assert(keys_view(keys@) =~= keys_view(before).push(standard_key(v[i as int])));
        assert(keys_view(keys@) =~= standard_keys(v).subrange(0, i + 1));
        i = i + 1;
    }
    assert(keys_view(keys@) =~= standard_keys(v));
    let distinct = ids_distinct(&ids);
    proof {
        if distinct {
            assert forall|a: int, b: int| 0 <= a < v.len() && 0 <= b < v.len() && a != b
                implies #[trigger] standard_id(v[a]) != #[trigger] standard_id(v[b]) by {
                assert(ids@[a] != ids@[b]);
            }
        } else {
            let (a, b) = choose|a: int, b: int| 0 <= a < ids@.len() && 0 <= b < ids@.len() && a != b && ids@[a] == ids@[b];
            assert(standard_id(v[a]) == standard_id(v[b]));
        }
    }
    distinct && keys_newest_first(&keys)
}

/// Whether the runs could form a store's log under the counter `last`.
fn history_table_valid(t: &Vec<ReviewHistory>, last: i64) -> (r: bool)
    ensures
        r == ({
            let s = restored(Seq::empty(), 0, Seq::empty(), 0, history_view(t@), last);
            &&& forall|i: int| 0 <= i < s.history.len() ==> 1 <= (#[trigger] s.history[i]).id <= last
            &&& forall|i: int, j: int|
                0 <= i < s.history.len() && 0 <= j < s.history.len() && i != j
                    ==> (#[trigger] s.history[i]).id != (#[trigger] s.history[j]).id
            &&& newest_first(history_keys(s.history))
        }),
{
    let ghost v = history_view(t@);
    let mut ids: Vec<i64> = Vec::new();
    let mut keys: Vec<(String, i64)> = Vec::new();
    let mut i: usize = 0;
    while i < t.len()
        invariant
            v == history_view(t@),
            i <= v.len(),
            forall|j: int| 0 <= j < i ==> 1 <= (#[trigger] v[j]).id <= last,
            ids@.len() == i,
            forall|j: int| 0 <= j < i ==> ids@[j] == (#[trigger] v[j]).id,
            keys_view(keys@) =~= history_keys(v).subrange(0, i as int),
        decreases v.len() - i,
    {
        let row = &t[i];
        assert(v[i as int] == row@);
        if row.id < 1 || row.id > last {
            return false;
        }
        let ghost before = keys@;
        ids.push(row.id);
        keys.push((row.reviewed_at.clone(), row.id));
        assert(keys_view(keys@) =~= keys_view(before).push(history_key(v[i as int])));
        assert(keys_view(keys@) =~= history_keys(v).subrange(0, i + 1));
        i = i + 1;
    }
    assert(keys_view(keys@) =~= history_keys(v));
    let distinct = ids_distinct(&ids);
    proof {
        if distinct {
            assert forall|a: int, b: int| 0 <= a < v.len() && 0 <= b < v.len() && a != b
                implies (#[trigger] v[a]).id != (#[trigger] v[b]).id by {
                assert(ids@[a] != ids@[b]);
            }
        } else {
            let (a, b) = choose|a: int, b: int| 0 <= a < ids@.len() && 0 <= b < ids@.len() && a != b && ids@[a] == ids@[b];
            assert(v[a].id == v[b].id);
        }
    }
    distinct && keys_newest_first(&keys)
}

impl AppState {
    /// A ready store holding the given rows and id counters, provided they
    /// form a well-formed store; a `Query` error otherwise.
    pub fn restore(
        standards: Vec<CodeStandard>,
        last_standard_id: i64,
        configs: Vec<UserConfig>,
        last_config_id: i64,
        history: Vec<ReviewHistory>,
        last_history_id: i64,
    ) -> (r: Result<AppState, StoreError>)
        ensures
            ({
                let s = restored(
                    standards_view(standards@),
                    last_standard_id,
                    configs_view(configs@),
                    last_config_id,
                    history_view(history@),
                    last_history_id,
                );
                &&& r is Ok <==> s.wf()
                &&& r matches Ok(st) ==> st.wf() && st@ == s
                &&& r matches Err(e) ==> e is Query
            }),
    {
        if last_standard_id < 0 || last_config_id < 0 || last_history_id < 0 || configs.len() > 1 {
            return Err(StoreError::Query(String::from_str("stored rows do not form a valid store")));
        }
        if !standards_table_valid(&standards, last_standard_id) || !history_table_valid(&history, last_history_id) {
            return Err(StoreError::Query(String::from_str("stored rows do not form a valid store")));
        }
        Ok(AppState {
            ready: true,
            standards,
            last_standard_id,
            configs,
            last_config_id,
            history,
            last_history_id,
        })
    }
}

} // verus!
