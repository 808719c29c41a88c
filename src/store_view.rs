//! The store as a mathematical value, and what each operation does to it.
use vstd::prelude::*;
use crate::models::{CodeStandardView, ReviewHistoryView, UserConfigView};
use crate::order::{RowKey, insert_index, newest_first, lemma_insert_index_bounds, lemma_insert_keeps_order};

verus! {

/// The three tables, whether they have been created, and the last id each
/// table has handed out.
pub struct StoreView {
    pub ready: bool,
    pub standards: Seq<CodeStandardView>,
    pub last_standard_id: i64,
    pub configs: Seq<UserConfigView>,
    pub last_config_id: i64,
    pub history: Seq<ReviewHistoryView>,
    pub last_history_id: i64,
}

pub open spec fn text_or_empty(o: Option<Seq<char>>) -> Seq<char> {
    match o {
        Some(s) => s,
        None => Seq::empty(),
    }
}

pub open spec fn standard_id(r: CodeStandardView) -> i64 {
    match r.id {
        Some(i) => i,
        None => 0,
    }
}

pub open spec fn standard_key(r: CodeStandardView) -> RowKey {
    (text_or_empty(r.created_at), standard_id(r))
}

pub open spec fn standard_keys(t: Seq<CodeStandardView>) -> Seq<RowKey> {
    t.map_values(|r: CodeStandardView| standard_key(r))
}

pub open spec fn history_key(r: ReviewHistoryView) -> RowKey {
    (r.reviewed_at, r.id)
}

pub open spec fn history_keys(t: Seq<ReviewHistoryView>) -> Seq<RowKey> {
    t.map_values(|r: ReviewHistoryView| history_key(r))
}

impl StoreView {
    /// Store-assigned fields are present, ids are unique and below the
    /// table's counter, rows are newest first, and at most one configuration
    /// row exists.
    pub open spec fn wf(self) -> bool {
        &&& 0 <= self.last_standard_id
        &&& 0 <= self.last_config_id
        &&& 0 <= self.last_history_id
        &&& forall|i: int|
            0 <= i < self.standards.len() ==> {
                let r = #[trigger] self.standards[i];
                &&& r.id is Some
                &&& 1 <= standard_id(r) <= self.last_standard_id
                &&& r.created_at is Some
            }
        &&& forall|i: int, j: int|
            0 <= i < self.standards.len() && 0 <= j < self.standards.len() && i != j
                ==> #[trigger] standard_id(self.standards[i]) != #[trigger] standard_id(
                self.standards[j],
            )
        &&& newest_first(standard_keys(self.standards))
        &&& self.configs.len() <= 1
        &&& forall|i: int|
            0 <= i < self.history.len() ==> 1 <= (#[trigger] self.history[i]).id
                <= self.last_history_id
        &&& forall|i: int, j: int|
            0 <= i < self.history.len() && 0 <= j < self.history.len() && i != j
                ==> (#[trigger] self.history[i]).id != (#[trigger] self.history[j]).id
        &&& newest_first(history_keys(self.history))
    }
}

/// A store with no tables yet.
pub open spec fn empty_store() -> StoreView {
    StoreView {
        ready: false,
        standards: Seq::empty(),
        last_standard_id: 0,
        configs: Seq::empty(),
        last_config_id: 0,
        history: Seq::empty(),
        last_history_id: 0,
    }
}

/// A store made ready from rows read back, with the given id counters.
pub open spec fn restored(
    standards: Seq<CodeStandardView>,
    last_standard_id: i64,
    configs: Seq<UserConfigView>,
    last_config_id: i64,
    history: Seq<ReviewHistoryView>,
    last_history_id: i64,
) -> StoreView {
    StoreView { ready: true, standards, last_standard_id, configs, last_config_id, history, last_history_id }
}

/// Creating the tables when absent leaves every row as it was.
pub open spec fn after_init(s: StoreView) -> StoreView {
    StoreView { ready: true, ..s }
}

// ---- code standards ----

/// The store can take one more standard.
pub open spec fn can_create_standard(s: StoreView) -> bool {
    s.ready && s.last_standard_id < i64::MAX
}

/// The row that `create` stores: the caller's five fields, the next id, and
/// the store's time.
pub open spec fn stored_standard(input: CodeStandardView, id: i64, now: Seq<char>) -> CodeStandardView {
    CodeStandardView { id: Some(id), created_at: Some(now), ..input }
}

pub open spec fn insert_standard(t: Seq<CodeStandardView>, row: CodeStandardView) -> Seq<CodeStandardView> {
    t.insert(insert_index(standard_keys(t), standard_key(row)), row)
}

pub open spec fn after_create_standard(s: StoreView, input: CodeStandardView, now: Seq<char>) -> StoreView {
    let id = (s.last_standard_id + 1) as i64;
    StoreView {
        standards: insert_standard(s.standards, stored_standard(input, id, now)),
        last_standard_id: id,
        ..s
    }
}

/// Creating a standard keeps the store well formed; the new row takes an id
/// no other row has.
pub proof fn lemma_create_standard_wf(s: StoreView, input: CodeStandardView, now: Seq<char>)
    requires
        s.wf(),
        can_create_standard(s),
    ensures
        after_create_standard(s, input, now).wf(),
{
    let id = (s.last_standard_id + 1) as i64;
    let row = stored_standard(input, id, now);
    let ks = standard_keys(s.standards);
    let k = standard_key(row);
    let i = insert_index(ks, k);
    let t = insert_standard(s.standards, row);
    lemma_insert_index_bounds(ks, k);
    assert forall|j: int| 0 <= j < ks.len() implies (#[trigger] ks[j]).1 != k.1 by {
        assert(ks[j] == standard_key(s.standards[j]));
    }
    lemma_insert_keeps_order(ks, k, i);
    assert(standard_keys(t) =~= ks.insert(i, k));
    assert forall|a: int, b: int|
        0 <= a < t.len() && 0 <= b < t.len() && a != b
        implies #[trigger] standard_id(t[a]) != #[trigger] standard_id(t[b]) by {
        if a != i && b != i {
            let a2 = if a < i { a } else { a - 1 };
            let b2 = if b < i { b } else { b - 1 };
            assert(standard_id(s.standards[a2]) != standard_id(s.standards[b2]));
        } else if a != i {
            let a2 = if a < i { a } else { a - 1 };
            assert(standard_id(s.standards[a2]) <= s.last_standard_id);
        } else {
            let b2 = if b < i { b } else { b - 1 };
            assert(standard_id(s.standards[b2]) <= s.last_standard_id);
        }
    }
    assert forall|a: int| 0 <= a < t.len() implies {
        let r = #[trigger] t[a];
        &&& r.id is Some
        &&& 1 <= standard_id(r) <= id
        &&& r.created_at is Some
    } by {
        if a != i {
            let a2 = if a < i { a } else { a - 1 };
            assert(t[a] == s.standards[a2]);
        }
    }
}

pub open spec fn has_standard(t: Seq<CodeStandardView>, id: i64) -> bool {
    exists|k: int| 0 <= k < t.len() && #[trigger] t[k].id == Some(id)
}

pub open spec fn standard_index(t: Seq<CodeStandardView>, id: i64) -> int {
    choose|k: int| 0 <= k < t.len() && #[trigger] t[k].id == Some(id)
}

/// The row with the given id, if any.
pub open spec fn find_standard(t: Seq<CodeStandardView>, id: i64) -> Option<CodeStandardView> {
    if has_standard(t, id) {
        Some(t[standard_index(t, id)])
    } else {
        None
    }
}

/// A row with its five caller-supplied fields replaced; id and time kept.
pub open spec fn replaced_standard(old_row: CodeStandardView, input: CodeStandardView) -> CodeStandardView {
    CodeStandardView { id: old_row.id, created_at: old_row.created_at, ..input }
}

pub open spec fn after_update_standard(s: StoreView, id: i64, input: CodeStandardView) -> StoreView {
    if has_standard(s.standards, id) {
        let k = standard_index(s.standards, id);
        StoreView { standards: s.standards.update(k, replaced_standard(s.standards[k], input)), ..s }
    } else {
        s
    }
}

pub open spec fn after_delete_standard(s: StoreView, id: i64) -> StoreView {
    if has_standard(s.standards, id) {
        StoreView { standards: s.standards.remove(standard_index(s.standards, id)), ..s }
    } else {
        s
    }
}

// ---- user configuration ----

pub open spec fn filled(o: Option<Seq<char>>) -> Option<Seq<char>> {
    Some(text_or_empty(o))
}

/// The row that `save` stores: absent texts become empty, the URL is kept.
pub open spec fn stored_config(c: UserConfigView, id: i64) -> UserConfigView {
    UserConfigView {
        id: Some(id),
        github_username: filled(c.github_username),
        github_token: filled(c.github_token),
        ollama_url: c.ollama_url,
        selected_model: filled(c.selected_model),
    }
}

pub open spec fn can_save_config(s: StoreView) -> bool {
    s.ready && s.last_config_id < i64::MAX
}

pub open spec fn after_save_config(s: StoreView, c: UserConfigView) -> StoreView {
    let id = (s.last_config_id + 1) as i64;
    StoreView { configs: seq![stored_config(c, id)], last_config_id: id, ..s }
}

/// The single configuration row, if there is one.
pub open spec fn current_config(s: StoreView) -> Option<UserConfigView> {
    if s.configs.len() > 0 {
        Some(s.configs[0])
    } else {
        None
    }
}

// ---- review history ----

pub open spec fn can_record(s: StoreView) -> bool {
    s.ready && s.last_history_id < i64::MAX
}

pub open spec fn insert_history(t: Seq<ReviewHistoryView>, row: ReviewHistoryView) -> Seq<ReviewHistoryView> {
    t.insert(insert_index(history_keys(t), history_key(row)), row)
}

pub open spec fn recorded_row(
    file_path: Seq<char>,
    framework: Seq<char>,
    language: Seq<char>,
    review_result: Seq<char>,
    issues_found: i32,
    id: i64,
    now: Seq<char>,
) -> ReviewHistoryView {
    ReviewHistoryView { id, file_path, framework, language, review_result, issues_found, reviewed_at: now }
}

pub open spec fn after_record(
    s: StoreView,
    file_path: Seq<char>,
    framework: Seq<char>,
    language: Seq<char>,
    review_result: Seq<char>,
    issues_found: i32,
    now: Seq<char>,
) -> StoreView {
    let id = (s.last_history_id + 1) as i64;
    StoreView {
        history: insert_history(
            s.history,
            recorded_row(file_path, framework, language, review_result, issues_found, id, now),
        ),
        last_history_id: id,
        ..s
    }
}

/// The first `limit` rows; none when `limit` is not positive.
pub open spec fn most_recent<A>(t: Seq<A>, limit: i32) -> Seq<A> {
    if limit <= 0 {
        Seq::empty()
    } else if limit >= t.len() {
        t
    } else {
        t.subrange(0, limit as int)
    }
}

} // verus!
