//! Laws that hold across calls of the store's operations, stated over the
//! model that the operations' contracts speak of.
use vstd::prelude::*;
use crate::store_view::{
    StoreView, after_create_standard, after_delete_standard, after_init, after_record, after_save_config,
    can_create_standard, can_record, current_config, find_standard, has_standard, history_key, history_keys,
    lemma_create_standard_wf, most_recent, recorded_row, standard_id, standard_index, standard_key,
    standard_keys, stored_config, stored_standard, text_or_empty,
};
use crate::models::{CodeStandardView, UserConfigView};
use crate::order::{insert_index, key_newer, lemma_insert_index_bounds};
use crate::stamp::{lemma_text_lt_order, text_lt};

verus! {

/// Creating the tables a second time changes nothing, and creating them
/// never touches a stored row.
pub proof fn lemma_init_idempotent(s: StoreView)
    requires
        s.wf(),
    ensures
        after_init(s).wf(),
        after_init(after_init(s)) == after_init(s),
        after_init(s).standards == s.standards,
        after_init(s).configs == s.configs,
        after_init(s).history == s.history,
{
}

/// The store after saving each configuration of `cs` in turn.
pub open spec fn save_configs(s: StoreView, cs: Seq<UserConfigView>) -> StoreView
    decreases cs.len(),
{
    if cs.len() == 0 {
        s
    } else {
        after_save_config(save_configs(s, cs.drop_last()), cs.last())
    }
}

/// After any number of saves the store holds exactly one configuration row,
/// and it is the last one saved (absent texts stored as empty).
pub proof fn lemma_config_singleton(s: StoreView, cs: Seq<UserConfigView>)
    requires
        s.wf(),
        s.ready,
        cs.len() > 0,
        s.last_config_id + cs.len() <= i64::MAX,
    ensures
        save_configs(s, cs).wf(),
        save_configs(s, cs).ready,
        save_configs(s, cs).last_config_id == s.last_config_id + cs.len(),
        save_configs(s, cs).configs.len() == 1,
        current_config(save_configs(s, cs)) == Some(
            stored_config(cs.last(), (s.last_config_id + cs.len()) as i64),
        ),
    decreases cs.len(),
{
    if cs.len() > 1 {
        lemma_config_singleton(s, cs.drop_last());
    } else {
        assert(cs.drop_last().len() == 0);
        assert(save_configs(s, cs.drop_last()) == s);
    }
}

/// A created standard is found again under the id it was given, holding the
/// caller's five fields, that id, and the store's time.
pub proof fn lemma_create_then_get(s: StoreView, input: CodeStandardView, now: Seq<char>)
    requires
        s.wf(),
        can_create_standard(s),
    ensures
        ({
            let id = (s.last_standard_id + 1) as i64;
            let found = find_standard(after_create_standard(s, input, now).standards, id);
            &&& found == Some(stored_standard(input, id, now))
            &&& found->Some_0.name == input.name
            &&& found->Some_0.framework == input.framework
            &&& found->Some_0.language == input.language
            &&& found->Some_0.rules == input.rules
            &&& found->Some_0.best_practices == input.best_practices
            &&& found->Some_0.id == Some(id)
            &&& found->Some_0.created_at == Some(now)
        }),
{
    let id = (s.last_standard_id + 1) as i64;
    let row = stored_standard(input, id, now);
    let s2 = after_create_standard(s, input, now);
    let t = s2.standards;
    let i = insert_index(standard_keys(s.standards), standard_key(row));
    lemma_insert_index_bounds(standard_keys(s.standards), standard_key(row));
    lemma_create_standard_wf(s, input, now);
    assert(t[i] == row);
    assert(t[i].id == Some(id));
    let k = standard_index(t, id);
    assert(t[k].id == Some(id));
    assert(standard_id(t[k]) == standard_id(t[i]));
}

/// Rows are listed newest first: a row with a later timestamp comes before
/// every row with an earlier one.
pub proof fn lemma_list_newest_first(s: StoreView, i: int, j: int)
    requires
        s.wf(),
        0 <= i < s.standards.len(),
        0 <= j < s.standards.len(),
        text_lt(text_or_empty(s.standards[j].created_at), text_or_empty(s.standards[i].created_at)),
    ensures
        i < j,
{
    let ti = text_or_empty(s.standards[i].created_at);
    let tj = text_or_empty(s.standards[j].created_at);
    lemma_text_lt_order(ti, tj, ti);
    if j < i {
        assert(key_newer(standard_keys(s.standards)[j], standard_keys(s.standards)[i]));
    }
}

/// No row answers to an id that the store has never handed out.
pub proof fn lemma_unknown_id_not_found(s: StoreView, id: i64)
    requires
        s.wf(),
        id < 1 || id > s.last_standard_id,
    ensures
        find_standard(s.standards, id) is None,
{
    if has_standard(s.standards, id) {
        let k = standard_index(s.standards, id);
        assert(standard_id(s.standards[k]) == id);
    }
}

/// A run recorded at a time no earlier than any logged run comes first: the
/// `limit` most recent runs are then the new one followed by the `limit - 1`
/// most recent before it.
pub proof fn lemma_record_then_recent(
    s: StoreView,
    file_path: Seq<char>,
    framework: Seq<char>,
    language: Seq<char>,
    review_result: Seq<char>,
    issues_found: i32,
    now: Seq<char>,
    limit: i32,
)
    requires
        s.wf(),
        can_record(s),
        forall|j: int| 0 <= j < s.history.len() ==> !text_lt(now, (#[trigger] s.history[j]).reviewed_at),
        limit >= 1,
    ensures
        most_recent(after_record(s, file_path, framework, language, review_result, issues_found, now).history, limit)
            == seq![
            recorded_row(
                file_path,
                framework,
                language,
                review_result,
                issues_found,
                (s.last_history_id + 1) as i64,
                now,
            ),
        ] + most_recent(s.history, (limit - 1) as i32),
{
    let id = (s.last_history_id + 1) as i64;
    let row = recorded_row(file_path, framework, language, review_result, issues_found, id, now);
    let ks = history_keys(s.history);
    if s.history.len() > 0 {
        assert(ks[0] == history_key(s.history[0]));
        assert(!text_lt(now, s.history[0].reviewed_at));
        assert(!key_newer(ks[0], history_key(row)));
    }
    assert(insert_index(ks, history_key(row)) == 0);
    let t = after_record(s, file_path, framework, language, review_result, issues_found, now).history;
    assert(t == s.history.insert(0, row));
    if limit >= t.len() {
        assert(t =~= seq![row] + s.history);
    } else {
        assert(t.subrange(0, limit as int) =~= seq![row] + s.history.subrange(0, limit - 1));
        if limit == 1 {
            assert(s.history.subrange(0, 0) =~= Seq::empty());
        }
    }
}

/// After a delete no row answers to the deleted id; deleting an id that no
/// row has changes nothing.
pub proof fn lemma_delete_then_get(s: StoreView, id: i64)
    requires
        s.wf(),
    ensures
        find_standard(after_delete_standard(s, id).standards, id) is None,
        !has_standard(s.standards, id) ==> after_delete_standard(s, id) == s,
{
    if has_standard(s.standards, id) {
        let k = standard_index(s.standards, id);
        let t = s.standards.remove(k);
        if has_standard(t, id) {
            let m = standard_index(t, id);
            let m2 = if m < k { m } else { m + 1 };
            assert(t[m] == s.standards[m2]);
            assert(standard_id(s.standards[m2]) == standard_id(s.standards[k]));
        }
    }
}

/// Creating a standard leaves every row that was there findable as before.
pub proof fn lemma_create_keeps_rows(s: StoreView, input: CodeStandardView, now: Seq<char>, id: i64)
    requires
        s.wf(),
        can_create_standard(s),
        has_standard(s.standards, id),
    ensures
        find_standard(after_create_standard(s, input, now).standards, id) == find_standard(s.standards, id),
{
    let new_id = (s.last_standard_id + 1) as i64;
    let row = stored_standard(input, new_id, now);
    let i = insert_index(standard_keys(s.standards), standard_key(row));
    lemma_insert_index_bounds(standard_keys(s.standards), standard_key(row));
    lemma_create_standard_wf(s, input, now);
    let t = after_create_standard(s, input, now).standards;
    let k = standard_index(s.standards, id);
    let k2 = if k < i { k } else { k + 1 };
    assert(t[k2] == s.standards[k]);
    assert(t[k2].id == Some(id));
    let c = standard_index(t, id);
    assert(t[c].id == Some(id));
    assert(standard_id(t[c]) == standard_id(t[k2]));
}

/// The store after creating each standard of `reqs` in turn, each with its
/// own time.
pub open spec fn create_all(s: StoreView, reqs: Seq<(CodeStandardView, Seq<char>)>) -> StoreView
    decreases reqs.len(),
{
    if reqs.len() == 0 {
        s
    } else {
        after_create_standard(create_all(s, reqs.drop_last()), reqs.last().0, reqs.last().1)
    }
}

/// Creates that the lock lets through one at a time receive the ids
/// `last + 1, last + 2, ...`, all distinct; afterwards every created row is
/// found under its id, and every row that was there before is still found.
pub proof fn lemma_creates_all_present(s: StoreView, reqs: Seq<(CodeStandardView, Seq<char>)>, old_id: i64)
    requires
        s.wf(),
        s.ready,
        s.last_standard_id + reqs.len() <= i64::MAX,
    ensures
        create_all(s, reqs).wf(),
        create_all(s, reqs).ready,
        create_all(s, reqs).last_standard_id == s.last_standard_id + reqs.len(),
        forall|m: int|
            0 <= m < reqs.len() ==> find_standard(
                create_all(s, reqs).standards,
                (s.last_standard_id + 1 + m) as i64,
            ) == Some(stored_standard(#[trigger] reqs[m].0, (s.last_standard_id + 1 + m) as i64, reqs[m].1)),
        has_standard(s.standards, old_id) ==> find_standard(create_all(s, reqs).standards, old_id)
            == find_standard(s.standards, old_id),
    decreases reqs.len(),
{
    if reqs.len() > 0 {
        let front = reqs.drop_last();
        lemma_creates_all_present(s, front, old_id);
        let p = create_all(s, front);
        let last = reqs.last();
        lemma_create_standard_wf(p, last.0, last.1);
        lemma_create_then_get(p, last.0, last.1);
        if has_standard(s.standards, old_id) {
            lemma_create_keeps_rows(p, last.0, last.1, old_id);
        }
        assert forall|m: int| 0 <= m < reqs.len() implies find_standard(
            create_all(s, reqs).standards,
            (s.last_standard_id + 1 + m) as i64,
        ) == Some(stored_standard(#[trigger] reqs[m].0, (s.last_standard_id + 1 + m) as i64, reqs[m].1)) by {
            if m < reqs.len() - 1 {
                assert(reqs[m] == front[m]);
                let mid = (s.last_standard_id + 1 + m) as i64;
                assert(find_standard(p.standards, mid) is Some);
                lemma_create_keeps_rows(p, last.0, last.1, mid);
            }
        }
    } else {
        assert(create_all(s, reqs) == s);
    }
}

} // verus!
