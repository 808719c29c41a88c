//! The single row of user configuration.
use vstd::prelude::*;
use crate::error::StoreError;
use crate::store_view::{after_save_config, can_save_config, current_config, filled, stored_config};
use crate::models::UserConfig;
use super::{AppState, configs_view};

verus! {

fn text_or_empty_string(o: Option<String>) -> (r: Option<String>)
    ensures
        crate::models::opt_text(r) == filled(crate::models::opt_text(o)),
{
    match o {
        Some(s) => Some(s),
        None => Some(String::new()),
    }
}

/// Replaces the configuration: the old row goes and one new row, with absent
/// texts stored as empty, takes its place.
pub fn save_user_config(state: &mut AppState, config: UserConfig) -> (r: Result<(), StoreError>)
    requires
        old(state).wf(),
    ensures
        final(state).wf(),
        can_save_config(old(state)@) ==> r is Ok && final(state)@ == after_save_config(old(state)@, config@),
        !can_save_config(old(state)@) ==> (r matches Err(StoreError::Query(_))) && final(state)@ == old(state)@,
{
    if !state.ready {
        return Err(StoreError::Query(String::from_str("no such table: user_config")));
    }
    if state.last_config_id == i64::MAX {
        return Err(StoreError::Query(String::from_str("database or disk is full")));
    }
    let ghost s0 = state@;
    let ghost c = config@;
    let id = state.last_config_id + 1;
    let row = UserConfig {
        id: Some(id),
        github_username: text_or_empty_string(config.github_username),
        github_token: text_or_empty_string(config.github_token),
        ollama_url: config.ollama_url,
        selected_model: text_or_empty_string(config.selected_model),
    };
    assert(row@ == stored_config(c, id));
    let mut rows: Vec<UserConfig> = Vec::new();
    rows.push(row);
    state.configs = rows;
    state.last_config_id = id;
    assert(configs_view(state.configs@) =~= seq![stored_config(c, id)]);
    Ok(())
}

/// The configuration row, or `None` when nothing has been saved.
pub fn get_user_config(state: &AppState) -> (r: Result<Option<UserConfig>, StoreError>)
    requires
        state.wf(),
    ensures
        state@.ready ==> match r {
            Ok(Some(c)) => current_config(state@) == Some(c@),
            Ok(None) => current_config(state@) is None,
            Err(_) => false,
        },
        !state@.ready ==> (r matches Err(StoreError::Query(_))),
{
    if !state.ready {
        return Err(StoreError::Query(String::from_str("no such table: user_config")));
    }
    if state.configs.len() > 0 {
        assert(state@.configs[0] == state.configs@[0]@);
        Ok(Some(state.configs[0].copy_exact()))
    } else {
        Ok(None)
    }
}

} // verus!
