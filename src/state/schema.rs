//! Creating the store's tables.
use vstd::prelude::*;
use crate::error::StoreError;
use crate::store_view::after_init;
use super::AppState;

verus! {

/// Creates the three tables where absent. Rows already stored stay as they
/// are, so calling it again changes nothing.
pub fn init_database(state: &mut AppState) -> (r: Result<String, StoreError>)
    requires
        old(state).wf(),
    ensures
        final(state).wf(),
        final(state)@ == after_init(old(state)@),
        r matches Ok(m) && m@ == "Database initialized successfully"@,
{
    state.ready = true;
    Ok(String::from_str("Database initialized successfully"))
}

} // verus!
