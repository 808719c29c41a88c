//! The store itself: the tables and their id counters, owned by one value.
//! Whoever holds it mutably is the only writer; sharing it between callers
//! goes through one lock around the whole value.
use vstd::prelude::*;
use crate::models::{CodeStandardView, ReviewHistoryView, UserConfigView};
use crate::store_view::{StoreView, empty_store};
use crate::models::{CodeStandard, ReviewHistory, UserConfig};

pub mod code_standards;
pub mod restore;
pub mod review_history;
pub mod schema;
pub mod user_config;

verus! {

pub open spec fn standards_view(v: Seq<CodeStandard>) -> Seq<CodeStandardView> {
    v.map_values(|r: CodeStandard| r@)
}

pub open spec fn configs_view(v: Seq<UserConfig>) -> Seq<UserConfigView> {
    v.map_values(|r: UserConfig| r@)
}

pub open spec fn history_view(v: Seq<ReviewHistory>) -> Seq<ReviewHistoryView> {
    v.map_values(|r: ReviewHistory| r@)
}

pub struct AppState {
    ready: bool,
    standards: Vec<CodeStandard>,
    last_standard_id: i64,
    configs: Vec<UserConfig>,
    last_config_id: i64,
    history: Vec<ReviewHistory>,
    last_history_id: i64,
}

impl View for AppState {
    type V = StoreView;

    closed spec fn view(&self) -> StoreView {
        StoreView {
            ready: self.ready,
            standards: standards_view(self.standards@),
            last_standard_id: self.last_standard_id,
            configs: configs_view(self.configs@),
            last_config_id: self.last_config_id,
            history: history_view(self.history@),
            last_history_id: self.last_history_id,
        }
    }
}

impl AppState {
    pub open spec fn wf(&self) -> bool {
        self@.wf()
    }

    /// An empty store whose tables are not created yet.
    pub fn new() -> (r: AppState)
        ensures
            r@ == empty_store(),
            r.wf(),
    {
        let r = AppState {
            ready: false,
            standards: Vec::new(),
            last_standard_id: 0,
            configs: Vec::new(),
            last_config_id: 0,
            history: Vec::new(),
            last_history_id: 0,
        };
        assert(r@.standards =~= Seq::empty());
        assert(r@.configs =~= Seq::empty());
        assert(r@.history =~= Seq::empty());
        r
    }
}

} // verus!
