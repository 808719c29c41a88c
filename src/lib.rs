//! Persistence layer of a code-review assistant: an embedded store holding
//! code standards, the user's configuration and a log of past review runs.
pub mod error;
pub mod laws;
pub mod store_view;
pub mod models;
pub mod order;
pub mod stamp;
pub mod state;

pub use error::StoreError;
pub use models::{CodeStandard, ReviewHistory, UserConfig};
pub use state::AppState;
pub use state::code_standards::{
    delete_code_standard, get_code_standard_by_id, get_code_standards, save_code_standard, update_code_standard,
};
pub use state::review_history::{get_review_history, save_review_history};
pub use state::schema::init_database;
pub use state::user_config::{get_user_config, save_user_config};
