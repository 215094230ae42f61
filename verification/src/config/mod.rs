//! The configuration: its shape, its checks, and how it is edited and stored.

pub mod backend_setup;
pub mod desktop;
pub mod document;
pub mod document_laws;
pub mod editors;
pub mod llm_setup;
pub mod meaning;
pub mod permissions;
pub mod save_plan;
pub mod secrets;
pub mod session;
pub mod setup;
pub mod setup_laws;
pub mod step_laws;
pub mod store;
pub mod toml_text;
pub mod types;
pub mod unchanged;
pub mod unknown_keys;
pub mod validate;
pub mod validate_laws;
pub mod vocabulary;
