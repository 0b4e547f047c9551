//! State and policy behind a desktop code editor's file browser: directory
//! listing decisions, a bounded and filtered diagnostic log, and the settings
//! record with its load and save rules.

pub mod commands;
pub mod dir_list;
pub mod log_laws;
pub mod log_store;
pub mod settings;
pub mod settings_laws;
pub mod terminal;
pub mod text;
