pub mod text;
pub mod config_loader;
pub mod models;
pub mod config;
pub mod cli_args;
pub mod playwright;
pub mod checkin;
pub mod log;
pub mod notify;
pub mod crypto;
pub mod core_crypto;
pub mod cookie;
pub mod json;
pub mod waf;
pub mod balance;
pub mod env_import;
pub mod storage;
pub mod run;
pub mod app_state;
pub mod gui_state;
pub mod service;
pub mod forms;
pub mod text_input;
