//! Credential extraction, inventory download decisions and `lastData.dat`
//! encryption for the Warframe API helper.

pub mod text;
pub mod json;
pub mod types;
pub mod pattern;
pub mod memory;
pub mod crypto;
pub mod config;
pub mod storage;
pub mod api;
pub mod download_workflow;
pub mod nonce_path;
pub mod ee_log;
pub mod output;
pub mod process;
pub mod search_workflow;
