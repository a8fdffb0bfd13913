//! The runner's configuration: logging sink toggles, levels and endpoints,
//! and the machine name that heads the report. Read once at startup and
//! never changed.

use vstd::prelude::*;

verus! {

/// How log records are laid out on the network sink.
pub enum NetworkFormat {
    PlainText,
    JsonText { field: String },
}

/// The flat configuration record the runner starts from.
pub struct Config {
    pub terminal_logs: bool,
    pub terminal_log_lvl: String,
    pub wasm_logging: bool,
    pub file_logs: bool,
    pub file_log_lvl: String,
    pub log_file_path: String,
    pub network_logs: bool,
    pub network_log_lvl: String,
    pub network_endpoint_url: String,
    pub network_format: NetworkFormat,
    pub debug_extra: bool,
    pub async_logging: bool,
    pub machine_name: String,
}

} // verus!
