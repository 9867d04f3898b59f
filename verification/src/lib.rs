//! Verified core of the trackpad companion.
pub mod proto;
pub mod report;
pub mod scroll_policy;
pub mod text;
pub mod config;
pub mod gesture;
pub mod output;
pub mod boot;
pub mod http;
pub mod net;
pub mod ingest;
pub mod tui;
pub mod macos_preferences;
pub mod transport;
pub mod config_edit;
pub mod toml_doc;
