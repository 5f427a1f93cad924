//! Verified core of the Netease music API service.

pub mod runtime_config;
pub mod manifest;
pub mod text;
pub mod http_error;
pub mod retry;
pub mod error;
pub mod job;
pub mod ranged;
pub mod lyrics;
pub mod srt;
pub mod filename;
pub mod event;
pub mod redact;
pub mod disk_guard;
pub mod crypto;
pub mod token;
pub mod netease;
pub mod zip_names;
pub mod stats;
pub mod config;
pub mod paths;
pub mod transfer;
pub mod cover_cache;
pub mod in_flight;
pub mod rate_limit;
pub mod scan;
pub mod catalog;
pub mod tasks;
pub mod tags;
pub mod api_client;
pub mod shared_map;
