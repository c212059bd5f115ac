//! The settings of the service, as read from its configuration file.

use vstd::prelude::*;

verus! {

/// Where the search index is and the key to it.
#[derive(Debug, Clone)]
pub struct MeiliSearch {
    pub host: String,
    pub apikey: String,
}

/// Where the chain node is.
#[derive(Debug, Clone)]
pub struct Chain {
    pub rpc_url: String,
}

/// Where the store is.
#[derive(Debug, Clone)]
pub struct Redis {
    pub url: String,
}

/// How to log, each value as the configuration file writes it.
#[derive(Debug, Clone)]
pub struct ExplorerLog {
    pub log_dir: String,
    pub log_cup: usize,
    pub temp_size: String,
    pub zip_compress: bool,
    pub rolling_type: String,
    pub level: String,
    pub debug: bool,
    pub max_size: String,
    pub file_name: String,
}

/// All the settings.
#[derive(Debug, Clone)]
pub struct Settings {
    pub log: ExplorerLog,
    pub meilisearch: MeiliSearch,
    pub chain: Chain,
    pub redis: Redis,
}

} // verus!
