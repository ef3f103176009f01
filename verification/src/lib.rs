pub mod auth;
pub mod docmost_client;
pub mod json;
pub mod prosemirror;
pub mod random;
pub mod server;
pub mod startup_config;
pub mod storage;
pub mod position;
pub mod text;
pub mod types;
pub mod version;
