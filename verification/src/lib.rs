//! Forwards Durable Streams into Kafka.
pub mod app;
pub mod bindings;
pub mod bridge;
pub mod client;
pub mod config;
pub mod discovery;
pub mod error;
pub mod kafka;
pub mod laws;
pub mod offset_store;
pub mod paths;
pub mod protocol;
pub mod retry;
pub mod stream;
pub mod text;
pub mod text_map;
pub mod time;
pub mod topic;
pub mod transport;
pub mod types;
