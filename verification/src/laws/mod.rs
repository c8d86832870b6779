//! What holds of the operations of the library, whatever goes into them.
pub mod app;
pub mod bridge;
pub mod config;
pub mod discovery;
pub mod headers;
pub mod kafka;
pub mod messages;
pub mod offset_store;
pub mod sse;
pub mod stream;
pub mod text;
pub mod topic;
pub mod transport;
pub mod types;
pub mod views;
