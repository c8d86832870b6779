//! The wire format of the Durable Streams protocol.
pub mod headers;
pub mod sse;
