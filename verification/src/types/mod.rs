//! The values that the Durable Streams protocol exchanges.
pub mod offset;
pub mod read;
pub mod stream_path;
pub mod subscription;

pub use offset::Offset;
pub use read::{ReadMode, ReadRequest, ReadResponse, StreamMetadata};
pub use stream_path::StreamPath;
pub use subscription::{StreamCheckpoint, SubscribeRequest, SubscriptionEvent};
