//! The queue contracts and their implementations.

pub mod codec;
pub mod durable;
pub mod memory;
pub mod order;
pub mod scale;
pub mod store;

pub use codec::{CodecSerialization, Encodable};
pub use durable::{
    clear_outcome, decoded_outcome, len_outcome, pop_outcome, push_outcome, HasAsyncPriorityQueue,
    HasAsyncQueue, RedisFifoQueue, RedisLifoQueue, RedisPriorityQueue,
};
pub use memory::{FifoQueue, HasQueue, LifoQueue};
pub use store::{StoreCommand, StoreReply};
