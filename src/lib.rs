//! Real-time-safe building blocks for in-process producer/consumer coordination: a
//! policy-governed bounded deque, the state machines of bounded channels (blocking and
//! asynchronous) and rendezvous cells, and the bookkeeping around them (semaphore, data buffer,
//! timed operations, notify back-off, thread and system parameters).
//!
//! Each type here is the state that a shared object keeps under its lock, with the decisions
//! taken on it; locking, parking and waking are left to the caller.
use vstd::prelude::*;

pub mod backoff;
pub mod base_channel;
pub mod base_channel_async;
pub mod buf;
pub mod cell;
pub mod channel;
pub mod condvar_api;
pub mod data_policy;
pub mod error;
pub mod event_map;
pub mod ops;
pub mod pdeque;
pub mod policy_channel;
pub mod semaphore;
pub mod system;
pub mod thread_rt;

pub use base_channel::{ChannelStorage, DataChannel};
pub use data_policy::{DataDeliveryPolicy, DeliveryPolicy, StorageTryPushOutput};
pub use error::{Error, Result};

verus! {

} // verus!
