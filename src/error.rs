use vstd::prelude::*;

verus! {

/// The failures that operations of this library report.
#[derive(Debug, Clone, PartialEq, Eq)]
pub enum Error {
    /// The channel is full and the value can not be sent.
    ChannelFull,
    /// The channel is full and an optional value is skipped: the error can be ignored but should
    /// be logged.
    ChannelSkipped,
    /// The channel or cell is closed.
    ChannelClosed,
    /// The channel or cell is empty.
    ChannelEmpty,
    /// The requested operation is not implemented on this target.
    Unimplemented,
    /// A bounded wait was exceeded.
    Timeout,
    /// Invalid data received or parameters provided.
    InvalidData(String),
    /// Any other failure, with its context.
    Failed(String),
    /// A system call or an internal API denied access.
    AccessDenied,
    /// An error of the operating system, with its description.
    IO(String),
    /// Setting the CPU affinity failed.
    RTSchedSetAffinity(String),
    /// Setting the real-time priority failed.
    RTSchedSetScheduler(String),
}

/// The result of the operations of this library.
pub type Result<T> = core::result::Result<T, Error>;

} // verus!
