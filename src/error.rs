use vstd::prelude::*;

verus! {

/// Every failure the streaming core can report.
#[derive(Debug, Clone, Copy, PartialEq, Eq, Structural)]
pub enum StreamError {
    /// No slot is free: completions arrive slower than buffers are needed.
    PoolExhausted,
    /// A slot was used in the wrong ownership state (double release, refill of an
    /// in-flight buffer, an index out of range, teardown with transfers outstanding).
    InvalidSlotState,
    /// The transport reported a failed transfer.
    TransferFailed,
    /// A frame write did not exactly fill the buffer's capacity.
    PartialFrameWrite,
    /// A configuration value lies outside its recognised range.
    InvalidConfig,
    /// The stream has been stopped and accepts no more work.
    StreamStopped,
    /// The sample clock cannot advance by another frame without wrapping.
    ClockOverflow,
}

} // verus!
