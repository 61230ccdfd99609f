//! Streaming core for a synthesized tone sent to a USB audio speaker over
//! isochronous transfers: sample synthesis, buffer layout, ownership of a
//! small pool of transfer buffers, and the sample clock that keeps the
//! waveform continuous as buffers are recycled.

pub mod error;
pub mod tone;
pub mod frame;
pub mod pool;
pub mod scheduler;
pub mod session;
