//! Streaming buffer management and frame alignment for acoustic echo
//! cancellation on single-channel 16-bit PCM audio.

pub mod codec;
pub mod host;
pub mod metrics;
pub mod processor;
pub mod reference_buffer;
pub mod scheduler;
