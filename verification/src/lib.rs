//! Distributes a bulk text-to-speech job: partitions an input document into
//! balanced word chunks, lays the chunks out as a job manifest for a remote
//! compute backend, tracks the job through a submit/poll/cancel lifecycle
//! with monotonic progress reporting, and stitches the per-chunk audio
//! results back into one ordered output.

pub mod audio;
pub mod ctx;
pub mod error;
pub mod lifecycle;
pub mod partition;
pub mod task;
pub mod text;
pub mod timeout;
