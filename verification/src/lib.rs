//! Per-thread file logging with coordinated shutdown, plus a bounded
//! buffer pool.
//!
//! Log records are written to one file per thread, so the hot path never
//! contends on a shared lock.  A registry hands each thread its own writer,
//! an atomically swappable cell decides whether logging is active, and a
//! handle drains every per-thread writer exactly once at shutdown.  All
//! decisions (formatting, routing, lifecycle) are verified here; the actual
//! file operations are described by explicit effects that a host applies.

pub mod clock;
pub mod config;
pub mod errors;
pub mod files;
pub mod format;
pub mod level;
pub mod lifecycle;
pub mod pool;
pub mod registry;
pub mod writer;
