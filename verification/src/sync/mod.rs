//! Synchronization primitives.

pub mod watch;
