//! Signal handling that never delivers a signal.

pub mod unix;
