//! Recursive archive extraction: the per-archive extraction protocol, the
//! single-slot hand-off that feeds a fixed pool of workers, and a few small
//! helpers around them.
//!
//! Everything here is free of I/O. A driver owns the file system, the threads
//! and the progress display, and asks this crate what to do next.

pub mod byte_unit;
pub mod compression;
pub mod rust_ext;
pub mod thread_pool;
