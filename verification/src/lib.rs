//! Byte-level comparison of two large files through open handles.
//!
//! The crate holds the handle registry and the three scans (all differences
//! in a range, the nearest difference forward, the nearest difference
//! backward). It performs no input or output itself: every scan is a state
//! machine that names the next seek or read and takes what came of it, so
//! that a caller can run it against files, against memory, or against
//! anything else that yields bytes.

pub mod error;
pub mod memory;
pub mod next;
pub mod policy;
pub mod prev;
pub mod protocol;
pub mod range;
pub mod read_at;
pub mod registry;
