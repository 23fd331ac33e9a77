//! Leasing and caching of short-lived GPU objects for a real-time renderer.
//!
//! The crate keeps the books for a renderer's pooled driver objects: which
//! objects exist, which are idle and which are leased out, what has to be
//! built or reset before an object is handed to the caller, and when objects
//! referenced by in-flight GPU work may be let go. Driver objects themselves
//! are referred to by plain handles; talking to the driver is left to the
//! caller.

pub mod cmd_buf;
pub mod descriptor_set;
pub mod error;
pub mod pak;
pub mod pool;
