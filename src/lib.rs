//! An event port: one handle that gathers events from several sources into one
//! queue, with a table of registered interest, coalescing alerts and fan-out sends.
//!
//! Every operation is a verified function on an explicit model; blocking retrieval
//! is left to the caller, which waits whenever a retrieval step says so.

pub mod error;
pub mod event;
pub mod table;
pub mod model;
pub mod port;
pub mod laws;
