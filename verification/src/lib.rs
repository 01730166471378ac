//! Coordination core of a proof-verification service.
//!
//! The service accepts zero-knowledge proof artifacts over HTTP, records them
//! under a caller-supplied transaction id, and later verifies them
//! asynchronously, reporting a boolean outcome to a configured peer. This
//! crate holds the verified coordination layer of that workflow: the per-kind
//! proof registries, the FIFO verification queue consumed by a single
//! background worker, the result-notification step, and the port-allocation
//! pool used by the health-check endpoint. The proof-system verifiers
//! themselves, file access and the HTTP surface are external collaborators
//! that live outside this crate.

pub mod allocator;
pub mod digits;
pub mod errors;
pub mod models;
pub mod parse;
pub mod state;
pub mod txmap;
pub mod worker;
