//! The verified core of a content-addressable blob store that keeps its blobs in a
//! Redis-compatible key-value service.
//!
//! The crate performs no I/O. Each operation of the store is a small machine: the
//! library decides which command for the backend or which action on the stream
//! comes next, the caller performs it and hands back what came of it. The
//! decisions are proved by Verus against their contracts.
//!
//! - [`digest`]: digests, the zero digest, and the key of a digest on the backend.
//! - [`existence`]: the batched check of which blobs the store holds.
//! - [`ingest`]: the upload of a blob from a stream, committed by one rename.
//! - [`ranged_read`]: the read of a range of a blob, window by window.
//! - [`stream`]: the rules of the stream that carries a blob.
//! - [`store`]: the store, its configuration and its temporary names.
//! - [`scheduler`]: which handles each kind of scheduler gives.
//! - [`error`]: errors as values.
//! - [`model`] and [`laws`]: a model of the backend, and what the operations
//!   achieve on it.
//! - [`trusted`]: what is taken on trust of the crates underneath.

pub mod digest;
pub mod error;
pub mod existence;
pub mod ingest;
pub mod laws;
pub mod model;
pub mod ranged_read;
pub mod scheduler;
pub mod store;
pub mod stream;
pub mod trusted;
