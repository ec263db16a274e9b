//! Dispatch and scheduling layer of a tensor-compute runtime.
//!
//! The crate is the "brain" between a scripting front end that owns raw
//! buffers and a numeric kernel library that does the arithmetic.  It
//! validates requests, chooses an execution backend, decomposes data-parallel
//! work into disjoint chunks, hands out per-worker scratch memory, and
//! records per-operation timing.

pub mod arena;
pub mod backend;
pub mod dispatch;
pub mod metrics;
pub mod ops;
pub mod profiler;
pub mod text;
