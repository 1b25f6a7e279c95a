//! Background-job and state-coordination core of a media download client.
//!
//! The library covers the logic that every network-bound feature of the
//! client depends on: a request context holding the authenticated connection
//! parameters, a registry tracking each download through a small state
//! machine with cooperative cancellation, the decision protocol a worker
//! follows around its blocking I/O, a completion bridge delivering a
//! worker's result to the single-threaded control loop, and a bounded FIFO
//! job queue. All I/O (HTTP, filesystem, threads, widgets) lives outside
//! the library; the functions here take plain values and return decisions.

pub mod api;
pub mod bridge;
pub mod card;
pub mod pool;
pub mod registry;
pub mod submissions;
pub mod text;
