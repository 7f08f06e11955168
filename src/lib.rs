//! Scheduling engine of a request/response intercepting filter: policy tasks run
//! against an in-flight transaction, may suspend on an out-of-band call, and are
//! resumed when that call's response arrives.
pub mod context;
pub mod service;
pub mod task;
pub mod pipeline;
pub mod laws;
