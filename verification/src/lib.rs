//! Verified core of a small asynchronous echo server: the echo protocol,
//! the task queue of a single-threaded executor, the waker table of a
//! readiness reactor and the connection table of an event loop.
pub mod protocol;
pub mod task_queue;
pub mod executor;
pub mod reactor;
pub mod connections;
