//! The decision core of a fixed-size worker pool.
//!
//! A pool owns a shared FIFO queue of jobs and a fixed set of workers. Every
//! rule of the pool's life is decided here, on plain values: which job a
//! worker gets, when a worker goes on waiting and when it terminates, when a
//! submission is accepted, and in which order the workers are reclaimed at
//! teardown. The threads themselves, and the blocking between two receive
//! attempts, belong to the caller, which reports what happened and does what
//! it is told.
//!
//! [`laws`] states what holds of every schedule of such events.
pub mod error;
pub mod laws;
pub mod model;
pub mod pool;
pub mod queue;
pub mod worker;

pub use error::PoolError;
pub use model::{Event, PoolModel};
pub use pool::ThreadPool;
pub use queue::{QueueModel, Receipt, SharedQueue};
pub use worker::{Worker, WorkerModel, WorkerState};
