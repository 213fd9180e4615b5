//! Why the pool refuses a request.
use vstd::prelude::*;

verus! {

/// Why the pool refuses a request.
#[derive(Debug)]
pub enum PoolError<T> {
    /// A pool was asked for with no workers at all.
    InvalidConfiguration,
    /// A job was submitted after teardown had begun. The job comes back to
    /// the caller; it was not queued and will not run.
    Closed(T),
}

} // verus!
