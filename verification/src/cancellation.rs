//! Cooperative cancellation tokens polled by worker threads.

use std::sync::atomic::{AtomicBool, Ordering};
use std::sync::Arc;
use vstd::prelude::*;

verus! {

/// A shared flag that a worker polls at interruption points. The supervisor that hands
/// the token out may raise it at any time, from another thread; no clause states what a
/// load returns, since that depends on how the threads interleave.
#[derive(Debug, Clone)]
pub struct JobCancellation {
    flag: Arc<AtomicBool>,
}

/// `Arc::clone`: a second pointer to the same allocation. It is stated as equality with the
/// original handle; the flag's value itself is not modelled.
#[verifier::external_body]
fn share_flag(flag: &Arc<AtomicBool>) -> (shared: Arc<AtomicBool>)
    ensures
        shared == *flag,
{
    Arc::clone(flag)
}

impl JobCancellation {
    /// A token that no supervisor knows of, for adapters that run synchronously.
    pub fn standalone() -> (c: JobCancellation) {
        JobCancellation { flag: Arc::new(AtomicBool::new(false)) }
    }

    /// Whether cancellation has been requested so far.
    pub fn is_cancelled(&self) -> bool {
        self.flag.load(Ordering::Acquire)
    }

    /// Another handle to the same flag: cancellation requested through either handle is seen
    /// through both.
    pub(crate) fn share(&self) -> (c: JobCancellation)
        ensures
            c == *self,
    {
        JobCancellation { flag: share_flag(&self.flag) }
    }

    /// Requests cancellation; workers observe it at their next poll.
    pub(crate) fn cancel(&self) {
        self.flag.store(true, Ordering::Release);
    }
}

} // verus!
