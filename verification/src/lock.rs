//! The lock on an agent, which is at one thing at a time.

use tokio::sync::{Mutex, MutexGuard};
use vstd::prelude::*;

verus! {

/// A lock of tokio, with what it guards.
#[verifier::external_type_specification]
#[verifier::external_body]
#[verifier::reject_recursive_types(T)]
pub struct ExMutex<T: ?Sized>(tokio::sync::Mutex<T>);

/// A lock of tokio that is held.
#[verifier::external_type_specification]
#[verifier::external_body]
#[verifier::reject_recursive_types(T)]
pub struct ExMutexGuard<'a, T: ?Sized>(tokio::sync::MutexGuard<'a, T>);

/// What came of the attempts to take the lock on an agent.
pub struct LockLog {
    answers: Ghost<Seq<bool>>,
}

impl View for LockLog {
    type V = Seq<bool>;

    /// For each attempt, oldest first, whether it got the lock.
    closed spec fn view(&self) -> Seq<bool> {
        self.answers@
    }
}

impl LockLog {
    /// Nobody has tried yet.
    pub(crate) fn new() -> (log: LockLog)
        ensures
            log@ == Seq::<bool>::empty(),
    {
        LockLog { answers: Ghost(Seq::empty()) }
    }
}

/// Takes the lock if nobody holds it, with `tokio::sync::Mutex::try_lock`. The
/// attempt is in the log, behind those made before, with its answer. Nothing is
/// claimed of which answer comes: it depends on who holds the lock at the time.
#[allow(unused_variables)]
#[verifier::external_body]
pub(crate) fn try_lock<'a, T>(lock: &'a Mutex<T>, log: &mut LockLog) -> (guard: Option<
    MutexGuard<'a, T>,
>)
    ensures
        final(log)@ == old(log)@.push(guard is Some),
{
    lock.try_lock().ok()
}

} // verus!
