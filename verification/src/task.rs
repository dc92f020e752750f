//! The wake handle: one capability that resumes either a suspended task or a
//! blocked thread.

use vstd::prelude::*;

verus! {

#[verifier::external_type_specification]
#[verifier::external_body]
pub struct ExWaker(core::task::Waker);

#[verifier::external_type_specification]
#[verifier::external_body]
pub struct ExUnparker(parking::Unparker);

/// A wake handle attached to a waiting listener.  Invoking it either
/// schedules the owning task for re-polling or unparks the blocked thread; it
/// carries no other state the registry reads.
pub enum Task {
    /// Wakes a suspended asynchronous task.
    Waker(core::task::Waker),
    /// Unparks a blocked thread.
    Unparker(parking::Unparker),
}

impl Task {
    /// Invoke the handle, waking whichever target it holds.  The wake is a
    /// side effect on another thread or task; no value of this crate changes.
    pub fn wake(self) {
        match self {
            Task::Waker(waker) => wake_waker(waker),
            Task::Unparker(unparker) => {
                unpark(&unparker);
            },
        }
    }
}

/// Relies on `core::task::Waker::wake`: schedules the task that owns the
/// waker for re-polling; no value of this crate changes.
#[verifier::external_body]
fn wake_waker(waker: core::task::Waker) {
    waker.wake()
}

/// Relies on `parking::Unparker::unpark`: notifies the associated parker.
/// The result says whether this call was the first to notify it, which
/// depends on concurrent callers, so nothing is stated of it.
#[verifier::external_body]
fn unpark(unparker: &parking::Unparker) -> (first: bool) {
    unparker.unpark()
}

} // verus!
