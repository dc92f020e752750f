//! The per-listener state machine and the result of registering a wake
//! handle.

use vstd::prelude::*;
use crate::task::Task;

verus! {

/// The state of one listener in the registry.
///
/// The closed lifecycle is: a listener is inserted as `Created`; attaching a
/// wake handle makes it `Task`; a notify call promotes `Created` or `Task` to
/// `Notified`; the owning waiter reading the tag turns `Notified` into
/// `NotifiedTaken`, which prevents a second read and tells removal that the
/// notification was already consumed.
pub enum State<T> {
    /// Inserted, no wake handle attached yet.
    Created,
    /// A wake handle is attached and its owner is waiting.
    Task(Task),
    /// Promoted by a notify call; the notification has not been consumed.
    Notified {
        /// Whether this promotion satisfied an "additional" request.
        additional: bool,
        /// The tag delivered with the notification.
        tag: T,
    },
    /// The tag has been consumed by the owning waiter.
    NotifiedTaken,
}

impl<T> State<T> {
    /// A notification reached this listener, whether or not its tag was
    /// already consumed.
    pub open spec fn is_notified_spec(&self) -> bool {
        self is Notified || self is NotifiedTaken
    }

    /// Whether a notification reached this listener.
    pub fn is_notified(&self) -> (r: bool)
        ensures
            r == self.is_notified_spec(),
    {
        matches!(self, State::Notified { .. } | State::NotifiedTaken)
    }

    /// The tag, if this state carries an unconsumed notification.
    ///
    /// Reading a tag twice is a contract violation, so the already-consumed
    /// state is excluded.
    pub fn notified(self) -> (r: Option<T>)
        requires
            !(self is NotifiedTaken),
        ensures
            self matches State::Notified { tag, .. } ==> r == Some(tag),
            !(self is Notified) ==> r is None,
    {
        match self {
            State::Notified { tag, .. } => Some(tag),
            _ => None,
        }
    }
}

/// What registering a wake handle found.
pub enum RegisterResult<T> {
    /// The listener was already notified; the tag is handed over.
    Notified(T),
    /// The wake handle was attached; the owner should suspend or block.
    Registered,
    /// The listener was never inserted into the registry.
    NeverInserted,
}

impl<T> RegisterResult<T> {
    /// The tag, if the listener was notified.
    ///
    /// Asking this of a listener that was never inserted is a contract
    /// violation, so that case is excluded.
    pub fn notified(self) -> (r: Option<T>)
        requires
            !(self is NeverInserted),
        ensures
            self matches RegisterResult::Notified(tag) ==> r == Some(tag),
            self is Registered ==> r is None,
    {
        match self {
            RegisterResult::Notified(tag) => Some(tag),
            _ => None,
        }
    }
}

} // verus!
