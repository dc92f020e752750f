//! A notification primitive for waking blocked threads or suspended tasks.
//!
//! An [`Event`] lets any number of waiters register interest and be woken when
//! a producer signals.  Waiters are satisfied in the order in which they
//! registered (first-in first-out), a notification delivered to a waiter that
//! is destroyed before consuming it is re-delivered to the next eligible
//! waiter, and the waiter registry falls back to an append-only queue while
//! its primary store is contended.

mod event;
mod inner;
mod laws;
mod list;
mod listener;
mod notify;
mod state;
mod task;

pub use event::{notify_effect, skip_notify, Event};
pub use inner::Inner;
pub use laws::{lemma_additional_cumulative, lemma_event_notify_idempotent, lemma_notify_fifo, lemma_notify_idempotent};
pub use list::{Entry, List, Pending};
pub use listener::EventListener;
pub use notify::{IntoNotification, Notify};
pub use state::{RegisterResult, State};
pub use task::Task;
