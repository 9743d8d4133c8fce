//! Forking of an asynchronous computation that has a single observer, so
//! that any number of handles can await its one result.
//!
//! The handles of one computation form a group. At any time at most one of
//! them, the poller, drives the computation; the others park and are
//! notified when the result is known or the poller leaves. The result, a
//! value or an error, is kept and every handle gets a duplicate of it.
//!
//! A poll of a handle takes up to three steps:
//!
//! 1. [`handle::ForkedPromise::poll_begin`] says what the handle is to do: it
//!    hands out the result when it is known, and tells the handle to drive or
//!    to wait when it is not.
//! 2. A handle that waits parks with
//!    [`handle::ForkedPromise::park_current`] and reports that it is pending.
//! 3. A handle that drives polls the computation and passes the outcome to
//!    [`handle::ForkedPromise::poll_end`], which replies for the poll.
//!
//! [`state`] holds the model of a group, [`trace`] the histories of a group,
//! and [`laws`] what is proved of them: that the handles converge on one
//! result, that one handle drives at a time, that the role is handed on when
//! its holder leaves, and that no handle misses its notification.

pub mod handle;
pub mod laws;
pub mod state;
pub mod trace;
pub mod wake;
