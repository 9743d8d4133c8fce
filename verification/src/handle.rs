//! The handles of a forked promise and the record they share.
//!
//! A [`Group`] is the shared record; a [`ForkedPromise`] is one handle on it.
//! The group is handed to each operation of a handle, so that its owner can
//! keep it wherever all handles reach it. Each operation states the group's
//! new state as a function of the old one, over the model in
//! [`crate::state`].
//!
//! A handle is live from the call that makes it to its release. The
//! operations take live handles of the group they are given; a handle is
//! neither copied nor used after its release, which takes it by value.

use crate::state::{lists, replays, Outcome, Phase, State, Turn};
use crate::wake::{running_task, wake_all};
use futures::task::Task;
use std::collections::BTreeMap;
use vstd::prelude::*;

verus! {

enum Resolution<T, E> {
    Waiting(BTreeMap<u64, Task>),
    Done(Result<T, E>),
}

/// The record that all handles of one forked promise share.
pub struct Group<T, E> {
    next_id: u64,
    poller: Option<u64>,
    resolution: Resolution<T, E>,
    live: Ghost<Set<u64>>,
}

impl<T, E> View for Group<T, E> {
    type V = State<T, E>;

    closed spec fn view(&self) -> State<T, E> {
        State {
            next_id: self.next_id,
            live: self.live@,
            poller: self.poller,
            phase: match self.resolution {
                Resolution::Waiting(waiters) => Phase::Waiting { waiters: waiters@ },
                Resolution::Done(result) => Phase::Done { result },
            },
        }
    }
}

impl<T, E> Group<T, E> {
    /// Whether the result is known.
    pub fn is_done(&self) -> (done: bool)
        ensures
            done == self@.is_done(),
    {
        match &self.resolution {
            Resolution::Waiting(_) => false,
            Resolution::Done(_) => true,
        }
    }

    /// The id of the handle that holds the poller role, if one does.
    pub fn poller(&self) -> (poller: Option<u64>)
        ensures
            poller == self@.poller,
    {
        self.poller
    }

    /// The id that the next new handle gets.
    pub fn next_id(&self) -> (next: u64)
        ensures
            next == self@.next_id,
    {
        self.next_id
    }

    /// Whether a task is kept for handle `id`.
    pub fn is_parked(&self, id: u64) -> (parked: bool)
        ensures
            parked == self@.waiters().contains_key(id),
    {
        broadcast use vstd::std_specs::btree::group_btree_axioms;

        match &self.resolution {
            Resolution::Waiting(waiters) => waiters.contains_key(&id),
            Resolution::Done(_) => false,
        }
    }

    /// The number of parked handles.
    pub fn parked_count(&self) -> (count: usize)
        ensures
            count == self@.waiters().len(),
    {
        broadcast use vstd::std_specs::btree::group_btree_axioms;

        match &self.resolution {
            Resolution::Waiting(waiters) => waiters.len(),
            Resolution::Done(_) => 0,
        }
    }
}

/// One handle of a forked promise.
pub struct ForkedPromise {
    id: u64,
}

impl ForkedPromise {
    /// The id of this handle within its group.
    pub closed spec fn spec_id(&self) -> u64 {
        self.id
    }

    /// The id of this handle within its group.
    #[verifier::when_used_as_spec(spec_id)]
    pub fn id(&self) -> (id: u64)
        ensures
            id == self.id(),
    {
        self.id
    }

    /// Makes a new group and its first handle, which has id 0. Nobody holds
    /// the poller role and nobody is parked.
    pub fn new<T, E>() -> (made: (ForkedPromise, Group<T, E>))
        ensures
            made.0.id() == 0,
            made.1@ == State::<T, E>::fresh(),
            made.1@.wf(),
    {
        let group = Group {
            next_id: 1,
            poller: None,
            resolution: Resolution::Waiting(BTreeMap::new()),
            live: Ghost(Set::empty().insert(0u64)),
        };
        (ForkedPromise { id: 0 }, group)
    }

    /// Begins a poll of this handle.
    ///
    /// Once the group is done, the poll yields a duplicate of the result and
    /// changes nothing. While it waits, the handle takes the poller role if
    /// it is free, and is told to drive if it holds the role, else to wait.
    pub fn poll_begin<T: Clone, E: Clone>(&self, group: &mut Group<T, E>) -> (turn: Turn<T, E>)
        requires
            old(group)@.wf(),
            old(group)@.is_live(self.id()),
        ensures
            final(group)@ == old(group)@.begun(self.id()),
            final(group)@.wf(),
            old(group)@.grants(self.id(), turn),
    {
        match &mut group.resolution {
            Resolution::Done(result) => {
                let copy = match result {
                    Ok(value) => Ok(value.clone()),
                    Err(error) => Err(error.clone()),
                };
                Turn::Resolved(copy)
            },
            Resolution::Waiting(waiters) => {
                match group.poller {
                    Some(holder) => {
                        if holder == self.id {
                            Turn::Drive
                        } else {
                            Turn::Wait
                        }
                    },
                    None => {
                        waiters.remove(&self.id);
                        group.poller = Some(self.id);
                        Turn::Drive
                    },
                }
            },
        }
    }

    /// Parks this handle: keeps `task` to be notified for it, in place of a
    /// task kept for it before.
    ///
    /// This is the step after [`Turn::Wait`]; `task` is the task that polls
    /// the handle.
    pub fn park<T, E>(&self, group: &mut Group<T, E>, task: Task)
        requires
            old(group)@.wf(),
            old(group)@.is_live(self.id()),
            old(group)@.must_wait(self.id()),
        ensures
            final(group)@ == old(group)@.parked(self.id(), task),
            final(group)@.wf(),
    {
        match &mut group.resolution {
            Resolution::Waiting(waiters) => {
                waiters.insert(self.id, task);
            },
            Resolution::Done(_) => {},
        }
    }

    /// Parks this handle with the task that is running, if one is, and says
    /// whether it did. Outside a task nothing changes.
    ///
    /// This is the step after [`Turn::Wait`] for a handle that is polled by
    /// a task, as a future is.
    pub fn park_current<T, E>(&self, group: &mut Group<T, E>) -> (parked: bool)
        requires
            old(group)@.wf(),
            old(group)@.is_live(self.id()),
            old(group)@.must_wait(self.id()),
        ensures
            final(group)@.wf(),
            parked ==> exists|task: Task| final(group)@ == old(group)@.parked(self.id(), task),
            !parked ==> final(group)@ == old(group)@,
    {
        match running_task() {
            Some(task) => {
                self.park(group, task);
                true
            },
            None => false,
        }
    }

    /// Ends the poll of the handle that holds the poller role, with the
    /// `outcome` of its poll of the underlying computation.
    ///
    /// A pending outcome changes nothing. A final one is kept for good, and
    /// every parked handle is notified. The reply is the outcome for this
    /// handle, the value or the error duplicated; with it come the ids of the
    /// handles that were notified, in ascending order.
    pub fn poll_end<T: Clone, E: Clone>(
        &self,
        group: &mut Group<T, E>,
        outcome: Outcome<T, E>,
    ) -> (ended: (Outcome<T, E>, Vec<u64>))
        requires
            old(group)@.wf(),
            old(group)@.is_live(self.id()),
            old(group)@.drives(self.id()),
        ensures
            final(group)@ == old(group)@.settled(outcome),
            final(group)@.wf(),
            replays(outcome, ended.0),
            lists(ended.1@, old(group)@.woken_by_settling(outcome)),
    {
        let result = match outcome {
            Outcome::Pending => {
                return (Outcome::Pending, Vec::new());
            },
            Outcome::Ready(value) => Ok(value),
            Outcome::Failed(error) => Err(error),
        };
        let reply = match &result {
            Ok(value) => Outcome::Ready(value.clone()),
            Err(error) => Outcome::Failed(error.clone()),
        };
        let woken = match &group.resolution {
            Resolution::Waiting(waiters) => wake_all(waiters),
            Resolution::Done(_) => Vec::new(),
        };
        group.resolution = Resolution::Done(result);
        (reply, woken)
    }

    /// Releases this handle, which is not used again.
    ///
    /// In a group that is done nothing happens. In a waiting group the poller
    /// notifies every parked handle and gives up the role; any other handle
    /// is no longer parked. The result holds the ids of the handles that were
    /// notified, in ascending order.
    pub fn release<T, E>(self, group: &mut Group<T, E>) -> (woken: Vec<u64>)
        requires
            old(group)@.wf(),
            old(group)@.is_live(self.id()),
        ensures
            final(group)@ == old(group)@.released(self.id()),
            final(group)@.wf(),
            lists(woken@, old(group)@.woken_by_release(self.id())),
    {
        proof {
            group.live@ = group.live@.remove(self.id);
        }
        match &mut group.resolution {
            Resolution::Waiting(waiters) => {
                if group.poller == Some(self.id) {
                    let woken = wake_all(waiters);
                    group.poller = None;
                    woken
                } else {
                    waiters.remove(&self.id);
                    Vec::new()
                }
            },
            Resolution::Done(_) => Vec::new(),
        }
    }

    /// Makes another handle on the group of this one. It gets the next id,
    /// which no handle of the group had before; nothing else changes.
    pub fn duplicate<T, E>(&self, group: &mut Group<T, E>) -> (made: ForkedPromise)
        requires
            old(group)@.wf(),
            old(group)@.is_live(self.id()),
            old(group)@.next_id < u64::MAX,
        ensures
            made.id() == old(group)@.next_id,
            !old(group)@.is_live(made.id()),
            final(group)@ == old(group)@.duplicated(),
            final(group)@.wf(),
    {
        let id = group.next_id;
        group.next_id = id + 1;
        proof {
            group.live@ = group.live@.insert(id);
        }
        ForkedPromise { id }
    }
}

} // verus!
