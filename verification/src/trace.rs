//! Histories of a group: the operations of its handles, one after another.
//!
//! An [`Event`] stands for one call of an operation in [`crate::handle`]. A
//! state admits an event where the operation's preconditions hold, and the
//! state after it is the one the operation leaves.

use crate::state::{Outcome, State};
use futures::task::Task;
use vstd::prelude::*;

verus! {

/// One operation of one handle.
pub enum Event<T, E> {
    /// Handle `from` is duplicated.
    Duplicate { from: u64 },
    /// Handle `id` begins a poll.
    Begin { id: u64 },
    /// Handle `id` parks with `task`.
    Park { id: u64, task: Task },
    /// Handle `id` ends its poll with `outcome` of the underlying computation.
    End { id: u64, outcome: Outcome<T, E> },
    /// Handle `id` is released.
    Release { id: u64 },
}

impl<T, E> Event<T, E> {
    /// The handle that acts.
    pub open spec fn actor(self) -> u64 {
        match self {
            Event::Duplicate { from } => from,
            Event::Begin { id } => id,
            Event::Park { id, .. } => id,
            Event::End { id, .. } => id,
            Event::Release { id } => id,
        }
    }
}

impl<T, E> State<T, E> {
    /// Whether `event` may happen in this state: its handle is live, and the
    /// operation's own condition holds.
    pub open spec fn admits(self, event: Event<T, E>) -> bool {
        &&& self.is_live(event.actor())
        &&& match event {
            Event::Duplicate { .. } => self.next_id < u64::MAX,
            Event::Begin { .. } => true,
            Event::Park { id, .. } => self.must_wait(id),
            Event::End { id, .. } => self.drives(id),
            Event::Release { .. } => true,
        }
    }

    /// The state after `event`.
    pub open spec fn after(self, event: Event<T, E>) -> Self {
        match event {
            Event::Duplicate { .. } => self.duplicated(),
            Event::Begin { id } => self.begun(id),
            Event::Park { id, task } => self.parked(id, task),
            Event::End { outcome, .. } => self.settled(outcome),
            Event::Release { id } => self.released(id),
        }
    }

    /// The handles that `event` notifies.
    pub open spec fn woken_by(self, event: Event<T, E>) -> Set<u64> {
        match event {
            Event::End { outcome, .. } => self.woken_by_settling(outcome),
            Event::Release { id } => self.woken_by_release(id),
            _ => Set::empty(),
        }
    }

    /// The state after all of `events`, in order.
    pub open spec fn after_all(self, events: Seq<Event<T, E>>) -> Self
        decreases events.len(),
    {
        if events.len() == 0 {
            self
        } else {
            self.after_all(events.drop_last()).after(events.last())
        }
    }

    /// Whether `events` may happen in order, starting from this state.
    pub open spec fn admits_all(self, events: Seq<Event<T, E>>) -> bool
        decreases events.len(),
    {
        events.len() > 0 ==> {
            &&& self.admits_all(events.drop_last())
            &&& self.after_all(events.drop_last()).admits(events.last())
        }
    }

    /// Whether this state can come about: some history leads to it from the
    /// state of a new group.
    pub open spec fn reachable(self) -> bool {
        exists|events: Seq<Event<T, E>>|
            Self::fresh().admits_all(events) && #[trigger] Self::fresh().after_all(events) == self
    }
}

/// An admitted event keeps the invariant.
pub proof fn lemma_event_keeps_wf<T, E>(state: State<T, E>, event: Event<T, E>)
    requires
        state.wf(),
        state.admits(event),
    ensures
        state.after(event).wf(),
{
}

/// An admitted history keeps the invariant.
pub proof fn lemma_history_keeps_wf<T, E>(state: State<T, E>, events: Seq<Event<T, E>>)
    requires
        state.wf(),
        state.admits_all(events),
    ensures
        state.after_all(events).wf(),
    decreases events.len(),
{
    if events.len() > 0 {
        lemma_history_keeps_wf(state, events.drop_last());
        lemma_event_keeps_wf(state.after_all(events.drop_last()), events.last());
    }
}

/// Every beginning of an admitted history is admitted, and the event that
/// follows it is admitted in the state it leads to.
pub proof fn lemma_history_prefix<T, E>(state: State<T, E>, events: Seq<Event<T, E>>, k: int)
    requires
        state.admits_all(events),
        0 <= k <= events.len(),
    ensures
        state.admits_all(events.take(k)),
        k < events.len() ==> state.after_all(events.take(k)).admits(events[k]),
        k < events.len() ==> state.after_all(events.take(k + 1)) == state.after_all(
            events.take(k),
        ).after(events[k]),
    decreases events.len(),
{
    if k == events.len() {
        assert(events.take(k) == events);
    } else {
        if k + 1 == events.len() {
            assert(events.take(k + 1) == events);
        } else {
            lemma_history_prefix(state, events.drop_last(), k);
            assert(events.drop_last().take(k) == events.take(k));
            assert(events.drop_last().take(k + 1) == events.take(k + 1));
        }
    }
}

/// A state that can come about satisfies the invariant.
pub proof fn lemma_reachable_is_wf<T, E>(state: State<T, E>)
    requires
        state.reachable(),
    ensures
        state.wf(),
{
    let events = choose|events: Seq<Event<T, E>>|
        State::<T, E>::fresh().admits_all(events) && #[trigger] State::<T, E>::fresh().after_all(
            events,
        ) == state;
    lemma_history_keeps_wf(State::<T, E>::fresh(), events);
}

} // verus!
