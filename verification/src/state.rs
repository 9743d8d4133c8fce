//! The mathematical model of a forked promise.
//!
//! A group of handles shares one [`State`]. Every operation of a handle is a
//! function from the state before it to the state after it; the executable
//! code in [`crate::handle`] is proved to follow these functions.

use futures::task::Task;
use vstd::prelude::*;

verus! {

/// What one poll of a future yields.
#[derive(Debug, PartialEq, Eq)]
pub enum Outcome<T, E> {
    /// Not finished yet.
    Pending,
    /// Finished with a value.
    Ready(T),
    /// Finished with an error.
    Failed(E),
}

impl<T, E> Outcome<T, E> {
    /// The final result that this outcome carries, if it is final.
    pub open spec fn result(self) -> Option<Result<T, E>> {
        match self {
            Outcome::Pending => None,
            Outcome::Ready(v) => Some(Ok(v)),
            Outcome::Failed(e) => Some(Err(e)),
        }
    }

    /// Whether this outcome ends the computation.
    pub open spec fn is_final(self) -> bool {
        !(self is Pending)
    }
}

/// What a handle that began a poll has to do next.
#[derive(Debug, PartialEq, Eq)]
pub enum Turn<T, E> {
    /// The result is known: here is a duplicate of it.
    Resolved(Result<T, E>),
    /// The handle holds the poller role: it polls the underlying computation
    /// and reports the outcome.
    Drive,
    /// Another handle holds the role: this one parks.
    Wait,
}

/// Whether `copy` is a duplicate of `kept`, as `Clone` makes them: the same
/// variant, holding a clone of what `kept` holds.
pub open spec fn duplicate_of<T: Clone, E: Clone>(
    kept: Result<T, E>,
    copy: Result<T, E>,
) -> bool {
    match (kept, copy) {
        (Ok(a), Ok(b)) => cloned(a, b),
        (Err(a), Err(b)) => cloned(a, b),
        _ => false,
    }
}

/// Whether `reply` is what a handle is told when the computation has yielded
/// `outcome`: `Pending` for `Pending`, else a duplicate of the value or the error.
pub open spec fn replays<T: Clone, E: Clone>(outcome: Outcome<T, E>, reply: Outcome<T, E>) -> bool {
    match (outcome, reply) {
        (Outcome::Pending, Outcome::Pending) => true,
        (Outcome::Ready(a), Outcome::Ready(b)) => cloned(a, b),
        (Outcome::Failed(a), Outcome::Failed(b)) => cloned(a, b),
        _ => false,
    }
}

/// Whether `ids` lists exactly the handles in `handles`, each once, in
/// ascending order.
pub open spec fn lists(ids: Seq<u64>, handles: Set<u64>) -> bool {
    &&& ids.to_set() =~= handles
    &&& forall|i: int, j: int| 0 <= i < j < ids.len() ==> ids[i] < ids[j]
}

/// The two phases of a group.
#[verifier::ext_equal]
pub enum Phase<T, E> {
    /// The computation has not finished. `waiters` maps the id of each parked
    /// handle to the task that is to be notified for it.
    Waiting { waiters: Map<u64, Task> },
    /// The computation has finished with `result`, which is kept for good.
    Done { result: Result<T, E> },
}

/// The state that the handles of one group share.
#[verifier::ext_equal]
pub struct State<T, E> {
    /// The id that the next new handle gets. Ids are handed out in order and
    /// never again.
    pub next_id: u64,
    /// The ids of the handles that were created and not yet released.
    pub live: Set<u64>,
    /// The handle that alone may poll the underlying computation, if any.
    pub poller: Option<u64>,
    /// Waiting, with the parked handles, or done, with the result.
    pub phase: Phase<T, E>,
}

impl<T, E> State<T, E> {
    /// The state of a new group: handle 0 is live, nobody polls, nobody waits.
    pub open spec fn fresh() -> Self {
        State {
            next_id: 1,
            live: set![0u64],
            poller: None,
            phase: Phase::Waiting { waiters: Map::empty() },
        }
    }

    pub open spec fn is_done(self) -> bool {
        self.phase is Done
    }

    pub open spec fn is_waiting(self) -> bool {
        self.phase is Waiting
    }

    /// The parked handles with their tasks; none once the group is done.
    pub open spec fn waiters(self) -> Map<u64, Task> {
        match self.phase {
            Phase::Waiting { waiters } => waiters,
            Phase::Done { .. } => Map::empty(),
        }
    }

    /// The result that is kept, once the group is done.
    pub open spec fn cached(self) -> Option<Result<T, E>> {
        match self.phase {
            Phase::Waiting { .. } => None,
            Phase::Done { result } => Some(result),
        }
    }

    pub open spec fn is_live(self, id: u64) -> bool {
        self.live.contains(id)
    }

    /// Handle `id` holds the poller role of a waiting group.
    pub open spec fn drives(self, id: u64) -> bool {
        self.is_waiting() && self.poller == Some(id)
    }

    /// A poll by handle `id` leads to a poll of the underlying computation:
    /// the group waits, and the role is free or already held by `id`.
    pub open spec fn may_drive(self, id: u64) -> bool {
        self.is_waiting() && (self.poller is None || self.poller == Some(id))
    }

    /// A poll by handle `id` has to park: the group waits and another handle
    /// holds the role.
    pub open spec fn must_wait(self, id: u64) -> bool {
        self.is_waiting() && self.poller is Some && self.poller != Some(id)
    }

    /// Whether `turn` is what handle `id` is told when it begins a poll in
    /// this state: a duplicate of the result once there is one; else to drive
    /// where it holds the role or the role is free, and to wait where another
    /// handle holds it.
    pub open spec fn grants(self, id: u64, turn: Turn<T, E>) -> bool where T: Clone, E: Clone {
        match turn {
            Turn::Resolved(copy) => self.cached() matches Some(result) && duplicate_of(
                result,
                copy,
            ),
            Turn::Drive => self.may_drive(id),
            Turn::Wait => self.must_wait(id),
        }
    }

    /// The invariant of the shared state.
    ///
    /// Every live id was handed out before `next_id`. While the group waits,
    /// only live handles are parked, the poller is live, and the poller is
    /// not parked.
    pub open spec fn wf(self) -> bool {
        &&& self.live.finite()
        &&& forall|id: u64| self.live.contains(id) ==> id < self.next_id
        &&& self.is_waiting() ==> {
            &&& self.waiters().dom().finite()
            &&& forall|id: u64| self.waiters().contains_key(id) ==> self.live.contains(id)
            &&& self.poller matches Some(p) ==> self.live.contains(p) && !self.waiters().contains_key(
                p,
            )
        }
    }

    /// The state after a new handle was made: it gets `next_id` and is live.
    pub open spec fn duplicated(self) -> Self
        recommends
            self.next_id < u64::MAX,
    {
        State {
            next_id: (self.next_id + 1) as u64,
            live: self.live.insert(self.next_id),
            ..self
        }
    }

    /// The state after handle `id` began a poll. Where the role is free, `id`
    /// takes it and is no longer parked; otherwise nothing changes.
    pub open spec fn begun(self, id: u64) -> Self {
        if self.is_waiting() && self.poller is None {
            State {
                poller: Some(id),
                phase: Phase::Waiting { waiters: self.waiters().remove(id) },
                ..self
            }
        } else {
            self
        }
    }

    /// The state after handle `id` parked with `task`: the task is kept for
    /// `id`, in place of an earlier one.
    pub open spec fn parked(self, id: u64, task: Task) -> Self
        recommends
            self.must_wait(id),
    {
        State { phase: Phase::Waiting { waiters: self.waiters().insert(id, task) }, ..self }
    }

    /// The state after the poller reported `outcome` of the underlying
    /// computation: unchanged while it is pending, else done with its result.
    pub open spec fn settled(self, outcome: Outcome<T, E>) -> Self
        recommends
            self.is_waiting(),
    {
        match outcome.result() {
            None => self,
            Some(result) => State { phase: Phase::Done { result }, ..self },
        }
    }

    /// The handles that are notified when the poller reports `outcome`: all
    /// parked handles if it is final, none if it is pending.
    pub open spec fn woken_by_settling(self, outcome: Outcome<T, E>) -> Set<u64> {
        if outcome.is_final() {
            self.waiters().dom()
        } else {
            Set::empty()
        }
    }

    /// The state after handle `id` was released. In a waiting group the
    /// poller gives up the role and leaves the parked handles in place; any
    /// other handle is no longer parked.
    pub open spec fn released(self, id: u64) -> Self {
        let live = self.live.remove(id);
        if self.is_done() {
            State { live, ..self }
        } else if self.poller == Some(id) {
            State { live, poller: None, ..self }
        } else {
            State { live, phase: Phase::Waiting { waiters: self.waiters().remove(id) }, ..self }
        }
    }

    /// The handles that are notified when handle `id` is released: all parked
    /// handles if `id` holds the role of a waiting group, else none.
    pub open spec fn woken_by_release(self, id: u64) -> Set<u64> {
        if self.drives(id) {
            self.waiters().dom()
        } else {
            Set::empty()
        }
    }
}

} // verus!
