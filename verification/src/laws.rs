//! What holds of every forked promise, proved over the model.
//!
//! The operations in [`crate::handle`] are proved to follow the functions of
//! [`State`]; the laws below speak of those functions, and of histories of
//! events as [`crate::trace`] defines them.

use crate::state::{duplicate_of, lists, Outcome, State, Turn};
use crate::trace::{lemma_event_keeps_wf, lemma_history_prefix, lemma_reachable_is_wf, Event};
use vstd::prelude::*;

verus! {

/// A group is done once and for good. Whatever its handles do after the
/// result is known, the kept result is the same, the poller entry is the
/// same, and no event notifies anyone.
pub proof fn law_done_is_final<T, E>(state: State<T, E>, later: Seq<Event<T, E>>)
    requires
        state.wf(),
        state.is_done(),
        state.admits_all(later),
    ensures
        state.after_all(later).wf(),
        state.after_all(later).phase == state.phase,
        state.after_all(later).poller == state.poller,
        forall|k: int|
            0 <= k < later.len() ==> (#[trigger] state.after_all(later.take(k))).woken_by(later[k])
                == Set::<u64>::empty(),
    decreases later.len(),
{
    if later.len() > 0 {
        let before = later.drop_last();
        law_done_is_final(state, before);
        assert forall|k: int| 0 <= k < later.len() implies (#[trigger] state.after_all(
            later.take(k),
        )).woken_by(later[k]) == Set::<u64>::empty() by {
            if k < before.len() {
                assert(before.take(k) == later.take(k));
            }
        }
    }
}

/// Convergence on a value. When the poller ends its poll with value `value`,
/// every handle that is parked at that moment is notified; and from then on,
/// whatever the handles do in between, a poll of any live handle `handle`,
/// one made later among them, changes nothing and yields a duplicate of
/// `value`.
pub proof fn law_value_reaches_every_handle<T: Clone, E: Clone>(
    state: State<T, E>,
    poller: u64,
    value: T,
    later: Seq<Event<T, E>>,
    handle: u64,
    turn: Turn<T, E>,
)
    requires
        state.wf(),
        state.drives(poller),
        state.settled(Outcome::Ready(value)).admits_all(later),
        state.settled(Outcome::Ready(value)).after_all(later).is_live(handle),
        state.settled(Outcome::Ready(value)).after_all(later).grants(handle, turn),
    ensures
        state.woken_by_settling(Outcome::Ready(value)) == state.waiters().dom(),
        state.settled(Outcome::Ready(value)).after_all(later).cached() == Some(Ok::<T, E>(value)),
        state.settled(Outcome::Ready(value)).after_all(later).begun(handle) == state.settled(
            Outcome::Ready(value),
        ).after_all(later),
        turn matches Turn::Resolved(Ok(copy)) && cloned(value, copy),
{
    law_done_is_final(state.settled(Outcome::Ready(value)), later);
}

/// Replay of an error. When the poller ends its poll with error `error`,
/// every handle that is parked at that moment is notified; and from then on,
/// whatever the handles do in between, a poll of any live handle `handle`,
/// one made later among them, changes nothing and yields a duplicate of
/// `error`.
pub proof fn law_error_reaches_every_handle<T: Clone, E: Clone>(
    state: State<T, E>,
    poller: u64,
    error: E,
    later: Seq<Event<T, E>>,
    handle: u64,
    turn: Turn<T, E>,
)
    requires
        state.wf(),
        state.drives(poller),
        state.settled(Outcome::Failed(error)).admits_all(later),
        state.settled(Outcome::Failed(error)).after_all(later).is_live(handle),
        state.settled(Outcome::Failed(error)).after_all(later).grants(handle, turn),
    ensures
        state.woken_by_settling(Outcome::Failed(error)) == state.waiters().dom(),
        state.settled(Outcome::Failed(error)).after_all(later).cached() == Some(
            Err::<T, E>(error),
        ),
        state.settled(Outcome::Failed(error)).after_all(later).begun(handle) == state.settled(
            Outcome::Failed(error),
        ).after_all(later),
        turn matches Turn::Resolved(Err(copy)) && cloned(error, copy),
{
    law_done_is_final(state.settled(Outcome::Failed(error)), later);
}

/// Single driver. In every state that can come about, at most one handle
/// holds the poller role, and that handle is live. While `a` holds it, a poll
/// of any other handle changes nothing and is told to wait.
pub proof fn law_single_driver<T: Clone, E: Clone>(
    state: State<T, E>,
    a: u64,
    b: u64,
    turn: Turn<T, E>,
)
    requires
        state.reachable(),
        state.drives(a),
    ensures
        state.is_live(a),
        state.drives(b) ==> a == b,
        a != b ==> state.begun(b) == state,
        a != b && state.grants(b, turn) ==> turn is Wait,
{
    lemma_reachable_is_wf(state);
}

/// The role is held as long as its holder wishes. While `holder` holds the
/// role, nothing that other handles do takes it away, and a pending outcome
/// of its own poll leaves it in place: after a history in which `holder` is
/// not released and reports no final outcome, `holder` still holds the role.
pub proof fn law_role_is_held<T, E>(state: State<T, E>, holder: u64, later: Seq<Event<T, E>>)
    requires
        state.wf(),
        state.drives(holder),
        state.admits_all(later),
        forall|k: int|
            0 <= k < later.len() ==> match #[trigger] later[k] {
                Event::Release { id } => id != holder,
                Event::End { outcome, .. } => outcome is Pending,
                _ => true,
            },
    ensures
        state.after_all(later).drives(holder),
        state.after_all(later).wf(),
    decreases later.len(),
{
    if later.len() > 0 {
        let before = later.drop_last();
        assert forall|k: int| 0 <= k < before.len() implies match #[trigger] before[k] {
            Event::Release { id } => id != holder,
            Event::End { outcome, .. } => outcome is Pending,
            _ => true,
        } by {
            assert(before[k] == later[k]);
        }
        law_role_is_held(state, holder, before);
        lemma_event_keeps_wf(state.after_all(before), later.last());
    }
}

/// Handoff of the role. When the handle that holds the role is released
/// while the group waits, the role is free at once and every parked handle is
/// notified. Nothing else is lost: the group still waits and the same
/// handles are parked with the same tasks. The next poll of any other live
/// handle `next` takes the role and is told to drive.
pub proof fn law_poller_handoff<T: Clone, E: Clone>(
    state: State<T, E>,
    poller: u64,
    next: u64,
    turn: Turn<T, E>,
)
    requires
        state.wf(),
        state.drives(poller),
        state.is_live(next),
        next != poller,
        state.released(poller).grants(next, turn),
    ensures
        state.released(poller).wf(),
        state.released(poller).poller is None,
        state.released(poller).is_waiting(),
        state.released(poller).waiters() == state.waiters(),
        state.woken_by_release(poller) == state.waiters().dom(),
        state.released(poller).is_live(next),
        turn is Drive,
        state.released(poller).begun(next).drives(next),
        state.released(poller).begun(next).waiters() == state.waiters().remove(next),
        state.released(poller).begun(next).wf(),
{
}

/// Someone can always drive. While the group waits, a poll of the handle
/// that holds the role is told to drive; and where nobody holds it, a poll of
/// any live handle is.
pub proof fn law_someone_can_drive<T, E>(state: State<T, E>, handle: u64)
    requires
        state.wf(),
        state.is_waiting(),
        state.is_live(handle),
    ensures
        match state.poller {
            Some(holder) => state.is_live(holder) && state.may_drive(holder),
            None => state.may_drive(handle),
        },
{
}

/// No wake-up is lost. A handle that is parked and does nothing itself stays
/// parked with its task for as long as the group waits, whatever the others
/// do; and if the group is done by then, one of the events has notified it.
pub proof fn law_parked_handle_is_woken<T, E>(
    state: State<T, E>,
    handle: u64,
    later: Seq<Event<T, E>>,
)
    requires
        state.wf(),
        state.waiters().contains_key(handle),
        state.admits_all(later),
        forall|k: int| 0 <= k < later.len() ==> (#[trigger] later[k]).actor() != handle,
    ensures
        state.after_all(later).wf(),
        state.after_all(later).is_waiting() ==> state.after_all(later).waiters().contains_pair(
            handle,
            state.waiters()[handle],
        ),
        state.after_all(later).is_done() ==> exists|k: int|
            0 <= k < later.len() && (#[trigger] state.after_all(later.take(k))).woken_by(
                later[k],
            ).contains(handle),
    decreases later.len(),
{
    if later.len() > 0 {
        let before = later.drop_last();
        assert forall|k: int| 0 <= k < before.len() implies (#[trigger] before[k]).actor()
            != handle by {
            assert(before[k] == later[k]);
        }
        law_parked_handle_is_woken(state, handle, before);
        lemma_event_keeps_wf(state.after_all(before), later.last());
        if state.after_all(later).is_done() {
            if state.after_all(before).is_done() {
                let k = choose|k: int|
                    0 <= k < before.len() && (#[trigger] state.after_all(before.take(k))).woken_by(
                        before[k],
                    ).contains(handle);
                assert(before.take(k) == later.take(k));
            } else {
                assert(later.take(later.len() - 1) == before);
            }
        }
    }
}

/// Clean release of a waiter. When a handle that does not hold the role is
/// released while the group waits, it is no longer parked, nobody is
/// notified, and nothing else changes: the role stays where it is and every
/// other parked handle stays parked with its task. Whatever happens
/// afterwards, the released handle is never notified again.
pub proof fn law_waiter_release_is_clean<T, E>(
    state: State<T, E>,
    handle: u64,
    later: Seq<Event<T, E>>,
)
    requires
        state.wf(),
        state.is_waiting(),
        state.is_live(handle),
        state.poller != Some(handle),
        state.released(handle).admits_all(later),
    ensures
        state.released(handle).wf(),
        state.released(handle).waiters() == state.waiters().remove(handle),
        state.released(handle).poller == state.poller,
        state.released(handle).is_waiting(),
        state.woken_by_release(handle) == Set::<u64>::empty(),
        forall|k: int|
            0 <= k < later.len() ==> !(#[trigger] state.released(handle).after_all(
                later.take(k),
            )).woken_by(later[k]).contains(handle),
{
    let left = state.released(handle);
    assert forall|k: int| 0 <= k < later.len() implies !(#[trigger] left.after_all(
        later.take(k),
    )).woken_by(later[k]).contains(handle) by {
        lemma_history_prefix(left, later, k);
        law_ids_are_not_reused(left, handle, later.take(k));
    }
}

/// Ids are not used twice. An id that was handed out and whose handle is no
/// longer live never becomes live again, and no task is kept for it.
pub proof fn law_ids_are_not_reused<T, E>(state: State<T, E>, handle: u64, later: Seq<Event<T, E>>)
    requires
        state.wf(),
        !state.is_live(handle),
        handle < state.next_id,
        state.admits_all(later),
    ensures
        state.after_all(later).wf(),
        !state.after_all(later).is_live(handle),
        !state.after_all(later).waiters().contains_key(handle),
        handle < state.after_all(later).next_id,
    decreases later.len(),
{
    if later.len() > 0 {
        law_ids_are_not_reused(state, handle, later.drop_last());
        lemma_event_keeps_wf(state.after_all(later.drop_last()), later.last());
    }
}

/// Idempotence. Once a group is done, whatever its handles do afterwards,
/// new handles among them, a poll of any live handle changes nothing and
/// yields a duplicate of the result that was kept.
pub proof fn law_done_is_idempotent<T: Clone, E: Clone>(
    state: State<T, E>,
    later: Seq<Event<T, E>>,
    handle: u64,
    turn: Turn<T, E>,
)
    requires
        state.wf(),
        state.is_done(),
        state.admits_all(later),
        state.after_all(later).is_live(handle),
        state.after_all(later).grants(handle, turn),
    ensures
        state.after_all(later).cached() == state.cached(),
        state.after_all(later).begun(handle) == state.after_all(later),
        turn matches Turn::Resolved(copy) && duplicate_of(state.cached()->0, copy),
{
    law_done_is_final(state, later);
}

/// A copy made of a done group reads the kept result. Making the copy
/// leaves the result and the poller entry as they were; the copy is live, and
/// its first poll changes nothing and yields a duplicate of the result.
pub proof fn law_copy_of_done_reads_result<T: Clone, E: Clone>(
    state: State<T, E>,
    from: u64,
    turn: Turn<T, E>,
)
    requires
        state.wf(),
        state.is_done(),
        state.is_live(from),
        state.next_id < u64::MAX,
        state.duplicated().grants(state.next_id, turn),
    ensures
        state.duplicated().wf(),
        state.duplicated().phase == state.phase,
        state.duplicated().poller == state.poller,
        state.duplicated().is_live(state.next_id),
        state.duplicated().begun(state.next_id) == state.duplicated(),
        turn matches Turn::Resolved(copy) && duplicate_of(state.cached()->0, copy),
{
}

/// A set of handles has one listing only: the ids that an operation reports
/// as notified are determined by the set of handles that it notifies.
pub proof fn law_listing_is_unique(a: Seq<u64>, b: Seq<u64>, handles: Set<u64>)
    requires
        lists(a, handles),
        lists(b, handles),
    ensures
        a == b,
    decreases a.len(),
{
    a.unique_seq_to_set();
    b.unique_seq_to_set();
    if a.len() > 0 {
        let top = a.last();
        assert(a.to_set().contains(a[a.len() - 1]));
        assert(b.to_set().contains(b[b.len() - 1]));
        let rest = handles.remove(top);
        assert forall|id: u64| a.drop_last().to_set().contains(id) <==> rest.contains(id) by {
            if rest.contains(id) {
                let k = a.index_of(id);
                assert(a.drop_last()[k] == id);
            }
        }
        assert forall|id: u64| b.drop_last().to_set().contains(id) <==> rest.contains(id) by {
            if rest.contains(id) {
                let k = b.index_of(id);
                assert(b.drop_last()[k] == id);
            }
        }
        law_listing_is_unique(a.drop_last(), b.drop_last(), rest);
        assert(b == b.drop_last().push(top));
    }
}

} // verus!
