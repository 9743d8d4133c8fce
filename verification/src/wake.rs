//! Tasks: what is kept for a parked handle, and how it is woken.
//!
//! A handle that has to wait leaves behind the task that polled it. The tasks
//! are kept by handle id and notified together. All calls into the task
//! system of the `futures` crate are made here.

use crate::state::lists;
use futures::task::Task;
use std::collections::BTreeMap;
use vstd::prelude::*;
use vstd::std_specs::cmp::OrdSpec;
use vstd::std_specs::iter::IteratorSpec;

verus! {

/// `futures::task::Task`: a handle on a running task. Nothing of its content
/// is visible to the proofs; it is stored and notified.
#[verifier::external_type_specification]
#[verifier::external_body]
pub struct ExTask(futures::task::Task);

/// Calls `futures::task::Task::notify`, which tells the executor of the task
/// to poll it again. What the executor does then is not part of the proofs:
/// nothing is claimed of the call.
#[verifier::external_body]
fn notify_task(task: &Task) {
    task.notify();
}

/// Calls `futures::task::is_in_task` and, where it says that a task is
/// running, `futures::task::current`, which hands out that task and would
/// panic without one. The result is the running task, or `None` outside a
/// task. Whether a task is running, and which, depends on where the call is
/// made, so nothing is claimed of the result.
#[verifier::external_body]
pub(crate) fn running_task() -> (task: Option<Task>) {
    if futures::task::is_in_task() {
        Some(futures::task::current())
    } else {
        None
    }
}

/// Notifies every task of `waiters`, in the order of their ids, and returns
/// the ids whose task was notified, in that order.
pub fn wake_all(waiters: &BTreeMap<u64, Task>) -> (woken: Vec<u64>)
    ensures
        lists(woken@, waiters@.dom()),
{
    broadcast use vstd::std_specs::btree::group_btree_axioms;
    let mut woken: Vec<u64> = Vec::new();
    for entry in it: waiters.iter()
        invariant
            woken@.len() == it.index(),
            it.seq() == waiters.iter().remaining(),
            vstd::std_specs::btree::increasing_seq(
                it.seq().map_values(|kv: (&u64, &Task)| *kv.0),
            ),
            forall|k: int| 0 <= k < woken@.len() ==> woken@[k] == *(#[trigger] it.seq()[k]).0,
    {
        notify_task(entry.1);
        woken.push(*entry.0);
    }
    proof {
        let entries = waiters.iter().remaining();
        let ids = entries.map_values(|kv: (&u64, &Task)| *kv.0);
        assert forall|i: int, j: int| 0 <= i < j < woken@.len() implies woken@[i] < woken@[j] by {
            assert(ids[i].cmp_spec(&ids[j]) is Less);
        }
        assert forall|id: u64| woken@.to_set().contains(id) <==> waiters@.dom().contains(id) by {
            if waiters@.contains_key(id) {
                let k = entries.index_of((&id, &waiters@[id]));
                assert(woken@[k] == id);
            }
            if woken@.contains(id) {
                let k = woken@.index_of(id);
                assert(waiters@.contains_key(*entries[k].0));
            }
        }
    }
    woken
}

} // verus!
