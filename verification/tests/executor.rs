//! Forked futures run by tasks of `futures::executor`, with a one-shot
//! channel as the underlying computation.

use forked_promise::handle::{ForkedPromise, Group};
use forked_promise::state::{Outcome, Turn};
use futures::executor::{spawn, Notify, Spawn};
use futures::sync::oneshot::{channel, Canceled, Receiver};
use futures::{Async, Future, Poll};
use std::cell::RefCell;
use std::rc::Rc;
use std::sync::{Arc, Mutex};

/// Records the number of each task that was notified.
struct Tally {
    seen: Mutex<Vec<usize>>,
}

impl Notify for Tally {
    fn notify(&self, id: usize) {
        self.seen.lock().unwrap().push(id);
    }
}

fn tally() -> Arc<Tally> {
    Arc::new(Tally { seen: Mutex::new(Vec::new()) })
}

fn seen(tally: &Arc<Tally>) -> Vec<usize> {
    let mut all = tally.seen.lock().unwrap().clone();
    all.sort();
    all
}

struct Shared<F: Future> {
    future: RefCell<F>,
    group: RefCell<Group<F::Item, F::Error>>,
}

/// One branch of a forked future, for the executor to poll.
struct Branch<F: Future> {
    handle: Option<ForkedPromise>,
    shared: Rc<Shared<F>>,
}

impl<F: Future> Branch<F> {
    fn first(future: F) -> Branch<F> {
        let (handle, group) = ForkedPromise::new();
        let shared = Shared { future: RefCell::new(future), group: RefCell::new(group) };
        Branch { handle: Some(handle), shared: Rc::new(shared) }
    }

    fn another(&self) -> Branch<F> {
        let handle = self.handle.as_ref().unwrap().duplicate(&mut self.shared.group.borrow_mut());
        Branch { handle: Some(handle), shared: self.shared.clone() }
    }
}

impl<F: Future> Drop for Branch<F> {
    fn drop(&mut self) {
        if let Some(handle) = self.handle.take() {
            handle.release(&mut self.shared.group.borrow_mut());
        }
    }
}

impl<F> Future for Branch<F>
where
    F: Future,
    F::Item: Clone,
    F::Error: Clone,
{
    type Item = F::Item;
    type Error = F::Error;

    fn poll(&mut self) -> Poll<F::Item, F::Error> {
        let handle = self.handle.as_ref().unwrap();
        let turn = handle.poll_begin(&mut self.shared.group.borrow_mut());
        match turn {
            Turn::Resolved(Ok(value)) => return Ok(Async::Ready(value)),
            Turn::Resolved(Err(error)) => return Err(error),
            Turn::Wait => {
                assert!(handle.park_current(&mut self.shared.group.borrow_mut()));
                return Ok(Async::NotReady);
            }
            Turn::Drive => (),
        }
        let outcome = match self.shared.future.borrow_mut().poll() {
            Ok(Async::NotReady) => Outcome::Pending,
            Ok(Async::Ready(value)) => Outcome::Ready(value),
            Err(error) => Outcome::Failed(error),
        };
        match handle.poll_end(&mut self.shared.group.borrow_mut(), outcome).0 {
            Outcome::Pending => Ok(Async::NotReady),
            Outcome::Ready(value) => Ok(Async::Ready(value)),
            Outcome::Failed(error) => Err(error),
        }
    }
}

type Run = Spawn<Branch<Receiver<u32>>>;

#[test]
fn both_tasks_finish_with_the_sent_value() {
    let tally = tally();
    let (sender, receiver) = channel::<u32>();
    let first = Branch::first(receiver);
    let second = first.another();
    let mut run0: Run = spawn(first);
    let mut run1: Run = spawn(second);

    assert_eq!(run0.poll_future_notify(&tally, 10), Ok(Async::NotReady));
    assert_eq!(run1.poll_future_notify(&tally, 11), Ok(Async::NotReady));
    assert_eq!(seen(&tally), Vec::<usize>::new());

    assert_eq!(sender.send(42), Ok(()));
    assert_eq!(seen(&tally), vec![10]);

    assert_eq!(run0.poll_future_notify(&tally, 10), Ok(Async::Ready(42)));
    assert_eq!(seen(&tally), vec![10, 11]);
    assert_eq!(run1.poll_future_notify(&tally, 11), Ok(Async::Ready(42)));
    assert_eq!(run1.poll_future_notify(&tally, 11), Ok(Async::Ready(42)));
    assert_eq!(run0.poll_future_notify(&tally, 10), Ok(Async::Ready(42)));
    assert_eq!(seen(&tally), vec![10, 11]);
}

#[test]
fn dropped_poller_task_hands_over_to_the_waiting_task() {
    let tally = tally();
    let (sender, receiver) = channel::<u32>();
    let first = Branch::first(receiver);
    let second = first.another();
    let mut run0: Run = spawn(first);
    let mut run1: Run = spawn(second);

    assert_eq!(run0.poll_future_notify(&tally, 20), Ok(Async::NotReady));
    assert_eq!(run1.poll_future_notify(&tally, 21), Ok(Async::NotReady));
    drop(run0);
    assert_eq!(seen(&tally), vec![21]);

    assert_eq!(run1.poll_future_notify(&tally, 21), Ok(Async::NotReady));
    assert_eq!(sender.send(5), Ok(()));
    assert_eq!(seen(&tally), vec![21, 21]);
    assert_eq!(run1.poll_future_notify(&tally, 21), Ok(Async::Ready(5)));
}

#[test]
fn dropped_waiting_task_is_left_alone() {
    let tally = tally();
    let (sender, receiver) = channel::<u32>();
    let first = Branch::first(receiver);
    let second = first.another();
    let third = first.another();
    let mut run0: Run = spawn(first);
    let mut run1: Run = spawn(second);
    let mut run2: Run = spawn(third);

    assert_eq!(run0.poll_future_notify(&tally, 30), Ok(Async::NotReady));
    assert_eq!(run1.poll_future_notify(&tally, 31), Ok(Async::NotReady));
    assert_eq!(run2.poll_future_notify(&tally, 32), Ok(Async::NotReady));
    drop(run1);
    assert_eq!(seen(&tally), Vec::<usize>::new());

    assert_eq!(sender.send(6), Ok(()));
    assert_eq!(run0.poll_future_notify(&tally, 30), Ok(Async::Ready(6)));
    assert_eq!(seen(&tally), vec![30, 32]);
    assert_eq!(run2.poll_future_notify(&tally, 32), Ok(Async::Ready(6)));
}

#[test]
fn a_dropped_sender_fails_every_branch_alike() {
    let tally = tally();
    let (sender, receiver) = channel::<u32>();
    let first = Branch::first(receiver);
    let second = first.another();
    let mut run0: Run = spawn(first);
    let mut run1: Run = spawn(second);

    assert_eq!(run1.poll_future_notify(&tally, 41), Ok(Async::NotReady));
    assert_eq!(run0.poll_future_notify(&tally, 40), Ok(Async::NotReady));
    drop(sender);
    assert_eq!(seen(&tally), vec![41]);
    assert_eq!(run1.poll_future_notify(&tally, 41), Err(Canceled));
    assert_eq!(seen(&tally), vec![40, 41]);
    assert_eq!(run0.poll_future_notify(&tally, 40), Err(Canceled));

    let late = run0.get_ref().another();
    let mut run2: Run = spawn(late);
    assert_eq!(run2.poll_future_notify(&tally, 42), Err(Canceled));
    assert_eq!(seen(&tally), vec![40, 41]);
}

#[test]
fn park_current_keeps_the_running_task() {
    let tally = tally();
    let (h0, mut group): (ForkedPromise, Group<u32, String>) = ForkedPromise::new();
    let h1 = h0.duplicate(&mut group);
    assert_eq!(h0.poll_begin(&mut group), Turn::Drive);
    assert_eq!(h1.poll_begin(&mut group), Turn::Wait);
    let parked = spawn(()).poll_fn_notify(&tally, 77, |_| h1.park_current(&mut group));
    assert!(parked);
    assert!(group.is_parked(1));
    assert_eq!(group.parked_count(), 1);
    assert_eq!(group.poller(), Some(0));
    assert_eq!(h0.poll_end(&mut group, Outcome::Ready(1)), (Outcome::Ready(1), vec![1]));
    assert_eq!(seen(&tally), vec![77]);
}

#[test]
fn park_current_outside_a_task_changes_nothing() {
    let (h0, mut group): (ForkedPromise, Group<u32, String>) = ForkedPromise::new();
    let h1 = h0.duplicate(&mut group);
    assert_eq!(h0.poll_begin(&mut group), Turn::Drive);
    assert_eq!(h1.poll_begin(&mut group), Turn::Wait);
    assert!(!h1.park_current(&mut group));
    assert!(!group.is_parked(1));
    assert_eq!(group.parked_count(), 0);
    assert_eq!(group.poller(), Some(0));
    assert!(!group.is_done());
}
