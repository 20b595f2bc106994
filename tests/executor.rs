use std::cell::Cell;
use std::rc::Rc;

use mini_async::executor::{spawn, BlockOn, Executor, ReadyQueue, Waker};
use mini_async::future::{Future, PollState};
use mini_async::http::{Http, HttpGetFuture, HttpState, ReadOutcome};
use mini_async::reactor::Reactor;
use mini_async::runtime::init;
use std::cell::RefCell;

/// Completes on its `ready_after`-th poll and counts every poll it gets.
struct Countdown {
    name: &'static str,
    ready_after: u32,
    polls: Rc<Cell<u32>>,
    last_waker: Rc<Cell<Option<Waker>>>,
}

impl Future for Countdown {
    type Output = String;

    fn is_pending(&self) -> bool {
        self.polls.get() < self.ready_after
    }

    fn poll(&mut self, waker: &Waker) -> PollState<String> {
        self.polls.set(self.polls.get() + 1);
        self.last_waker.set(Some(*waker));
        if self.polls.get() >= self.ready_after {
            PollState::Ready(self.name.to_string())
        } else {
            PollState::NotReady
        }
    }
}

fn countdown(name: &'static str, ready_after: u32) -> (Countdown, Rc<Cell<u32>>, Rc<Cell<Option<Waker>>>) {
    let polls = Rc::new(Cell::new(0));
    let last = Rc::new(Cell::new(None));
    (Countdown { name, ready_after, polls: polls.clone(), last_waker: last.clone() }, polls, last)
}

#[test]
fn spawn_does_not_poll() {
    let mut exec: Executor<Countdown> = Executor::new();
    let (f, polls, _) = countdown("a", 1);
    let id = spawn(&mut exec, f);
    assert_eq!(id, 0);
    assert_eq!(polls.get(), 0);
    assert_eq!(exec.task_count(), 1);
}

#[test]
fn ready_task_is_reported_once_and_dropped() {
    let mut exec: Executor<Countdown> = Executor::new();
    let (f, polls, _) = countdown("a", 1);
    spawn(&mut exec, f);
    let done = exec.run_ready(3);
    assert_eq!(done, vec![(0, "a".to_string())]);
    assert_eq!(polls.get(), 1);
    assert_eq!(exec.task_count(), 0);
    assert_eq!(exec.next_step(), BlockOn::Done);
    // A stale wake of the finished task is skipped.
    let mut woken = ReadyQueue::new();
    Waker { thread: 3, task_id: 0 }.wake(&mut woken);
    let (step, done) = exec.block_on_step(&mut woken, 3);
    assert_eq!(step, BlockOn::Done);
    assert!(done.is_empty());
    assert_eq!(polls.get(), 1);
}

#[test]
fn pending_task_waits_for_a_wake() {
    let mut exec: Executor<Countdown> = Executor::new();
    let (f, polls, last) = countdown("slow", 3);
    spawn(&mut exec, f);
    let mut woken = ReadyQueue::new();
    let (step, done) = exec.block_on_step(&mut woken, 9);
    assert_eq!(step, BlockOn::Park);
    assert!(done.is_empty());
    assert_eq!(polls.get(), 1);
    assert_eq!(last.get(), Some(Waker { thread: 9, task_id: 0 }));
    // Without a wake nothing is polled.
    let (step, _) = exec.block_on_step(&mut woken, 9);
    assert_eq!(step, BlockOn::Park);
    assert_eq!(polls.get(), 1);
    last.get().unwrap().wake(&mut woken);
    exec.block_on_step(&mut woken, 9);
    assert_eq!(polls.get(), 2);
    last.get().unwrap().wake(&mut woken);
    let (step, done) = exec.block_on_step(&mut woken, 9);
    assert_eq!(step, BlockOn::Done);
    assert_eq!(done, vec![(0, "slow".to_string())]);
    assert_eq!(polls.get(), 3);
}

#[test]
fn every_spawned_future_completes_exactly_once() {
    let mut exec: Executor<Countdown> = Executor::new();
    let mut counters = vec![];
    for (name, n) in [("a", 1), ("b", 2), ("c", 3)] {
        let (f, polls, last) = countdown(name, n);
        spawn(&mut exec, f);
        counters.push((polls, last));
    }
    let mut woken = ReadyQueue::new();
    let mut finished = vec![];
    loop {
        let (step, done) = exec.block_on_step(&mut woken, 1);
        finished.extend(done);
        if step == BlockOn::Done {
            break;
        }
        for (_, last) in &counters {
            if let Some(w) = last.get() {
                w.wake(&mut woken);
            }
        }
    }
    finished.sort();
    assert_eq!(
        finished,
        vec![(0, "a".to_string()), (1, "b".to_string()), (2, "c".to_string())]
    );
    let polls: Vec<u32> = counters.iter().map(|(p, _)| p.get()).collect();
    assert_eq!(polls, vec![1, 2, 3]);
}

#[test]
fn ready_queue_is_last_in_first_out() {
    let mut exec: Executor<Countdown> = Executor::new();
    let (a, _, _) = countdown("a", 1);
    let (b, _, _) = countdown("b", 1);
    spawn(&mut exec, a);
    spawn(&mut exec, b);
    let done = exec.run_ready(0);
    assert_eq!(done, vec![(1, "b".to_string()), (0, "a".to_string())]);
}

#[test]
fn double_wake_queues_twice_and_is_harmless() {
    let mut q = ReadyQueue::new();
    let w = Waker { thread: 2, task_id: 5 };
    w.wake(&mut q);
    w.wake(&mut q);
    assert_eq!(q.len(), 2);
    assert_eq!(q.pop(), Some(5));
    assert_eq!(q.pop(), Some(5));
    assert_eq!(q.pop(), None);

    let mut exec: Executor<Countdown> = Executor::new();
    let (f, polls, last) = countdown("x", 2);
    spawn(&mut exec, f);
    exec.run_ready(2);
    assert_eq!(polls.get(), 1);
    let mut woken = ReadyQueue::new();
    let waker = last.get().unwrap();
    waker.wake(&mut woken);
    waker.wake(&mut woken);
    let (step, done) = exec.block_on_step(&mut woken, 2);
    // The first entry completes the task; the second finds no task.
    assert_eq!(polls.get(), 2);
    assert_eq!(done, vec![(0, "x".to_string())]);
    assert_eq!(step, BlockOn::Done);
}

#[test]
fn init_gives_empty_runtime() {
    let (exec, mut reactor): (Executor<Countdown>, _) = init();
    assert_eq!(exec.task_count(), 0);
    assert_eq!(exec.next_step(), BlockOn::Done);
    assert_eq!(reactor.next_id(), 1);
    assert_eq!(reactor.next_id(), 2);
}

#[test]
fn schedule_appends_in_order() {
    let mut q = ReadyQueue::new();
    q.push(1);
    let mut other = ReadyQueue::new();
    other.push(2);
    other.push(3);
    q.append(&mut other);
    assert_eq!(other.len(), 0);
    assert_eq!(q.pop(), Some(3));
    assert_eq!(q.pop(), Some(2));
    assert_eq!(q.pop(), Some(1));
}

/// A GET whose socket reads are scripted, one batch per poll.
struct ScriptedGet {
    inner: HttpGetFuture,
    reactor: Rc<RefCell<Reactor>>,
    batches: Vec<Vec<ReadOutcome>>,
    polls: Rc<Cell<u32>>,
}

impl Future for ScriptedGet {
    type Output = String;

    fn is_pending(&self) -> bool {
        self.inner.current_state() != HttpState::Done
    }

    fn poll(&mut self, waker: &Waker) -> PollState<String> {
        self.polls.set(self.polls.get() + 1);
        let mut reactor = self.reactor.borrow_mut();
        if self.inner.current_state() == HttpState::NotStarted {
            self.inner.start(waker, &mut reactor).unwrap();
        }
        let batch = self.batches.remove(0);
        self.inner.poll(&batch, waker, &mut reactor)
    }
}

#[test]
fn hello_scenario_parks_once() {
    let reactor = Rc::new(RefCell::new(Reactor::new()));
    let token = reactor.borrow_mut().next_id();
    let polls = Rc::new(Cell::new(0));
    let future = ScriptedGet {
        inner: Http::get("/hello", token),
        reactor: reactor.clone(),
        batches: vec![
            vec![ReadOutcome::WouldBlock],
            vec![ReadOutcome::Data(b"hello".to_vec()), ReadOutcome::Eof],
        ],
        polls: polls.clone(),
    };
    let mut exec: Executor<ScriptedGet> = Executor::new();
    let id = spawn(&mut exec, future);
    let mut woken = ReadyQueue::new();
    let mut parks = 0;
    let mut result = None;
    loop {
        let (step, done) = exec.block_on_step(&mut woken, 4);
        for (k, out) in done {
            assert_eq!(k, id);
            result = Some(out);
        }
        match step {
            BlockOn::Done => break,
            BlockOn::Park => {
                parks += 1;
                // The server's bytes arrive: the reactor reports the token.
                for w in reactor.borrow().dispatch(&vec![token]) {
                    w.wake(&mut woken);
                }
            }
        }
    }
    assert_eq!(parks, 1);
    assert_eq!(polls.get(), 2);
    assert_eq!(result, Some("hello".to_string()));
    assert_eq!(reactor.borrow().waker_for(token), None);
}
