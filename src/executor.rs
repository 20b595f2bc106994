//! The executor: a task table keyed by id, a LIFO ready queue, and the
//! wakers that put tasks back on that queue.
use vstd::prelude::*;

use std::collections::HashMap;

use crate::future::{Future, PollState};

verus! {

broadcast use vstd::std_specs::hash::group_hash_axioms;

/// A capability to re-enqueue one task: the task's id and the identity of
/// the executor thread to resume once the id is queued.
#[derive(Clone, Copy, PartialEq, Eq, Debug)]
pub struct Waker {
    pub thread: u64,
    pub task_id: usize,
}

/// The ids of the tasks waiting to be polled, popped last-in first-out.
pub struct ReadyQueue {
    ids: Vec<usize>,
}

impl View for ReadyQueue {
    type V = Seq<usize>;

    closed spec fn view(&self) -> Seq<usize> {
        self.ids@
    }
}

impl ReadyQueue {
    pub fn new() -> (r: ReadyQueue)
        ensures
            r@ == Seq::<usize>::empty(),
    {
        ReadyQueue { ids: Vec::new() }
    }

    pub fn push(&mut self, id: usize)
        ensures
            final(self)@ == old(self)@.push(id),
    {
        self.ids.push(id);
    }

    /// Takes the most recently queued id.
    pub fn pop(&mut self) -> (r: Option<usize>)
        ensures
            old(self)@.len() == 0 ==> r is None && final(self)@ == old(self)@,
            old(self)@.len() > 0 ==> r == Some(old(self)@.last()) && final(self)@ == old(self)@.drop_last(),
    {
        self.ids.pop()
    }

    pub fn len(&self) -> (r: usize)
        ensures
            r == self@.len(),
    {
        self.ids.len()
    }

    /// Moves every id of `other` behind those already queued, in order.
    pub fn append(&mut self, other: &mut ReadyQueue)
        ensures
            final(self)@ == old(self)@ + old(other)@,
            final(other)@ == Seq::<usize>::empty(),
    {
        self.ids.append(&mut other.ids);
    }
}

impl Waker {
    /// Queues the task's id. Waking a task that has already finished, or
    /// waking it twice, only leaves an id that the executor skips.
    pub fn wake(&self, ready_queue: &mut ReadyQueue)
        ensures
            final(ready_queue)@ == old(ready_queue)@.push(self.task_id),
    {
        ready_queue.push(self.task_id);
    }
}

/// One entry of an executor's ghost record of what happened to its tasks.
pub enum TaskEvent {
    Polled(usize),
    Finished(usize),
}

/// The task that an event is about.
pub open spec fn event_task(e: TaskEvent) -> usize {
    match e {
        TaskEvent::Polled(id) => id,
        TaskEvent::Finished(id) => id,
    }
}

/// Whether `h[from..]` holds a poll of task `id`.
pub open spec fn polled_since(h: Seq<TaskEvent>, from: int, id: usize) -> bool {
    exists|i: int| from <= i < h.len() && #[trigger] h[i] == TaskEvent::Polled(id)
}

/// Whether `h[from..]` holds the completion of task `id`.
pub open spec fn finished_since(h: Seq<TaskEvent>, from: int, id: usize) -> bool {
    exists|i: int| from <= i < h.len() && #[trigger] h[i] == TaskEvent::Finished(id)
}

/// How many polls of task `id` the history `h` records.
pub open spec fn polls_of(h: Seq<TaskEvent>, id: usize) -> nat
    decreases h.len(),
{
    if h.len() == 0 {
        0
    } else {
        polls_of(h.drop_last(), id) + if h.last() == TaskEvent::Polled(id) {
            1nat
        } else {
            0
        }
    }
}

/// Each completion is recorded once, and no poll of a task follows its
/// completion.
pub open spec fn history_law(h: Seq<TaskEvent>) -> bool {
    forall|i: int, j: int|
        #![trigger h[i], h[j]]
        0 <= i < j < h.len() && h[i] is Finished ==> h[j] != TaskEvent::Polled(h[i]->Finished_0)
            && h[j] != TaskEvent::Finished(h[i]->Finished_0)
}

/// What the executor's loop does once the ready queue is empty.
#[derive(PartialEq, Eq, Debug, Clone, Copy)]
pub enum BlockOn {
    /// Tasks remain: sleep until a waker resumes this thread.
    Park,
    /// No task remains: return.
    Done,
}

/// Owns the task table and the ready queue; polls each ready task once per
/// pass, removing it from the table for the duration of the poll.
pub struct Executor<F> {
    tasks: HashMap<usize, F>,
    ready_queue: ReadyQueue,
    next_id: usize,
    history: Ghost<Seq<TaskEvent>>,
}

impl<F: Future> Executor<F> {
    pub closed spec fn tasks(&self) -> Map<usize, F> {
        self.tasks@
    }

    pub closed spec fn queue(&self) -> Seq<usize> {
        self.ready_queue@
    }

    pub closed spec fn next_task_id(&self) -> usize {
        self.next_id
    }

    /// Every poll and completion so far, in order.
    pub closed spec fn history(&self) -> Seq<TaskEvent> {
        self.history@
    }

    pub closed spec fn wf(&self) -> bool {
        &&& forall|id: usize| #[trigger] self.tasks@.contains_key(id) ==> id < self.next_id
        &&& forall|id: usize| #[trigger]
            self.tasks@.contains_key(id) ==> self.tasks@[id].is_pending()
        &&& forall|i: int|
            0 <= i < self.history@.len() ==> event_task(#[trigger] self.history@[i]) < self.next_id
        &&& forall|i: int|
            0 <= i < self.history@.len() && #[trigger] self.history@[i] is Finished
                ==> !self.tasks@.contains_key(self.history@[i]->Finished_0)
        &&& history_law(self.history@)
    }

    pub fn new() -> (r: Self)
        ensures
            r.wf(),
            r.tasks() == Map::<usize, F>::empty(),
            r.queue() == Seq::<usize>::empty(),
            r.next_task_id() == 0,
            r.history() == Seq::<TaskEvent>::empty(),
    {
        Executor {
            tasks: HashMap::new(),
            ready_queue: ReadyQueue::new(),
            next_id: 0,
            history: Ghost(Seq::empty()),
        }
    }

    /// Pops the most recently readied id.
    fn pop_ready(&mut self) -> (r: Option<usize>)
        ensures
            final(self).tasks == old(self).tasks,
            final(self).next_id == old(self).next_id,
            final(self).history == old(self).history,
            old(self).ready_queue@.len() == 0 ==> r is None && final(self).ready_queue@ == old(self).ready_queue@,
            old(self).ready_queue@.len() > 0 ==> r == Some(old(self).ready_queue@.last())
                && final(self).ready_queue@ == old(self).ready_queue@.drop_last(),
    {
        self.ready_queue.pop()
    }

    /// Takes task `id` out of the table, if it is there.
    fn get_future(&mut self, id: usize) -> (r: Option<F>)
        ensures
            final(self).tasks@ == old(self).tasks@.remove(id),
            final(self).ready_queue == old(self).ready_queue,
            final(self).next_id == old(self).next_id,
            final(self).history == old(self).history,
            match r {
                Some(f) => old(self).tasks@.contains_key(id) && f == old(self).tasks@[id],
                None => !old(self).tasks@.contains_key(id),
            },
    {
        self.tasks.remove(&id)
    }

    /// The waker that this executor hands to task `id` when run on `thread`.
    pub fn get_waker(&self, id: usize, thread: u64) -> (w: Waker)
        ensures
            w == (Waker { thread, task_id: id }),
    {
        Waker { thread, task_id: id }
    }

    fn insert_task(&mut self, id: usize, task: F)
        ensures
            final(self).tasks@ == old(self).tasks@.insert(id, task),
            final(self).ready_queue == old(self).ready_queue,
            final(self).next_id == old(self).next_id,
            final(self).history == old(self).history,
    {
        self.tasks.insert(id, task);
    }

    /// The id that the next spawned task gets.
    pub fn peek_next_id(&self) -> (r: usize)
        ensures
            r == self.next_task_id(),
    {
        self.next_id
    }

    /// The number of tasks that are not finished.
    pub fn task_count(&self) -> (r: usize)
        ensures
            r == self.tasks().len(),
    {
        self.tasks.len()
    }

    /// Moves the ids that wakers queued elsewhere onto this executor's queue.
    pub fn schedule(&mut self, woken: &mut ReadyQueue)
        requires
            old(self).wf(),
        ensures
            final(self).wf(),
            final(self).queue() == old(self).queue() + old(woken)@,
            final(woken)@ == Seq::<usize>::empty(),
            final(self).tasks() == old(self).tasks(),
            final(self).next_task_id() == old(self).next_task_id(),
            final(self).history() == old(self).history(),
    {
        self.ready_queue.append(woken);
    }

    /// Puts a polled task where its result sends it: back into the table
    /// if it is not ready; otherwise it stays out of the table, its id and
    /// value join `finished`, and its completion is recorded.
    fn settle(
        &mut self,
        id: usize,
        fut: F,
        polled: PollState<F::Output>,
        finished: &mut Vec<(usize, F::Output)>,
    )
        requires
            old(self).wf(),
            !old(self).tasks@.contains_key(id),
            id < old(self).next_id,
            polled is NotReady <==> fut.is_pending(),
            forall|i: int|
                0 <= i < old(self).history@.len() ==> #[trigger] old(self).history@[i]
                    != TaskEvent::Finished(id),
        ensures
            final(self).wf(),
            final(self).ready_queue@ == old(self).ready_queue@,
            final(self).next_id == old(self).next_id,
            polled is NotReady ==> final(self).tasks@ == old(self).tasks@.insert(id, fut)
                && final(finished)@ == old(finished)@ && final(self).history@ == old(self).history@,
            polled matches PollState::Ready(out) ==> final(self).tasks@ == old(self).tasks@
                && final(finished)@ == old(finished)@.push((id, out)) && final(self).history@
                == old(self).history@.push(TaskEvent::Finished(id)),
    {
        match polled {
            PollState::NotReady => {
                self.insert_task(id, fut);
            },
            PollState::Ready(out) => {
                proof {
                    let h = self.history@;
                    self.history@ = h.push(TaskEvent::Finished(id));
                    assert forall|i: int, j: int|
                        #![trigger self.history@[i], self.history@[j]]
                        0 <= i < j < self.history@.len() && self.history@[i] is Finished
                            implies self.history@[j] != TaskEvent::Polled(
                            self.history@[i]->Finished_0,
                        ) && self.history@[j] != TaskEvent::Finished(
                            self.history@[i]->Finished_0,
                        ) by {
                        assert(self.history@[i] == h[i]);
                        if j < h.len() {
                            assert(self.history@[j] == h[j]);
                        }
                    }
                    assert forall|i: int|
                        0 <= i < self.history@.len() implies event_task(
                            #[trigger] self.history@[i],
                        ) < self.next_id by {
                        if i < h.len() {
                            assert(self.history@[i] == h[i]);
                        }
                    }
                    assert forall|i: int|
                        0 <= i < self.history@.len() && #[trigger] self.history@[i] is Finished
                            implies !self.tasks@.contains_key(self.history@[i]->Finished_0) by {
                        if i < h.len() {
                            assert(self.history@[i] == h[i]);
                        }
                    }
                }
                finished.push((id, out));
            },
        }
    }

    /// Polls every queued task, last queued first, until the queue is empty.
    /// An id whose task is not in the table (it finished, or was woken
    /// twice) is skipped. Each polled task is removed from the table for the
    /// poll and then settled by its result (see `settle`); the finished ones
    /// are returned, with their values, in the order in which they completed.
    /// A task is polled at most once per entry of the queue.
    pub fn run_ready(&mut self, thread: u64) -> (finished: Vec<(usize, F::Output)>)
        requires
            old(self).wf(),
        ensures
            final(self).wf(),
            final(self).queue() == Seq::<usize>::empty(),
            final(self).next_task_id() == old(self).next_task_id(),
            old(self).history().len() <= final(self).history().len(),
            final(self).history().subrange(0, old(self).history().len() as int) == old(self).history(),
            forall|id: usize| #[trigger]
                final(self).tasks().contains_key(id) ==> old(self).tasks().contains_key(id),
            forall|id: usize|
                #![trigger old(self).tasks().contains_key(id)]
                old(self).tasks().contains_key(id) && !old(self).queue().contains(id) ==> final(self).tasks().contains_key(id) && final(self).tasks()[id] == old(self).tasks()[id],
            forall|id: usize|
                #![trigger old(self).queue().contains(id)]
                old(self).queue().contains(id) && old(self).tasks().contains_key(id)
                    ==> polled_since(final(self).history(), old(self).history().len() as int, id),
            forall|id: usize|
                #[trigger] polls_of(
                    final(self).history().subrange(
                        old(self).history().len() as int,
                        final(self).history().len() as int,
                    ),
                    id,
                ) <= occurrences(old(self).queue(), id),
            forall|i: int|
                #![trigger final(self).history()[i]]
                old(self).history().len() <= i < final(self).history().len() ==> {
                    let id = event_task(final(self).history()[i]);
                    old(self).queue().contains(id) && old(self).tasks().contains_key(id)
                },
            forall|k: int|
                #![trigger finished[k]]
                0 <= k < finished.len() ==> old(self).tasks().contains_key(finished[k].0)
                    && !final(self).tasks().contains_key(finished[k].0) && finished_since(
                    final(self).history(),
                    old(self).history().len() as int,
                    finished[k].0,
                ),
            forall|id: usize|
                #![trigger final(self).tasks().contains_key(id)]
                old(self).tasks().contains_key(id) && !final(self).tasks().contains_key(id)
                    ==> exists|k: int| 0 <= k < finished.len() && #[trigger] finished[k].0 == id,
            forall|a: int, b: int|
                #![trigger finished[a], finished[b]]
                0 <= a < b < finished.len() ==> finished[a].0 != finished[b].0,
    {
        let ghost old_tasks = self.tasks@;
        let ghost q = self.ready_queue@;
        let ghost h0 = self.history@.len() as int;
        let ghost old_history = self.history@;
        let mut finished: Vec<(usize, F::Output)> = Vec::new();
        proof {
            assert forall|x: usize| #[trigger]
                polls_of(self.history@.subrange(h0, self.history@.len() as int), x)
                    + occurrences(self.ready_queue@, x) <= occurrences(q, x) by {
                assert(self.history@.subrange(h0, self.history@.len() as int) =~= Seq::<
                    TaskEvent,
                >::empty());
            }
        }
        while self.ready_queue.len() > 0
            invariant
                self.wf(),
                self.next_id == old(self).next_id,
                self.ready_queue@.len() <= q.len(),
                self.ready_queue@ == q.subrange(0, self.ready_queue@.len() as int),
                h0 == old_history.len(),
                h0 <= self.history@.len(),
                self.history@.subrange(0, h0) == old_history,
                forall|id: usize| #[trigger]
                    self.tasks@.contains_key(id) ==> old_tasks.contains_key(id),
                forall|id: usize|
                    #![trigger old_tasks.contains_key(id)]
                    old_tasks.contains_key(id) && !q.contains(id) ==> self.tasks@.contains_key(id)
                        && self.tasks@[id] == old_tasks[id],
                forall|p: int|
                    #![trigger q[p]]
                    self.ready_queue@.len() <= p < q.len() && old_tasks.contains_key(q[p])
                        ==> polled_since(self.history@, h0, q[p]),
                forall|x: usize| #[trigger]
                    polls_of(self.history@.subrange(h0, self.history@.len() as int), x)
                        + occurrences(self.ready_queue@, x) <= occurrences(q, x),
                forall|i: int|
                    #![trigger self.history@[i]]
                    h0 <= i < self.history@.len() ==> q.contains(event_task(self.history@[i]))
                        && old_tasks.contains_key(event_task(self.history@[i])),
                forall|k: int|
                    #![trigger finished@[k]]
                    0 <= k < finished@.len() ==> old_tasks.contains_key(finished@[k].0)
                        && !self.tasks@.contains_key(finished@[k].0) && finished_since(
                        self.history@,
                        h0,
                        finished@[k].0,
                    ),
                forall|id: usize|
                    #![trigger self.tasks@.contains_key(id)]
                    old_tasks.contains_key(id) && !self.tasks@.contains_key(id) ==> exists|k: int|
                        0 <= k < finished@.len() && #[trigger] finished@[k].0 == id,
                forall|id: usize|
                    #![trigger self.tasks@.contains_key(id)]
                    old_tasks.contains_key(id) && !self.tasks@.contains_key(id) ==> polled_since(
                        self.history@,
                        h0,
                        id,
                    ),
                forall|a: int, b: int|
                    #![trigger finished@[a], finished@[b]]
                    0 <= a < b < finished@.len() ==> finished@[a].0 != finished@[b].0,
            decreases self.ready_queue@.len(),
        {
            let ghost before = *self;
            let ghost qb = self.ready_queue@;
            let ghost fb = finished@;
            let id = self.pop_ready().unwrap();
            let ghost pos = self.ready_queue@.len() as int;
            assert(q[pos] == id);
            assert(q.contains(id));
            assert(self.ready_queue@ =~= qb.drop_last());
            match self.get_future(id) {
                None => {
                    proof {
                        assert forall|x: usize| #[trigger]
                            polls_of(self.history@.subrange(h0, self.history@.len() as int), x)
                                + occurrences(self.ready_queue@, x) <= occurrences(q, x) by {
                            assert(occurrences(qb, x) == occurrences(qb.drop_last(), x) + if qb.last() == x {
                                1nat
                            } else {
                                0
                            });
                        }
                    }
                },
                Some(fut) => {
                    let mut fut = fut;
                    proof {
                        let h = self.history@;
                        self.history@ = h.push(TaskEvent::Polled(id));
                        assert(self.history@[self.history@.len() - 1] == TaskEvent::Polled(id));
                        assert(polled_since(self.history@, h0, id));
                        assert forall|i: int, j: int|
                            #![trigger self.history@[i], self.history@[j]]
                            0 <= i < j < self.history@.len() && self.history@[i] is Finished
                                implies self.history@[j] != TaskEvent::Polled(
                                self.history@[i]->Finished_0,
                            ) && self.history@[j] != TaskEvent::Finished(
                                self.history@[i]->Finished_0,
                            ) by {
                            assert(h[i] == self.history@[i]);
                            if j < h.len() {
                                assert(h[j] == self.history@[j]);
                            }
                        }
                        assert forall|i: int|
                            0 <= i < self.history@.len() implies event_task(
                                #[trigger] self.history@[i],
                            ) < self.next_id by {
                            if i < h.len() {
                                assert(self.history@[i] == h[i]);
                            }
                        }
                        assert forall|i: int|
                            0 <= i < self.history@.len() && #[trigger] self.history@[i] is Finished
                                implies !self.tasks@.contains_key(self.history@[i]->Finished_0) by {
                            if i < h.len() {
                                assert(self.history@[i] == h[i]);
                            }
                        }
                        assert forall|i: int|
                            0 <= i < self.history@.len() - 1 implies #[trigger] self.history@[i]
                                != TaskEvent::Finished(id) by {
                            assert(self.history@[i] == h[i]);
                        }
                        assert(self.history@.subrange(h0, self.history@.len() as int) =~= h.subrange(
                            h0,
                            h.len() as int,
                        ).push(TaskEvent::Polled(id)));
                        assert forall|x: usize| #[trigger]
                            polls_of(self.history@.subrange(h0, self.history@.len() as int), x)
                                + occurrences(self.ready_queue@, x) <= occurrences(q, x) by {
                            let hs = h.subrange(h0, h.len() as int);
                            assert(polls_of(hs, x) + occurrences(qb, x) <= occurrences(q, x));
                            assert(hs.push(TaskEvent::Polled(id)).drop_last() =~= hs);
                            assert(polls_of(hs.push(TaskEvent::Polled(id)), x) == polls_of(hs, x)
                                + if x == id {
                                1nat
                            } else {
                                0
                            });
                            assert(occurrences(qb, x) == occurrences(qb.drop_last(), x) + if qb.last() == x {
                                1nat
                            } else {
                                0
                            });
                            assert(qb.last() == id);
                        }
                        assert(self.history@.subrange(0, h0) =~= old_history);
                    }
                    let ghost mid = *self;
                    let waker = self.get_waker(id, thread);
                    let polled = fut.poll(&waker);
                    self.settle(id, fut, polled, &mut finished);
                    proof {
                        let n = self.history@.len();
                        if n > mid.history@.len() {
                            assert(self.history@[n - 1] == TaskEvent::Finished(id));
                            assert(finished_since(self.history@, h0, id));
                            assert(finished@[fb.len() as int].0 == id);
                        }
                        assert forall|i: int| 0 <= i < mid.history@.len() implies #[trigger] self.history@[i]
                            == mid.history@[i] by {}
                        assert(self.history@.subrange(0, h0) =~= old_history);
                        assert forall|x: usize| #[trigger]
                            polls_of(self.history@.subrange(h0, self.history@.len() as int), x)
                                + occurrences(self.ready_queue@, x) <= occurrences(q, x) by {
                            let ms = mid.history@.subrange(h0, mid.history@.len() as int);
                            assert(polls_of(ms, x) + occurrences(self.ready_queue@, x) <= occurrences(q, x));
                            if n > mid.history@.len() {
                                assert(self.history@.subrange(h0, n as int) =~= ms.push(
                                    TaskEvent::Finished(id),
                                ));
                                assert(ms.push(TaskEvent::Finished(id)).drop_last() =~= ms);
                                assert(polls_of(ms.push(TaskEvent::Finished(id)), x) == polls_of(ms, x));
                            } else {
                                assert(self.history@.subrange(h0, n as int) =~= ms);
                            }
                        }
                        assert forall|p: int|
                            #![trigger q[p]]
                            self.ready_queue@.len() <= p < q.len() && old_tasks.contains_key(q[p])
                                implies polled_since(self.history@, h0, q[p]) by {
                            if p != pos {
                                let i = choose|i: int|
                                    h0 <= i < before.history@.len() && #[trigger] before.history@[i]
                                        == TaskEvent::Polled(q[p]);
                                assert(mid.history@[i] == before.history@[i]);
                                assert(self.history@[i] == TaskEvent::Polled(q[p]));
                            } else {
                                assert(self.history@[mid.history@.len() - 1] == TaskEvent::Polled(
                                    id,
                                ));
                            }
                        }
                        assert forall|x: usize|
                            #![trigger self.tasks@.contains_key(x)]
                            old_tasks.contains_key(x) && !self.tasks@.contains_key(x)
                                implies polled_since(self.history@, h0, x) by {
                            if x == id {
                                assert(self.history@[mid.history@.len() - 1] == TaskEvent::Polled(
                                    id,
                                ));
                            } else {
                                assert(!before.tasks@.contains_key(x));
                                let i = choose|i: int|
                                    h0 <= i < before.history@.len() && #[trigger] before.history@[i]
                                        == TaskEvent::Polled(x);
                                assert(mid.history@[i] == before.history@[i]);
                                assert(self.history@[i] == TaskEvent::Polled(x));
                            }
                        }
                        assert forall|k: int|
                            #![trigger finished@[k]]
                            0 <= k < finished@.len() implies old_tasks.contains_key(finished@[k].0)
                                && !self.tasks@.contains_key(finished@[k].0) && finished_since(
                                self.history@,
                                h0,
                                finished@[k].0,
                            ) by {
                            if k < fb.len() {
                                assert(finished@[k] == fb[k]);
                                let i = choose|i: int|
                                    h0 <= i < before.history@.len() && #[trigger] before.history@[i]
                                        == TaskEvent::Finished(fb[k].0);
                                assert(mid.history@[i] == before.history@[i]);
                                assert(self.history@[i] == TaskEvent::Finished(fb[k].0));
                                assert(!before.tasks@.contains_key(fb[k].0));
                                assert(fb[k].0 != id);
                            }
                        }
                        assert forall|x: usize|
                            #![trigger self.tasks@.contains_key(x)]
                            old_tasks.contains_key(x) && !self.tasks@.contains_key(x)
                                implies exists|k: int|
                                0 <= k < finished@.len() && #[trigger] finished@[k].0 == x by {
                            if x == id {
                                assert(finished@[fb.len() as int].0 == id);
                            } else {
                                assert(!before.tasks@.contains_key(x));
                                let k = choose|k: int| 0 <= k < fb.len() && #[trigger] fb[k].0 == x;
                                assert(finished@[k].0 == x);
                            }
                        }
                        assert forall|a: int, b: int|
                            #![trigger finished@[a], finished@[b]]
                            0 <= a < b < finished@.len() implies finished@[a].0 != finished@[b].0 by {
                            if b < fb.len() {
                                assert(finished@[a] == fb[a] && finished@[b] == fb[b]);
                            } else {
                                assert(finished@[a] == fb[a]);
                                assert(!before.tasks@.contains_key(fb[a].0));
                            }
                        }
                        assert forall|i: int|
                            #![trigger self.history@[i]]
                            h0 <= i < self.history@.len() implies q.contains(
                                event_task(self.history@[i]),
                            ) && old_tasks.contains_key(event_task(self.history@[i])) by {
                            if i < before.history@.len() {
                                assert(mid.history@[i] == before.history@[i]);
                            }
                        }
                    }
                },
            }
        }
        finished
    }

    /// What `block_on` does after a pass over the ready queue.
    pub fn next_step(&self) -> (r: BlockOn)
        ensures
            r == BlockOn::Park <==> self.tasks().len() > 0,
    {
        if self.task_count() > 0 {
            BlockOn::Park
        } else {
            BlockOn::Done
        }
    }

    /// One turn of `block_on`'s loop: queue what was woken, poll everything
    /// ready, then say whether to park the thread or return.
    pub fn block_on_step(&mut self, woken: &mut ReadyQueue, thread: u64) -> (r: (
        BlockOn,
        Vec<(usize, F::Output)>,
    ))
        requires
            old(self).wf(),
        ensures
            final(self).wf(),
            final(self).queue() == Seq::<usize>::empty(),
            final(woken)@ == Seq::<usize>::empty(),
            final(self).next_task_id() == old(self).next_task_id(),
            r.0 == BlockOn::Park <==> final(self).tasks().len() > 0,
            forall|id: usize| #[trigger]
                final(self).tasks().contains_key(id) ==> old(self).tasks().contains_key(id),
            forall|id: usize|
                #![trigger old(self).tasks().contains_key(id)]
                old(self).tasks().contains_key(id) && !old(self).queue().contains(id) && !old(woken)@.contains(id) ==> final(self).tasks().contains_key(id),
            forall|id: usize|
                old(self).tasks().contains_key(id) && (old(self).queue().contains(id) || old(woken)@.contains(id)) ==> #[trigger] polled_since(
                    final(self).history(),
                    old(self).history().len() as int,
                    id,
                ),
            forall|id: usize|
                #[trigger] polls_of(
                    final(self).history().subrange(
                        old(self).history().len() as int,
                        final(self).history().len() as int,
                    ),
                    id,
                ) <= occurrences(old(self).queue() + old(woken)@, id),
            forall|i: int|
                #![trigger final(self).history()[i]]
                old(self).history().len() <= i < final(self).history().len()
                    ==> old(self).tasks().contains_key(event_task(final(self).history()[i])),
    {
        let ghost w = woken@;
        self.schedule(woken);
        proof {
            assert forall|id: usize| old(woken)@.contains(id) implies #[trigger] self.queue().contains(id) by {
                let i = choose|i: int| 0 <= i < w.len() && w[i] == id;
                assert(self.queue()[old(self).queue().len() + i] == id);
            }
            assert forall|id: usize| old(self).queue().contains(id) implies #[trigger] self.queue().contains(id) by {
                let i = choose|i: int| 0 <= i < old(self).queue().len() && old(self).queue()[i] == id;
                assert(self.queue()[i] == id);
            }
            assert forall|id: usize| #[trigger] self.queue().contains(id) implies old(self).queue().contains(id) || w.contains(id) by {
                let i = choose|i: int| 0 <= i < self.queue().len() && self.queue()[i] == id;
                if i < old(self).queue().len() {
                    assert(old(self).queue()[i] == id);
                } else {
                    assert(w[i - old(self).queue().len()] == id);
                }
            }
        }
        let finished = self.run_ready(thread);
        (self.next_step(), finished)
    }
}

/// Adds `future` to the executor's table under a fresh id and queues that
/// id; the future is first polled by a later pass, never before this returns.
pub fn spawn<F: Future>(executor: &mut Executor<F>, future: F) -> (id: usize)
    requires
        old(executor).wf(),
        old(executor).next_task_id() < usize::MAX,
        future.is_pending(),
    ensures
        final(executor).wf(),
        id == old(executor).next_task_id(),
        !old(executor).tasks().contains_key(id),
        final(executor).tasks() == old(executor).tasks().insert(id, future),
        final(executor).queue() == old(executor).queue().push(id),
        final(executor).next_task_id() == id + 1,
        final(executor).history() == old(executor).history(),
{
    executor.spawn_task(future)
}

impl<F: Future> Executor<F> {
    fn spawn_task(&mut self, future: F) -> (id: usize)
        requires
            old(self).wf(),
            old(self).next_id < usize::MAX,
            future.is_pending(),
        ensures
            final(self).wf(),
            id == old(self).next_id,
            !old(self).tasks@.contains_key(id),
            final(self).tasks@ == old(self).tasks@.insert(id, future),
            final(self).ready_queue@ == old(self).ready_queue@.push(id),
            final(self).next_id == id + 1,
            final(self).history == old(self).history,
    {
        let id = self.next_id;
        self.tasks.insert(id, future);
        self.ready_queue.push(id);
        self.next_id = id + 1;
        id
    }
}

/// How many times `id` occurs in `q`.
pub open spec fn occurrences(q: Seq<usize>, id: usize) -> nat
    decreases q.len(),
{
    if q.len() == 0 {
        0
    } else {
        occurrences(q.drop_last(), id) + if q.last() == id {
            1nat
        } else {
            0
        }
    }
}

/// A completion is observed once. In any executor that `new`, `spawn` and
/// the polling passes have produced, a task recorded as finished is out of
/// the task table, and no later entry of the history polls it or records it
/// as finished again.
pub proof fn lemma_completed_once<F: Future>(executor: &Executor<F>, i: int, j: int)
    requires
        executor.wf(),
        0 <= i < executor.history().len(),
        executor.history()[i] is Finished,
    ensures
        !executor.tasks().contains_key(executor.history()[i]->Finished_0),
        i < j < executor.history().len() ==> executor.history()[j] != TaskEvent::Polled(
            executor.history()[i]->Finished_0,
        ) && executor.history()[j] != TaskEvent::Finished(executor.history()[i]->Finished_0),
{
    if i < j < executor.history().len() {
        assert(history_law(executor.history()));
    }
}

/// Waking a task twice before a pass queues its id exactly twice more,
/// never more often than it was woken. The pass then polls the task at most
/// once per queue entry, and only while it is in the table, so an entry
/// left over after the task finished is skipped (see `run_ready`).
pub proof fn lemma_wake_twice(q: Seq<usize>, w: Waker)
    ensures
        occurrences(q.push(w.task_id).push(w.task_id), w.task_id) == occurrences(q, w.task_id)
            + 2,
        forall|other: usize|
            other != w.task_id ==> #[trigger] occurrences(q.push(w.task_id).push(w.task_id), other)
                == occurrences(q, other),
{
    let id = w.task_id;
    let q1 = q.push(id);
    let q2 = q1.push(id);
    assert(q2.drop_last() =~= q1);
    assert(q1.drop_last() =~= q);
    assert(occurrences(q1, id) == occurrences(q, id) + 1);
    assert(occurrences(q2, id) == occurrences(q1, id) + 1);
    assert forall|other: usize| other != id implies #[trigger] occurrences(q2, other)
        == occurrences(q, other) by {
        assert(occurrences(q1, other) == occurrences(q, other));
        assert(occurrences(q2, other) == occurrences(q1, other));
    }
}

} // verus!
