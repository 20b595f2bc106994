//! Setting up a runtime: an executor and the reactor its futures use.
use vstd::prelude::*;

use crate::executor::Executor;
use crate::future::Future;
use crate::reactor::Reactor;

verus! {

/// A fresh executor, with no task, and a fresh reactor, with no
/// registration, whose ids start at 1.
pub fn init<F: Future>() -> (r: (Executor<F>, Reactor))
    ensures
        r.0.wf(),
        r.0.tasks() == Map::<usize, F>::empty(),
        r.0.queue() == Seq::<usize>::empty(),
        r.0.next_task_id() == 0,
        r.1.wakers().is_empty(),
        r.1.registrations().is_empty(),
        r.1.id_counter() == 1,
{
    (Executor::new(), Reactor::new())
}

} // verus!
