//! A coroutine built by hand from two sub-futures awaited in turn: an
//! explicit state tag for each suspension point, and a poll that advances
//! the tag as far as it can before it has to wait.
use vstd::prelude::*;

use crate::executor::Waker;
use crate::future::{Future, PollState};

verus! {

/// Where the coroutine stands.
#[derive(Clone, Copy, PartialEq, Eq, Structural, Debug)]
pub enum Stage {
    /// Created, not yet polled.
    Start,
    /// Waiting for the first sub-future.
    Wait1,
    /// Waiting for the second sub-future.
    Wait2,
    /// Both have completed.
    Resolved,
}

pub open spec fn rank(s: Stage) -> int {
    match s {
        Stage::Start => 0,
        Stage::Wait1 => 1,
        Stage::Wait2 => 2,
        Stage::Resolved => 3,
    }
}

/// Runs `first` to completion, then `second`, and completes with both
/// replies in that order.
pub struct Coroutine<F> {
    stage: Stage,
    first: F,
    second: F,
    replies: Vec<String>,
}

impl<F: Future<Output = String>> Coroutine<F> {
    pub closed spec fn stage(&self) -> Stage {
        self.stage
    }

    /// The replies received so far.
    pub closed spec fn replies(&self) -> Seq<String> {
        self.replies@
    }

    pub closed spec fn first(&self) -> F {
        self.first
    }

    pub closed spec fn second(&self) -> F {
        self.second
    }

    /// The replies match the stage, and each sub-future still to be awaited
    /// is pending.
    pub open spec fn wf(&self) -> bool {
        &&& rank(self.stage()) < 2 ==> self.replies().len() == 0 && self.first().is_pending()
            && self.second().is_pending()
        &&& self.stage() == Stage::Wait2 ==> self.replies().len() == 1
            && self.second().is_pending()
        &&& self.stage() == Stage::Resolved ==> self.replies().len() == 2
    }

    pub fn new(first: F, second: F) -> (r: Self)
        requires
            first.is_pending(),
            second.is_pending(),
        ensures
            r.wf(),
            r.stage() == Stage::Start,
            r.replies() == Seq::<String>::empty(),
            r.first() == first,
            r.second() == second,
    {
        Coroutine { stage: Stage::Start, first, second, replies: Vec::new() }
    }

    pub fn current_stage(&self) -> (r: Stage)
        ensures
            r == self.stage(),
    {
        self.stage
    }

    /// Takes what the awaited sub-future returned. `NotReady` suspends the
    /// coroutine and changes nothing. The first reply is kept and the
    /// coroutine goes on to await the second future, without yielding; the
    /// second reply resolves it, with both replies. `None` means: poll on.
    pub fn advance(&mut self, polled: PollState<String>) -> (r: Option<PollState<Vec<String>>>)
        requires
            old(self).stage() == Stage::Wait1 || old(self).stage() == Stage::Wait2,
        ensures
            final(self).first() == old(self).first(),
            final(self).second() == old(self).second(),
            polled is NotReady ==> r == Some(PollState::<Vec<String>>::NotReady) && final(self).stage()
                == old(self).stage() && final(self).replies() == old(self).replies(),
            polled matches PollState::Ready(t) ==> final(self).replies() == old(self).replies().push(t),
            polled is Ready && old(self).stage() == Stage::Wait1 ==> r is None && final(self).stage()
                == Stage::Wait2,
            polled is Ready && old(self).stage() == Stage::Wait2 ==> final(self).stage()
                == Stage::Resolved && (r matches Some(PollState::Ready(v)) && v@ == final(
                self).replies()),
    {
        match polled {
            PollState::NotReady => Some(PollState::NotReady),
            PollState::Ready(txt) => {
                self.replies.push(txt);
                if self.stage == Stage::Wait1 {
                    self.stage = Stage::Wait2;
                    None
                } else {
                    self.stage = Stage::Resolved;
                    Some(PollState::Ready(self.replies.clone()))
                }
            },
        }
    }
}

impl<F: Future<Output = String>> Future for Coroutine<F> {
    type Output = Vec<String>;

    /// Pending until resolved, while its sub-futures are as the stage needs.
    open spec fn is_pending(&self) -> bool {
        self.stage() != Stage::Resolved && self.wf()
    }

    /// Advances through the stages: from `Start` it awaits the first
    /// sub-future, and each sub-future that completes hands its reply to
    /// `advance`, which moves on at once. The poll returns `NotReady` only
    /// when the awaited sub-future did, and `Ready` with both replies only
    /// after the second one completed.
    fn poll(&mut self, waker: &Waker) -> (r: PollState<Vec<String>>)
        ensures
            rank(old(self).stage()) <= rank(final(self).stage()),
            old(self).stage() == Stage::Start ==> final(self).stage() != Stage::Start,
            r is NotReady ==> final(self).stage() == Stage::Wait1 || final(self).stage()
                == Stage::Wait2,
            r is Ready ==> final(self).stage() == Stage::Resolved && final(self).replies().len()
                == 2,
            r matches PollState::Ready(v) ==> v@ == final(self).replies(),
            old(self).replies().len() <= final(self).replies().len(),
            final(self).replies().subrange(0, old(self).replies().len() as int) == old(
                self).replies(),
    {
        let ghost start = *self;
        if self.stage == Stage::Start {
            self.stage = Stage::Wait1;
        }
        loop
            invariant
                start == *old(self),
                start.is_pending(),
                self.wf(),
                self.stage() == Stage::Wait1 || self.stage() == Stage::Wait2,
                rank(start.stage()) <= rank(self.stage()),
                start.replies().len() <= self.replies().len(),
                self.replies().subrange(0, start.replies().len() as int) == start.replies(),
            decreases 3 - rank(self.stage()),
        {
            let polled = if self.stage == Stage::Wait1 {
                self.first.poll(waker)
            } else {
                self.second.poll(waker)
            };
            let ghost before = *self;
            let step = self.advance(polled);
            proof {
                if self.replies().len() > before.replies().len() {
                    assert(self.replies().subrange(0, start.replies().len() as int) =~= before.replies().subrange(
                        0,
                        start.replies().len() as int,
                    ));
                }
            }
            match step {
                Some(result) => {
                    return result;
                },
                None => {},
            }
        }
    }
}

} // verus!
