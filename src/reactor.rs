//! The reactor's bookkeeping: which sources are registered under which
//! token, the most recent waker of each token, and the id counter. The OS
//! multiplexer itself is driven by the caller, which performs each
//! registration that this table accepts.
use vstd::prelude::*;

use std::collections::HashMap;

use crate::executor::Waker;

verus! {

broadcast use vstd::std_specs::hash::group_hash_axioms;

/// The readiness a source is registered for.
#[derive(Clone, Copy, PartialEq, Eq, Debug)]
pub enum Interest {
    Readable,
    Writable,
    ReadWritable,
}

/// Why the reactor refused a registration change.
#[derive(Clone, Copy, PartialEq, Eq, Debug)]
pub enum ReactorError {
    /// The token already has a registered source.
    AlreadyRegistered,
    /// The token has no registered source.
    NotRegistered,
}

/// Owns the interest registrations and the waker table, each keyed by
/// token (the id of the task whose source it is).
pub struct Reactor {
    wakers: HashMap<usize, Waker>,
    registrations: HashMap<usize, Interest>,
    next_id: usize,
}

/// The wakers that the events with these tokens resume, in event order; a
/// token without a waker (its source was deregistered meanwhile) is skipped.
pub open spec fn wakers_for(table: Map<usize, Waker>, tokens: Seq<usize>) -> Seq<Waker>
    decreases tokens.len(),
{
    if tokens.len() == 0 {
        Seq::empty()
    } else {
        let rest = wakers_for(table, tokens.drop_last());
        if table.contains_key(tokens.last()) {
            rest.push(table[tokens.last()])
        } else {
            rest
        }
    }
}

impl Reactor {
    pub closed spec fn wakers(&self) -> Map<usize, Waker> {
        self.wakers@
    }

    pub closed spec fn registrations(&self) -> Map<usize, Interest> {
        self.registrations@
    }

    /// The id that `next_id` hands out next.
    pub closed spec fn id_counter(&self) -> usize {
        self.next_id
    }

    pub fn new() -> (r: Reactor)
        ensures
            r.wakers() == Map::<usize, Waker>::empty(),
            r.registrations() == Map::<usize, Interest>::empty(),
            r.id_counter() == 1,
    {
        Reactor { wakers: HashMap::new(), registrations: HashMap::new(), next_id: 1 }
    }

    /// Records that the source of token `id` is watched for `interest`. A
    /// token is registered at most once at a time.
    pub fn register(&mut self, id: usize, interest: Interest) -> (r: Result<(), ReactorError>)
        ensures
            final(self).wakers() == old(self).wakers(),
            final(self).id_counter() == old(self).id_counter(),
            old(self).registrations().contains_key(id) ==> r == Err::<(), ReactorError>(
                ReactorError::AlreadyRegistered,
            ) && final(self).registrations() == old(self).registrations(),
            !old(self).registrations().contains_key(id) ==> r is Ok && final(self).registrations()
                == old(self).registrations().insert(id, interest),
    {
        if self.registrations.contains_key(&id) {
            Err(ReactorError::AlreadyRegistered)
        } else {
            self.registrations.insert(id, interest);
            Ok(())
        }
    }

    /// Stores `waker` as the one to invoke for token `id`, replacing any
    /// earlier one: only the latest waker knows the thread to resume.
    pub fn set_waker(&mut self, waker: &Waker, id: usize)
        ensures
            final(self).wakers() == old(self).wakers().insert(id, *waker),
            final(self).registrations() == old(self).registrations(),
            final(self).id_counter() == old(self).id_counter(),
    {
        self.wakers.insert(id, *waker);
    }

    /// Forgets token `id`: its waker and its registration. The waker table
    /// loses the token whether or not a source was registered; only a
    /// token without a registration is reported as an error.
    pub fn deregister(&mut self, id: usize) -> (r: Result<(), ReactorError>)
        ensures
            final(self).wakers() == old(self).wakers().remove(id),
            final(self).registrations() == old(self).registrations().remove(id),
            final(self).id_counter() == old(self).id_counter(),
            r is Ok <==> old(self).registrations().contains_key(id),
            r is Err ==> r == Err::<(), ReactorError>(ReactorError::NotRegistered),
    {
        self.wakers.remove(&id);
        match self.registrations.remove(&id) {
            Some(_) => Ok(()),
            None => Err(ReactorError::NotRegistered),
        }
    }

    /// The id that `next_id` hands out next.
    pub fn peek_next_id(&self) -> (r: usize)
        ensures
            r == self.id_counter(),
    {
        self.next_id
    }

    /// Hands out a fresh id: each call returns one more than the last.
    pub fn next_id(&mut self) -> (id: usize)
        requires
            old(self).id_counter() < usize::MAX,
        ensures
            id == old(self).id_counter(),
            final(self).id_counter() == id + 1,
            final(self).wakers() == old(self).wakers(),
            final(self).registrations() == old(self).registrations(),
    {
        let id = self.next_id;
        self.next_id = id + 1;
        id
    }

    /// The waker stored for token `id`, if any.
    pub fn waker_for(&self, id: usize) -> (r: Option<Waker>)
        ensures
            self.wakers().contains_key(id) ==> r == Some(self.wakers()[id]),
            !self.wakers().contains_key(id) ==> r is None,
    {
        match self.wakers.get(&id) {
            Some(w) => Some(*w),
            None => None,
        }
    }

    /// One round of the event loop: the wakers to invoke for the tokens that
    /// the multiplexer reported.
    pub fn dispatch(&self, tokens: &Vec<usize>) -> (r: Vec<Waker>)
        ensures
            r@ == wakers_for(self.wakers(), tokens@),
    {
        let mut r: Vec<Waker> = Vec::new();
        let mut i: usize = 0;
        while i < tokens.len()
            invariant
                i <= tokens@.len(),
                r@ == wakers_for(self.wakers(), tokens@.subrange(0, i as int)),
            decreases tokens@.len() - i,
        {
            assert(tokens@.subrange(0, i as int + 1).drop_last() =~= tokens@.subrange(
                0,
                i as int,
            ));
            if let Some(w) = self.waker_for(tokens[i]) {
                r.push(w);
            }
            i = i + 1;
        }
        assert(tokens@.subrange(0, tokens@.len() as int) =~= tokens@);
        r
    }
}

} // verus!
