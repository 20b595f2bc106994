//! The data of a hand-written epoll binding: the interest flags, the event
//! record the kernel fills, and the handles for the epoll instance. The
//! system calls themselves are made by the caller with these values.
use vstd::prelude::*;

use crate::http::ReadOutcome;

verus! {

/// `epoll_ctl` operation that adds a file descriptor.
pub const EPOLL_CTRL_ADD: i32 = 1;

/// Interest in read readiness.
pub const EPOLLIN: i32 = 0x1;

/// Edge-triggered notification: the top bit of the 32-bit flag word.
pub const EPOLLET: i32 = i32::MIN;

/// One readiness event: the flags that fired and the token given at
/// registration.
#[derive(Clone, Copy, PartialEq, Eq, Structural, Debug)]
pub struct Event {
    events: u32,
    epoll_data: usize,
}

impl Event {
    pub closed spec fn spec_events(&self) -> u32 {
        self.events
    }

    pub closed spec fn spec_token(&self) -> usize {
        self.epoll_data
    }

    pub fn new(events: u32, token: usize) -> (e: Event)
        ensures
            e.spec_events() == events,
            e.spec_token() == token,
    {
        Event { events, epoll_data: token }
    }

    /// The record that registers `token` for `interests`: the flag word is
    /// the same 32 bits, read as unsigned.
    pub fn for_interest(token: usize, interests: i32) -> (e: Event)
        ensures
            e.spec_events() == interests as u32,
            e.spec_token() == token,
    {
        Event { events: interests as u32, epoll_data: token }
    }

    /// The token that identifies the event's source.
    pub fn token(&self) -> (r: usize)
        ensures
            r == self.spec_token(),
    {
        self.epoll_data
    }

    pub fn events(&self) -> (r: u32)
        ensures
            r == self.spec_events(),
    {
        self.events
    }
}

/// The epoll instance through which sources are registered.
#[derive(Debug)]
pub struct Registry {
    raw_fd: i32,
}

impl Registry {
    pub closed spec fn fd(&self) -> i32 {
        self.raw_fd
    }

    pub fn with_fd(raw_fd: i32) -> (r: Registry)
        ensures
            r.fd() == raw_fd,
    {
        Registry { raw_fd }
    }

    pub fn raw_fd(&self) -> (r: i32)
        ensures
            r == self.fd(),
    {
        self.raw_fd
    }
}

/// Owns the epoll instance; waits on it through its registry's descriptor.
#[derive(Debug)]
pub struct Poll {
    registry: Registry,
}

impl Poll {
    pub closed spec fn fd(&self) -> i32 {
        self.registry.raw_fd
    }

    /// Wraps the descriptor that `epoll_create` returned.
    pub fn with_fd(raw_fd: i32) -> (r: Poll)
        ensures
            r.fd() == raw_fd,
    {
        Poll { registry: Registry::with_fd(raw_fd) }
    }

    pub fn registry(&self) -> (r: &Registry)
        ensures
            r.fd() == self.fd(),
    {
        &self.registry
    }
}

/// How long `epoll_wait` blocks: the given milliseconds, or without limit
/// (-1) when none is given.
pub fn wait_timeout(timeout: Option<i32>) -> (r: i32)
    ensures
        r == match timeout {
            Some(t) => t,
            None => -1i32,
        },
{
    match timeout {
        Some(t) => t,
        None => -1,
    }
}

/// How many events a wait may report into a buffer of `capacity` slots:
/// the count is an `i32`, so a larger buffer is used only up to `i32::MAX`.
pub fn max_events(capacity: usize) -> (r: i32)
    ensures
        r as int == if capacity <= i32::MAX as usize {
            capacity as int
        } else {
            i32::MAX as int
        },
{
    if capacity <= i32::MAX as usize {
        capacity as i32
    } else {
        i32::MAX
    }
}

/// What a read of an edge-triggered source means while draining it.
#[derive(Clone, Copy, PartialEq, Eq, Structural, Debug)]
pub enum Drain {
    /// The peer closed the connection: the source is handled.
    Closed,
    /// Bytes arrived: read again, the buffer may hold more.
    Received,
    /// Nothing more for now: wait for the next event.
    Drained,
    /// Any other error ends the wait loop.
    Failed,
}

/// Decides a read while draining a source: with edge-triggered events the
/// source must be read until it would block, or it is not reported again.
pub fn drain_step(o: &ReadOutcome) -> (d: Drain)
    ensures
        d == match *o {
            ReadOutcome::Eof => Drain::Closed,
            ReadOutcome::Data(_) => Drain::Received,
            ReadOutcome::WouldBlock => Drain::Drained,
            _ => Drain::Failed,
        },
{
    match o {
        ReadOutcome::Eof => Drain::Closed,
        ReadOutcome::Data(_) => Drain::Received,
        ReadOutcome::WouldBlock => Drain::Drained,
        _ => Drain::Failed,
    }
}

} // verus!
