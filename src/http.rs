//! The HTTP GET leaf future: the request it sends, and what it decides on
//! each read of its socket. The socket is read by the caller, which hands
//! each outcome to `HttpGetFuture::on_read`.
use vstd::prelude::*;
use vstd::string::StringExecFns;

use crate::executor::Waker;
use crate::future::PollState;
use crate::reactor::{Interest, Reactor, ReactorError};

verus! {

/// The request line and headers sent for `path`.
pub open spec fn request_text(path: Seq<char>) -> Seq<char> {
    "GET "@ + path + " HTTP/1.1\r\nHost: localhost\r\nConnection: close\r\n\r\n"@
}

/// Builds the request for `path`: no body, and the server closes the
/// connection once it has answered.
pub fn get_req(path: &str) -> (r: String)
    ensures
        r@ == request_text(path@),
{
    let mut r = String::from_str("GET ");
    r.append(path);
    r.append(" HTTP/1.1\r\nHost: localhost\r\nConnection: close\r\n\r\n");
    r
}

/// The text that `String::from_utf8_lossy` makes of these bytes.
pub uninterp spec fn utf8_lossy(bytes: Seq<u8>) -> Seq<char>;

/// Relies on `String::from_utf8_lossy`: the text depends on the bytes alone.
#[verifier::external_body]
fn text_of(bytes: &Vec<u8>) -> (r: String)
    ensures
        r@ == utf8_lossy(bytes@),
{
    String::from_utf8_lossy(bytes.as_slice()).into_owned()
}

/// Where a GET stands: before its first poll, waiting for the reply, or done.
#[derive(Clone, Copy, PartialEq, Eq, Debug)]
pub enum HttpState {
    NotStarted,
    Connected,
    Done,
}

/// What one non-blocking read of the socket gave.
pub enum ReadOutcome {
    /// Some bytes (never none: zero bytes is `Eof`).
    Data(Vec<u8>),
    /// The peer closed the connection.
    Eof,
    /// Nothing to read yet.
    WouldBlock,
    /// The read was interrupted by a signal.
    Interrupted,
    /// Any other error.
    Failed,
}

/// What the poll does after a read.
pub enum ReadStep {
    /// Read again without yielding.
    Continue,
    /// Return `NotReady`; the waker is stored.
    NotReady,
    /// Return `Ready` with the whole reply.
    Ready(String),
    /// An error that this design does not recover from.
    Fatal,
}

/// The kind of step that each read outcome leads to.
pub enum StepKind {
    Continue,
    Suspend,
    Complete,
    Fail,
}

pub open spec fn kind_of(o: ReadOutcome) -> StepKind {
    match o {
        ReadOutcome::Data(_) => StepKind::Continue,
        ReadOutcome::Interrupted => StepKind::Continue,
        ReadOutcome::WouldBlock => StepKind::Suspend,
        ReadOutcome::Eof => StepKind::Complete,
        ReadOutcome::Failed => StepKind::Fail,
    }
}

pub open spec fn step_kind(s: ReadStep) -> StepKind {
    match s {
        ReadStep::Continue => StepKind::Continue,
        ReadStep::NotReady => StepKind::Suspend,
        ReadStep::Ready(_) => StepKind::Complete,
        ReadStep::Fatal => StepKind::Fail,
    }
}

/// Builds the GET future for a path.
pub struct Http;

impl Http {
    /// A future that fetches `path`; `id` is its token with the reactor.
    pub fn get(path: &str, id: usize) -> (r: HttpGetFuture)
        ensures
            r.path() == path@,
            r.id() == id,
            r.buffer() == Seq::<u8>::empty(),
            r.state() == HttpState::NotStarted,
    {
        HttpGetFuture::new(path, id)
    }
}

/// A GET request in flight: the bytes received so far and the state.
pub struct HttpGetFuture {
    path: String,
    id: usize,
    buffer: Vec<u8>,
    state: HttpState,
}

impl HttpGetFuture {
    pub closed spec fn path(&self) -> Seq<char> {
        self.path@
    }

    pub closed spec fn id(&self) -> usize {
        self.id
    }

    pub closed spec fn buffer(&self) -> Seq<u8> {
        self.buffer@
    }

    pub closed spec fn state(&self) -> HttpState {
        self.state
    }

    pub fn new(path: &str, id: usize) -> (r: HttpGetFuture)
        ensures
            r.path() == path@,
            r.id() == id,
            r.buffer() == Seq::<u8>::empty(),
            r.state() == HttpState::NotStarted,
    {
        HttpGetFuture { path: String::from_str(path), id, buffer: Vec::new(), state: HttpState::NotStarted }
    }

    pub fn token(&self) -> (r: usize)
        ensures
            r == self.id(),
    {
        self.id
    }

    pub fn current_state(&self) -> (r: HttpState)
        ensures
            r == self.state(),
    {
        self.state
    }

    /// The request to write once the connection is open.
    pub fn request(&self) -> (r: String)
        ensures
            r@ == request_text(self.path()),
    {
        get_req(self.path.as_str())
    }

    /// The first poll, once the connection is open and the request written:
    /// registers the token for readability and stores the waker before the
    /// first read, so that a reply arriving at once is not missed.
    pub fn start(&mut self, waker: &Waker, reactor: &mut Reactor) -> (r: Result<(), ReactorError>)
        requires
            old(self).state() == HttpState::NotStarted,
        ensures
            final(self).path() == old(self).path(),
            final(self).id() == old(self).id(),
            final(self).buffer() == old(self).buffer(),
            final(reactor).id_counter() == old(reactor).id_counter(),
            old(reactor).registrations().contains_key(old(self).id()) ==> r == Err::<
                (),
                ReactorError,
            >(ReactorError::AlreadyRegistered) && final(reactor).wakers() == old(reactor).wakers()
                && final(reactor).registrations() == old(reactor).registrations()
                && final(self).state() == HttpState::NotStarted,
            !old(reactor).registrations().contains_key(old(self).id()) ==> r is Ok && final(self).state() == HttpState::Connected && final(reactor).registrations() == old(reactor).registrations().insert(old(self).id(), Interest::Readable) && final(reactor).wakers()
                == old(reactor).wakers().insert(old(self).id(), *waker),
    {
        match reactor.register(self.id, Interest::Readable) {
            Err(e) => Err(e),
            Ok(()) => {
                reactor.set_waker(waker, self.id);
                self.state = HttpState::Connected;
                Ok(())
            },
        }
    }

    /// Decides what one read means. Bytes are appended and reading goes on;
    /// an interrupted read is retried; `WouldBlock` stores the current waker
    /// (always the latest one) and suspends; end of stream deregisters the
    /// token and completes with the whole reply; any other error is fatal.
    pub fn on_read(&mut self, outcome: &ReadOutcome, waker: &Waker, reactor: &mut Reactor) -> (r:
        ReadStep)
        requires
            old(self).state() == HttpState::Connected,
        ensures
            step_kind(r) == kind_of(*outcome),
            final(self).path() == old(self).path(),
            final(self).id() == old(self).id(),
            final(reactor).id_counter() == old(reactor).id_counter(),
            match *outcome {
                ReadOutcome::Data(bytes) => final(self).buffer() == old(self).buffer() + bytes@
                    && final(self).state() == HttpState::Connected && *final(reactor) == *old(reactor),
                ReadOutcome::Eof => final(self).buffer() == old(self).buffer() && final(self).state() == HttpState::Done && final(reactor).wakers() == old(reactor).wakers().remove(old(self).id()) && final(reactor).registrations() == old(reactor).registrations().remove(old(self).id()) && (r matches ReadStep::Ready(s) && s@
                    == utf8_lossy(old(self).buffer())),
                ReadOutcome::WouldBlock => final(self).buffer() == old(self).buffer() && final(self).state() == HttpState::Connected && final(reactor).wakers() == old(reactor).wakers().insert(old(self).id(), *waker) && final(reactor).registrations()
                    == old(reactor).registrations(),
                _ => final(self).buffer() == old(self).buffer() && final(self).state()
                    == HttpState::Connected && *final(reactor) == *old(reactor),
            },
    {
        match outcome {
            ReadOutcome::Data(bytes) => {
                let mut i: usize = 0;
                let ghost start = self.buffer@;
                while i < bytes.len()
                    invariant
                        i <= bytes@.len(),
                        self.buffer@ == start + bytes@.subrange(0, i as int),
                        self.path@ == old(self).path@,
                        self.id == old(self).id,
                        self.state == old(self).state,
                    decreases bytes@.len() - i,
                {
                    self.buffer.push(bytes[i]);
                    i = i + 1;
                    assert(self.buffer@ =~= start + bytes@.subrange(0, i as int));
                }
                assert(bytes@.subrange(0, bytes@.len() as int) =~= bytes@);
                ReadStep::Continue
            },
            ReadOutcome::Interrupted => ReadStep::Continue,
            ReadOutcome::WouldBlock => {
                reactor.set_waker(waker, self.id);
                ReadStep::NotReady
            },
            ReadOutcome::Eof => {
                let _ = reactor.deregister(self.id);
                self.state = HttpState::Done;
                ReadStep::Ready(text_of(&self.buffer))
            },
            ReadOutcome::Failed => ReadStep::Fatal,
        }
    }
    /// One poll, given the outcomes of the reads that the socket gives from
    /// now on. It takes them in turn, as `on_read` decides, up to the first
    /// that does not lead to reading again (`poll_end`): on `WouldBlock` it
    /// stores this poll's waker and returns `NotReady`; at end of stream it
    /// deregisters the token and returns the whole reply.
    pub fn poll(&mut self, reads: &Vec<ReadOutcome>, waker: &Waker, reactor: &mut Reactor) -> (r:
        PollState<String>)
        requires
            old(self).state() == HttpState::Connected,
            poll_end(reads@, 0) < reads@.len(),
            !(reads@[poll_end(reads@, 0)] is Failed),
        ensures
            final(self).path() == old(self).path(),
            final(self).id() == old(self).id(),
            final(reactor).id_counter() == old(reactor).id_counter(),
            final(self).buffer() == old(self).buffer() + data_of(reads@, poll_end(reads@, 0)),
            reads@[poll_end(reads@, 0)] is WouldBlock ==> r is NotReady && final(self).state()
                == HttpState::Connected && final(reactor).wakers() == old(reactor).wakers().insert(
                old(self).id(),
                *waker,
            ) && final(reactor).registrations() == old(reactor).registrations(),
            reads@[poll_end(reads@, 0)] is Eof ==> (r matches PollState::Ready(s) && s@ == utf8_lossy(
                final(self).buffer(),
            )) && final(self).state() == HttpState::Done && final(reactor).wakers() == old(
                reactor).wakers().remove(old(self).id()) && final(reactor).registrations() == old(
                reactor).registrations().remove(old(self).id()),
    {
        let ghost e = poll_end(reads@, 0);
        let ghost b0 = self.buffer@;
        let mut i: usize = 0;
        let n = reads.len();
        proof {
            lemma_poll_end_bounds(reads@, 0);
        }
        assert(data_of(reads@, 0) =~= Seq::<u8>::empty());
        loop
            invariant
                0 <= i <= e,
                e == poll_end(reads@, 0),
                e < reads@.len(),
                n == reads@.len(),
                !(reads@[e] is Failed),
                poll_end(reads@, i as int) == e,
                self.state() == HttpState::Connected,
                self.buffer() == b0 + data_of(reads@, i as int),
                b0 == old(self).buffer(),
                self.path() == old(self).path(),
                self.id() == old(self).id(),
                reactor.wakers() == old(reactor).wakers(),
                reactor.registrations() == old(reactor).registrations(),
                reactor.id_counter() == old(reactor).id_counter(),
            decreases e - i,
        {
            let ghost before = self.buffer();
            proof {
                lemma_poll_end_bounds(reads@, i as int + 1);
            }
            let step = self.on_read(&reads[i], waker, reactor);
            match step {
                ReadStep::Continue => {
                    proof {
                        assert(i < e);
                        assert(b0 + data_of(reads@, i as int + 1) =~= self.buffer());
                    }
                    i = i + 1;
                },
                ReadStep::NotReady => {
                    assert(i == e);
                    return PollState::NotReady;
                },
                ReadStep::Ready(s) => {
                    assert(i == e);
                    return PollState::Ready(s);
                },
                ReadStep::Fatal => {
                    proof {
                        assert(i == e);
                        assert(false);
                    }
                    return PollState::NotReady;
                },
            }
        }
    }
}

/// The bytes that `reads[..end]` bring.
pub open spec fn data_of(reads: Seq<ReadOutcome>, end: int) -> Seq<u8>
    decreases end,
{
    if end <= 0 || end > reads.len() {
        Seq::empty()
    } else {
        data_of(reads, end - 1) + match reads[end - 1] {
            ReadOutcome::Data(b) => b@,
            _ => Seq::empty(),
        }
    }
}

/// The read at which the poll that begins at read `i` of `reads` stops:
/// the first that does not lead to reading again.
pub open spec fn poll_end(reads: Seq<ReadOutcome>, i: int) -> int
    decreases reads.len() - i,
{
    if i < 0 || i >= reads.len() {
        reads.len() as int
    } else if kind_of(reads[i]) is Continue {
        poll_end(reads, i + 1)
    } else {
        i
    }
}

/// How many polls it takes, from read `i` on, until one returns `Ready`.
pub open spec fn polls_until_ready(reads: Seq<ReadOutcome>, i: int) -> nat
    decreases reads.len() - i,
{
    let e = poll_end(reads, i);
    if i < 0 || i >= reads.len() || e < i || e >= reads.len() {
        0
    } else if kind_of(reads[e]) is Suspend {
        1 + polls_until_ready(reads, e + 1)
    } else {
        1
    }
}

/// How many of `reads[i..]` are `WouldBlock`.
pub open spec fn would_blocks(reads: Seq<ReadOutcome>, i: int) -> nat
    decreases reads.len() - i,
{
    if i < 0 || i >= reads.len() {
        0
    } else if reads[i] is WouldBlock {
        1 + would_blocks(reads, i + 1)
    } else {
        would_blocks(reads, i + 1)
    }
}

proof fn lemma_poll_end_bounds(reads: Seq<ReadOutcome>, i: int)
    requires
        0 <= i <= reads.len(),
    ensures
        i <= poll_end(reads, i) <= reads.len(),
        poll_end(reads, i) < reads.len() ==> !(kind_of(reads[poll_end(reads, i)]) is Continue),
    decreases reads.len() - i,
{
    if i < reads.len() && kind_of(reads[i]) is Continue {
        lemma_poll_end_bounds(reads, i + 1);
    }
}

proof fn lemma_poll_end(reads: Seq<ReadOutcome>, i: int)
    requires
        0 <= i < reads.len(),
        reads.last() is Eof,
    ensures
        i <= poll_end(reads, i) < reads.len(),
        !(kind_of(reads[poll_end(reads, i)]) is Continue),
        would_blocks(reads, i) == would_blocks(reads, poll_end(reads, i)),
    decreases reads.len() - i,
{
    if kind_of(reads[i]) is Continue {
        lemma_poll_end(reads, i + 1);
    }
}

/// A GET whose reads bring `n` times `WouldBlock` before the connection
/// closes needs exactly `n + 1` polls: each poll ends at the first read that
/// does not lead to reading again, and only the end of stream completes it.
pub proof fn lemma_polls_after_would_blocks(reads: Seq<ReadOutcome>)
    requires
        reads.len() > 0,
        reads.last() is Eof,
        forall|i: int| 0 <= i < reads.len() - 1 ==> !(#[trigger] reads[i] is Eof) && !(
        reads[i] is Failed),
    ensures
        polls_until_ready(reads, 0) == would_blocks(reads, 0) + 1,
{
    lemma_polls_from(reads, 0);
}

proof fn lemma_polls_from(reads: Seq<ReadOutcome>, i: int)
    requires
        0 <= i < reads.len(),
        reads.last() is Eof,
        forall|k: int| 0 <= k < reads.len() - 1 ==> !(#[trigger] reads[k] is Eof) && !(
        reads[k] is Failed),
    ensures
        polls_until_ready(reads, i) == would_blocks(reads, i) + 1,
    decreases reads.len() - i,
{
    lemma_poll_end(reads, i);
    let e = poll_end(reads, i);
    if reads[e] is WouldBlock {
        assert(e < reads.len() - 1);
        lemma_polls_from(reads, e + 1);
    } else {
        assert(e == reads.len() - 1);
    }
}

} // verus!
