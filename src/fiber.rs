//! The fiber runtime's scheduler: a fixed pool of slots, each Available,
//! Ready or Running, switched round-robin. Saving and restoring registers,
//! and the stacks themselves, belong to the caller; this module decides
//! which slot runs, and where a new fiber's first frame goes on its stack.
use vstd::prelude::*;

verus! {

/// Bytes of stack given to each fiber.
pub const DEFAULT_STACK_SIZE: usize = 1024 * 1024 * 2;

/// Slots in the pool, the base slot included.
pub const MAX_THREADS: usize = 4;

/// Where a slot stands.
#[derive(Clone, Copy, PartialEq, Eq, Structural, Debug)]
pub enum State {
    /// Free to take a new fiber.
    Available,
    /// Executing now.
    Running,
    /// Waiting for its turn.
    Ready,
}

/// One slot of the pool.
#[derive(Clone, Copy, PartialEq, Eq, Structural, Debug)]
pub struct Thread {
    pub state: State,
    /// Lowest address of the slot's stack.
    pub stack_start: u64,
    /// Size of the slot's stack in bytes.
    pub stack_size: u64,
}

impl Thread {
    /// A free slot, with no stack attached yet.
    pub fn new() -> (t: Thread)
        ensures
            t.state == State::Available,
            t.stack_start == 0,
            t.stack_size == 0,
    {
        Thread { state: State::Available, stack_start: 0, stack_size: 0 }
    }
}

/// The slot `k` places after `cur` in a ring of `len` slots.
pub open spec fn slot_after(cur: int, k: int, len: int) -> int {
    if cur + k < len {
        cur + k
    } else {
        cur + k - len
    }
}

/// Whether `next` is the first Ready slot after `cur`, going round the ring.
pub open spec fn is_next_ready(states: Seq<State>, cur: int, next: int) -> bool {
    let len = states.len() as int;
    exists|k: int|
        1 <= k < len && next == slot_after(cur, k, len) && states[next] == State::Ready && forall|
            j: int,
        |
            1 <= j < k ==> states[#[trigger] slot_after(cur, j, len)] != State::Ready
}

/// Two fibers in slots `a < b` beside the base slot take turns: when one
/// of them yields while the other two slots are Ready, the processor goes
/// from `a` to `b`, from `b` to the base slot, and from the base slot back
/// to `a`. So each iteration of `a` precedes the same iteration of `b`
/// while both are Ready.
pub proof fn lemma_two_fibers_alternate(states: Seq<State>, a: int, b: int)
    requires
        states.len() == MAX_THREADS,
        0 < a < b < states.len(),
        forall|i: int|
            0 <= i < states.len() && i != 0 && i != a && i != b ==> #[trigger] states[i]
                != State::Ready,
    ensures
        states[a] != State::Ready && states[0] == State::Ready && states[b] == State::Ready
            ==> forall|n: int| #[trigger] is_next_ready(states, a, n) ==> n == b,
        states[b] != State::Ready && states[0] == State::Ready && states[a] == State::Ready
            ==> forall|n: int| #[trigger] is_next_ready(states, b, n) ==> n == 0,
        states[0] != State::Ready && states[a] == State::Ready && states[b] == State::Ready
            ==> forall|n: int| #[trigger] is_next_ready(states, 0, n) ==> n == a,
{
    let len = states.len() as int;
    if states[a] != State::Ready && states[0] == State::Ready && states[b] == State::Ready {
        assert forall|n: int| #[trigger] is_next_ready(states, a, n) implies n == b by {
            let k = choose|k: int|
                1 <= k < len && n == slot_after(a, k, len) && states[n] == State::Ready && forall|
                    j: int,
                |
                    1 <= j < k ==> states[#[trigger] slot_after(a, j, len)] != State::Ready;
            if k > b - a {
                assert(states[slot_after(a, b - a, len)] != State::Ready);
            }
        }
    }
    if states[b] != State::Ready && states[0] == State::Ready && states[a] == State::Ready {
        assert forall|n: int| #[trigger] is_next_ready(states, b, n) implies n == 0 by {
            let k = choose|k: int|
                1 <= k < len && n == slot_after(b, k, len) && states[n] == State::Ready && forall|
                    j: int,
                |
                    1 <= j < k ==> states[#[trigger] slot_after(b, j, len)] != State::Ready;
            if k > len - b {
                assert(states[slot_after(b, len - b, len)] != State::Ready);
            }
        }
    }
    if states[0] != State::Ready && states[a] == State::Ready && states[b] == State::Ready {
        assert forall|n: int| #[trigger] is_next_ready(states, 0, n) implies n == a by {
            let k = choose|k: int|
                1 <= k < len && n == slot_after(0, k, len) && states[n] == State::Ready && forall|
                    j: int,
                |
                    1 <= j < k ==> states[#[trigger] slot_after(0, j, len)] != State::Ready;
            if k > a {
                assert(states[slot_after(0, a, len)] != State::Ready);
            }
        }
    }
}

/// The pool and the index of the slot that holds the processor.
pub struct Runtime {
    threads: Vec<Thread>,
    current: usize,
}

impl Runtime {
    pub closed spec fn states(&self) -> Seq<State> {
        self.threads@.map_values(|t: Thread| t.state)
    }

    /// Each slot's stack, as (lowest address, size).
    pub closed spec fn stacks(&self) -> Seq<(u64, u64)> {
        self.threads@.map_values(|t: Thread| (t.stack_start, t.stack_size))
    }

    pub closed spec fn current_slot(&self) -> int {
        self.current as int
    }

    /// The pool has its fixed size, the current slot is not waiting, and no
    /// other slot runs.
    pub open spec fn wf(&self) -> bool {
        &&& self.states().len() == MAX_THREADS
        &&& 0 <= self.current_slot() < self.states().len()
        &&& self.states()[self.current_slot()] != State::Ready
        &&& forall|i: int|
            0 <= i < self.states().len() && i != self.current_slot() ==> #[trigger] self.states()[i]
                != State::Running
    }

    /// A pool whose base slot runs the caller, the others free.
    pub fn new() -> (r: Runtime)
        ensures
            r.wf(),
            r.current_slot() == 0,
            r.states()[0] == State::Running,
            forall|i: int| 1 <= i < MAX_THREADS ==> #[trigger] r.states()[i] == State::Available,
    {
        let mut threads: Vec<Thread> = Vec::new();
        threads.push(Thread { state: State::Running, stack_start: 0, stack_size: 0 });
        let mut n: usize = 1;
        while n < MAX_THREADS
            invariant
                1 <= n <= MAX_THREADS,
                threads@.len() == n,
                threads@[0].state == State::Running,
                forall|i: int| 1 <= i < n ==> #[trigger] threads@[i].state == State::Available,
            decreases MAX_THREADS - n,
        {
            threads.push(Thread::new());
            n = n + 1;
        }
        let r = Runtime { threads, current: 0 };
        assert(r.states().len() == MAX_THREADS);
        r
    }

    fn set_state(&mut self, i: usize, state: State)
        requires
            i < old(self).threads@.len(),
        ensures
            final(self).states() == old(self).states().update(i as int, state),
            final(self).stacks() == old(self).stacks(),
            final(self).current == old(self).current,
            final(self).threads@.len() == old(self).threads@.len(),
    {
        let t = self.threads[i];
        self.threads[i] = Thread { state, stack_start: t.stack_start, stack_size: t.stack_size };
        assert(self.states() =~= old(self).states().update(i as int, state));
        assert(self.stacks() =~= old(self).stacks());
    }

    /// Attaches the stack `[start, start + size)` to slot `slot`; the
    /// memory belongs to the caller.
    pub fn set_stack(&mut self, slot: usize, start: u64, size: u64)
        requires
            old(self).wf(),
            slot < old(self).states().len(),
        ensures
            final(self).wf(),
            final(self).states() == old(self).states(),
            final(self).current_slot() == old(self).current_slot(),
            final(self).stacks() == old(self).stacks().update(slot as int, (start, size)),
    {
        let t = self.threads[slot];
        self.threads[slot] = Thread { state: t.state, stack_start: start, stack_size: size };
        assert(self.states() =~= old(self).states());
        assert(self.stacks() =~= old(self).stacks().update(slot as int, (start, size)));
    }

    /// The slot that holds the processor.
    pub fn current(&self) -> (r: usize)
        ensures
            r == self.current_slot(),
    {
        self.current
    }

    /// The state of slot `i`.
    pub fn state(&self, i: usize) -> (r: State)
        requires
            i < self.states().len(),
        ensures
            r == self.states()[i as int],
    {
        self.threads[i].state
    }

    /// Hands the processor to the next Ready slot after the current one,
    /// going round the ring. With no Ready slot, returns false and changes
    /// nothing: there is no other work. Otherwise the current slot becomes
    /// Ready (unless it was freed) and the chosen one Running; the caller
    /// then switches register context from the old slot to `current()`.
    pub fn t_yield(&mut self) -> (r: bool)
        requires
            old(self).wf(),
        ensures
            final(self).wf(),
            final(self).stacks() == old(self).stacks(),
            r <==> exists|i: int| 0 <= i < old(self).states().len() && old(self).states()[i] == State::Ready,
            forall|i: int|
                0 <= i < old(self).states().len() && old(self).states()[i] == State::Ready && (
                forall|j: int|
                    0 <= j < old(self).states().len() && j != i ==> #[trigger] old(self).states()[j]
                        != State::Ready) ==> r && final(self).current_slot() == i,
            !r ==> final(self).states() == old(self).states() && final(self).current_slot() == old(
                self).current_slot(),
            r ==> {
                let cur = old(self).current_slot();
                let next = final(self).current_slot();
                let len = old(self).states().len() as int;
                &&& old(self).states()[next] == State::Ready
                &&& is_next_ready(old(self).states(), cur, next)
                &&& final(self).states()[next] == State::Running
                &&& final(self).states()[cur] == if old(self).states()[cur] == State::Available {
                    State::Available
                } else {
                    State::Ready
                }
                &&& forall|i: int|
                    0 <= i < len && i != cur && i != next ==> #[trigger] final(self).states()[i]
                        == old(self).states()[i]
            },
    {
        let len = self.threads.len();
        let cur = self.current;
        let mut pos = cur;
        let ghost mut k: int = 0;
        while self.threads[pos].state != State::Ready
            invariant
                self.wf(),
                self.threads@ == old(self).threads@,
                self.current == cur,
                cur == old(self).current,
                len == self.threads@.len(),
                0 <= k < len,
                pos == slot_after(cur as int, k, len as int),
                forall|j: int|
                    0 <= j < k ==> self.states()[#[trigger] slot_after(cur as int, j, len as int)]
                        != State::Ready,
            decreases len - k,
        {
            pos = pos + 1;
            if pos == len {
                pos = 0;
            }
            proof {
                k = k + 1;
            }
            if pos == cur {
                proof {
                    assert(k == len);
                    assert forall|i: int| 0 <= i < len implies old(self).states()[i]
                        != State::Ready by {
                        let j = if i >= cur { i - cur } else { i + len - cur };
                        assert(slot_after(cur as int, j, len as int) == i);
                        assert(self.states()[slot_after(cur as int, j, len as int)]
                            != State::Ready);
                    }
                }
                return false;
            }
        }
        proof {
            assert(k != 0);
            assert(self.states()[pos as int] == State::Ready);
        }
        let ghost was = old(self).states()[cur as int];
        if self.threads[cur].state != State::Available {
            self.set_state(cur, State::Ready);
        }
        self.set_state(pos, State::Running);
        self.current = pos;
        proof {
            let left = if was == State::Available {
                State::Available
            } else {
                State::Ready
            };
            assert(self.states() =~= old(self).states().update(cur as int, left).update(
                pos as int,
                State::Running,
            ));
            assert(forall|j: int|
                1 <= j < k ==> old(self).states()[#[trigger] slot_after(cur as int, j, len as int)]
                    != State::Ready);
        }
        true
    }

    /// Called when the fiber of the current slot returns: frees the slot
    /// (the base slot is never freed) and yields.
    pub fn t_return(&mut self)
        requires
            old(self).wf(),
        ensures
            final(self).wf(),
            final(self).stacks() == old(self).stacks(),
            old(self).current_slot() == 0 ==> *final(self) == *old(self),
            old(self).current_slot() != 0 ==> final(self).states()[old(self).current_slot()]
                == State::Available,
            old(self).current_slot() != 0 && (exists|i: int|
                0 <= i < old(self).states().len() && old(self).states()[i] == State::Ready)
                ==> final(self).current_slot() != old(self).current_slot() && old(
                self).states()[final(self).current_slot()] == State::Ready && final(
                self).states()[final(self).current_slot()] == State::Running,
    {
        if self.current != 0 {
            let cur = self.current;
            self.set_state(cur, State::Available);
            assert(self.states() =~= old(self).states().update(cur as int, State::Available));
            proof {
                if exists|i: int|
                    0 <= i < old(self).states().len() && old(self).states()[i] == State::Ready {
                    let i = choose|i: int|
                        0 <= i < old(self).states().len() && old(self).states()[i] == State::Ready;
                    assert(self.states()[i] == State::Ready);
                }
            }
            self.t_yield();
        }
    }

    /// Takes the first Available slot for a new fiber, marks it Ready and
    /// lays out the fiber's first frame on that slot's stack (see
    /// `initial_frame`). The caller writes the guard, trampoline and entry
    /// addresses at the frame's slots and starts the context at `entry_at`.
    pub fn spawn(&mut self) -> (r: (usize, StackFrame))
        requires
            old(self).wf(),
            old(self).states()[old(self).current_slot()] == State::Running,
            exists|i: int| 0 <= i < old(self).states().len() && old(self).states()[i] == State::Available,
            forall|i: int|
                0 <= i < old(self).states().len() && old(self).states()[i] == State::Available
                    ==> #[trigger] old(self).stacks()[i].0 as int + old(self).stacks()[i].1 as int
                    <= u64::MAX && old(self).stacks()[i].1 >= 48,
        ensures
            final(self).wf(),
            old(self).states()[r.0 as int] == State::Available,
            forall|i: int| 0 <= i < r.0 ==> old(self).states()[i] != State::Available,
            final(self).states() == old(self).states().update(r.0 as int, State::Ready),
            final(self).current_slot() == old(self).current_slot(),
            final(self).stacks() == old(self).stacks(),
            r.1 == frame_for(old(self).stacks()[r.0 as int].0, old(self).stacks()[r.0 as int].1),
            r.1.top % 16 == 0,
            old(self).stacks()[r.0 as int].0 + old(self).stacks()[r.0 as int].1 - 16 < r.1.top
                <= old(self).stacks()[r.0 as int].0 + old(self).stacks()[r.0 as int].1,
            old(self).stacks()[r.0 as int].0 <= r.1.entry_at,
    {
        let mut i: usize = 0;
        while self.threads[i].state != State::Available
            invariant
                self.wf(),
                *self == *old(self),
                0 <= i < self.states().len(),
                forall|j: int| 0 <= j < i ==> self.states()[j] != State::Available,
                exists|j: int| i <= j < self.states().len() && self.states()[j] == State::Available,
            decreases self.states().len() - i,
        {
            i = i + 1;
        }
        let t = self.threads[i];
        assert(self.stacks()[i as int] == (t.stack_start, t.stack_size));
        assert(self.states()[i as int] == State::Available);
        assert(old(self).stacks()[i as int].0 as int + old(self).stacks()[i as int].1 as int
            <= u64::MAX);
        let frame = initial_frame(t.stack_start, t.stack_size);
        self.set_state(i, State::Ready);
        (i, frame)
    }
}

/// The first frame of a new fiber's stack: the top of the stack rounded
/// down to 16 bytes, and beneath it the addresses to return through. The
/// context starts with `rsp == entry_at`, so resuming it enters the fiber's
/// function; when that returns it goes through the 16-byte alignment
/// trampoline and then into the guard, which frees the slot.
#[derive(Clone, Copy, PartialEq, Eq, Structural, Debug)]
pub struct StackFrame {
    pub top: u64,
    pub guard_at: u64,
    pub skip_at: u64,
    pub entry_at: u64,
}

/// The first frame on the stack `[start, start + size)`.
pub open spec fn frame_for(start: u64, size: u64) -> StackFrame {
    let top = ((start + size) as u64) & !15u64;
    StackFrame {
        top,
        guard_at: (top - 16) as u64,
        skip_at: (top - 24) as u64,
        entry_at: (top - 32) as u64,
    }
}

/// Lays out the first frame on the stack `[start, start + size)`.
pub fn initial_frame(start: u64, size: u64) -> (f: StackFrame)
    requires
        start as int + size as int <= u64::MAX,
        size >= 48,
    ensures
        f == frame_for(start, size),
        f.top % 16 == 0,
        start + size - 16 < f.top <= start + size,
        f.guard_at == f.top - 16,
        f.skip_at == f.top - 24,
        f.entry_at == f.top - 32,
        start <= f.entry_at,
{
    let end: u64 = start + size;
    let top: u64 = end & !15u64;
    assert(top % 16 == 0 && top <= end && end - 16 < top) by (bit_vector)
        requires
            top == end & !15u64,
    ;
    StackFrame { top, guard_at: top - 16, skip_at: top - 24, entry_at: top - 32 }
}

} // verus!
