use mini_async::fiber::{initial_frame, Runtime, State, MAX_THREADS};

/// A runtime whose slot `i` has the stack `[i * 0x10000, (i + 1) * 0x10000)`.
fn with_stacks() -> Runtime {
    let mut rt = Runtime::new();
    for i in 0..MAX_THREADS {
        rt.set_stack(i, (i as u64) * 0x10000, 0x10000);
    }
    rt
}

#[test]
fn new_runtime_has_base_running() {
    let rt = Runtime::new();
    assert_eq!(rt.current(), 0);
    assert_eq!(rt.state(0), State::Running);
    for i in 1..MAX_THREADS {
        assert_eq!(rt.state(i), State::Available);
    }
}

#[test]
fn yield_with_no_ready_slot_is_false() {
    let mut rt = Runtime::new();
    assert!(!rt.t_yield());
    assert_eq!(rt.current(), 0);
    assert_eq!(rt.state(0), State::Running);
}

#[test]
fn yield_with_one_ready_slot_resumes_it() {
    let mut rt = with_stacks();
    let (slot, frame) = rt.spawn();
    assert_eq!(frame.top, 0x20000);
    assert_eq!(frame.entry_at, 0x20000 - 32);
    assert_eq!(slot, 1);
    assert_eq!(rt.state(1), State::Ready);
    assert!(rt.t_yield());
    assert_eq!(rt.current(), 1);
    assert_eq!(rt.state(1), State::Running);
    assert_eq!(rt.state(0), State::Ready);
}

#[test]
fn return_frees_the_slot() {
    let mut rt = with_stacks();
    rt.spawn();
    rt.t_yield();
    rt.t_return();
    assert_eq!(rt.state(1), State::Available);
    assert_eq!(rt.current(), 0);
    assert_eq!(rt.state(0), State::Running);
    // The base slot is never freed.
    rt.t_return();
    assert_eq!(rt.state(0), State::Running);
}

#[test]
fn two_fibers_interleave_round_robin() {
    let mut rt = with_stacks();
    let mut remaining = vec![0usize; MAX_THREADS];
    let (a, _) = rt.spawn();
    remaining[a] = 10;
    let (b, _) = rt.spawn();
    remaining[b] = 15;
    let mut counter = 0;
    let mut trace = vec![];
    loop {
        let c = rt.current();
        if c == 0 {
            if !rt.t_yield() {
                break;
            }
        } else if remaining[c] > 0 {
            counter += 1;
            trace.push(c);
            remaining[c] -= 1;
            rt.t_yield();
        } else {
            rt.t_return();
        }
    }
    assert_eq!(counter, 25);
    let mut expected = vec![];
    for _ in 0..10 {
        expected.push(a);
        expected.push(b);
    }
    for _ in 0..5 {
        expected.push(b);
    }
    assert_eq!(trace, expected);
    for i in 1..MAX_THREADS {
        assert_eq!(rt.state(i), State::Available);
    }
}

#[test]
fn stack_frame_layout() {
    let f = initial_frame(0x1000, 48);
    assert_eq!(f.top, 0x1030);
    assert_eq!(f.guard_at, 0x1020);
    assert_eq!(f.skip_at, 0x1018);
    assert_eq!(f.entry_at, 0x1010);
    let g = initial_frame(0x1003, 0x100);
    assert_eq!(g.top, 0x1100);
    assert_eq!(g.entry_at, 0x10e0);
}
