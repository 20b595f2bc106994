use mini_async::executor::Waker;
use mini_async::reactor::{Interest, Reactor, ReactorError};

#[test]
fn register_once_per_token() {
    let mut r = Reactor::new();
    assert_eq!(r.register(4, Interest::Readable), Ok(()));
    assert_eq!(r.register(4, Interest::Writable), Err(ReactorError::AlreadyRegistered));
    assert_eq!(r.register(5, Interest::ReadWritable), Ok(()));
}

#[test]
fn deregister_twice_is_safe() {
    let mut r = Reactor::new();
    let w = Waker { thread: 1, task_id: 7 };
    r.register(7, Interest::Readable).unwrap();
    r.set_waker(&w, 7);
    r.set_waker(&Waker { thread: 1, task_id: 8 }, 8);
    assert_eq!(r.deregister(7), Ok(()));
    assert_eq!(r.waker_for(7), None);
    assert_eq!(r.deregister(7), Err(ReactorError::NotRegistered));
    assert_eq!(r.waker_for(7), None);
    assert_eq!(r.waker_for(8), Some(Waker { thread: 1, task_id: 8 }));
    // The token can be registered again.
    assert_eq!(r.register(7, Interest::Readable), Ok(()));
}

#[test]
fn latest_waker_wins() {
    let mut r = Reactor::new();
    let w1 = Waker { thread: 1, task_id: 3 };
    let w2 = Waker { thread: 2, task_id: 3 };
    r.set_waker(&w1, 3);
    r.set_waker(&w2, 3);
    assert_eq!(r.waker_for(3), Some(w2));
    assert_eq!(r.dispatch(&vec![3]), vec![w2]);
}

#[test]
fn dispatch_skips_unknown_tokens() {
    let mut r = Reactor::new();
    let a = Waker { thread: 1, task_id: 1 };
    let b = Waker { thread: 1, task_id: 2 };
    r.set_waker(&a, 1);
    r.set_waker(&b, 2);
    assert_eq!(r.dispatch(&vec![2, 9, 1, 2]), vec![b, a, b]);
    assert_eq!(r.dispatch(&vec![]), vec![]);
}

#[test]
fn ids_are_fresh() {
    let mut r = Reactor::new();
    let a = r.next_id();
    let b = r.next_id();
    let c = r.next_id();
    assert_eq!((a, b, c), (1, 2, 3));
}
