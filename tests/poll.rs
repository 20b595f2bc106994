use mini_async::http::ReadOutcome;
use mini_async::poll::{drain_step, max_events, wait_timeout, Drain, Event, Poll, EPOLLET, EPOLLIN};

#[test]
fn event_token_and_flags() {
    let e = Event::for_interest(7, EPOLLIN | EPOLLET);
    assert_eq!(e.token(), 7);
    assert_eq!(e.events(), 0x8000_0001);
    assert_eq!(Event::new(1, 2).token(), 2);
}

#[test]
fn poll_registry_shares_descriptor() {
    let p = Poll::with_fd(42);
    assert_eq!(p.registry().raw_fd(), 42);
}

#[test]
fn wait_parameters() {
    assert_eq!(wait_timeout(None), -1);
    assert_eq!(wait_timeout(Some(250)), 250);
    assert_eq!(max_events(10), 10);
    assert_eq!(max_events(usize::MAX), i32::MAX);
}

#[test]
fn draining_reads() {
    assert_eq!(drain_step(&ReadOutcome::Eof), Drain::Closed);
    assert_eq!(drain_step(&ReadOutcome::Data(vec![1])), Drain::Received);
    assert_eq!(drain_step(&ReadOutcome::WouldBlock), Drain::Drained);
    assert_eq!(drain_step(&ReadOutcome::Interrupted), Drain::Failed);
    assert_eq!(drain_step(&ReadOutcome::Failed), Drain::Failed);
}
