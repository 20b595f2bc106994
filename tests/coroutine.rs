use mini_async::coroutine::{Coroutine, Stage};
use mini_async::executor::Waker;
use mini_async::future::{Future, PollState};

struct After {
    left: u32,
    reply: &'static str,
    done: bool,
}

impl Future for After {
    type Output = String;

    fn is_pending(&self) -> bool {
        !self.done
    }

    fn poll(&mut self, _waker: &Waker) -> PollState<String> {
        if self.left == 0 {
            self.done = true;
            PollState::Ready(self.reply.to_string())
        } else {
            self.left -= 1;
            PollState::NotReady
        }
    }
}

#[test]
fn coroutine_awaits_in_turn() {
    let w = Waker { thread: 0, task_id: 0 };
    let mut c = Coroutine::new(After { left: 1, reply: "one", done: false }, After { left: 2, reply: "two", done: false });
    assert_eq!(c.current_stage(), Stage::Start);
    assert!(matches!(c.poll(&w), PollState::NotReady));
    assert_eq!(c.current_stage(), Stage::Wait1);
    assert!(matches!(c.poll(&w), PollState::NotReady));
    assert_eq!(c.current_stage(), Stage::Wait2);
    assert!(matches!(c.poll(&w), PollState::NotReady));
    match c.poll(&w) {
        PollState::Ready(v) => assert_eq!(v, vec!["one".to_string(), "two".to_string()]),
        PollState::NotReady => panic!("should be done"),
    }
    assert_eq!(c.current_stage(), Stage::Resolved);
}

#[test]
fn coroutine_runs_through_when_all_ready() {
    let w = Waker { thread: 0, task_id: 0 };
    let mut c = Coroutine::new(After { left: 0, reply: "a", done: false }, After { left: 0, reply: "b", done: false });
    match c.poll(&w) {
        PollState::Ready(v) => assert_eq!(v, vec!["a".to_string(), "b".to_string()]),
        PollState::NotReady => panic!("should be done"),
    }
}
