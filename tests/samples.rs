use std::cell::RefCell;

use mini_async::blog::{Post, t17_oop};
use mini_async::counter::Counter;
use mini_async::limit::{warning, LimitTracker, Messenger, Warning};
use mini_async::restaurant::{add_two, Appetizer, Breakfast};
use mini_async::summary::{largestByNormalWay, NewsArticle, Summary, Tweet};
use mini_async::testing::{greeting, greetingBad, Guess};

#[test]
fn test_greeting() {
    let res = greeting("Carol");
    assert!(res.contains("Carol"));
}

#[allow(non_snake_case)]
#[test]
fn test_greetingBad() {
    let res = greetingBad("Carol");
    assert_eq!(res, "hello");
}

#[test]
fn greeting_exact_text() {
    assert_eq!(greeting("Carol"), "hello Carol!");
    assert_eq!(greeting(""), "hello !");
}

#[test]
fn guess_keeps_its_value() {
    assert_eq!(Guess::new(1).value(), 1);
    assert_eq!(Guess::new(100).value(), 100);
}

#[allow(non_snake_case)]
#[test]
fn test_createIteratorForStruct() {
    let mut counter = Counter::new();
    assert_eq!(counter.next(), Some(1));
    assert_eq!(counter.next(), Some(2));
    assert_eq!(counter.next(), Some(3));
    assert_eq!(counter.next(), Some(4));
    assert_eq!(counter.next(), Some(5));
    assert_eq!(counter.next(), None);
}

#[test]
fn counter_stays_exhausted() {
    let mut counter = Counter::new();
    for _ in 0..5 {
        counter.next();
    }
    for _ in 0..10 {
        assert_eq!(counter.next(), None);
    }
}

struct MockMessenger {
    sent_msg: RefCell<Vec<String>>,
}

impl MockMessenger {
    fn new() -> MockMessenger {
        MockMessenger { sent_msg: RefCell::new(vec![]) }
    }
}

impl Messenger for MockMessenger {
    fn send(&self, msg: &str) {
        self.sent_msg.borrow_mut().push(String::from(msg));
    }
}

#[test]
fn it_sends_an_over_75_percent_warning_message() {
    let mock_msger = MockMessenger::new();
    let mut limit_tracker = LimitTracker::new(&mock_msger, 100);

    limit_tracker.set_value(80);
    assert_eq!(mock_msger.sent_msg.borrow().len(), 1);
}

#[test]
fn limit_tracker_messages_by_level() {
    let mock = MockMessenger::new();
    let mut tracker = LimitTracker::new(&mock, 100);
    assert_eq!(tracker.set_value(74), None);
    assert_eq!(tracker.set_value(75), Some(Warning::Over75));
    assert_eq!(tracker.set_value(90), Some(Warning::Over90));
    assert_eq!(tracker.set_value(100), Some(Warning::OverQuota));
    assert_eq!(tracker.set_value(250), Some(Warning::OverQuota));
    let sent = mock.sent_msg.borrow();
    assert_eq!(
        *sent,
        vec![
            "Error, you are over 75%".to_string(),
            "Error, you are over 90%".to_string(),
            "Error, you are over quota".to_string(),
            "Error, you are over quota".to_string(),
        ]
    );
}

#[test]
fn warning_edges() {
    assert_eq!(warning(0, 0), None);
    assert_eq!(warning(1, 0), Some(Warning::OverQuota));
    assert_eq!(warning(usize::MAX - 1, usize::MAX), Some(Warning::Over90));
    assert_eq!(warning(3, 4), Some(Warning::Over75));
    assert_eq!(warning(2, 4), None);
}

#[test]
fn post_shows_text_only_when_published() {
    let mut post = Post::new();
    post.add_text("I love mandy");
    assert_eq!("", post.content());
    post.approve();
    assert_eq!("", post.content());
    post.request_review();
    assert_eq!("", post.content());
    post.request_review();
    assert_eq!("", post.content());
    post.approve();
    assert_eq!("I love mandy", post.content());
    post.request_review();
    assert_eq!("I love mandy", post.content());
}

#[test]
fn post_scenario_runs() {
    t17_oop();
}

#[test]
fn breakfast_and_sum() {
    let meal = Breakfast::new("Rye");
    assert_eq!(meal.toast, "Rye");
    assert_eq!(meal.seasonal_fruit(), "peaches");
    assert_eq!(add_two(1, 2), 3);
    assert_eq!(add_two(-5, 2), -3);
    assert_ne!(Appetizer::Soup, Appetizer::Salad);
}

#[test]
fn largest_of_list() {
    assert_eq!(largestByNormalWay(&[34, 50, 25, 100, 65]), 100);
    assert_eq!(largestByNormalWay(&[-3]), -3);
    assert_eq!(largestByNormalWay(&[-7, -2, -9]), -2);
}

#[test]
fn summaries() {
    let article = NewsArticle {
        headline: String::from("Penguins win"),
        location: String::from("Pittsburgh"),
        author: String::from("Iceburgh"),
        content: String::from("The Penguins are back."),
    };
    assert_eq!(article.summarize(), "Penguins win, by Iceburgh (Pittsburgh)");
    let tweet = Tweet {
        username: String::from("horse_ebooks"),
        content: String::from("of course"),
        reply: false,
        retweet: false,
    };
    assert_eq!(tweet.summarize(), "horse_ebooks: of course");
}
