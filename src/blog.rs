//! A blog post that moves from draft through review to published, and shows
//! its text only once published.
use vstd::prelude::*;
use vstd::string::StringExecFns;

verus! {

/// Where a post stands in its review.
#[derive(Clone, Copy, PartialEq, Eq, Structural, Debug)]
pub enum PostState {
    Draft,
    PendingReview,
    Published,
}

pub struct Post {
    state: PostState,
    content: String,
}

/// The state a review request leads to.
pub open spec fn after_request(s: PostState) -> PostState {
    match s {
        PostState::Draft => PostState::PendingReview,
        _ => s,
    }
}

/// The state an approval leads to.
pub open spec fn after_approve(s: PostState) -> PostState {
    match s {
        PostState::PendingReview => PostState::Published,
        _ => s,
    }
}

impl Post {
    pub closed spec fn state(&self) -> PostState {
        self.state
    }

    /// The text written so far, shown or not.
    pub closed spec fn text(&self) -> Seq<char> {
        self.content@
    }

    /// An empty draft.
    pub fn new() -> (p: Post)
        ensures
            p.state() == PostState::Draft,
            p.text() == Seq::<char>::empty(),
    {
        Post { state: PostState::Draft, content: String::new() }
    }

    pub fn add_text(&mut self, text: &str)
        ensures
            final(self).text() == old(self).text() + text@,
            final(self).state() == old(self).state(),
    {
        self.content.append(text);
    }

    /// The text once published; empty before.
    pub fn content(&self) -> (r: &str)
        ensures
            r@ == if self.state() == PostState::Published {
                self.text()
            } else {
                Seq::<char>::empty()
            },
    {
        if self.state == PostState::Published {
            self.content.as_str()
        } else {
            proof {
                reveal_strlit("");
            }
            ""
        }
    }

    /// Sends a draft to review; any other post stays as it is.
    pub fn request_review(&mut self)
        ensures
            final(self).state() == after_request(old(self).state()),
            final(self).text() == old(self).text(),
    {
        if self.state == PostState::Draft {
            self.state = PostState::PendingReview;
        }
    }

    /// Publishes a post under review; any other post stays as it is.
    pub fn approve(&mut self)
        ensures
            final(self).state() == after_approve(old(self).state()),
            final(self).text() == old(self).text(),
    {
        if self.state == PostState::PendingReview {
            self.state = PostState::Published;
        }
    }
}

/// A post's life: hidden while drafted and reviewed, shown once approved.
pub fn t17_oop() {
    let mut post = Post::new();
    post.add_text("I love mandy");
    let hidden = post.content();
    assert(hidden@ == Seq::<char>::empty());
    post.request_review();
    let reviewing = post.content();
    assert(reviewing@ == Seq::<char>::empty());
    post.approve();
    let shown = post.content();
    assert(shown@ == "I love mandy"@);
}

} // verus!
