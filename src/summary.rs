//! The largest of a list, and summaries of articles and tweets.
use vstd::prelude::*;
use vstd::string::StringExecFns;

verus! {

/// The largest element of a non-empty list.
#[allow(non_snake_case)]
pub fn largestByNormalWay(list: &[i32]) -> (r: i32)
    requires
        list@.len() > 0,
    ensures
        list@.contains(r),
        forall|i: int| 0 <= i < list@.len() ==> list@[i] <= r,
{
    let mut largest = list[0];
    let mut i: usize = 1;
    assert(list@.subrange(0, 1)[0] == largest);
    while i < list.len()
        invariant
            1 <= i <= list@.len(),
            list@.subrange(0, i as int).contains(largest),
            forall|j: int| 0 <= j < i ==> list@[j] <= largest,
        decreases list@.len() - i,
    {
        if list[i] > largest {
            largest = list[i];
            assert(list@.subrange(0, i as int + 1)[i as int] == largest);
        } else {
            proof {
                let k = choose|k: int| 0 <= k < i && list@.subrange(0, i as int)[k] == largest;
                assert(list@.subrange(0, i as int + 1)[k] == largest);
            }
        }
        i = i + 1;
    }
    assert(list@.subrange(0, list@.len() as int) =~= list@);
    largest
}

/// What can be summed up in a line.
pub trait Summary {
    fn summarize(&self) -> String;
}

pub struct NewsArticle {
    pub headline: String,
    pub location: String,
    pub author: String,
    pub content: String,
}

impl Summary for NewsArticle {
    /// "headline, by author (location)".
    fn summarize(&self) -> (r: String)
        ensures
            r@ == self.headline@ + ", by "@ + self.author@ + " ("@ + self.location@ + ")"@,
    {
        let mut r = self.headline.clone();
        r.append(", by ");
        r.append(self.author.as_str());
        r.append(" (");
        r.append(self.location.as_str());
        r.append(")");
        r
    }
}

pub struct Tweet {
    pub username: String,
    pub content: String,
    pub reply: bool,
    pub retweet: bool,
}

impl Summary for Tweet {
    /// "username: content".
    fn summarize(&self) -> (r: String)
        ensures
            r@ == self.username@ + ": "@ + self.content@,
    {
        let mut r = self.username.clone();
        r.append(": ");
        r.append(self.content.as_str());
        r
    }
}

} // verus!
