//! Orders at a restaurant, and a sum.
use vstd::prelude::*;
use vstd::string::StringExecFns;

verus! {

/// A breakfast: the toast is the guest's choice, the fruit the season's.
pub struct Breakfast {
    pub toast: String,
    seasonal_fruit: String,
}

impl Breakfast {
    pub closed spec fn toast_choice(&self) -> Seq<char> {
        self.toast@
    }

    pub closed spec fn fruit(&self) -> Seq<char> {
        self.seasonal_fruit@
    }

    pub fn new(toast: &str) -> (b: Breakfast)
        ensures
            b.toast_choice() == toast@,
            b.fruit() == "peaches"@,
    {
        Breakfast { toast: String::from_str(toast), seasonal_fruit: String::from_str("peaches") }
    }

    pub fn seasonal_fruit(&self) -> (r: &str)
        ensures
            r@ == self.fruit(),
    {
        self.seasonal_fruit.as_str()
    }
}

#[derive(Clone, Copy, PartialEq, Eq, Structural, Debug)]
pub enum Appetizer {
    Soup,
    Salad,
}

/// Adds two numbers whose sum fits in an `i32`.
pub fn add_two(a: i32, b: i32) -> (r: i32)
    requires
        i32::MIN <= a + b <= i32::MAX,
    ensures
        r == a + b,
{
    a + b
}

} // verus!
