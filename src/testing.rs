//! Greetings and a bounded guess.
use vstd::prelude::*;
use vstd::string::StringExecFns;

verus! {

/// Greets `name`.
pub fn greeting(name: &str) -> (r: String)
    ensures
        r@ == "hello "@ + name@ + "!"@,
{
    let mut r = String::from_str("hello ");
    r.append(name);
    r.append("!");
    r
}

/// A greeting that leaves the name out.
#[allow(non_snake_case)]
pub fn greetingBad(name: &str) -> (r: String)
    ensures
        r@ == "hello"@,
{
    String::from_str("hello")
}

/// A guess between 1 and 100.
pub struct Guess {
    value: u32,
}

impl Guess {
    pub closed spec fn spec_value(&self) -> u32 {
        self.value
    }

    /// A guess outside 1 to 100 is a caller's error.
    pub fn new(value: u32) -> (g: Guess)
        requires
            1 <= value <= 100,
        ensures
            g.spec_value() == value,
    {
        Guess { value }
    }

    pub fn value(&self) -> (r: u32)
        ensures
            r == self.spec_value(),
    {
        self.value
    }
}

} // verus!
