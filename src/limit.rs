//! Tracking a value against a quota, with warnings sent as it nears it.
use vstd::prelude::*;

verus! {

/// Something that delivers warning messages.
pub trait Messenger {
    fn send(&self, msg: &str);
}

/// How close to the quota a value is.
#[derive(Clone, Copy, PartialEq, Eq, Structural, Debug)]
pub enum Warning {
    /// At or over the quota.
    OverQuota,
    /// At 90% of it or more.
    Over90,
    /// At 75% of it or more.
    Over75,
}

/// The warning for `value` against `max`, by exact ratio; a quota of zero
/// is exceeded by any value but zero.
pub open spec fn warning_level(value: int, max: int) -> Option<Warning> {
    if max == 0 {
        if value == 0 {
            None
        } else {
            Some(Warning::OverQuota)
        }
    } else if value >= max {
        Some(Warning::OverQuota)
    } else if 10 * value >= 9 * max {
        Some(Warning::Over90)
    } else if 4 * value >= 3 * max {
        Some(Warning::Over75)
    } else {
        None
    }
}

/// Computes `warning_level`.
pub fn warning(value: usize, max: usize) -> (r: Option<Warning>)
    ensures
        r == warning_level(value as int, max as int),
{
    let v = value as u128;
    let m = max as u128;
    if max == 0 {
        if value == 0 {
            None
        } else {
            Some(Warning::OverQuota)
        }
    } else if value >= max {
        Some(Warning::OverQuota)
    } else if 10 * v >= 9 * m {
        Some(Warning::Over90)
    } else if 4 * v >= 3 * m {
        Some(Warning::Over75)
    } else {
        None
    }
}

/// The text sent for each warning.
pub open spec fn message_text(w: Warning) -> Seq<char> {
    match w {
        Warning::OverQuota => "Error, you are over quota"@,
        Warning::Over90 => "Error, you are over 90%"@,
        Warning::Over75 => "Error, you are over 75%"@,
    }
}

/// The text sent for a warning.
pub fn message(w: Warning) -> (r: &'static str)
    ensures
        r@ == message_text(w),
{
    match w {
        Warning::OverQuota => "Error, you are over quota",
        Warning::Over90 => "Error, you are over 90%",
        Warning::Over75 => "Error, you are over 75%",
    }
}

/// A value, its quota, and where warnings go.
pub struct LimitTracker<'a, T: Messenger> {
    messenger: &'a T,
    value: usize,
    max: usize,
}

impl<'a, T: Messenger> LimitTracker<'a, T> {
    pub closed spec fn spec_value(&self) -> usize {
        self.value
    }

    pub closed spec fn spec_max(&self) -> usize {
        self.max
    }

    pub fn new(messenger: &'a T, max: usize) -> (r: LimitTracker<'a, T>)
        ensures
            r.spec_value() == 0,
            r.spec_max() == max,
    {
        LimitTracker { messenger, value: 0, max }
    }

    /// Records `value` and, when it calls for a warning, sends that
    /// warning's `message_text` to the messenger, once; returns the warning.
    pub fn set_value(&mut self, value: usize) -> (r: Option<Warning>)
        ensures
            final(self).spec_value() == value,
            final(self).spec_max() == old(self).spec_max(),
            r == warning_level(value as int, old(self).spec_max() as int),
    {
        self.value = value;
        let w = warning(self.value, self.max);
        match w {
            Some(level) => {
                self.messenger.send(message(level));
            },
            None => {},
        }
        w
    }
}

} // verus!
