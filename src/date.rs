//! Calendar dates as day numbers.
use vstd::prelude::*;

verus! {

/// A calendar date, counted in days from 1970-01-01 (day 0), as chrono counts them.
#[derive(Clone, Copy, Debug, PartialEq, Eq, Structural)]
pub struct Date {
    pub epoch_day: i32,
}

impl Date {
    /// The day before `self`.
    pub fn previous(self) -> (r: Date)
        requires
            self.epoch_day > i32::MIN,
        ensures
            r.epoch_day == self.epoch_day - 1,
    {
        Date { epoch_day: self.epoch_day - 1 }
    }
}

} // verus!
