//! The five positions of a crontab schedule and their numeric bounds.

use vstd::prelude::*;

verus! {

/// One of the five fields of a crontab schedule.
#[derive(Debug, Clone, Copy, PartialEq, Eq, Structural)]
pub enum CrontabPart {
    Minute,
    Hours,
    Days,
    Months,
    DaysOfWeek,
}

impl CrontabPart {
    /// Smallest number that may be written in this field.
    pub open spec fn spec_min(self) -> nat {
        match self {
            CrontabPart::Minute => 0,
            CrontabPart::Hours => 0,
            CrontabPart::Days => 1,
            CrontabPart::Months => 1,
            CrontabPart::DaysOfWeek => 0,
        }
    }

    /// Largest number that may be written in this field.
    pub open spec fn spec_max(self) -> nat {
        match self {
            CrontabPart::Minute => 59,
            CrontabPart::Hours => 23,
            CrontabPart::Days => 31,
            CrontabPart::Months => 12,
            CrontabPart::DaysOfWeek => 6,
        }
    }

    /// Whether `n` lies within this field's inclusive bounds.
    pub open spec fn admits(self, n: nat) -> bool {
        self.spec_min() <= n && n <= self.spec_max()
    }

    /// The inclusive bounds `(min, max)` of this field.
    pub fn boundaries(&self) -> (bounds: (u32, u32))
        ensures
            bounds.0 == self.spec_min(),
            bounds.1 == self.spec_max(),
    {
        match self {
            CrontabPart::Minute => (0, 59),
            CrontabPart::Hours => (0, 23),
            CrontabPart::Days => (1, 31),
            CrontabPart::Months => (1, 12),
            CrontabPart::DaysOfWeek => (0, 6),
        }
    }
}

} // verus!
