//! The parsed form of a schedule: atoms and the five lists that hold them.

use vstd::prelude::*;
use crate::part::CrontabPart;

verus! {

/// One comma-separated atom of a field.
#[derive(Debug, Clone, Copy, PartialEq, Eq, Structural)]
pub enum CrontabValue {
    /// A single number.
    Number(u32),
    /// An inclusive range, written `lo-hi`.
    Range(u32, u32),
    /// A wildcard with a stride, written `*/n`.
    Step(u32),
    /// The bare wildcard `*`.
    Any,
}

impl CrontabValue {
    /// Whether this atom may stand in the field `part`: every number in it lies
    /// within the field's bounds, and a range ascends strictly.
    ///
    /// A stride is held to the same bounds as a plain number of that field, so
    /// `*/0` is an atom of the minute field and `*/60` is not.
    pub open spec fn valid_for(self, part: CrontabPart) -> bool {
        match self {
            CrontabValue::Number(n) => part.admits(n as nat),
            CrontabValue::Range(lo, hi) => part.admits(lo as nat) && part.admits(hi as nat) && lo
                < hi,
            CrontabValue::Step(d) => part.admits(d as nat),
            CrontabValue::Any => true,
        }
    }
}

/// Whether `values` is a field's worth of atoms for `part`: at least one atom,
/// each of them valid for that field.
pub open spec fn valid_list(values: Seq<CrontabValue>, part: CrontabPart) -> bool {
    &&& values.len() >= 1
    &&& forall|i: int| 0 <= i < values.len() ==> (#[trigger] values[i]).valid_for(part)
}

/// A parsed schedule: the atoms of each field, in the order they were written.
#[derive(Debug, Clone, PartialEq, Eq)]
pub struct CrontabTimer {
    pub minutes: Vec<CrontabValue>,
    pub hours: Vec<CrontabValue>,
    pub days: Vec<CrontabValue>,
    pub months: Vec<CrontabValue>,
    /// Days of the week.
    pub dows: Vec<CrontabValue>,
}

/// The mathematical content of a [`CrontabTimer`].
pub struct TimerView {
    pub minutes: Seq<CrontabValue>,
    pub hours: Seq<CrontabValue>,
    pub days: Seq<CrontabValue>,
    pub months: Seq<CrontabValue>,
    pub dows: Seq<CrontabValue>,
}

impl TimerView {
    /// Every field holds at least one atom, and each atom is valid for the
    /// field it stands in.
    pub open spec fn well_formed(self) -> bool {
        &&& valid_list(self.minutes, CrontabPart::Minute)
        &&& valid_list(self.hours, CrontabPart::Hours)
        &&& valid_list(self.days, CrontabPart::Days)
        &&& valid_list(self.months, CrontabPart::Months)
        &&& valid_list(self.dows, CrontabPart::DaysOfWeek)
    }
}

impl View for CrontabTimer {
    type V = TimerView;

    open spec fn view(&self) -> TimerView {
        TimerView {
            minutes: self.minutes@,
            hours: self.hours@,
            days: self.days@,
            months: self.months@,
            dows: self.dows@,
        }
    }
}

} // verus!
