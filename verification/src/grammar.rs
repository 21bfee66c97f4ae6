//! The grammar of a schedule, as functions on sequences of characters.
//!
//! Each function takes the text that is still to be read and gives either what
//! it read together with the text left behind it, or a [`Failure`]. The grammar
//! is predictive: once a `-` follows a number, a range is owed; once a `/`
//! follows a `*`, a stride is owed. Only a list of atoms ends quietly, before a
//! comma that no atom follows.

use vstd::prelude::*;
use crate::error::{CrontabErrorKind, Failure};
use crate::part::CrontabPart;
use crate::text::{after_digits, leading_value, lemma_leading_digits_bound};
use crate::text::{starts_with, starts_with_digit};
use crate::value::{valid_list, CrontabValue, TimerView};

verus! {

/// What a rule of the grammar gives: the thing read and the text left behind
/// it, or the failure.
pub type Outcome<T> = Result<(T, Seq<char>), Failure>;

/// The thing `read`, with the text `rest` left behind it.
pub open spec fn done<T>(read: T, rest: Seq<char>) -> Outcome<T> {
    Ok((read, rest))
}

/// A failure of the given kind at the text `remaining`.
pub open spec fn fail<T>(kind: CrontabErrorKind, remaining: Seq<char>) -> Outcome<T> {
    Err(Failure { kind, remaining })
}

/// A number of the field `part`: the digits that `s` begins with, read as a
/// decimal number that the field's bounds admit. Nothing is consumed on
/// failure.
pub open spec fn number(part: CrontabPart, s: Seq<char>) -> Outcome<u32> {
    if !starts_with_digit(s) {
        fail(CrontabErrorKind::UnparseableAtom, s)
    } else if !part.admits(leading_value(s)) {
        fail(CrontabErrorKind::OutOfBounds, s)
    } else {
        Ok((leading_value(s) as u32, after_digits(s)))
    }
}

/// A range of the field `part`: a number, a `-`, and a number strictly greater
/// than the first.
pub open spec fn range(part: CrontabPart, s: Seq<char>) -> Outcome<(u32, u32)> {
    match number(part, s) {
        Err(f) => Err(f),
        Ok((lo, behind_lo)) => if !starts_with(behind_lo, '-') {
            fail(CrontabErrorKind::UnparseableAtom, behind_lo)
        } else {
            match number(part, behind_lo.skip(1)) {
                Err(f) => Err(f),
                Ok((hi, behind_hi)) => if lo < hi {
                    Ok(((lo, hi), behind_hi))
                } else {
                    fail(CrontabErrorKind::InvalidRangeOrder, s)
                },
            }
        },
    }
}

/// A wildcard of the field `part`: a `*`, and, where a `/` follows it at once,
/// the stride, which must be a number of the field.
pub open spec fn wildcard(part: CrontabPart, s: Seq<char>) -> Outcome<Option<u32>> {
    if !starts_with(s, '*') {
        fail(CrontabErrorKind::UnparseableAtom, s)
    } else if starts_with(s.skip(1), '/') {
        match number(part, s.skip(2)) {
            Err(f) => Err(f),
            Ok((stride, behind)) => Ok((Some(stride), behind)),
        }
    } else {
        Ok((None, s.skip(1)))
    }
}

/// One atom of the field `part`. A `*` opens a wildcard; a number that a `-`
/// follows opens a range; any other number stands alone.
pub open spec fn value(part: CrontabPart, s: Seq<char>) -> Outcome<CrontabValue> {
    if starts_with(s, '*') {
        match wildcard(part, s) {
            Err(f) => Err(f),
            Ok((Some(stride), behind)) => Ok((CrontabValue::Step(stride), behind)),
            Ok((None, behind)) => Ok((CrontabValue::Any, behind)),
        }
    } else {
        match number(part, s) {
            Err(f) => Err(f),
            Ok((n, behind)) => if starts_with(behind, '-') {
                match range(part, s) {
                    Err(f) => Err(f),
                    Ok(((lo, hi), behind_hi)) => Ok((CrontabValue::Range(lo, hi), behind_hi)),
                }
            } else {
                Ok((CrontabValue::Number(n), behind))
            },
        }
    }
}

/// Zero or more further atoms of the field `part`, each behind a comma. The
/// run ends, without a failure, before the first comma that no atom follows
/// and before anything that is not a comma.
pub open spec fn more_values(part: CrontabPart, s: Seq<char>) -> (Seq<CrontabValue>, Seq<char>)
    decreases s.len(),
    via more_values_terminates
{
    if starts_with(s, ',') {
        match value(part, s.skip(1)) {
            Err(_) => (Seq::empty(), s),
            Ok((v, behind)) => {
                let (vs, rest) = more_values(part, behind);
                (seq![v] + vs, rest)
            },
        }
    } else {
        (Seq::empty(), s)
    }
}

/// Each further atom is read from strictly less text than the one before it.
#[via_fn]
proof fn more_values_terminates(part: CrontabPart, s: Seq<char>) {
    if starts_with(s, ',') && value(part, s.skip(1)) is Ok {
        lemma_value_ok(part, s.skip(1));
    }
}

/// The atoms of one field: an atom, then every further atom that a comma
/// introduces, in the order in which they are written.
pub open spec fn values(part: CrontabPart, s: Seq<char>) -> Outcome<Seq<CrontabValue>> {
    match value(part, s) {
        Err(f) => Err(f),
        Ok((v, behind)) => {
            let (vs, rest) = more_values(part, behind);
            Ok((seq![v] + vs, rest))
        },
    }
}

/// One of the first four fields: its atoms, and the single space that must
/// follow them.
pub open spec fn field(part: CrontabPart, s: Seq<char>) -> Outcome<Seq<CrontabValue>> {
    match values(part, s) {
        Err(f) => Err(f),
        Ok((vs, behind)) => if starts_with(behind, ' ') {
            Ok((vs, behind.skip(1)))
        } else {
            fail(CrontabErrorKind::MalformedSeparator, behind)
        },
    }
}

/// A whole schedule: minute, hour, day of month and month, each followed by
/// one space, then day of week. What follows the last field is left unread.
pub open spec fn timer(s: Seq<char>) -> Outcome<TimerView> {
    match field(CrontabPart::Minute, s) {
        Err(f) => Err(f),
        Ok((minutes, s1)) => match field(CrontabPart::Hours, s1) {
            Err(f) => Err(f),
            Ok((hours, s2)) => match field(CrontabPart::Days, s2) {
                Err(f) => Err(f),
                Ok((days, s3)) => match field(CrontabPart::Months, s3) {
                    Err(f) => Err(f),
                    Ok((months, s4)) => match values(CrontabPart::DaysOfWeek, s4) {
                        Err(f) => Err(f),
                        Ok((dows, rest)) => Ok(
                            (TimerView { minutes, hours, days, months, dows }, rest),
                        ),
                    },
                },
            },
        },
    }
}

/// Whether `r` is what is left of `s` after at least one character was taken
/// from its front.
pub open spec fn proper_suffix(r: Seq<char>, s: Seq<char>) -> bool {
    exists|k: int| 0 < k <= s.len() && r == #[trigger] s.skip(k)
}

/// A number that parses leaves a proper suffix of the text, and lies within the
/// field's bounds.
pub proof fn lemma_number_ok(part: CrontabPart, s: Seq<char>)
    requires
        number(part, s) is Ok,
    ensures
        proper_suffix(number(part, s)->Ok_0.1, s),
        part.admits(number(part, s)->Ok_0.0 as nat),
{
    lemma_leading_digits_bound(s);
}

/// Taking a proper suffix of a suffix gives a proper suffix.
pub proof fn lemma_suffix_chain(r: Seq<char>, m: Seq<char>, s: Seq<char>, j: int)
    requires
        0 <= j <= s.len(),
        m == s.skip(j),
        proper_suffix(r, m),
    ensures
        proper_suffix(r, s),
        r.len() < s.len(),
{
    let k = choose|k: int| 0 < k <= m.len() && r == #[trigger] m.skip(k);
    assert(m.skip(k) =~= s.skip(j + k));
}

/// A proper suffix is strictly shorter.
pub proof fn lemma_suffix_shorter(r: Seq<char>, s: Seq<char>)
    requires
        proper_suffix(r, s),
    ensures
        r.len() < s.len(),
{
    assert(s.skip(0) =~= s);
    lemma_suffix_chain(r, s, s, 0);
}

/// A range that parses leaves a proper suffix of the text; both ends lie
/// within the field's bounds and ascend strictly.
pub proof fn lemma_range_ok(part: CrontabPart, s: Seq<char>)
    requires
        range(part, s) is Ok,
    ensures
        proper_suffix(range(part, s)->Ok_0.1, s),
        CrontabValue::Range(range(part, s)->Ok_0.0.0, range(part, s)->Ok_0.0.1).valid_for(part),
{
    lemma_number_ok(part, s);
    let behind_lo = number(part, s)->Ok_0.1;
    let k = choose|k: int| 0 < k <= s.len() && behind_lo == #[trigger] s.skip(k);
    let m = behind_lo.skip(1);
    assert(m =~= s.skip(k + 1));
    lemma_number_ok(part, m);
    lemma_suffix_chain(number(part, m)->Ok_0.1, m, s, k + 1);
}

/// A wildcard that parses leaves a proper suffix of the text, and its stride,
/// if it has one, lies within the field's bounds.
pub proof fn lemma_wildcard_ok(part: CrontabPart, s: Seq<char>)
    requires
        wildcard(part, s) is Ok,
    ensures
        proper_suffix(wildcard(part, s)->Ok_0.1, s),
        wildcard(part, s)->Ok_0.0 matches Some(stride) ==> part.admits(stride as nat),
{
    if starts_with(s.skip(1), '/') {
        let m = s.skip(2);
        lemma_number_ok(part, m);
        lemma_suffix_chain(number(part, m)->Ok_0.1, m, s, 2);
    }
}

/// An atom that parses leaves a proper suffix of the text, and is valid for
/// the field.
pub proof fn lemma_value_ok(part: CrontabPart, s: Seq<char>)
    requires
        value(part, s) is Ok,
    ensures
        proper_suffix(value(part, s)->Ok_0.1, s),
        value(part, s)->Ok_0.1.len() < s.len(),
        value(part, s)->Ok_0.0.valid_for(part),
{
    if starts_with(s, '*') {
        lemma_wildcard_ok(part, s);
    } else {
        lemma_number_ok(part, s);
        if starts_with(number(part, s)->Ok_0.1, '-') {
            lemma_range_ok(part, s);
        }
    }
    lemma_suffix_shorter(value(part, s)->Ok_0.1, s);
}

/// Every atom that a run of further atoms holds is valid for the field, and the
/// run leaves no more text than it was given.
pub proof fn lemma_more_values_ok(part: CrontabPart, s: Seq<char>)
    ensures
        forall|i: int|
            0 <= i < more_values(part, s).0.len() ==> (#[trigger] more_values(
                part,
                s,
            ).0[i]).valid_for(part),
        more_values(part, s).1.len() <= s.len(),
    decreases s.len(),
{
    if starts_with(s, ',') && value(part, s.skip(1)) is Ok {
        lemma_value_ok(part, s.skip(1));
        lemma_more_values_ok(part, value(part, s.skip(1))->Ok_0.1);
    }
}

/// A field's atoms that parse are a valid list for the field: at least one
/// atom, each within the field's bounds. They leave strictly less text than
/// was given.
pub proof fn lemma_values_ok(part: CrontabPart, s: Seq<char>)
    requires
        values(part, s) is Ok,
    ensures
        valid_list(values(part, s)->Ok_0.0, part),
        values(part, s)->Ok_0.1.len() < s.len(),
{
    lemma_value_ok(part, s);
    lemma_more_values_ok(part, value(part, s)->Ok_0.1);
}

} // verus!
