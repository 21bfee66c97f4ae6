//! The executable parser. Each function computes exactly what the rule of the
//! same name in [`crate::grammar`] says of the input's characters.

use vstd::prelude::*;
use crate::error::{CrontabError, CrontabErrorKind};
use crate::grammar::{field, more_values, number, range, timer, value, values, wildcard, Outcome};
use crate::grammar::{lemma_value_ok, lemma_values_ok};
use crate::part::CrontabPart;
use crate::scan::{begins_with, begins_with_digit, take_char, take_u32};
use crate::value::{valid_list, CrontabTimer, CrontabValue, TimerView};

verus! {

/// Whether the parser's answer `got` is the grammar's answer `want`: the same
/// thing read and the same text left, or the same failure at the same place.
pub open spec fn agrees<'a, T>(
    got: Result<(&'a str, T), CrontabError<'a>>,
    want: Outcome<T>,
) -> bool {
    match (got, want) {
        (Ok((rest, read)), Ok((spec_read, spec_rest))) => read == spec_read && rest@ == spec_rest,
        (Err(e), Err(f)) => e@ == f,
        _ => false,
    }
}

/// Reads a number of the field `part` off the front of `input`.
///
/// Succeeds exactly when the input begins with decimal digits that write a
/// number within the field's bounds; the digits are then all consumed. Fails
/// with `UnparseableAtom` where no digit stands, with `OutOfBounds` where the
/// number is not admitted; either way the failure is at `input` itself.
pub fn crontab_number<'a>(part: &CrontabPart, input: &'a str) -> (parsed: Result<
    (&'a str, u32),
    CrontabError<'a>,
>)
    ensures
        agrees(parsed, number(*part, input@)),
        parsed matches Ok((_, n)) ==> part.admits(n as nat),
{
    let (min, max) = part.boundaries();
    match take_u32(input) {
        Some((rest, n)) => {
            if min <= n && n <= max {
                Ok((rest, n))
            } else {
                Err(CrontabError { kind: CrontabErrorKind::OutOfBounds, remaining: input })
            }
        },
        None => {
            if begins_with_digit(input) {
                Err(CrontabError { kind: CrontabErrorKind::OutOfBounds, remaining: input })
            } else {
                Err(CrontabError { kind: CrontabErrorKind::UnparseableAtom, remaining: input })
            }
        },
    }
}

/// Reads a range `lo-hi` of the field `part` off the front of `input`.
///
/// Succeeds exactly when the input begins with a number of the field, a `-`,
/// and a second number of the field that is strictly greater. A failure of
/// either number is reported where that number should stand; a missing `-` is
/// `UnparseableAtom` behind the first number; ends that do not ascend are
/// `InvalidRangeOrder` at `input`.
pub fn crontab_range<'a>(part: &CrontabPart, input: &'a str) -> (parsed: Result<
    (&'a str, (u32, u32)),
    CrontabError<'a>,
>)
    ensures
        agrees(parsed, range(*part, input@)),
        parsed matches Ok((_, ends)) ==> CrontabValue::Range(ends.0, ends.1).valid_for(*part),
{
    let (behind_lo, lo) = match crontab_number(part, input) {
        Ok(found) => found,
        Err(e) => { return Err(e); },
    };
    let tail = match take_char('-', behind_lo) {
        Some(tail) => tail,
        None => {
            return Err(
                CrontabError { kind: CrontabErrorKind::UnparseableAtom, remaining: behind_lo },
            );
        },
    };
    let (behind_hi, hi) = match crontab_number(part, tail) {
        Ok(found) => found,
        Err(e) => { return Err(e); },
    };
    if lo < hi {
        Ok((behind_hi, (lo, hi)))
    } else {
        Err(CrontabError { kind: CrontabErrorKind::InvalidRangeOrder, remaining: input })
    }
}

/// Reads a wildcard of the field `part` off the front of `input`: `*` gives no
/// stride, `*/n` gives the stride `n`.
///
/// Succeeds exactly when the input begins with `*` and either no `/` follows
/// it at once, or a number of the field follows the `/`. Fails with
/// `UnparseableAtom` at `input` where no `*` stands, and as the stride's
/// number fails where a `/` is followed by none that the field admits.
pub fn crontab_wildcard<'a>(part: &CrontabPart, input: &'a str) -> (parsed: Result<
    (&'a str, Option<u32>),
    CrontabError<'a>,
>)
    ensures
        agrees(parsed, wildcard(*part, input@)),
        parsed matches Ok((_, Some(stride))) ==> part.admits(stride as nat),
{
    let behind_star = match take_char('*', input) {
        Some(rest) => rest,
        None => {
            return Err(CrontabError { kind: CrontabErrorKind::UnparseableAtom, remaining: input });
        },
    };
    match take_char('/', behind_star) {
        None => Ok((behind_star, None)),
        Some(tail) => {
            assert(tail@ =~= input@.skip(2));
            match crontab_number(part, tail) {
                Ok((rest, stride)) => Ok((rest, Some(stride))),
                Err(e) => Err(e),
            }
        },
    }
}

/// Reads one atom of the field `part` off the front of `input`.
///
/// A `*` opens a wildcard, with or without a stride. A number that a `-`
/// follows opens a range, and the range must then be whole. Any other number
/// stands alone. The failure is that of the form that the input opened.
pub fn crontab_value<'a>(part: &CrontabPart, input: &'a str) -> (parsed: Result<
    (&'a str, CrontabValue),
    CrontabError<'a>,
>)
    ensures
        agrees(parsed, value(*part, input@)),
        parsed matches Ok((rest, v)) ==> v.valid_for(*part) && rest@.len() < input@.len(),
{
    proof {
        if value(*part, input@) is Ok {
            lemma_value_ok(*part, input@);
        }
    }
    if begins_with(input, '*') {
        match crontab_wildcard(part, input) {
            Ok((rest, Some(stride))) => Ok((rest, CrontabValue::Step(stride))),
            Ok((rest, None)) => Ok((rest, CrontabValue::Any)),
            Err(e) => Err(e),
        }
    } else {
        match crontab_number(part, input) {
            Err(e) => Err(e),
            Ok((rest, n)) => {
                if begins_with(rest, '-') {
                    match crontab_range(part, input) {
                        Ok((behind, (lo, hi))) => Ok((behind, CrontabValue::Range(lo, hi))),
                        Err(e) => Err(e),
                    }
                } else {
                    Ok((rest, CrontabValue::Number(n)))
                }
            },
        }
    }
}

/// Whether the parser's answer `got`, which holds a list, is the grammar's
/// answer `want`.
pub open spec fn agrees_on_list<'a>(
    got: Result<(&'a str, Vec<CrontabValue>), CrontabError<'a>>,
    want: Outcome<Seq<CrontabValue>>,
) -> bool {
    match (got, want) {
        (Ok((rest, read)), Ok((spec_read, spec_rest))) => read@ == spec_read && rest@ == spec_rest,
        (Err(e), Err(f)) => e@ == f,
        _ => false,
    }
}

/// Reads the atoms of the field `part` off the front of `input`: one atom, then
/// every further atom that a comma introduces.
///
/// Fails exactly when the first atom fails, and as it fails. The list holds
/// the atoms in the order in which they are written, repeated ones included.
/// It ends before the first comma that no atom follows, and that comma is left
/// unread.
pub fn crontab_values<'a>(part: &CrontabPart, input: &'a str) -> (parsed: Result<
    (&'a str, Vec<CrontabValue>),
    CrontabError<'a>,
>)
    ensures
        agrees_on_list(parsed, values(*part, input@)),
        parsed matches Ok((rest, list)) ==> valid_list(list@, *part) && rest@.len() < input@.len(),
{
    let (behind_first, first) = match crontab_value(part, input) {
        Ok(found) => found,
        Err(e) => { return Err(e); },
    };
    let mut list: Vec<CrontabValue> = Vec::new();
    list.push(first);
    let mut rest: &'a str = behind_first;
    proof {
        lemma_values_ok(*part, input@);
    }
    loop
        invariant
            values(*part, input@) is Ok,
            values(*part, input@)->Ok_0.0 == list@ + more_values(*part, rest@).0,
            values(*part, input@)->Ok_0.1 == more_values(*part, rest@).1,
        ensures
            values(*part, input@) is Ok,
            values(*part, input@)->Ok_0.0 == list@,
            values(*part, input@)->Ok_0.1 == rest@,
        decreases rest@.len(),
    {
        let behind_comma = match take_char(',', rest) {
            Some(behind_comma) => behind_comma,
            None => { break ; },
        };
        match crontab_value(part, behind_comma) {
            Err(_) => { break ; },
            Ok((behind, next)) => {
                list.push(next);
                rest = behind;
            },
        }
    }
    Ok((rest, list))
}

/// Reads one of the first four fields off the front of `input`: the atoms of
/// the field `part` and the single space behind them.
///
/// Fails as the atoms fail, and with `MalformedSeparator`, at the text behind
/// the atoms, where that text does not begin with a space.
pub fn crontab_field<'a>(part: &CrontabPart, input: &'a str) -> (parsed: Result<
    (&'a str, Vec<CrontabValue>),
    CrontabError<'a>,
>)
    ensures
        agrees_on_list(parsed, field(*part, input@)),
        parsed matches Ok((rest, list)) ==> valid_list(list@, *part) && rest@.len() < input@.len(),
{
    let (behind, list) = match crontab_values(part, input) {
        Ok(found) => found,
        Err(e) => { return Err(e); },
    };
    match take_char(' ', behind) {
        Some(rest) => Ok((rest, list)),
        None => Err(CrontabError { kind: CrontabErrorKind::MalformedSeparator, remaining: behind }),
    }
}

/// Whether the parser's answer `got`, which holds a schedule, is the grammar's
/// answer `want`.
pub open spec fn agrees_on_timer<'a>(
    got: Result<(&'a str, CrontabTimer), CrontabError<'a>>,
    want: Outcome<TimerView>,
) -> bool {
    match (got, want) {
        (Ok((rest, read)), Ok((spec_read, spec_rest))) => read@ == spec_read && rest@ == spec_rest,
        (Err(e), Err(f)) => e@ == f,
        _ => false,
    }
}

/// Parses a schedule off the front of `input`: the minute, hour, day-of-month
/// and month fields, each followed by one space, and the day-of-week field.
///
/// On success gives the text behind the last field, unread, and the five lists
/// of atoms. Fails as the first field that fails does; nothing is given of the
/// fields before it.
pub fn nom_crontab_timer<'a>(input: &'a str) -> (parsed: Result<
    (&'a str, CrontabTimer),
    CrontabError<'a>,
>)
    ensures
        agrees_on_timer(parsed, timer(input@)),
        parsed matches Ok((rest, read)) ==> read@.well_formed() && rest@.len() < input@.len(),
{
    let (input, minutes) = match crontab_field(&CrontabPart::Minute, input) {
        Ok(found) => found,
        Err(e) => { return Err(e); },
    };
    let (input, hours) = match crontab_field(&CrontabPart::Hours, input) {
        Ok(found) => found,
        Err(e) => { return Err(e); },
    };
    let (input, days) = match crontab_field(&CrontabPart::Days, input) {
        Ok(found) => found,
        Err(e) => { return Err(e); },
    };
    let (input, months) = match crontab_field(&CrontabPart::Months, input) {
        Ok(found) => found,
        Err(e) => { return Err(e); },
    };
    let (input, dows) = match crontab_values(&CrontabPart::DaysOfWeek, input) {
        Ok(found) => found,
        Err(e) => { return Err(e); },
    };
    Ok((input, CrontabTimer { minutes, hours, days, months, dows }))
}

} // verus!
