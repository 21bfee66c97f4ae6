//! What holds of the grammar on texts written in the usual way: numbers in
//! their decimal writing, joined by `-`, `/` and `,`.
//!
//! In each law `tail` is whatever follows the text in question; the conditions
//! on it say only that it does not carry the text on (a further digit, a `-`,
//! a `/`, a comma).

use vstd::prelude::*;
use crate::error::{CrontabError, CrontabErrorKind};
use crate::grammar::{done, fail, field, number, range, timer, value, values, wildcard};
use crate::grammar::lemma_values_ok;
use crate::parser::agrees_on_timer;
use crate::part::CrontabPart;
use crate::text::{decimal_text, lemma_decimal_text, lemma_digits_then_tail};
use crate::text::{starts_with, starts_with_digit};
use crate::value::{CrontabTimer, CrontabValue};

verus! {

/// The text of a range: `lo`, a `-`, `hi`, and then `tail`.
pub open spec fn range_text(lo: nat, hi: nat, tail: Seq<char>) -> Seq<char> {
    decimal_text(lo) + (seq!['-'] + (decimal_text(hi) + tail))
}

/// The text of a stepped wildcard: `*/`, the stride, and then `tail`.
pub open spec fn step_text(stride: nat, tail: Seq<char>) -> Seq<char> {
    seq!['*', '/'] + (decimal_text(stride) + tail)
}

/// The text of a list of numbers: their decimal writings with a comma between
/// each two, and then `tail`.
pub open spec fn number_list_text(ns: Seq<nat>, tail: Seq<char>) -> Seq<char>
    decreases ns.len(),
{
    if ns.len() == 0 {
        tail
    } else if ns.len() == 1 {
        decimal_text(ns[0]) + tail
    } else {
        decimal_text(ns[0]) + (seq![','] + number_list_text(ns.skip(1), tail))
    }
}

/// The atoms `Number` of the given numbers, in the same order.
pub open spec fn numbers(ns: Seq<nat>) -> Seq<CrontabValue> {
    Seq::new(ns.len(), |i: int| CrontabValue::Number(ns[i] as u32))
}

/// A text that starts with the decimal writing of a number starts with a digit.
proof fn lemma_decimal_text_first(n: nat, tail: Seq<char>)
    ensures
        starts_with_digit(decimal_text(n) + tail),
        !starts_with(decimal_text(n) + tail, '*'),
{
    lemma_decimal_text(n);
}

/// A number in its decimal writing parses, as a number of a field, exactly when
/// the field's bounds admit it; all its digits are then consumed. When they do
/// not admit it, the failure is `OutOfBounds` at the number.
pub proof fn law_number(part: CrontabPart, n: nat, tail: Seq<char>)
    requires
        !starts_with_digit(tail),
    ensures
        ({
            let text = decimal_text(n) + tail;
            if part.admits(n) {
                number(part, text) == done(n as u32, tail)
            } else {
                number(part, text) == fail::<u32>(CrontabErrorKind::OutOfBounds, text)
            }
        }),
{
    lemma_decimal_text(n);
    lemma_digits_then_tail(decimal_text(n), tail);
    lemma_decimal_text_first(n, tail);
}

/// A number that stands alone, with neither a digit nor a `-` behind it, is the
/// atom `Number` exactly when the field's bounds admit it, and fails with
/// `OutOfBounds` otherwise.
pub proof fn law_bare_number(part: CrontabPart, n: nat, tail: Seq<char>)
    requires
        !starts_with_digit(tail),
        !starts_with(tail, '-'),
    ensures
        ({
            let text = decimal_text(n) + tail;
            if part.admits(n) {
                value(part, text) == done(CrontabValue::Number(n as u32), tail)
            } else {
                value(part, text) == fail::<CrontabValue>(CrontabErrorKind::OutOfBounds, text)
            }
        }),
{
    law_number(part, n, tail);
    lemma_decimal_text_first(n, tail);
}

/// In every field the least and the greatest admitted number parse as
/// `Number`; the number one above the greatest fails with `OutOfBounds`, and
/// so does the number one below the least, where the least is not zero.
pub proof fn law_numbers_at_the_bounds(part: CrontabPart, tail: Seq<char>)
    requires
        !starts_with_digit(tail),
        !starts_with(tail, '-'),
    ensures
        ({
            let min = part.spec_min();
            let max = part.spec_max();
            let above = decimal_text(max + 1) + tail;
            let below = decimal_text((min - 1) as nat) + tail;
            &&& value(part, decimal_text(min) + tail) == done(
                CrontabValue::Number(min as u32),
                tail,
            )
            &&& value(part, decimal_text(max) + tail) == done(
                CrontabValue::Number(max as u32),
                tail,
            )
            &&& value(part, above) == fail::<CrontabValue>(CrontabErrorKind::OutOfBounds, above)
            &&& min > 0 ==> value(part, below) == fail::<CrontabValue>(
                CrontabErrorKind::OutOfBounds,
                below,
            )
        }),
{
    law_bare_number(part, part.spec_min(), tail);
    law_bare_number(part, part.spec_max(), tail);
    law_bare_number(part, part.spec_max() + 1, tail);
    if part.spec_min() > 0 {
        law_bare_number(part, (part.spec_min() - 1) as nat, tail);
    }
}

/// A text that begins with a sign is no atom: the grammar has digits only.
pub proof fn law_no_sign(part: CrontabPart, s: Seq<char>)
    requires
        starts_with(s, '-') || starts_with(s, '+'),
    ensures
        value(part, s) == fail::<CrontabValue>(CrontabErrorKind::UnparseableAtom, s),
{
}

/// Two admitted numbers with a `-` between them are the atom `Range` exactly
/// when the first is strictly below the second. Equal or descending ends fail
/// with `InvalidRangeOrder` at the start of the range; nothing of it is read
/// as a number on its own.
pub proof fn law_range(part: CrontabPart, lo: nat, hi: nat, tail: Seq<char>)
    requires
        part.admits(lo),
        part.admits(hi),
        !starts_with_digit(tail),
    ensures
        ({
            let text = range_text(lo, hi, tail);
            if lo < hi {
                &&& range(part, text) == done((lo as u32, hi as u32), tail)
                &&& value(part, text) == done(CrontabValue::Range(lo as u32, hi as u32), tail)
            } else {
                &&& range(part, text) == fail::<(u32, u32)>(
                    CrontabErrorKind::InvalidRangeOrder,
                    text,
                )
                &&& value(part, text) == fail::<CrontabValue>(
                    CrontabErrorKind::InvalidRangeOrder,
                    text,
                )
            }
        }),
{
    let behind_lo = seq!['-'] + (decimal_text(hi) + tail);
    assert(behind_lo.skip(1) =~= decimal_text(hi) + tail);
    law_number(part, lo, behind_lo);
    law_number(part, hi, tail);
    lemma_decimal_text_first(lo, behind_lo);
}

/// A range whose second end the field does not admit fails with `OutOfBounds`
/// at that end.
pub proof fn law_range_end_out_of_bounds(part: CrontabPart, lo: nat, hi: nat, tail: Seq<char>)
    requires
        part.admits(lo),
        !part.admits(hi),
        !starts_with_digit(tail),
    ensures
        value(part, range_text(lo, hi, tail)) == fail::<CrontabValue>(
            CrontabErrorKind::OutOfBounds,
            decimal_text(hi) + tail,
        ),
{
    let behind_lo = seq!['-'] + (decimal_text(hi) + tail);
    assert(behind_lo.skip(1) =~= decimal_text(hi) + tail);
    law_number(part, lo, behind_lo);
    law_number(part, hi, tail);
    lemma_decimal_text_first(lo, behind_lo);
}

/// A `*` that no `/` follows at once is the atom `Any`, in every field, and
/// only the `*` is consumed.
pub proof fn law_any(part: CrontabPart, tail: Seq<char>)
    requires
        !starts_with(tail, '/'),
    ensures
        wildcard(part, seq!['*'] + tail) == done(None::<u32>, tail),
        value(part, seq!['*'] + tail) == done(CrontabValue::Any, tail),
{
    let s = seq!['*'] + tail;
    assert(s.skip(1) =~= tail);
}

/// `*/` and a stride are the atom `Step` exactly when the field's bounds admit
/// the stride as a number of that field; otherwise the text fails with
/// `OutOfBounds` at the stride. It is never read as a bare `*`.
pub proof fn law_step(part: CrontabPart, stride: nat, tail: Seq<char>)
    requires
        !starts_with_digit(tail),
    ensures
        ({
            let text = step_text(stride, tail);
            if part.admits(stride) {
                value(part, text) == done(CrontabValue::Step(stride as u32), tail)
            } else {
                value(part, text) == fail::<CrontabValue>(
                    CrontabErrorKind::OutOfBounds,
                    decimal_text(stride) + tail,
                )
            }
        }),
{
    let s = step_text(stride, tail);
    assert(s.skip(2) =~= decimal_text(stride) + tail);
    law_number(part, stride, tail);
}

/// An atom is the first of these that applies: a whole range; a wildcard; a
/// number. But a text that opens a range or a wildcard and does not finish it
/// is no atom at all: it fails as that form fails.
pub proof fn law_value_by_form(part: CrontabPart, s: Seq<char>)
    ensures
        match range(part, s) {
            Ok((ends, rest)) => value(part, s) == done(CrontabValue::Range(ends.0, ends.1), rest),
            Err(in_range) => match wildcard(part, s) {
                Ok((Some(stride), rest)) => value(part, s) == done(CrontabValue::Step(stride), rest),
                Ok((None, rest)) => value(part, s) == done(CrontabValue::Any, rest),
                Err(in_wildcard) => if starts_with(s, '*') {
                    value(part, s) == Err::<(CrontabValue, Seq<char>), _>(in_wildcard)
                } else {
                    match number(part, s) {
                        Ok((n, rest)) => if starts_with(rest, '-') {
                            value(part, s) == Err::<(CrontabValue, Seq<char>), _>(in_range)
                        } else {
                            value(part, s) == done(CrontabValue::Number(n), rest)
                        },
                        Err(in_number) => value(part, s) == Err::<(CrontabValue, Seq<char>), _>(
                            in_number,
                        ),
                    }
                },
            },
        },
{
}

/// A list keeps the order of writing: where an atom is followed by a comma and
/// a further list, the atom comes first and the further atoms behind it; where
/// it is not, the atom is the whole list.
pub proof fn law_list_order(part: CrontabPart, s: Seq<char>)
    requires
        value(part, s) is Ok,
    ensures
        ({
            let (first, behind) = value(part, s)->Ok_0;
            if starts_with(behind, ',') && values(part, behind.skip(1)) is Ok {
                let (others, rest) = values(part, behind.skip(1))->Ok_0;
                values(part, s) == done(seq![first] + others, rest)
            } else {
                values(part, s) == done(seq![first], behind)
            }
        }),
{
}

/// A comma-separated list of admitted numbers parses as those numbers, in the
/// order in which they are written and as often as they are written.
pub proof fn law_number_list(part: CrontabPart, ns: Seq<nat>, tail: Seq<char>)
    requires
        ns.len() >= 1,
        forall|i: int| 0 <= i < ns.len() ==> part.admits(#[trigger] ns[i]),
        !starts_with_digit(tail),
        !starts_with(tail, '-'),
        !starts_with(tail, ','),
    ensures
        values(part, number_list_text(ns, tail)) == done(numbers(ns), tail),
    decreases ns.len(),
{
    let first = CrontabValue::Number(ns[0] as u32);
    if ns.len() == 1 {
        law_bare_number(part, ns[0], tail);
        assert(seq![first] + Seq::<CrontabValue>::empty() =~= numbers(ns));
    } else {
        let others = ns.skip(1);
        let behind = seq![','] + number_list_text(others, tail);
        assert(behind.skip(1) =~= number_list_text(others, tail));
        law_bare_number(part, ns[0], behind);
        law_number_list(part, others, tail);
        law_list_order(part, number_list_text(ns, tail));
        assert(seq![first] + numbers(others) =~= numbers(ns));
    }
}

/// A schedule that parses is well formed, and leaves strictly less text than
/// was given.
pub proof fn law_timer_well_formed(s: Seq<char>)
    requires
        timer(s) is Ok,
    ensures
        timer(s)->Ok_0.0.well_formed(),
        timer(s)->Ok_0.1.len() < s.len(),
{
    lemma_values_ok(CrontabPart::Minute, s);
    let s1 = field(CrontabPart::Minute, s)->Ok_0.1;
    lemma_values_ok(CrontabPart::Hours, s1);
    let s2 = field(CrontabPart::Hours, s1)->Ok_0.1;
    lemma_values_ok(CrontabPart::Days, s2);
    let s3 = field(CrontabPart::Days, s2)->Ok_0.1;
    lemma_values_ok(CrontabPart::Months, s3);
    let s4 = field(CrontabPart::Months, s3)->Ok_0.1;
    lemma_values_ok(CrontabPart::DaysOfWeek, s4);
}

/// Parsing is a function of the text: any two answers that the parser may give
/// for one text hold the same schedule and leave the same text, or are the
/// same failure at the same place.
pub proof fn law_same_text_same_answer<'a, 'b>(
    s: Seq<char>,
    one: Result<(&'a str, CrontabTimer), CrontabError<'a>>,
    other: Result<(&'b str, CrontabTimer), CrontabError<'b>>,
)
    requires
        agrees_on_timer(one, timer(s)),
        agrees_on_timer(other, timer(s)),
    ensures
        match (one, other) {
            (Ok((rest, read)), Ok((other_rest, other_read))) => rest@ == other_rest@ && read@
                == other_read@,
            (Err(e), Err(other_e)) => e@ == other_e@,
            _ => false,
        },
{
}

} // verus!
