//! Decimal digit runs at the front of a text, as mathematics.
//!
//! A text is a sequence of characters. The functions here say how many
//! decimal digits a text starts with and which number those digits write.

use vstd::prelude::*;

verus! {

/// Whether `c` is one of the ten ASCII decimal digits.
pub open spec fn is_digit(c: char) -> bool {
    '0' <= c && c <= '9'
}

/// The number that the digit `c` stands for.
pub open spec fn digit_value(c: char) -> nat
    recommends
        is_digit(c),
{
    (c as int - '0' as int) as nat
}

/// Whether `s` is non-empty and begins with the character `c`.
pub open spec fn starts_with(s: Seq<char>, c: char) -> bool {
    s.len() > 0 && s[0] == c
}

/// Whether `s` is non-empty and begins with a decimal digit.
pub open spec fn starts_with_digit(s: Seq<char>) -> bool {
    s.len() > 0 && is_digit(s[0])
}

/// How many decimal digits `s` begins with.
pub open spec fn leading_digits(s: Seq<char>) -> nat
    decreases s.len(),
{
    if starts_with_digit(s) {
        1 + leading_digits(s.skip(1))
    } else {
        0
    }
}

/// The number written by `s` read as a string of decimal digits, most
/// significant digit first. The empty string writes zero.
pub open spec fn decimal_value(s: Seq<char>) -> nat
    decreases s.len(),
{
    if s.len() == 0 {
        0
    } else {
        10 * decimal_value(s.drop_last()) + digit_value(s.last())
    }
}

/// The number written by the digits that `s` begins with.
pub open spec fn leading_value(s: Seq<char>) -> nat {
    decimal_value(s.take(leading_digits(s) as int))
}

/// What is left of `s` behind the digits it begins with.
pub open spec fn after_digits(s: Seq<char>) -> Seq<char> {
    s.skip(leading_digits(s) as int)
}

/// A text never begins with more digits than it has characters.
pub proof fn lemma_leading_digits_bound(s: Seq<char>)
    ensures
        leading_digits(s) <= s.len(),
        starts_with_digit(s) <==> leading_digits(s) > 0,
        after_digits(s).len() == s.len() - leading_digits(s),
        !starts_with_digit(after_digits(s)),
    decreases s.len(),
{
    if starts_with_digit(s) {
        lemma_leading_digits_bound(s.skip(1));
    }
}

/// The character that writes the digit `d`.
pub open spec fn digit_char(d: nat) -> char
    recommends
        d < 10,
{
    ('0' as nat + d) as char
}

/// The usual decimal writing of `n`: no sign, and no leading zero but for zero
/// itself.
pub open spec fn decimal_text(n: nat) -> Seq<char>
    decreases n,
{
    if n < 10 {
        seq![digit_char(n)]
    } else {
        decimal_text(n / 10).push(digit_char(n % 10))
    }
}

/// Whether `s` holds decimal digits only.
pub open spec fn all_digits(s: Seq<char>) -> bool {
    forall|i: int| 0 <= i < s.len() ==> is_digit(#[trigger] s[i])
}

/// The decimal writing of `n` is a non-empty string of digits that writes `n`.
pub proof fn lemma_decimal_text(n: nat)
    ensures
        decimal_text(n).len() >= 1,
        all_digits(decimal_text(n)),
        decimal_value(decimal_text(n)) == n,
    decreases n,
{
    if n < 10 {
        let t = decimal_text(n);
        assert(decimal_value(t.drop_last()) == 0);
    } else {
        lemma_decimal_text(n / 10);
        let t = decimal_text(n);
        assert(t.drop_last() =~= decimal_text(n / 10));
    }
}

/// A string of digits in front of a text that begins with no digit is exactly
/// the digits that the whole begins with.
pub proof fn lemma_digits_then_tail(digits: Seq<char>, tail: Seq<char>)
    requires
        all_digits(digits),
        !starts_with_digit(tail),
    ensures
        leading_digits(digits + tail) == digits.len(),
        leading_value(digits + tail) == decimal_value(digits),
        after_digits(digits + tail) == tail,
    decreases digits.len(),
{
    let s = digits + tail;
    if digits.len() > 0 {
        let shorter = digits.skip(1);
        assert(s.skip(1) =~= shorter + tail);
        lemma_digits_then_tail(shorter, tail);
        assert(s.take(digits.len() as int) =~= digits);
    }
}

} // verus!
