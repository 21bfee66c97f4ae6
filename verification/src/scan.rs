//! The lexical steps of the parser.
//!
//! Taking one character or one number off the front of the input is done by
//! `nom`; what is stated of those two calls here is believed, not proved.
//! Looking at the first character without taking it is verified.

use vstd::prelude::*;
use vstd::string::StrSliceExecFns;
use crate::text::{after_digits, leading_value, starts_with, starts_with_digit};

verus! {

/// Calls `nom::character::complete::u32` on `input`.
///
/// Claimed of it: it reads every decimal digit that the input begins with. If
/// there is at least one and the number they write fits a `u32`, it gives the
/// input behind the digits and that number; if there is none, or the number
/// does not fit, it gives nothing.
#[verifier::external_body]
pub(crate) fn take_u32<'a>(input: &'a str) -> (taken: Option<(&'a str, u32)>)
    ensures
        match taken {
            Some((rest, n)) => starts_with_digit(input@) && n == leading_value(input@) && rest@
                == after_digits(input@),
            None => !starts_with_digit(input@) || leading_value(input@) > u32::MAX,
        },
{
    match nom::character::complete::u32::<&str, nom::error::Error<&str>>(input) {
        Ok((rest, n)) => Some((rest, n)),
        Err(_) => None,
    }
}

/// Calls the parser that `nom::character::complete::char` makes for `c` on
/// `input`.
///
/// Claimed of it: if the input begins with `c`, it gives the input behind that
/// one character; otherwise it gives nothing.
#[verifier::external_body]
pub(crate) fn take_char<'a>(c: char, input: &'a str) -> (taken: Option<&'a str>)
    ensures
        match taken {
            Some(rest) => starts_with(input@, c) && rest@ == input@.skip(1),
            None => !starts_with(input@, c),
        },
{
    match nom::character::complete::char::<&str, nom::error::Error<&str>>(c)(input) {
        Ok((rest, _)) => Some(rest),
        Err(_) => None,
    }
}

/// Whether `input` begins with a decimal digit.
pub(crate) fn begins_with_digit(input: &str) -> (yes: bool)
    ensures
        yes == starts_with_digit(input@),
{
    if input.is_empty() {
        false
    } else {
        let c = input.get_char(0);
        '0' <= c && c <= '9'
    }
}

/// Whether `input` begins with the character `c`.
pub(crate) fn begins_with(input: &str, c: char) -> (yes: bool)
    ensures
        yes == starts_with(input@, c),
{
    if input.is_empty() {
        false
    } else {
        input.get_char(0) == c
    }
}

} // verus!
