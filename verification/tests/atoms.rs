use crontab_parser::{
    crontab_field, crontab_number, crontab_range, crontab_value, crontab_values, crontab_wildcard,
    CrontabError, CrontabErrorKind, CrontabPart, CrontabValue,
};

fn all_parts() -> Vec<CrontabPart> {
    vec![
        CrontabPart::Minute,
        CrontabPart::Hours,
        CrontabPart::Days,
        CrontabPart::Months,
        CrontabPart::DaysOfWeek,
    ]
}

fn err(kind: CrontabErrorKind, remaining: &str) -> CrontabError<'_> {
    CrontabError { kind, remaining }
}

#[test]
fn boundaries_of_each_part() {
    assert_eq!(CrontabPart::Minute.boundaries(), (0, 59));
    assert_eq!(CrontabPart::Hours.boundaries(), (0, 23));
    assert_eq!(CrontabPart::Days.boundaries(), (1, 31));
    assert_eq!(CrontabPart::Months.boundaries(), (1, 12));
    assert_eq!(CrontabPart::DaysOfWeek.boundaries(), (0, 6));
}

#[test]
fn number_at_the_bounds_of_each_part() {
    for part in all_parts() {
        let (min, max) = part.boundaries();
        let low = format!("{}", min);
        let high = format!("{}", max);
        let above = format!("{}", max + 1);
        assert_eq!(crontab_value(&part, &low), Ok(("", CrontabValue::Number(min))));
        assert_eq!(crontab_value(&part, &high), Ok(("", CrontabValue::Number(max))));
        assert_eq!(
            crontab_value(&part, &above),
            Err(err(CrontabErrorKind::OutOfBounds, &above))
        );
        if min > 0 {
            let below = format!("{}", min - 1);
            assert_eq!(
                crontab_value(&part, &below),
                Err(err(CrontabErrorKind::OutOfBounds, &below))
            );
        }
    }
}

#[test]
fn number_takes_every_digit() {
    assert_eq!(crontab_number(&CrontabPart::Minute, "42 rest"), Ok((" rest", 42)));
    assert_eq!(crontab_number(&CrontabPart::Minute, "007"), Ok(("", 7)));
    assert_eq!(crontab_number(&CrontabPart::Minute, "5x"), Ok(("x", 5)));
    // All three digits are one number, so no smaller number is found inside.
    assert_eq!(
        crontab_number(&CrontabPart::Minute, "590"),
        Err(err(CrontabErrorKind::OutOfBounds, "590"))
    );
}

#[test]
fn number_too_large_for_the_machine() {
    assert_eq!(
        crontab_number(&CrontabPart::Minute, "4294967295"),
        Err(err(CrontabErrorKind::OutOfBounds, "4294967295"))
    );
    assert_eq!(
        crontab_number(&CrontabPart::Minute, "4294967296"),
        Err(err(CrontabErrorKind::OutOfBounds, "4294967296"))
    );
    assert_eq!(
        crontab_number(&CrontabPart::Minute, "99999999999999999999999 *"),
        Err(err(CrontabErrorKind::OutOfBounds, "99999999999999999999999 *"))
    );
    assert_eq!(
        crontab_number(&CrontabPart::Minute, "000000000000000000000059"),
        Ok(("", 59))
    );
}

#[test]
fn number_needs_a_digit() {
    assert_eq!(
        crontab_number(&CrontabPart::Hours, ""),
        Err(err(CrontabErrorKind::UnparseableAtom, ""))
    );
    assert_eq!(
        crontab_number(&CrontabPart::Hours, "-1"),
        Err(err(CrontabErrorKind::UnparseableAtom, "-1"))
    );
    assert_eq!(
        crontab_number(&CrontabPart::Hours, "+1"),
        Err(err(CrontabErrorKind::UnparseableAtom, "+1"))
    );
    assert_eq!(
        crontab_number(&CrontabPart::Hours, "x"),
        Err(err(CrontabErrorKind::UnparseableAtom, "x"))
    );
    // An Arabic-Indic digit is no decimal digit of this grammar.
    assert_eq!(
        crontab_number(&CrontabPart::Hours, "\u{0663}"),
        Err(err(CrontabErrorKind::UnparseableAtom, "\u{0663}"))
    );
}

#[test]
fn range_of_every_ascending_pair() {
    for part in all_parts() {
        let (min, max) = part.boundaries();
        for lo in min..=max {
            for hi in min..=max {
                let text = format!("{}-{}", lo, hi);
                if lo < hi {
                    assert_eq!(crontab_range(&part, &text), Ok(("", (lo, hi))));
                    assert_eq!(
                        crontab_value(&part, &text),
                        Ok(("", CrontabValue::Range(lo, hi)))
                    );
                } else {
                    assert_eq!(
                        crontab_range(&part, &text),
                        Err(err(CrontabErrorKind::InvalidRangeOrder, &text))
                    );
                    assert_eq!(
                        crontab_value(&part, &text),
                        Err(err(CrontabErrorKind::InvalidRangeOrder, &text))
                    );
                }
            }
        }
    }
}

#[test]
fn range_with_an_end_out_of_bounds() {
    assert_eq!(
        crontab_range(&CrontabPart::Hours, "24-25"),
        Err(err(CrontabErrorKind::OutOfBounds, "24-25"))
    );
    assert_eq!(
        crontab_range(&CrontabPart::Hours, "3-24"),
        Err(err(CrontabErrorKind::OutOfBounds, "24"))
    );
    assert_eq!(
        crontab_value(&CrontabPart::Hours, "3-24"),
        Err(err(CrontabErrorKind::OutOfBounds, "24"))
    );
}

#[test]
fn range_that_is_not_whole() {
    assert_eq!(
        crontab_range(&CrontabPart::Minute, "5"),
        Err(err(CrontabErrorKind::UnparseableAtom, ""))
    );
    assert_eq!(
        crontab_range(&CrontabPart::Minute, "5 6"),
        Err(err(CrontabErrorKind::UnparseableAtom, " 6"))
    );
    assert_eq!(
        crontab_range(&CrontabPart::Minute, "5-"),
        Err(err(CrontabErrorKind::UnparseableAtom, ""))
    );
    assert_eq!(
        crontab_value(&CrontabPart::Minute, "5-x"),
        Err(err(CrontabErrorKind::UnparseableAtom, "x"))
    );
    assert_eq!(
        crontab_range(&CrontabPart::Minute, "-5"),
        Err(err(CrontabErrorKind::UnparseableAtom, "-5"))
    );
}

#[test]
fn range_leaves_what_follows() {
    assert_eq!(crontab_range(&CrontabPart::Minute, "30-35 *"), Ok((" *", (30, 35))));
    assert_eq!(crontab_range(&CrontabPart::Minute, "1-2-3"), Ok(("-3", (1, 2))));
    assert_eq!(crontab_range(&CrontabPart::Minute, "1-10/2"), Ok(("/2", (1, 10))));
}

#[test]
fn wildcard_alone() {
    for part in all_parts() {
        assert_eq!(crontab_wildcard(&part, "*"), Ok(("", None)));
        assert_eq!(crontab_value(&part, "*"), Ok(("", CrontabValue::Any)));
        assert_eq!(crontab_value(&part, "* *"), Ok((" *", CrontabValue::Any)));
        assert_eq!(crontab_value(&part, "*5"), Ok(("5", CrontabValue::Any)));
    }
}

#[test]
fn wildcard_with_every_stride() {
    for part in all_parts() {
        let (min, max) = part.boundaries();
        for stride in 0..=(max + 3) {
            let text = format!("*/{}", stride);
            let digits = format!("{}", stride);
            if min <= stride && stride <= max {
                assert_eq!(crontab_wildcard(&part, &text), Ok(("", Some(stride))));
                assert_eq!(crontab_value(&part, &text), Ok(("", CrontabValue::Step(stride))));
            } else {
                assert_eq!(
                    crontab_wildcard(&part, &text),
                    Err(err(CrontabErrorKind::OutOfBounds, &digits))
                );
                assert_eq!(
                    crontab_value(&part, &text),
                    Err(err(CrontabErrorKind::OutOfBounds, &digits))
                );
            }
        }
    }
}

#[test]
fn wildcard_stride_is_held_to_the_bounds_of_a_number() {
    // A stride of 23 hours is taken because 23 is an hour; a stride of zero
    // minutes because 0 is a minute; a stride of zero days is not.
    assert_eq!(crontab_value(&CrontabPart::Hours, "*/23"), Ok(("", CrontabValue::Step(23))));
    assert_eq!(crontab_value(&CrontabPart::Minute, "*/0"), Ok(("", CrontabValue::Step(0))));
    assert_eq!(
        crontab_value(&CrontabPart::Days, "*/0"),
        Err(err(CrontabErrorKind::OutOfBounds, "0"))
    );
}

#[test]
fn wildcard_that_is_not_whole() {
    assert_eq!(
        crontab_wildcard(&CrontabPart::Minute, "*/"),
        Err(err(CrontabErrorKind::UnparseableAtom, ""))
    );
    assert_eq!(
        crontab_wildcard(&CrontabPart::Minute, "*/x"),
        Err(err(CrontabErrorKind::UnparseableAtom, "x"))
    );
    assert_eq!(
        crontab_wildcard(&CrontabPart::Minute, "5"),
        Err(err(CrontabErrorKind::UnparseableAtom, "5"))
    );
    assert_eq!(
        crontab_wildcard(&CrontabPart::Minute, "/5"),
        Err(err(CrontabErrorKind::UnparseableAtom, "/5"))
    );
}

#[test]
fn value_of_no_known_form() {
    for part in all_parts() {
        assert_eq!(crontab_value(&part, ""), Err(err(CrontabErrorKind::UnparseableAtom, "")));
        assert_eq!(crontab_value(&part, "x"), Err(err(CrontabErrorKind::UnparseableAtom, "x")));
        assert_eq!(crontab_value(&part, ",1"), Err(err(CrontabErrorKind::UnparseableAtom, ",1")));
        assert_eq!(crontab_value(&part, " 1"), Err(err(CrontabErrorKind::UnparseableAtom, " 1")));
        assert_eq!(crontab_value(&part, "-1"), Err(err(CrontabErrorKind::UnparseableAtom, "-1")));
        assert_eq!(
            crontab_value(&part, "@daily"),
            Err(err(CrontabErrorKind::UnparseableAtom, "@daily"))
        );
    }
}

#[test]
fn values_in_the_order_written() {
    assert_eq!(
        crontab_values(&CrontabPart::Minute, "1,2,3"),
        Ok((
            "",
            vec![CrontabValue::Number(1), CrontabValue::Number(2), CrontabValue::Number(3)]
        ))
    );
    assert_eq!(
        crontab_values(&CrontabPart::Minute, "3,2,1"),
        Ok((
            "",
            vec![CrontabValue::Number(3), CrontabValue::Number(2), CrontabValue::Number(1)]
        ))
    );
}

#[test]
fn values_keep_repeats() {
    assert_eq!(
        crontab_values(&CrontabPart::DaysOfWeek, "4,4"),
        Ok(("", vec![CrontabValue::Number(4), CrontabValue::Number(4)]))
    );
    assert_eq!(
        crontab_values(&CrontabPart::DaysOfWeek, "*,*"),
        Ok(("", vec![CrontabValue::Any, CrontabValue::Any]))
    );
}

#[test]
fn values_need_a_first_atom() {
    assert_eq!(
        crontab_values(&CrontabPart::Minute, ""),
        Err(err(CrontabErrorKind::UnparseableAtom, ""))
    );
    assert_eq!(
        crontab_values(&CrontabPart::Minute, ",1"),
        Err(err(CrontabErrorKind::UnparseableAtom, ",1"))
    );
    assert_eq!(
        crontab_values(&CrontabPart::Minute, "60,1"),
        Err(err(CrontabErrorKind::OutOfBounds, "60,1"))
    );
    assert_eq!(
        crontab_values(&CrontabPart::Minute, "2-1,1"),
        Err(err(CrontabErrorKind::InvalidRangeOrder, "2-1,1"))
    );
}

#[test]
fn values_end_before_a_comma_that_no_atom_follows() {
    assert_eq!(
        crontab_values(&CrontabPart::Minute, "1,"),
        Ok((",", vec![CrontabValue::Number(1)]))
    );
    assert_eq!(
        crontab_values(&CrontabPart::Minute, "1,,2"),
        Ok((",,2", vec![CrontabValue::Number(1)]))
    );
    assert_eq!(
        crontab_values(&CrontabPart::Minute, "1,2,60"),
        Ok((",60", vec![CrontabValue::Number(1), CrontabValue::Number(2)]))
    );
    assert_eq!(
        crontab_values(&CrontabPart::Minute, "1,5-3"),
        Ok((",5-3", vec![CrontabValue::Number(1)]))
    );
    assert_eq!(
        crontab_values(&CrontabPart::Minute, "1 2"),
        Ok((" 2", vec![CrontabValue::Number(1)]))
    );
}

#[test]
fn field_takes_the_space_behind_it() {
    assert_eq!(
        crontab_field(&CrontabPart::Days, "3,*/4 *"),
        Ok(("*", vec![CrontabValue::Number(3), CrontabValue::Step(4)]))
    );
    assert_eq!(
        crontab_field(&CrontabPart::Days, "3,*/4"),
        Err(err(CrontabErrorKind::MalformedSeparator, ""))
    );
    assert_eq!(
        crontab_field(&CrontabPart::Days, "3,x *"),
        Err(err(CrontabErrorKind::MalformedSeparator, ",x *"))
    );
    assert_eq!(
        crontab_field(&CrontabPart::Days, "0 *"),
        Err(err(CrontabErrorKind::OutOfBounds, "0 *"))
    );
}
