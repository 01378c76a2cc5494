//! Cut times written as `hh:mm:ss` or `hh:mm:ss.fraction`.
use vstd::prelude::*;
use crate::error::{EngineError, ValidationIssue};
use crate::keyframes::MAX_TIMESTAMP_US;
use crate::text::{
    all_digits, chars_of, decimal_outcome, digit_of, digit_value, digits_value, is_digit, parse_i64, read_micros,
    string_of, Decimal,
};

verus! {

/// The positions of the colons in a string, in order.
pub open spec fn colon_positions(s: Seq<char>) -> Seq<int>
    decreases s.len(),
{
    if s.len() == 0 {
        Seq::empty()
    } else {
        let r = colon_positions(s.drop_last());
        if s.last() == ':' {
            r.push(s.len() - 1)
        } else {
            r
        }
    }
}

/// A time of day-like form `hh:mm:ss[.fraction]` in microseconds: any number
/// of hour digits, exactly two minute digits, and decimal seconds; minutes
/// and seconds below 60. Each failure is reported in the order the parts are
/// checked.
pub open spec fn parsed_time(s: Seq<char>) -> Result<i64, ValidationIssue> {
    let cp = colon_positions(s);
    if cp.len() != 2 {
        Err(ValidationIssue::TimeFormat)
    } else {
        let h = s.take(cp[0]);
        let m = s.subrange(cp[0] + 1, cp[1]);
        let sec = s.skip(cp[1] + 1);
        if h.len() == 0 || !all_digits(h) {
            Err(ValidationIssue::Hours)
        } else if m.len() != 2 || !all_digits(m) {
            Err(ValidationIssue::Minutes)
        } else if decimal_outcome(sec) == Decimal::Malformed {
            Err(ValidationIssue::Seconds)
        } else if digits_value(h) > i64::MAX {
            Err(ValidationIssue::Hours)
        } else {
            match decimal_outcome(sec) {
                Decimal::Micros(v) => if digits_value(m) >= 60 || v < 0 || v >= 60_000_000 {
                    Err(ValidationIssue::TimeRange)
                } else if digits_value(h) * 3_600_000_000 + digits_value(m) * 60_000_000 + v
                    > MAX_TIMESTAMP_US {
                    Err(ValidationIssue::Hours)
                } else {
                    Ok((digits_value(h) * 3_600_000_000 + digits_value(m) * 60_000_000 + v) as i64)
                },
                _ => Err(ValidationIssue::TimeRange),
            }
        }
    }
}

fn colons(c: &Vec<char>) -> (r: Vec<usize>)
    ensures
        r@.len() == colon_positions(c@).len(),
        forall|i: int| 0 <= i < r@.len() ==> r@[i] as int == colon_positions(c@)[i],
        forall|i: int| 0 <= i < r@.len() ==> r@[i] < c@.len(),
        forall|i: int, j: int| 0 <= i < j < r@.len() ==> r@[i] < r@[j],
{
    let mut r: Vec<usize> = Vec::new();
    let mut i: usize = 0;
    while i < c.len()
        invariant
            i <= c@.len(),
            r@.len() == colon_positions(c@.take(i as int)).len(),
            forall|k: int| 0 <= k < r@.len() ==> r@[k] as int == colon_positions(c@.take(i as int))[k],
            forall|k: int| 0 <= k < r@.len() ==> r@[k] < i,
            forall|a: int, b: int| 0 <= a < b < r@.len() ==> r@[a] < r@[b],
        decreases c@.len() - i,
    {
        assert(c@.take(i + 1).drop_last() =~= c@.take(i as int));
        assert(c@.take(i + 1).last() == c@[i as int]);
        if c[i] == ':' {
            r.push(i);
        }
        i = i + 1;
    }
    assert(c@.take(c@.len() as int) =~= c@);
    r
}

fn chars_range(c: &Vec<char>, a: usize, b: usize) -> (r: Vec<char>)
    requires
        a <= b <= c@.len(),
    ensures
        r@ == c@.subrange(a as int, b as int),
{
    let mut out: Vec<char> = Vec::new();
    let mut i: usize = a;
    while i < b
        invariant
            a <= i <= b <= c@.len(),
            out@ == c@.subrange(a as int, i as int),
        decreases b - i,
    {
        out.push(c[i]);
        i = i + 1;
        assert(out@ =~= c@.subrange(a as int, i as int));
    }
    out
}

fn all_digit_chars(c: &Vec<char>) -> (r: bool)
    ensures
        r == all_digits(c@),
{
    let mut i: usize = 0;
    while i < c.len()
        invariant
            i <= c@.len(),
            forall|k: int| 0 <= k < i ==> is_digit(#[trigger] c@[k]),
        decreases c@.len() - i,
    {
        if !('0' <= c[i] && c[i] <= '9') {
            return false;
        }
        i = i + 1;
    }
    true
}

/// Parses `hh:mm:ss` or `hh:mm:ss.fraction` into microseconds; digits of the
/// fraction beyond the sixth are dropped.
pub fn parse_hh_mm_ss_with_millis(input: &str) -> (r: Result<i64, EngineError>)
    ensures
        match parsed_time(input@) {
            Ok(v) => r == Ok::<i64, EngineError>(v),
            Err(e) => r == Err::<i64, EngineError>(EngineError::Validation(e)),
        },
{
    let c = chars_of(input);
    let n = c.len();
    let cp = colons(&c);
    if cp.len() != 2 {
        return Err(EngineError::Validation(ValidationIssue::TimeFormat));
    }
    let p = cp[0];
    let q = cp[1];
    assert(cp@[1] < c@.len() && cp@[0] < cp@[1]);
    let h = chars_range(&c, 0, p);
    let m = chars_range(&c, p + 1, q);
    let sec = chars_range(&c, q + 1, n);
    assert(h@ =~= c@.take(p as int));
    assert(sec@ =~= c@.skip(q + 1));
    if h.len() == 0 || !all_digit_chars(&h) {
        return Err(EngineError::Validation(ValidationIssue::Hours));
    }
    if m.len() != 2 || !all_digit_chars(&m) {
        return Err(EngineError::Validation(ValidationIssue::Minutes));
    }
    let s_val = read_micros(&sec);
    if s_val == Decimal::Malformed {
        return Err(EngineError::Validation(ValidationIssue::Seconds));
    }
    let hours = match parse_i64(&h) {
        Some(v) => v,
        None => {
            return Err(EngineError::Validation(ValidationIssue::Hours));
        },
    };
    let minutes: i64 = (digit_of(m[0]) * 10 + digit_of(m[1])) as i64;
    assert(m@.drop_last().drop_last() =~= Seq::<char>::empty());
    assert(m@.drop_last().last() == m@[0]);
    assert(digits_value(m@.drop_last().drop_last()) == 0);
    assert(digits_value(m@.drop_last()) == digit_value(m@[0]));
    assert(minutes == digits_value(m@));
    assert(is_digit(h@[0]));
    assert(hours == digits_value(h@));
    assert(hours == digits_value(h@) && minutes == digits_value(m@));
    let secs = match s_val {
        Decimal::Micros(v) => v,
        _ => {
            return Err(EngineError::Validation(ValidationIssue::TimeRange));
        },
    };
    if minutes >= 60 || secs < 0 || secs >= 60_000_000 {
        return Err(EngineError::Validation(ValidationIssue::TimeRange));
    }
    let total: i128 = hours as i128 * 3_600_000_000 + minutes as i128 * 60_000_000 + secs as i128;
    if total > MAX_TIMESTAMP_US as i128 {
        return Err(EngineError::Validation(ValidationIssue::Hours));
    }
    Ok(total as i64)
}

/// Parses `hh:mm:ss` or `hh:mm:ss.fraction` into whole seconds, rounding
/// down.
pub fn parse_hh_mm_ss(input: &str) -> (r: Result<u64, EngineError>)
    ensures
        match parsed_time(input@) {
            Ok(v) => r == Ok::<u64, EngineError>((v / 1_000_000) as u64),
            Err(e) => r == Err::<u64, EngineError>(EngineError::Validation(e)),
        },
{
    let us = parse_hh_mm_ss_with_millis(input)?;
    Ok((us / 1_000_000) as u64)
}

/// A time with each colon written as `h`, fit for a file name.
pub open spec fn filename_time(s: Seq<char>) -> Seq<char> {
    s.map_values(|c: char| if c == ':' { 'h' } else { c })
}

/// Writes a time so that it fits in a file name.
pub fn time_for_filename(input: &str) -> (r: String)
    ensures
        r@ == filename_time(input@),
{
    let c = chars_of(input);
    let mut out: Vec<char> = Vec::new();
    let mut i: usize = 0;
    while i < c.len()
        invariant
            i <= c@.len(),
            out@ == filename_time(c@.take(i as int)),
        decreases c@.len() - i,
    {
        out.push(if c[i] == ':' { 'h' } else { c[i] });
        i = i + 1;
        assert(out@ =~= filename_time(c@.take(i as int)));
    }
    assert(c@.take(c@.len() as int) =~= c@);
    string_of(&out)
}

} // verus!
