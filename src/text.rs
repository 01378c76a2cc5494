//! Character-level helpers: decimal numbers, fixed-point seconds, and the few
//! std string operations that the rest of the library relies on.
use vstd::prelude::*;

verus! {

/// What `str::trim` leaves of a string.
pub uninterp spec fn trimmed(s: Seq<char>) -> Seq<char>;

/// What `String::from_utf8_lossy` makes of a byte sequence.
pub uninterp spec fn lossy_text(b: Seq<u8>) -> Seq<char>;

/// What `str::to_lowercase` makes of a string.
pub uninterp spec fn lowercased(s: Seq<char>) -> Seq<char>;

/// Relies on `str::trim`: the string without leading and trailing whitespace.
#[verifier::external_body]
pub(crate) fn trim_text(s: &str) -> (r: &str)
    ensures
        r@ == trimmed(s@),
{
    s.trim()
}

/// Relies on `str::to_lowercase`: the lower-case form of the string.
#[verifier::external_body]
pub(crate) fn lowercase_text(s: &str) -> (r: String)
    ensures
        r@ == lowercased(s@),
{
    s.to_lowercase()
}

/// Relies on `String::from_utf8_lossy`: the bytes decoded as UTF-8, with
/// invalid sequences replaced.
#[verifier::external_body]
pub(crate) fn lossy_string(b: &[u8]) -> (r: String)
    ensures
        r@ == lossy_text(b@),
{
    String::from_utf8_lossy(b).to_string()
}

/// Relies on `str::chars`: the characters of the string, in order.
#[verifier::external_body]
pub(crate) fn chars_of(s: &str) -> (r: Vec<char>)
    ensures
        r@ == s@,
{
    s.chars().collect()
}

/// Relies on `String::from_iter`: the string made of the given characters.
#[verifier::external_body]
pub(crate) fn string_of(c: &Vec<char>) -> (r: String)
    ensures
        r@ == c@,
{
    c.iter().collect()
}

pub open spec fn is_digit(c: char) -> bool {
    '0' <= c && c <= '9'
}

pub open spec fn digit_value(c: char) -> nat {
    (c as int - '0' as int) as nat
}

pub open spec fn all_digits(s: Seq<char>) -> bool {
    forall|i: int| 0 <= i < s.len() ==> is_digit(#[trigger] s[i])
}

/// The value of a run of decimal digits, most significant first.
pub open spec fn digits_value(s: Seq<char>) -> nat
    decreases s.len(),
{
    if s.len() == 0 {
        0
    } else {
        digits_value(s.drop_last()) * 10 + digit_value(s.last())
    }
}

pub open spec fn pow10(k: nat) -> nat
    decreases k,
{
    if k == 0 {
        1
    } else {
        10 * pow10((k - 1) as nat)
    }
}

pub open spec fn digit_char(d: nat) -> char {
    if d == 0 {
        '0'
    } else if d == 1 {
        '1'
    } else if d == 2 {
        '2'
    } else if d == 3 {
        '3'
    } else if d == 4 {
        '4'
    } else if d == 5 {
        '5'
    } else if d == 6 {
        '6'
    } else if d == 7 {
        '7'
    } else if d == 8 {
        '8'
    } else {
        '9'
    }
}

/// The decimal form of a natural number, without leading zeros.
pub open spec fn decimal(n: nat) -> Seq<char>
    decreases n,
{
    if n < 10 {
        seq![digit_char(n)]
    } else {
        decimal(n / 10).push(digit_char(n % 10))
    }
}

/// The decimal form of `n`, padded with leading zeros to at least `w` digits.
pub open spec fn padded_decimal(n: nat, w: nat) -> Seq<char> {
    let d = decimal(n);
    if d.len() >= w {
        d
    } else {
        Seq::new((w - d.len()) as nat, |i: int| '0') + d
    }
}

/// The decimal form of a signed integer.
pub open spec fn signed_decimal(v: int) -> Seq<char> {
    if v < 0 {
        seq!['-'] + decimal((-v) as nat)
    } else {
        decimal(v as nat)
    }
}

/// Seconds written with six fractional digits, from a count of microseconds.
pub open spec fn micros_text(us: int) -> Seq<char> {
    let m = if us < 0 { -us } else { us };
    (if us < 0 { seq!['-'] } else { Seq::<char>::empty() }) + decimal((m / 1_000_000) as nat)
        + seq!['.'] + padded_decimal((m % 1_000_000) as nat, 6)
}

fn digit_to_char(d: u64) -> (c: char)
    requires
        d < 10,
    ensures
        c == digit_char(d as nat),
{
    if d == 0 {
        '0'
    } else if d == 1 {
        '1'
    } else if d == 2 {
        '2'
    } else if d == 3 {
        '3'
    } else if d == 4 {
        '4'
    } else if d == 5 {
        '5'
    } else if d == 6 {
        '6'
    } else if d == 7 {
        '7'
    } else if d == 8 {
        '8'
    } else {
        '9'
    }
}

/// Appends the decimal form of `n`.
pub fn push_decimal(out: &mut Vec<char>, n: u64)
    ensures
        final(out)@ == old(out)@ + decimal(n as nat),
    decreases n,
{
    if n < 10 {
        out.push(digit_to_char(n));
        assert(decimal(n as nat) == seq![digit_char(n as nat)]);
    } else {
        push_decimal(out, n / 10);
        out.push(digit_to_char(n % 10));
        assert(decimal(n as nat) == decimal((n / 10) as nat).push(digit_char((n % 10) as nat)));
    }
}

/// Appends the decimal form of `n`, padded with zeros to `w` digits.
pub fn push_padded_decimal(out: &mut Vec<char>, n: u64, w: usize)
    ensures
        final(out)@ == old(out)@ + padded_decimal(n as nat, w as nat),
{
    let mut digits: Vec<char> = Vec::new();
    push_decimal(&mut digits, n);
    assert(digits@ == decimal(n as nat));
    let ghost start = out@;
    if digits.len() < w {
        let pad = w - digits.len();
        let mut i: usize = 0;
        while i < pad
            invariant
                i <= pad,
                out@ == start + Seq::new(i as nat, |k: int| '0'),
            decreases pad - i,
        {
            out.push('0');
            i = i + 1;
            assert(out@ =~= start + Seq::new(i as nat, |k: int| '0'));
        }
    }
    let ghost mid = out@;
    let mut j: usize = 0;
    while j < digits.len()
        invariant
            j <= digits@.len(),
            out@ == mid + digits@.take(j as int),
        decreases digits@.len() - j,
    {
        out.push(digits[j]);
        j = j + 1;
        assert(out@ =~= mid + digits@.take(j as int));
    }
    assert(digits@.take(digits@.len() as int) =~= digits@);
    assert(out@ =~= start + padded_decimal(n as nat, w as nat));
}

/// Appends the decimal form of a signed integer.
pub fn push_signed_decimal(out: &mut Vec<char>, v: i64)
    ensures
        final(out)@ == old(out)@ + signed_decimal(v as int),
{
    if v < 0 {
        out.push('-');
        let m: u64 = if v == i64::MIN { 9223372036854775808u64 } else { (-v) as u64 };
        push_decimal(out, m);
    } else {
        push_decimal(out, v as u64);
    }
    assert(final(out)@ =~= old(out)@ + signed_decimal(v as int)) by {
        if v < 0 {
            assert(seq!['-'] + decimal((-v) as nat) =~= seq!['-'].add(decimal((-v) as nat)));
        }
    };
}

/// Appends microseconds written as seconds with six fractional digits.
pub fn push_micros(out: &mut Vec<char>, us: i64)
    ensures
        final(out)@ == old(out)@ + micros_text(us as int),
{
    let ghost start = out@;
    let m: u64 = if us < 0 {
        if us == i64::MIN { 9223372036854775808u64 } else { (-us) as u64 }
    } else {
        us as u64
    };
    if us < 0 {
        out.push('-');
    }
    let ghost signed = out@;
    push_decimal(out, m / 1_000_000);
    out.push('.');
    push_padded_decimal(out, m % 1_000_000, 6);
    assert(out@ =~= start + micros_text(us as int));
}

/// Appends the characters of `s`.
pub fn push_str(out: &mut Vec<char>, s: &str)
    ensures
        final(out)@ == old(out)@ + s@,
{
    let c = chars_of(s);
    let ghost start = out@;
    let mut i: usize = 0;
    while i < c.len()
        invariant
            i <= c@.len(),
            out@ == start + c@.take(i as int),
        decreases c@.len() - i,
    {
        out.push(c[i]);
        i = i + 1;
        assert(out@ =~= start + c@.take(i as int));
    }
    assert(c@.take(c@.len() as int) =~= c@);
}

/// Whether two character sequences are equal.
pub fn same_chars(a: &Vec<char>, b: &Vec<char>) -> (r: bool)
    ensures
        r == (a@ == b@),
{
    if a.len() != b.len() {
        return false;
    }
    let mut i: usize = 0;
    while i < a.len()
        invariant
            a@.len() == b@.len(),
            i <= a@.len(),
            forall|k: int| 0 <= k < i ==> a@[k] == b@[k],
        decreases a@.len() - i,
    {
        if a[i] != b[i] {
            return false;
        }
        i = i + 1;
    }
    assert(a@ =~= b@);
    true
}

/// Whether a string's characters equal those of `lit`.
pub fn text_is(s: &Vec<char>, lit: &str) -> (r: bool)
    ensures
        r == (s@ == lit@),
{
    let l = chars_of(lit);
    same_chars(s, &l)
}


/// The length of the run of digits that starts the sequence.
pub open spec fn leading_digits(s: Seq<char>) -> nat
    decreases s.len(),
{
    if s.len() > 0 && is_digit(s[0]) {
        1 + leading_digits(s.drop_first())
    } else {
        0
    }
}

/// Microseconds in the fractional digits of a decimal number; digits after
/// the sixth are dropped.
pub open spec fn fraction_micros(f: Seq<char>) -> nat {
    if f.len() >= 6 {
        digits_value(f.take(6))
    } else {
        digits_value(f) * pow10((6 - f.len()) as nat)
    }
}

/// The value in microseconds of an unsigned decimal number of seconds:
/// digits, optionally followed by a point and more digits, with at least one
/// digit in all.
pub open spec fn unsigned_micros(s: Seq<char>) -> Option<nat> {
    let p = leading_digits(s) as int;
    if p == s.len() && p > 0 {
        Some(digits_value(s) * 1_000_000)
    } else if p < s.len() && s[p] == '.' && all_digits(s.skip(p + 1)) && s.len() >= 2 {
        Some(digits_value(s.take(p)) * 1_000_000 + fraction_micros(s.skip(p + 1)))
    } else {
        None
    }
}

/// The value in microseconds of a decimal number of seconds with an optional
/// sign.
pub open spec fn decimal_micros(s: Seq<char>) -> Option<int> {
    if s.len() > 0 && (s[0] == '-' || s[0] == '+') {
        match unsigned_micros(s.drop_first()) {
            Some(v) => Some(if s[0] == '-' { -v } else { v as int }),
            None => None,
        }
    } else {
        match unsigned_micros(s) {
            Some(v) => Some(v as int),
            None => None,
        }
    }
}

/// The outcome of reading a decimal number of seconds.
#[derive(PartialEq, Eq, Structural, Debug, Clone, Copy)]
pub enum Decimal {
    /// Not a decimal number.
    Malformed,
    /// A decimal number whose magnitude in microseconds exceeds `i64::MAX`.
    TooLarge,
    /// The number in microseconds.
    Micros(i64),
}

pub open spec fn decimal_outcome(s: Seq<char>) -> Decimal {
    match decimal_micros(s) {
        None => Decimal::Malformed,
        Some(v) => if -(i64::MAX as int) <= v <= i64::MAX {
            Decimal::Micros(v as i64)
        } else {
            Decimal::TooLarge
        },
    }
}

/// The number in microseconds, where it is one that fits.
pub open spec fn micros_of(s: Seq<char>) -> Option<i64> {
    match decimal_outcome(s) {
        Decimal::Micros(v) => Some(v),
        _ => None,
    }
}

proof fn lemma_leading_digits(s: Seq<char>, i: int)
    requires
        0 <= i <= s.len(),
        forall|k: int| 0 <= k < i ==> is_digit(#[trigger] s[k]),
    ensures
        leading_digits(s) == i + leading_digits(s.skip(i)),
    decreases i,
{
    if i > 0 {
        let t = s.drop_first();
        assert forall|k: int| 0 <= k < i - 1 implies is_digit(#[trigger] t[k]) by {
            assert(t[k] == s[k + 1]);
        }
        lemma_leading_digits(t, i - 1);
        assert(t.skip(i - 1) =~= s.skip(i));
    } else {
        assert(s.skip(0) =~= s);
    }
}

proof fn lemma_digits_step(s: Seq<char>, a: int, b: int)
    requires
        0 <= a <= b < s.len(),
    ensures
        digits_value(s.subrange(a, b + 1)) == digits_value(s.subrange(a, b)) * 10 + digit_value(
            s[b],
        ),
{
    assert(s.subrange(a, b + 1).drop_last() =~= s.subrange(a, b));
}

pub(crate) fn digit_of(c: char) -> (d: u64)
    requires
        is_digit(c),
    ensures
        d == digit_value(c),
        d < 10,
{
    (c as u32 - '0' as u32) as u64
}

fn is_digit_char(c: char) -> (r: bool)
    ensures
        r == is_digit(c),
{
    '0' <= c && c <= '9'
}

/// Reads an unsigned decimal number of seconds into microseconds.
fn read_unsigned_micros(s: &Vec<char>) -> (r: Decimal)
    ensures
        r == (match unsigned_micros(s@) {
            None => Decimal::Malformed,
            Some(v) => if v <= i64::MAX {
                Decimal::Micros(v as i64)
            } else {
                Decimal::TooLarge
            },
        }),
{
    let n = s.len();
    let limit: u64 = 9_223_372_036_854;
    let mut acc: u64 = 0;
    let mut over = false;
    let mut i: usize = 0;
    while i < n && is_digit_char(s[i])
        invariant
            n == s@.len(),
            i <= n,
            forall|k: int| 0 <= k < i ==> is_digit(#[trigger] s@[k]),
            limit == 9_223_372_036_854,
            over ==> digits_value(s@.subrange(0, i as int)) > limit,
            !over ==> acc == digits_value(s@.subrange(0, i as int)) && acc <= limit,
        decreases n - i,
    {
        let d = digit_of(s[i]);
        proof {
            lemma_digits_step(s@, 0, i as int);
        }
        if over {
            assert(digits_value(s@.subrange(0, i as int)) * 10 + d >= digits_value(
                s@.subrange(0, i as int),
            ));
        } else {
            if acc > 922_337_203_685 {
                over = true;
            } else {
                acc = acc * 10 + d;
                if acc > limit {
                    over = true;
                }
            }
        }
        i = i + 1;
    }
    let p = i;
    proof {
        lemma_leading_digits(s@, p as int);
        assert(leading_digits(s@.skip(p as int)) == 0);
        assert(s@.subrange(0, p as int) =~= s@.take(p as int));
    }
    if p == n {
        if p == 0 {
            return Decimal::Malformed;
        }
        assert(s@.take(p as int) =~= s@);
        if over {
            return Decimal::TooLarge;
        }
        if acc > limit {
            return Decimal::TooLarge;
        }
        let v = acc * 1_000_000;
        return Decimal::Micros(v as i64);
    }
    assert(leading_digits(s@) == p);
    if s[p] != '.' || n < 2 {
        assert(unsigned_micros(s@).is_none());
        return Decimal::Malformed;
    }
    let ghost f = s@.skip(p + 1);
    let mut fr: u64 = 0;
    let mut j: usize = p + 1;
    while j < n
        invariant
            n == s@.len(),
            p < n,
            p + 1 <= j <= n,
            n >= 2,
            leading_digits(s@) == p,
            s@[p as int] == '.',
            f == s@.skip(p + 1),
            forall|k: int| 0 <= k < j - (p + 1) ==> is_digit(#[trigger] f[k]),
            fr == digits_value(f.take(if j - (p + 1) < 6 { j - (p + 1) } else { 6 })),
            fr < pow10((if j - (p + 1) < 6 { j - (p + 1) } else { 6 }) as nat),
        decreases n - j,
    {
        if !is_digit_char(s[j]) {
            assert(!is_digit(f[j - (p + 1)]));
            return Decimal::Malformed;
        }
        let k = j - (p + 1);
        if k < 6 {
            let d = digit_of(s[j]);
            proof {
                assert(f.take(k + 1).drop_last() =~= f.take(k as int));
                assert(f.take(k + 1).last() == s@[j as int]);
                lemma_pow10_6();
                lemma_pow10_monotone(k as nat, 5);
                assert(pow10((k + 1) as nat) == 10 * pow10(k as nat));
                assert(fr * 10 + d < 10 * pow10(k as nat)) by (nonlinear_arith)
                    requires
                        fr < pow10(k as nat),
                        d < 10,
                ;
            }
            fr = fr * 10 + d;
        }
        j = j + 1;
    }
    assert(all_digits(f));
    assert(f.len() == n - (p + 1));
    let flen = n - (p + 1);
    if flen < 6 {
        assert(f.take(flen as int) =~= f);
        assert(pow10(0) == 1);
        let mut c: usize = 0;
        while c < 6 - flen
            invariant
                flen < 6,
                c <= 6 - flen,
                fr == digits_value(f) * pow10(c as nat),
                fr < pow10((flen + c) as nat),
            decreases 6 - flen - c,
        {
            proof {
                lemma_pow10_6();
                lemma_pow10_monotone((flen + c) as nat, 5);
                assert(pow10((c + 1) as nat) == 10 * pow10(c as nat));
                assert(pow10((flen + c + 1) as nat) == 10 * pow10((flen + c) as nat));
                assert(digits_value(f) * (10 * pow10(c as nat)) == (digits_value(f) * pow10(
                    c as nat,
                )) * 10) by (nonlinear_arith);
            }
            fr = fr * 10;
            c = c + 1;
        }
    }
    assert(fr == fraction_micros(f));
    proof {
        lemma_pow10_6();
    }
    assert(s@.take(p as int) =~= s@.subrange(0, p as int));
    if over || acc > limit {
        assert(digits_value(s@.take(p as int)) * 1_000_000 > i64::MAX) by (nonlinear_arith)
            requires
                digits_value(s@.take(p as int)) > limit,
                limit == 9_223_372_036_854,
        ;
        return Decimal::TooLarge;
    }
    let total: u64 = acc * 1_000_000 + fr;
    if total > 9_223_372_036_854_775_807u64 {
        return Decimal::TooLarge;
    }
    Decimal::Micros(total as i64)
}

proof fn lemma_pow10_6()
    ensures
        pow10(6) == 1_000_000,
{
    reveal_with_fuel(pow10, 7);
}

proof fn lemma_pow10_monotone(a: nat, b: nat)
    requires
        a <= b,
    ensures
        pow10(a) <= pow10(b),
        pow10(a) >= 1,
    decreases b,
{
    if a < b {
        lemma_pow10_monotone(a, (b - 1) as nat);
    } else if a > 0 {
        lemma_pow10_monotone((a - 1) as nat, (a - 1) as nat);
    }
}

/// Reads a decimal number of seconds, with an optional sign, into
/// microseconds.
pub fn read_micros(s: &Vec<char>) -> (r: Decimal)
    ensures
        r == decimal_outcome(s@),
{
    if s.len() > 0 && (s[0] == '-' || s[0] == '+') {
        let mut rest: Vec<char> = Vec::new();
        let mut i: usize = 1;
        while i < s.len()
            invariant
                1 <= i <= s@.len(),
                rest@ == s@.subrange(1, i as int),
            decreases s@.len() - i,
        {
            rest.push(s[i]);
            i = i + 1;
            assert(rest@ =~= s@.subrange(1, i as int));
        }
        assert(rest@ =~= s@.drop_first());
        let u = read_unsigned_micros(&rest);
        match u {
            Decimal::Micros(v) => {
                if s[0] == '-' {
                    Decimal::Micros(-v)
                } else {
                    Decimal::Micros(v)
                }
            },
            other => other,
        }
    } else {
        read_unsigned_micros(s)
    }
}

/// Reads a decimal number of seconds into microseconds, where it is one and
/// fits.
pub fn parse_micros(s: &Vec<char>) -> (r: Option<i64>)
    ensures
        r == micros_of(s@),
{
    match read_micros(s) {
        Decimal::Micros(v) => Some(v),
        _ => None,
    }
}


/// The value of an integer written as an optional sign and one or more
/// digits.
pub open spec fn integer_value(s: Seq<char>) -> Option<int> {
    let signed = s.len() > 0 && (s[0] == '-' || s[0] == '+');
    let body = if signed {
        s.drop_first()
    } else {
        s
    };
    if body.len() > 0 && all_digits(body) {
        Some(if signed && s[0] == '-' { -digits_value(body) } else { digits_value(body) as int })
    } else {
        None
    }
}

/// The integer, where it is one in the range of `i64`.
pub open spec fn i64_of(s: Seq<char>) -> Option<i64> {
    match integer_value(s) {
        Some(v) => if i64::MIN <= v <= i64::MAX {
            Some(v as i64)
        } else {
            None
        },
        None => None,
    }
}

/// The integer, where it is one in the range of `i32`.
pub open spec fn i32_of(s: Seq<char>) -> Option<i32> {
    match integer_value(s) {
        Some(v) => if i32::MIN <= v <= i32::MAX {
            Some(v as i32)
        } else {
            None
        },
        None => None,
    }
}

/// Reads an integer in the range of `i32`.
pub fn parse_i32(s: &Vec<char>) -> (r: Option<i32>)
    ensures
        r == i32_of(s@),
{
    match parse_i64(s) {
        Some(v) => if i32::MIN as i64 <= v && v <= i32::MAX as i64 {
            Some(v as i32)
        } else {
            None
        },
        None => None,
    }
}

/// Reads an integer in the range of `i64`.
pub fn parse_i64(s: &Vec<char>) -> (r: Option<i64>)
    ensures
        r == i64_of(s@),
{
    let n = s.len();
    let neg = n > 0 && s[0] == '-';
    let start: usize = if n > 0 && (s[0] == '-' || s[0] == '+') {
        1
    } else {
        0
    };
    let ghost body = s@.skip(start as int);
    assert(body =~= (if n > 0 && (s@[0] == '-' || s@[0] == '+') {
        s@.drop_first()
    } else {
        s@
    }));
    if start >= n {
        return None;
    }
    let mut acc: u64 = 0;
    let mut over = false;
    let mut i: usize = start;
    while i < n
        invariant
            start <= i <= n,
            n == s@.len(),
            body == s@.skip(start as int),
            neg == (n > 0 && s@[0] == '-'),
            body == (if n > 0 && (s@[0] == '-' || s@[0] == '+') {
                s@.drop_first()
            } else {
                s@
            }),
            forall|k: int| 0 <= k < i - start ==> is_digit(#[trigger] body[k]),
            over ==> digits_value(body.take(i - start)) > 9_223_372_036_854_775_808,
            !over ==> acc == digits_value(body.take(i - start)) && acc <= 9_223_372_036_854_775_808,
        decreases n - i,
    {
        if !is_digit_char(s[i]) {
            assert(!is_digit(body[i - start]));
            return None;
        }
        let d = digit_of(s[i]);
        proof {
            assert(body.take(i - start + 1).drop_last() =~= body.take(i - start));
            assert(body.take(i - start + 1).last() == s@[i as int]);
            if over {
                assert(digits_value(body.take(i - start)) * 10 + d >= digits_value(
                    body.take(i - start),
                ));
            }
        }
        if !over {
            if acc > 922_337_203_685_477_580 {
                over = true;
            } else {
                acc = acc * 10 + d;
                if acc > 9_223_372_036_854_775_808 {
                    over = true;
                }
            }
        }
        i = i + 1;
    }
    assert(body.take(n - start) =~= body);
    assert(all_digits(body));
    if over {
        return None;
    }
    if neg {
        if acc == 9_223_372_036_854_775_808 {
            Some(i64::MIN)
        } else {
            Some(-(acc as i64))
        }
    } else if acc > 9_223_372_036_854_775_807 {
        None
    } else {
        Some(acc as i64)
    }
}

/// Whether the sequence starts with the characters of `lit`.
pub fn starts_with_text(c: &Vec<char>, lit: &str) -> (r: bool)
    ensures
        r == (lit@.len() <= c@.len() && c@.take(lit@.len() as int) == lit@),
{
    let l = chars_of(lit);
    if l.len() > c.len() {
        return false;
    }
    let mut i: usize = 0;
    while i < l.len()
        invariant
            l@ == lit@,
            l@.len() <= c@.len(),
            i <= l@.len(),
            forall|k: int| 0 <= k < i ==> c@[k] == l@[k],
        decreases l@.len() - i,
    {
        if c[i] != l[i] {
            assert(c@.take(l@.len() as int)[i as int] != l@[i as int]);
            return false;
        }
        i = i + 1;
    }
    assert(c@.take(l@.len() as int) =~= l@);
    true
}

/// The characters from position `start` on.
pub fn chars_from(c: &Vec<char>, start: usize) -> (r: Vec<char>)
    requires
        start <= c@.len(),
    ensures
        r@ == c@.skip(start as int),
{
    let mut out: Vec<char> = Vec::new();
    let mut i: usize = start;
    while i < c.len()
        invariant
            start <= i <= c@.len(),
            out@ == c@.subrange(start as int, i as int),
        decreases c@.len() - i,
    {
        out.push(c[i]);
        i = i + 1;
        assert(out@ =~= c@.subrange(start as int, i as int));
    }
    assert(out@ =~= c@.skip(start as int));
    out
}

/// Microseconds written as seconds with one decimal, rounded half away
/// from zero.
pub open spec fn tenths_text(us: int) -> Seq<char> {
    let m = if us < 0 {
        -us
    } else {
        us
    };
    let t = (m + 50_000) / 100_000;
    (if us < 0 && t > 0 {
        seq!['-']
    } else {
        Seq::<char>::empty()
    }) + decimal((t / 10) as nat) + seq!['.'] + decimal((t % 10) as nat)
}

/// Appends microseconds written as seconds with one decimal.
pub fn push_tenths(out: &mut Vec<char>, us: i64)
    ensures
        final(out)@ == old(out)@ + tenths_text(us as int),
{
    let ghost start = out@;
    let m: u64 = if us < 0 {
        if us == i64::MIN {
            9223372036854775808u64
        } else {
            (-us) as u64
        }
    } else {
        us as u64
    };
    let t = (m + 50_000) / 100_000;
    if us < 0 && t > 0 {
        out.push('-');
    }
    push_decimal(out, t / 10);
    out.push('.');
    push_decimal(out, t % 10);
    assert(out@ =~= start + tenths_text(us as int));
}

} // verus!
