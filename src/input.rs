//! The input file: checking it, and turning what a front end hands over
//! (possibly a `file://` URL) into a local path.
use vstd::prelude::*;
use vstd::utf8::encode_utf8;
use crate::error::{EngineError, ValidationIssue};
use crate::text::{lossy_string, lossy_text, trim_text, trimmed};

verus! {

/// Checks what the file system shows of the input path: it must exist and be
/// a regular file.
pub fn ensure_input_file_exists(exists: bool, is_file: bool) -> (r: Result<(), EngineError>)
    ensures
        !exists ==> r == Err::<(), EngineError>(EngineError::Validation(ValidationIssue::InputMissing)),
        exists && !is_file ==> r == Err::<(), EngineError>(
            EngineError::Validation(ValidationIssue::InputNotAFile),
        ),
        exists && is_file ==> r is Ok,
{
    if !exists {
        return Err(EngineError::Validation(ValidationIssue::InputMissing));
    }
    if !is_file {
        return Err(EngineError::Validation(ValidationIssue::InputNotAFile));
    }
    Ok(())
}

pub open spec fn ascii_lower(b: u8) -> u8 {
    if 65 <= b <= 90 {
        (b + 32) as u8
    } else {
        b
    }
}

/// Whether `b` starts with the ASCII text `p`, ignoring ASCII case.
pub open spec fn has_prefix_ci(b: Seq<u8>, p: Seq<u8>) -> bool {
    p.len() <= b.len() && forall|i: int| 0 <= i < p.len() ==> ascii_lower(#[trigger] b[i]) == p[i]
}

pub open spec fn hex_value(b: u8) -> Option<u8> {
    if 48 <= b <= 57 {
        Some((b - 48) as u8)
    } else if 97 <= b <= 102 {
        Some((b - 87) as u8)
    } else if 65 <= b <= 70 {
        Some((b - 55) as u8)
    } else {
        None
    }
}

/// Percent-decoding of a URL path: `%` and two hex digits is one byte, `/`
/// becomes `\`, everything else stays.
pub open spec fn url_path_bytes(s: Seq<u8>) -> Seq<u8>
    decreases s.len(),
{
    if s.len() == 0 {
        Seq::empty()
    } else if s[0] == 37 && s.len() > 2 && hex_value(s[1]) is Some && hex_value(s[2]) is Some {
        seq![(hex_value(s[1])->Some_0 * 16 + hex_value(s[2])->Some_0) as u8] + url_path_bytes(
            s.skip(3),
        )
    } else if s[0] == 47 {
        seq![92u8] + url_path_bytes(s.skip(1))
    } else {
        seq![s[0]] + url_path_bytes(s.skip(1))
    }
}

/// `file://`, in bytes.
pub open spec fn file_scheme() -> Seq<u8> {
    seq![102u8, 105, 108, 101, 58, 47, 47]
}

/// `localhost/`, in bytes.
pub open spec fn localhost_prefix() -> Seq<u8> {
    seq![108u8, 111, 99, 97, 108, 104, 111, 115, 116, 47]
}

/// The local path that an input names: the trimmed input, or for a
/// `file://` URL (any case) its path after the scheme, the third slash and a
/// `localhost` authority, percent-decoded, with `\` for `/`.
pub open spec fn local_input_path(input: Seq<char>) -> Seq<char> {
    let t = trimmed(input);
    let b = encode_utf8(t);
    if !has_prefix_ci(b, file_scheme()) {
        t
    } else {
        let rest = if has_prefix_ci(b, file_scheme().push(47)) {
            b.skip(8)
        } else {
            b.skip(7)
        };
        let path = if has_prefix_ci(rest, localhost_prefix()) {
            rest.skip(10)
        } else {
            rest
        };
        lossy_text(url_path_bytes(path))
    }
}

fn to_lower_ascii(b: u8) -> (r: u8)
    ensures
        r == ascii_lower(b),
{
    if 65 <= b && b <= 90 {
        b + 32
    } else {
        b
    }
}

fn hex_digit(b: u8) -> (r: Option<u8>)
    ensures
        r == hex_value(b),
{
    if 48 <= b && b <= 57 {
        Some(b - 48)
    } else if 97 <= b && b <= 102 {
        Some(b - 87)
    } else if 65 <= b && b <= 70 {
        Some(b - 55)
    } else {
        None
    }
}

fn starts_with_ci(b: &Vec<u8>, start: usize, p: &Vec<u8>) -> (r: bool)
    requires
        start <= b@.len(),
    ensures
        r == has_prefix_ci(b@.skip(start as int), p@),
{
    let n = b.len();
    if p.len() > n - start {
        return false;
    }
    let mut i: usize = 0;
    while i < p.len()
        invariant
            n == b@.len(),
            start <= b@.len(),
            p@.len() <= b@.len() - start,
            i <= p@.len(),
            forall|k: int| 0 <= k < i ==> ascii_lower(#[trigger] b@.skip(start as int)[k]) == p@[k],
        decreases p@.len() - i,
    {
        if to_lower_ascii(b[start + i]) != p[i] {
            assert(b@.skip(start as int)[i as int] == b@[start + i]);
            return false;
        }
        assert(b@.skip(start as int)[i as int] == b@[start + i]);
        i = i + 1;
    }
    true
}

fn scheme_bytes(with_slash: bool) -> (r: Vec<u8>)
    ensures
        r@ == (if with_slash {
            file_scheme().push(47)
        } else {
            file_scheme()
        }),
{
    let mut v: Vec<u8> = vec![102u8, 105, 108, 101, 58, 47, 47];
    if with_slash {
        v.push(47);
    }
    assert(v@ =~= (if with_slash {
        file_scheme().push(47)
    } else {
        file_scheme()
    }));
    v
}

/// Turns what a front end hands over into a local path for the tools.
pub fn normalize_input_path_for_cli(input_path: &str) -> (r: String)
    ensures
        r@ == local_input_path(input_path@),
{
    let t = trim_text(input_path);
    let bytes = t.as_bytes();
    let mut b: Vec<u8> = Vec::new();
    let mut k: usize = 0;
    while k < bytes.len()
        invariant
            k <= bytes@.len(),
            b@ == bytes@.take(k as int),
        decreases bytes@.len() - k,
    {
        b.push(bytes[k]);
        k = k + 1;
        assert(b@ =~= bytes@.take(k as int));
    }
    assert(b@ =~= encode_utf8(trimmed(input_path@)));
    assert(b@.skip(0) =~= b@);
    if !starts_with_ci(&b, 0, &scheme_bytes(false)) {
        return t.to_owned();
    }
    let mut start: usize = if starts_with_ci(&b, 0, &scheme_bytes(true)) {
        8
    } else {
        7
    };
    let localhost: Vec<u8> = vec![108u8, 111, 99, 97, 108, 104, 111, 115, 116, 47];
    assert(localhost@ =~= localhost_prefix());
    let ghost rest = b@.skip(start as int);
    if starts_with_ci(&b, start, &localhost) {
        assert(b@.skip(start + 10) =~= rest.skip(10));
        start = start + 10;
    }
    let ghost path = b@.skip(start as int);
    let mut out: Vec<u8> = Vec::new();
    let mut i: usize = start;
    while i < b.len()
        invariant
            start <= i <= b@.len(),
            path == b@.skip(start as int),
            out@ + url_path_bytes(b@.skip(i as int)) == url_path_bytes(path),
        decreases b@.len() - i,
    {
        let ghost s = b@.skip(i as int);
        assert(s[0] == b@[i as int]);
        if b[i] == 37 && b.len() - i > 2 {
            assert(s[1] == b@[i + 1] && s[2] == b@[i + 2]);
            match (hex_digit(b[i + 1]), hex_digit(b[i + 2])) {
                (Some(x), Some(y)) => {
                    out.push(x * 16 + y);
                    assert(s.skip(3) =~= b@.skip(i + 3));
                    assert(out@ + url_path_bytes(b@.skip(i + 3)) =~= url_path_bytes(path));
                    i = i + 3;
                    continue;
                },
                _ => {},
            }
        }
        if b[i] == 47 {
            out.push(92);
        } else {
            out.push(b[i]);
        }
        assert(s.skip(1) =~= b@.skip(i + 1));
        assert(out@ + url_path_bytes(b@.skip(i + 1)) =~= url_path_bytes(path));
        i = i + 1;
    }
    lossy_string(out.as_slice())
}

/// UTF-16 code units of a string.
pub open spec fn utf16_units(s: Seq<char>) -> Seq<u16>
    decreases s.len(),
{
    if s.len() == 0 {
        Seq::empty()
    } else {
        let c = s.last() as u32;
        let rest = utf16_units(s.drop_last());
        if c < 0x10000 {
            rest.push(c as u16)
        } else {
            rest.push((0xD800 + (c - 0x10000) / 1024) as u16).push(
                (0xDC00 + (c - 0x10000) % 1024) as u16,
            )
        }
    }
}

/// A string in UTF-16 with a terminating zero, as wide-character system
/// interfaces take it.
pub fn to_wide_null_terminated(s: &str) -> (r: Vec<u16>)
    ensures
        r@ == utf16_units(s@).push(0),
{
    let c = crate::text::chars_of(s);
    let mut out: Vec<u16> = Vec::new();
    let mut i: usize = 0;
    while i < c.len()
        invariant
            i <= c@.len(),
            out@ == utf16_units(c@.take(i as int)),
            c@ == s@,
        decreases c@.len() - i,
    {
        assert(c@.take(i + 1).drop_last() =~= c@.take(i as int));
        assert(c@.take(i + 1).last() == c@[i as int]);
        let v = c[i] as u32;
        if v < 0x10000 {
            out.push(v as u16);
        } else {
            let w = v - 0x10000;
            out.push((0xD800 + w / 1024) as u16);
            out.push((0xDC00 + w % 1024) as u16);
        }
        i = i + 1;
    }
    assert(c@.take(c@.len() as int) =~= c@);
    out.push(0);
    out
}

} // verus!
