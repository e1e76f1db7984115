//! The pure parts of the snapshot tool's command line: the `COLSxROWS`
//! size argument, and checking that the output path's extension names
//! the format the capture will be written in.
use vstd::prelude::*;
use crate::text::{decimal, push_chars, push_decimal, str_chars};

verus! {

/// What `format!("{:?}", s)` makes of a string `s`: its quoted, escaped
/// form.
pub uninterp spec fn str_debug(s: Seq<char>) -> Seq<char>;

/// Calls the `Debug` formatting of `str`: `s` quoted and escaped.
/// Claimed: the result is `str_debug(s@)`.
#[verifier::external_body]
fn debug_quoted(s: &str) -> (r: String)
    ensures
        r@ == str_debug(s@),
{
    format!("{:?}", s)
}

/// `c` is an ASCII decimal digit.
pub open spec fn is_digit(c: char) -> bool {
    '0' <= c && c <= '9'
}

/// The number the decimal digits `ds` spell.
pub open spec fn digits_value(ds: Seq<char>) -> nat
    decreases ds.len(),
{
    if ds.len() == 0 {
        0
    } else {
        digits_value(ds.drop_last()) * 10 + ((ds.last() as u32) - 48) as nat
    }
}

/// `s` read as a `u16` the way `str::parse::<u16>` reads it: an optional
/// leading `+`, then one or more ASCII digits whose value fits in a
/// `u16`.
pub open spec fn parse_u16(s: Seq<char>) -> Option<u16> {
    parse_digits_u16(strip_plus(s))
}

/// `s` without a leading `+`, if it has one.
pub open spec fn strip_plus(s: Seq<char>) -> Seq<char> {
    if s.len() > 0 && s[0] == '+' {
        s.skip(1)
    } else {
        s
    }
}

/// Every character of `ds` is an ASCII digit.
pub open spec fn all_digits(ds: Seq<char>) -> bool {
    forall|i: int| 0 <= i < ds.len() ==> is_digit(#[trigger] ds[i])
}

/// `ds` read as a `u16`: one or more ASCII digits whose value fits.
pub open spec fn parse_digits_u16(ds: Seq<char>) -> Option<u16> {
    if ds.len() > 0 && all_digits(ds) && digits_value(ds) <= u16::MAX {
        Some(digits_value(ds) as u16)
    } else {
        None
    }
}

/// `i` is the position of the first `x` in `s`.
pub open spec fn is_first_x(s: Seq<char>, i: int) -> bool {
    0 <= i < s.len() && s[i] == 'x' && forall|j: int| 0 <= j < i ==> s[j] != 'x'
}

/// The outcome of reading a `COLSxROWS` size: split at the first `x`,
/// each side read as a `u16`; each failure has its own message quoting
/// the whole argument.
pub open spec fn size_arg(s: Seq<char>) -> Result<(u16, u16), Seq<char>> {
    if !exists|i: int| is_first_x(s, i) {
        Err("expected COLSxROWS, got "@ + str_debug(s))
    } else {
        let i = choose|i: int| is_first_x(s, i);
        let cols = parse_u16(s.take(i));
        let rows = parse_u16(s.skip(i + 1));
        if cols is None {
            Err("bad cols in "@ + str_debug(s))
        } else if rows is None {
            Err("bad rows in "@ + str_debug(s))
        } else {
            Ok((cols.unwrap(), rows.unwrap()))
        }
    }
}

fn parse_u16_chars(s: &Vec<char>, from: usize, to: usize) -> (r: Option<u16>)
    requires
        from <= to <= s@.len(),
    ensures
        r == parse_u16(s@.subrange(from as int, to as int)),
{
    let ghost whole = s@.subrange(from as int, to as int);
    let mut start = from;
    if from < to && s[from] == '+' {
        start = from + 1;
    }
    let ghost ds = s@.subrange(start as int, to as int);
    assert(ds =~= strip_plus(whole));
    if start == to {
        return None;
    }
    let mut value: u32 = 0;
    let mut i = start;
    while i < to
        invariant
            from <= start <= i <= to <= s@.len(),
            ds == s@.subrange(start as int, to as int),
            ds == strip_plus(s@.subrange(from as int, to as int)),
            value == digits_value(s@.subrange(start as int, i as int)),
            value <= u16::MAX,
            forall|k: int| start <= k < i ==> is_digit(#[trigger] s@[k]),
        decreases to - i,
    {
        let c = s[i];
        assert(s@.subrange(start as int, i + 1).drop_last() =~= s@.subrange(start as int, i as int));
        assert(s@.subrange(start as int, i + 1).last() == c);
        assert(ds[i - start] == c);
        if c < '0' || c > '9' {
            assert(!is_digit(ds[i - start]));
            return None;
        }
        let d = (c as u32) - 48;
        let next = value * 10 + d;
        if next > 65535 {
            proof {
                lemma_digits_value_grows(ds, i - start + 1);
                assert(ds.take(i - start + 1) =~= s@.subrange(start as int, i + 1));
                assert(digits_value(s@.subrange(start as int, i + 1)) == next);
            }
            return None;
        }
        value = next;
        i = i + 1;
    }
    assert(ds =~= s@.subrange(start as int, i as int));
    Some(value as u16)
}

/// Reading more digits never makes the number smaller.
proof fn lemma_digits_value_grows(ds: Seq<char>, k: int)
    requires
        0 <= k <= ds.len(),
    ensures
        digits_value(ds.take(k)) <= digits_value(ds) || exists|i: int|
            0 <= i < ds.len() && !is_digit(#[trigger] ds[i]),
    decreases ds.len() - k,
{
    if k < ds.len() {
        lemma_digits_value_grows(ds, k + 1);
        assert(ds.take(k + 1).drop_last() =~= ds.take(k));
        if is_digit(ds[k]) {
        } else {
            assert(!is_digit(ds[k]));
        }
    } else {
        assert(ds.take(k) =~= ds);
    }
}

/// Reads a `COLSxROWS` terminal size argument.
pub fn parse_size(s: &str) -> (r: Result<(u16, u16), String>)
    ensures
        match r {
            Ok(size) => size_arg(s@) == Ok::<(u16, u16), Seq<char>>(size),
            Err(m) => size_arg(s@) == Err::<(u16, u16), Seq<char>>(m@),
        },
{
    let cs = str_chars(s);
    let mut i: usize = 0;
    while i < cs.len() && cs[i] != 'x'
        invariant
            0 <= i <= cs@.len(),
            cs@ == s@,
            forall|j: int| 0 <= j < i ==> cs@[j] != 'x',
        decreases cs.len() - i,
    {
        i = i + 1;
    }
    if i == cs.len() {
        assert(!exists|k: int| is_first_x(s@, k));
        let mut m = String::new();
        push_chars(&mut m, "expected COLSxROWS, got ");
        let q = debug_quoted(s);
        push_chars(&mut m, q.as_str());
        return Err(m);
    }
    assert(is_first_x(s@, i as int));
    assert(forall|k: int| is_first_x(s@, k) ==> k == i);
    let cols = parse_u16_chars(&cs, 0, i);
    let rows = parse_u16_chars(&cs, i + 1, cs.len());
    assert(s@.take(i as int) =~= cs@.subrange(0, i as int));
    assert(s@.skip(i + 1) =~= cs@.subrange(i + 1, cs@.len() as int));
    match cols {
        None => {
            let mut m = String::new();
            push_chars(&mut m, "bad cols in ");
            let q = debug_quoted(s);
            push_chars(&mut m, q.as_str());
            Err(m)
        },
        Some(c) => match rows {
            None => {
                let mut m = String::new();
                push_chars(&mut m, "bad rows in ");
                let q = debug_quoted(s);
                push_chars(&mut m, q.as_str());
                Err(m)
            },
            Some(r) => Ok((c, r)),
        },
    }
}

/// The extension of the format a capture of `frame_count` frames is
/// written in: one frame is a PNG snapshot, anything else an animated
/// GIF.
pub open spec fn extension_for(frame_count: nat) -> Seq<char> {
    if frame_count == 1 {
        "png"@
    } else {
        "gif"@
    }
}

/// The output format `frame_count` frames are written in: exactly one
/// frame is a single PNG snapshot, two or more an animated GIF.
pub fn expected_extension(frame_count: usize) -> (r: &'static str)
    ensures
        r@ == extension_for(frame_count as nat),
{
    if frame_count == 1 {
        "png"
    } else {
        "gif"
    }
}

/// `c` with an ASCII upper-case letter lowered.
pub open spec fn ascii_lower(c: char) -> char {
    if 'A' <= c && c <= 'Z' {
        ((c as u32) + 32) as char
    } else {
        c
    }
}

/// `a` and `b` are equal once ASCII letters are lowered.
pub open spec fn eq_ignore_ascii_case(a: Seq<char>, b: Seq<char>) -> bool {
    a.len() == b.len() && forall|i: int| 0 <= i < a.len() ==> ascii_lower(#[trigger] a[i])
        == ascii_lower(b[i])
}

fn lower(c: char) -> (r: char)
    ensures
        r == ascii_lower(c),
{
    if 'A' <= c && c <= 'Z' {
        let u = (c as u32) + 32;
        assert(0x61 <= u <= 0x7a);
        (u as u8) as char
    } else {
        c
    }
}

fn eq_ignore_case(a: &Vec<char>, b: &Vec<char>) -> (r: bool)
    ensures
        r == eq_ignore_ascii_case(a@, b@),
{
    if a.len() != b.len() {
        return false;
    }
    let mut i: usize = 0;
    while i < a.len()
        invariant
            a@.len() == b@.len(),
            0 <= i <= a@.len(),
            forall|k: int| 0 <= k < i ==> ascii_lower(#[trigger] a@[k]) == ascii_lower(b@[k]),
        decreases a.len() - i,
    {
        if lower(a[i]) != lower(b[i]) {
            return false;
        }
        i = i + 1;
    }
    true
}

/// The message for an output path whose extension doesn't match the
/// format: the frame count, the format, the required extension, and
/// the path as given.
pub open spec fn extension_mismatch(frame_count: nat, shown: Seq<char>) -> Seq<char> {
    "script produces "@ + decimal(frame_count) + " frame(s) ("@ + (if frame_count == 1 {
        "a PNG"@
    } else {
        "a GIF"@
    }) + "); --out must end in ."@ + extension_for(frame_count) + ", got "@ + shown
}

/// Checks an output path's extension `actual` (compared ignoring ASCII
/// case) against the format `frame_count` frames are written in;
/// `shown` is the path as the error message should print it.
pub fn check_output_extension(actual: &str, shown: &str, frame_count: usize) -> (r: Result<
    (),
    String,
>)
    ensures
        r is Ok <==> eq_ignore_ascii_case(actual@, extension_for(frame_count as nat)),
        r matches Err(m) ==> m@ == extension_mismatch(frame_count as nat, shown@),
{
    let expected = expected_extension(frame_count);
    let a = str_chars(actual);
    let e = str_chars(expected);
    if eq_ignore_case(&a, &e) {
        return Ok(());
    }
    let mut m = String::new();
    push_chars(&mut m, "script produces ");
    push_decimal(&mut m, frame_count as u64);
    push_chars(&mut m, " frame(s) (");
    if frame_count == 1 {
        push_chars(&mut m, "a PNG");
    } else {
        push_chars(&mut m, "a GIF");
    }
    push_chars(&mut m, "); --out must end in .");
    push_chars(&mut m, expected);
    push_chars(&mut m, ", got ");
    push_chars(&mut m, shown);
    assert(m@ =~= extension_mismatch(frame_count as nat, shown@));
    Err(m)
}

} // verus!
