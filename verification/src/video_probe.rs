//! Reading a native video's coded size out of `ffprobe`'s
//! `csv=p=0` output (`"{width},{height}"`), and the byte length of one
//! decoded RGBA frame of that size.

use vstd::prelude::*;
use crate::text::{
    base10_value, chars_of, concat_chars, find, find_in, skip_chars, string_of, take_chars, trim,
    trim_chars,
};

verus! {

/// Why a decimal field did not read as a `u32` — the kinds `str::parse`
/// reports.
#[derive(Clone, Copy, Debug, PartialEq, Eq, Structural)]
pub enum ParseIntFailure {
    /// The field is empty.
    Empty,
    /// The field holds something other than an optional `+` and digits.
    InvalidDigit,
    /// The number does not fit in a `u32`.
    PosOverflow,
}

/// Why `ffprobe`'s output did not yield a size.
#[derive(Clone, Copy, Debug, PartialEq, Eq, Structural)]
pub enum ProbeError {
    BadWidth(ParseIntFailure),
    NoHeight,
    BadHeight(ParseIntFailure),
}

/// Whether `c` is an ASCII decimal digit.
pub open spec fn is_decimal_digit(c: char) -> bool {
    '0' <= c && c <= '9'
}

/// Reads the digits of `s` from position `k` on, onto `acc`: the first
/// non-digit fails with `InvalidDigit`, a value past `u32::MAX` with
/// `PosOverflow`.
pub open spec fn read_digits(s: Seq<char>, k: int, acc: int) -> Result<u32, ParseIntFailure>
    decreases s.len() - k,
{
    if k < 0 || k >= s.len() {
        Ok(acc as u32)
    } else if !is_decimal_digit(s[k]) {
        Err(ParseIntFailure::InvalidDigit)
    } else if acc * 10 + (s[k] as int - '0' as int) > u32::MAX {
        Err(ParseIntFailure::PosOverflow)
    } else {
        read_digits(s, k + 1, acc * 10 + (s[k] as int - '0' as int))
    }
}

/// `s` read as a `u32` the way `str::parse::<u32>` reads it: an optional
/// leading `+`, then one or more decimal digits.
pub open spec fn parse_u32_text(s: Seq<char>) -> Result<u32, ParseIntFailure> {
    if s.len() == 0 {
        Err(ParseIntFailure::Empty)
    } else if s.len() == 1 && (s[0] == '+' || s[0] == '-') {
        Err(ParseIntFailure::InvalidDigit)
    } else if s[0] == '+' {
        read_digits(s, 1, 0)
    } else {
        read_digits(s, 0, 0)
    }
}

/// The part of `s` before its first `','` (all of `s` when it has none).
pub open spec fn before_comma(s: Seq<char>) -> Seq<char> {
    match find(s, seq![',']) {
        Some(k) => s.take(k),
        None => s,
    }
}

/// The part of `s` after its first `','`, when it has one.
pub open spec fn after_comma(s: Seq<char>) -> Option<Seq<char>> {
    match find(s, seq![',']) {
        Some(k) => Some(s.skip(k + 1)),
        None => None,
    }
}

/// The size `ffprobe` printed in `out`: the output trimmed and split at
/// commas, the first field the width and the second the height, each read
/// as a `u32`; the width is read before the height is looked for.
pub open spec fn probed_size(out: Seq<char>) -> Result<(u32, u32), ProbeError> {
    let t = trim(out);
    match parse_u32_text(before_comma(t)) {
        Err(e) => Err(ProbeError::BadWidth(e)),
        Ok(w) => match after_comma(t) {
            None => Err(ProbeError::NoHeight),
            Some(rest) => match parse_u32_text(before_comma(rest)) {
                Err(e) => Err(ProbeError::BadHeight(e)),
                Ok(h) => Ok((w, h)),
            },
        },
    }
}

proof fn lemma_value_step(s: Seq<char>, st: int, k: int)
    requires
        0 <= st <= k < s.len(),
    ensures
        base10_value(s.subrange(st, k + 1)) == base10_value(s.subrange(st, k)) * 10 + (s[k] as int
            - '0' as int),
{
    assert(s.subrange(st, k + 1).drop_last() =~= s.subrange(st, k));
}

/// Reading more digits never lowers the value.
proof fn lemma_value_grows(s: Seq<char>, st: int, k: int, j: int)
    requires
        0 <= st <= k <= j <= s.len(),
        forall|i: int| st <= i < j ==> is_decimal_digit(#[trigger] s[i]),
    ensures
        0 <= base10_value(s.subrange(st, k)) <= base10_value(s.subrange(st, j)),
    decreases j - st,
{
    if j > st {
        if k < j {
            lemma_value_grows(s, st, k, j - 1);
        } else {
            lemma_value_grows(s, st, k - 1, j - 1);
        }
        lemma_value_step(s, st, j - 1);
    } else {
        assert(s.subrange(st, j) =~= Seq::<char>::empty());
    }
}

proof fn lemma_read_digits(s: Seq<char>, st: int, k: int, acc: int)
    requires
        0 <= st <= k <= s.len(),
        forall|i: int| st <= i < k ==> is_decimal_digit(#[trigger] s[i]),
        acc == base10_value(s.subrange(st, k)),
        0 <= acc <= u32::MAX,
    ensures
        (forall|i: int| k <= i < s.len() ==> is_decimal_digit(#[trigger] s[i])) ==> read_digits(
            s,
            k,
            acc,
        ) == if base10_value(s.subrange(st, s.len() as int)) <= u32::MAX {
            Ok::<u32, ParseIntFailure>(base10_value(s.subrange(st, s.len() as int)) as u32)
        } else {
            Err(ParseIntFailure::PosOverflow)
        },
        read_digits(s, k, acc) matches Ok(n) ==> (forall|i: int|
            k <= i < s.len() ==> is_decimal_digit(#[trigger] s[i])) && n == base10_value(
            s.subrange(st, s.len() as int),
        ),
    decreases s.len() - k,
{
    if k < s.len() && is_decimal_digit(s[k]) {
        lemma_value_step(s, st, k);
        let next = acc * 10 + (s[k] as int - '0' as int);
        if next > u32::MAX {
            if forall|i: int| k <= i < s.len() ==> is_decimal_digit(#[trigger] s[i]) {
                lemma_value_grows(s, st, k + 1, s.len() as int);
            }
        } else {
            lemma_read_digits(s, st, k + 1, next);
        }
    }
}

proof fn lemma_read_digits_never_empty(s: Seq<char>, k: int, acc: int)
    ensures
        read_digits(s, k, acc) != Err::<u32, ParseIntFailure>(ParseIntFailure::Empty),
    decreases s.len() - k,
{
    if 0 <= k < s.len() && is_decimal_digit(s[k]) && acc * 10 + (s[k] as int - '0' as int)
        <= u32::MAX {
        lemma_read_digits_never_empty(s, k + 1, acc * 10 + (s[k] as int - '0' as int));
    }
}

/// The digits `parse_u32_text` reads: `s` without a leading `+`.
pub open spec fn unsigned_part(s: Seq<char>) -> Seq<char> {
    if s.len() > 0 && s[0] == '+' {
        s.skip(1)
    } else {
        s
    }
}

/// What `parse_u32_text` reads: `s` is an optional `+` and then one or more
/// decimal digits, whose base-10 value is the result — `Ok` exactly when
/// that value fits in a `u32`; the empty text is `Empty`.
pub proof fn law_parse_u32_reads_base10(s: Seq<char>)
    ensures
        (parse_u32_text(s) == Err::<u32, ParseIntFailure>(ParseIntFailure::Empty)) == (s.len()
            == 0),
        parse_u32_text(s) matches Ok(n) ==> unsigned_part(s).len() > 0 && (forall|i: int|
            0 <= i < unsigned_part(s).len() ==> is_decimal_digit(#[trigger] unsigned_part(s)[i]))
            && n == base10_value(unsigned_part(s)),
        (unsigned_part(s).len() > 0 && (forall|i: int|
            0 <= i < unsigned_part(s).len() ==> is_decimal_digit(#[trigger] unsigned_part(s)[i]))
            && base10_value(unsigned_part(s)) <= u32::MAX) ==> parse_u32_text(s) == Ok::<
            u32,
            ParseIntFailure,
        >(base10_value(unsigned_part(s)) as u32),
{
    if s.len() > 0 {
        let st: int = if s[0] == '+' {
            1
        } else {
            0
        };
        let d = unsigned_part(s);
        assert(d =~= s.subrange(st, s.len() as int));
        assert(s.subrange(st, st) =~= Seq::<char>::empty());
        lemma_read_digits(s, st, st, 0);
        lemma_read_digits_never_empty(s, st, 0);
        let single_sign = s.len() == 1 && (s[0] == '+' || s[0] == '-');
        if !single_sign {
            assert(parse_u32_text(s) == read_digits(s, st, 0));
        }
        if d.len() > 0 && (forall|i: int| 0 <= i < d.len() ==> is_decimal_digit(#[trigger] d[i])) {
            assert forall|i: int| st <= i < s.len() implies is_decimal_digit(#[trigger] s[i]) by {
                assert(d[i - st] == s[i]);
            }
            if single_sign {
                assert(is_decimal_digit(s[0]));
            }
        }
        if parse_u32_text(s) is Ok {
            assert(!single_sign);
            assert forall|i: int| 0 <= i < d.len() implies is_decimal_digit(#[trigger] d[i]) by {
                assert(d[i] == s[st + i]);
            }
        }
    }
}

/// `s` read as a `u32` — see `parse_u32_text`.
pub fn parse_u32(s: &Vec<char>) -> (r: Result<u32, ParseIntFailure>)
    ensures
        r == parse_u32_text(s@),
{
    if s.len() == 0 {
        return Err(ParseIntFailure::Empty);
    }
    if s.len() == 1 && (s[0] == '+' || s[0] == '-') {
        return Err(ParseIntFailure::InvalidDigit);
    }
    let start: usize = if s[0] == '+' {
        1
    } else {
        0
    };
    let mut k: usize = start;
    let mut acc: u64 = 0;
    assert(parse_u32_text(s@) == read_digits(s@, start as int, 0));
    while k < s.len()
        invariant
            start <= k <= s.len(),
            acc <= u32::MAX,
            parse_u32_text(s@) == read_digits(s@, k as int, acc as int),
        decreases s.len() - k,
    {
        let c = s[k];
        if !('0' <= c && c <= '9') {
            return Err(ParseIntFailure::InvalidDigit);
        }
        let d = (c as u32 - '0' as u32) as u64;
        let next = acc * 10 + d;
        if next > 4294967295u64 {
            return Err(ParseIntFailure::PosOverflow);
        }
        acc = next;
        k = k + 1;
    }
    Ok(acc as u32)
}

/// The coded size `ffprobe -show_entries stream=width,height -of csv=p=0`
/// printed in `out` — see `probed_size`.
pub fn parse_probe_output(out: &str) -> (r: Result<(u32, u32), ProbeError>)
    ensures
        r == probed_size(out@),
{
    let all = chars_of(out);
    let t = trim_chars(&all);
    let mut comma: Vec<char> = Vec::new();
    comma.push(',');
    assert(comma@ =~= seq![',']);
    let first_comma = find_in(&t, &comma);
    let width_text = match first_comma {
        Some(k) => take_chars(&t, k),
        None => copy_all(&t),
    };
    let width = match parse_u32(&width_text) {
        Ok(w) => w,
        Err(e) => return Err(ProbeError::BadWidth(e)),
    };
    let rest = match first_comma {
        Some(k) => skip_chars(&t, k + 1),
        None => return Err(ProbeError::NoHeight),
    };
    let height_text = match find_in(&rest, &comma) {
        Some(k) => take_chars(&rest, k),
        None => copy_all(&rest),
    };
    match parse_u32(&height_text) {
        Ok(h) => Ok((width, h)),
        Err(e) => Err(ProbeError::BadHeight(e)),
    }
}

fn copy_all(v: &Vec<char>) -> (out: Vec<char>)
    ensures
        out@ == v@,
{
    let out = take_chars(v, v.len());
    assert(v@.take(v.len() as int) =~= v@);
    out
}

/// `str::parse`'s own wording for each failure kind.
pub open spec fn failure_text(e: ParseIntFailure) -> Seq<char> {
    match e {
        ParseIntFailure::Empty => "cannot parse integer from empty string"@,
        ParseIntFailure::InvalidDigit => "invalid digit found in string"@,
        ParseIntFailure::PosOverflow => "number too large to fit in target type"@,
    }
}

/// The message a failed probe is reported with.
pub open spec fn probe_error_text(e: ProbeError) -> Seq<char> {
    match e {
        ProbeError::BadWidth(k) => "ffprobe: bad width: "@ + failure_text(k),
        ProbeError::NoHeight => "ffprobe: no height in output"@,
        ProbeError::BadHeight(k) => "ffprobe: bad height: "@ + failure_text(k),
    }
}

fn failure_message(e: ParseIntFailure) -> (r: Vec<char>)
    ensures
        r@ == failure_text(e),
{
    match e {
        ParseIntFailure::Empty => chars_of("cannot parse integer from empty string"),
        ParseIntFailure::InvalidDigit => chars_of("invalid digit found in string"),
        ParseIntFailure::PosOverflow => chars_of("number too large to fit in target type"),
    }
}

impl ProbeError {
    /// The message this failure is reported with (`probe_error_text`).
    pub fn message(&self) -> (r: String)
        ensures
            r@ == probe_error_text(*self),
    {
        let v = match *self {
            ProbeError::BadWidth(k) => concat_chars(chars_of("ffprobe: bad width: "), &failure_message(k)),
            ProbeError::NoHeight => chars_of("ffprobe: no height in output"),
            ProbeError::BadHeight(k) => concat_chars(chars_of("ffprobe: bad height: "), &failure_message(k)),
        };
        string_of(v.as_slice())
    }
}

/// Bytes in one decoded RGBA frame of `width`×`height` pixels.
pub fn rgba_frame_len(width: u32, height: u32) -> (r: usize)
    requires
        4 * (width as int) * (height as int) <= u32::MAX,
    ensures
        r == 4 * (width as int) * (height as int),
{
    assert(width as int * height as int <= 4 * (width as int) * (height as int)) by (nonlinear_arith);
    assert(width as int * height as int * 4 == 4 * (width as int) * (height as int)) by (nonlinear_arith);
    (width * height * 4) as usize
}

} // verus!
