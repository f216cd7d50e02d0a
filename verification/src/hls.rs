//! The minimal single-variant HLS manifest parser behind the web host's
//! video playback: one `#EXT-X-MAP` init segment and a flat list of
//! `#EXTINF` media segments — no master playlist, no variant selection.
//!
//! The manifest text is read line by line exactly as
//! `text.lines().map(str::trim).filter(|l| !l.is_empty())` reads it.
//! Splitting on `'\n'` alone and trimming is the same thing: `lines` also
//! drops a `'\r'` before the `'\n'` and a final empty piece after a
//! trailing `'\n'`, and trimming/filtering removes both anyway.
//!
//! Each `#EXTINF` duration is kept as the text of the decimal number it
//! opens with (the longest prefix that is a decimal number, as
//! JavaScript's `parseFloat` reads it, short of exponents); turning that
//! text into a floating-point value is left to the caller.

use vstd::prelude::*;
use crate::text::{
    chars_of, copy_range, find, find_in, has_prefix, skip_chars, starts_with, string_of, take_chars,
    trim, trim_chars,
};

verus! {

/// The pieces of `s` between `'\n'` characters, in order
/// (`str::split('\n')`): always at least one piece.
pub open spec fn split_lines(s: Seq<char>) -> Seq<Seq<char>>
    decreases s.len(),
{
    if s.len() == 0 {
        seq![Seq::<char>::empty()]
    } else {
        let prev = split_lines(s.drop_last());
        if s.last() == '\n' {
            prev.push(Seq::<char>::empty())
        } else {
            prev.drop_last().push(prev.last().push(s.last()))
        }
    }
}

/// `lines` joined back together with a `'\n'` between neighbours.
pub open spec fn join_lines(lines: Seq<Seq<char>>) -> Seq<char>
    decreases lines.len(),
{
    if lines.len() == 0 {
        Seq::empty()
    } else if lines.len() == 1 {
        lines[0]
    } else {
        join_lines(lines.drop_last()) + seq!['\n'] + lines.last()
    }
}

/// Splitting at `'\n'` loses nothing and keeps no `'\n'`: the pieces hold
/// none, and joining them with `'\n'` gives the text back.
pub proof fn law_split_lines_round_trips(s: Seq<char>)
    ensures
        split_lines(s).len() >= 1,
        join_lines(split_lines(s)) == s,
        forall|i: int, j: int|
            0 <= i < split_lines(s).len() && 0 <= j < split_lines(s)[i].len() ==> #[trigger] split_lines(
                s,
            )[i][j] != '\n',
    decreases s.len(),
{
    if s.len() > 0 {
        let prev = split_lines(s.drop_last());
        law_split_lines_round_trips(s.drop_last());
        let c = s.last();
        if c == '\n' {
            let now = prev.push(Seq::<char>::empty());
            assert(now.drop_last() =~= prev);
            assert(join_lines(now) =~= s.drop_last() + seq!['\n'] + Seq::<char>::empty());
            assert(s =~= s.drop_last() + seq!['\n']);
            assert forall|i: int, j: int|
                0 <= i < now.len() && 0 <= j < now[i].len() implies #[trigger] now[i][j] != '\n' by {
                assert(prev[i] == now[i]);
            }
        } else {
            let last = prev.last().push(c);
            let now = prev.drop_last().push(last);
            if prev.len() == 1 {
                assert(join_lines(now) == last);
                assert(join_lines(prev) == prev[0]);
                assert(s =~= s.drop_last().push(c));
            } else {
                assert(now.drop_last() =~= prev.drop_last());
                assert(join_lines(now) == join_lines(prev.drop_last()) + seq!['\n'] + last);
                assert(join_lines(prev) == join_lines(prev.drop_last()) + seq!['\n'] + prev.last());
                assert(join_lines(now) =~= join_lines(prev).push(c));
                assert(s =~= s.drop_last().push(c));
            }
            assert forall|i: int, j: int|
                0 <= i < now.len() && 0 <= j < now[i].len() implies #[trigger] now[i][j] != '\n' by {
                if i < now.len() - 1 {
                    assert(now[i] == prev[i]);
                } else if j < prev.last().len() {
                    assert(now[i][j] == prev[prev.len() - 1][j]);
                }
            }
        }
    }
}

/// Each of `lines` trimmed, keeping only those that are not empty.
pub open spec fn kept_lines(lines: Seq<Seq<char>>) -> Seq<Seq<char>>
    decreases lines.len(),
{
    if lines.len() == 0 {
        seq![]
    } else {
        let prev = kept_lines(lines.drop_last());
        let t = trim(lines.last());
        if t.len() == 0 {
            prev
        } else {
            prev.push(t)
        }
    }
}

/// The manifest's meaningful lines: trimmed, blank ones dropped.
pub open spec fn manifest_lines(text: Seq<char>) -> Seq<Seq<char>> {
    kept_lines(split_lines(text))
}

/// The character sequences held by a sequence of character vectors.
pub open spec fn char_views(v: Seq<Vec<char>>) -> Seq<Seq<char>> {
    v.map_values(|l: Vec<char>| l@)
}

/// The character sequences held by a sequence of strings.
pub open spec fn string_views(v: Seq<String>) -> Seq<Seq<char>> {
    v.map_values(|s: String| s@)
}

/// The init-segment tag.
pub open spec fn map_tag() -> Seq<char> {
    "#EXT-X-MAP:"@
}

/// The media-segment tag.
pub open spec fn inf_tag() -> Seq<char> {
    "#EXTINF:"@
}

/// What opens the init segment's quoted URI.
pub open spec fn uri_tag() -> Seq<char> {
    "URI=\""@
}

/// What closes the init segment's quoted URI.
pub open spec fn quote() -> Seq<char> {
    seq!['"']
}

/// What opens every tag line.
pub open spec fn hash() -> Seq<char> {
    seq!['#']
}

/// The quoted `URI="..."` value in the remainder of an `#EXT-X-MAP:` line.
pub open spec fn map_uri(rest: Seq<char>) -> Option<Seq<char>> {
    match find(rest, uri_tag()) {
        Some(k) => {
            let after = rest.skip(k + uri_tag().len());
            match find(after, quote()) {
                Some(e) => Some(after.take(e)),
                None => None,
            }
        },
        None => None,
    }
}

/// Whether `c` is an ASCII decimal digit.
pub open spec fn is_digit(c: char) -> bool {
    '0' <= c && c <= '9'
}

/// The index of the first non-digit at or after `k`, or `s.len()` if there
/// is none.
pub open spec fn digits_end(s: Seq<char>, k: int) -> int
    decreases s.len() - k,
{
    if k < 0 || k >= s.len() {
        s.len() as int
    } else if !is_digit(s[k]) {
        k
    } else {
        digits_end(s, k + 1)
    }
}

/// 1 when `s` opens with a sign, 0 otherwise.
pub open spec fn sign_len(s: Seq<char>) -> int {
    if s.len() > 0 && (s[0] == '+' || s[0] == '-') {
        1
    } else {
        0
    }
}

/// The length of the decimal number `s` opens with: an optional sign, the
/// digits that follow, and then, after a `.`, the digits after it; 0 when
/// that holds no digit at all.
pub open spec fn leading_number_len(s: Seq<char>) -> int {
    let a = sign_len(s);
    let b = digits_end(s, a);
    if b < s.len() && s[b] == '.' {
        let c = digits_end(s, b + 1);
        if c - a - 1 > 0 {
            c
        } else {
            0
        }
    } else if b > a {
        b
    } else {
        0
    }
}

/// The decimal number `s` opens with, as text (empty when there is none):
/// the longest prefix of `s` that is a decimal number (see
/// `law_leading_number_is_longest_decimal_prefix`) — the part JavaScript's
/// `parseFloat` reads, short of exponents.
pub open spec fn leading_number(s: Seq<char>) -> Seq<char> {
    s.take(leading_number_len(s))
}

/// Every character of `q` is a decimal digit.
pub open spec fn all_digits(q: Seq<char>) -> bool {
    forall|i: int| 0 <= i < q.len() ==> #[trigger] is_digit(q[i])
}

/// `q` is digits with at most one `.` among them, and at least one digit.
pub open spec fn is_unsigned_decimal(q: Seq<char>) -> bool {
    ||| q.len() > 0 && all_digits(q)
    ||| exists|k: int|
        0 <= k < q.len() && #[trigger] q[k] == '.' && q.len() >= 2 && all_digits(q.take(k))
            && all_digits(q.skip(k + 1))
}

/// `p` is a decimal number: an optional sign, then digits with at most one
/// `.` among them, and at least one digit.
pub open spec fn is_decimal(p: Seq<char>) -> bool {
    ||| is_unsigned_decimal(p)
    ||| p.len() > 0 && (p[0] == '+' || p[0] == '-') && is_unsigned_decimal(p.skip(1))
}

proof fn lemma_digits_end(s: Seq<char>, k: int)
    requires
        0 <= k <= s.len(),
    ensures
        k <= digits_end(s, k) <= s.len(),
        forall|i: int| k <= i < digits_end(s, k) ==> #[trigger] is_digit(s[i]),
        digits_end(s, k) < s.len() ==> !is_digit(s[digits_end(s, k)]),
    decreases s.len() - k,
{
    if k < s.len() && is_digit(s[k]) {
        lemma_digits_end(s, k + 1);
    }
}

/// A decimal number that opens with a sign is signed: its unsigned part
/// starts after the sign; one that does not is unsigned throughout.
proof fn lemma_decimal_parts(p: Seq<char>)
    requires
        is_decimal(p),
    ensures
        sign_len(p) == 1 ==> is_unsigned_decimal(p.skip(1)),
        sign_len(p) == 0 ==> is_unsigned_decimal(p),
{
    if sign_len(p) == 1 {
        assert(!is_digit(p[0]));
        if is_unsigned_decimal(p) {
            if p.len() > 0 && all_digits(p) {
                assert(is_digit(p[0]));
            } else {
                let k = choose|k: int|
                    0 <= k < p.len() && #[trigger] p[k] == '.' && p.len() >= 2 && all_digits(
                        p.take(k),
                    ) && all_digits(p.skip(k + 1));
                if k > 0 {
                    assert(is_digit(p.take(k)[0]));
                }
            }
        }
    }
}

/// The leading number is the longest prefix of `s` that is a decimal
/// number (empty when no prefix is one).
pub proof fn law_leading_number_is_longest_decimal_prefix(s: Seq<char>)
    ensures
        leading_number(s).len() == 0 || is_decimal(leading_number(s)),
        forall|k: int|
            leading_number(s).len() < k <= s.len() ==> !is_decimal(#[trigger] s.take(k)),
{
    let a = sign_len(s);
    let b = digits_end(s, a);
    let n = leading_number_len(s);
    lemma_digits_end(s, a);
    if b < s.len() && s[b] == '.' {
        lemma_digits_end(s, b + 1);
    }
    // The number itself is a decimal.
    if n > 0 {
        let p = s.take(n);
        let q = s.subrange(a, n);
        if b < s.len() && s[b] == '.' {
            let j = b - a;
            assert(q[j] == '.');
            assert(all_digits(q.take(j))) by {
                assert forall|i: int| 0 <= i < q.take(j).len() implies #[trigger] is_digit(
                    q.take(j)[i],
                ) by {
                    assert(q.take(j)[i] == s[a + i]);
                }
            }
            assert(all_digits(q.skip(j + 1))) by {
                assert forall|i: int| 0 <= i < q.skip(j + 1).len() implies #[trigger] is_digit(
                    q.skip(j + 1)[i],
                ) by {
                    assert(q.skip(j + 1)[i] == s[b + 1 + i]);
                }
            }
            assert(is_unsigned_decimal(q));
        } else {
            assert(all_digits(q)) by {
                assert forall|i: int| 0 <= i < q.len() implies #[trigger] is_digit(q[i]) by {
                    assert(q[i] == s[a + i]);
                }
            }
        }
        if a == 1 {
            assert(p.skip(1) =~= q);
        } else {
            assert(p =~= q);
        }
    }
    // No longer prefix is one.
    assert forall|k: int| n < k <= s.len() implies !is_decimal(#[trigger] s.take(k)) by {
        let p = s.take(k);
        if is_decimal(p) {
            assert(sign_len(p) == a);
            lemma_decimal_parts(p);
            let q = s.subrange(a, k);
            if a == 1 {
                assert(p.skip(1) =~= q);
            } else {
                assert(p =~= q);
            }
            if q.len() > 0 && all_digits(q) {
                if b < k {
                    assert(q[b - a] == s[b]);
                    assert(is_digit(q[b - a]));
                }
                assert(is_digit(q[0]));
                if b < s.len() && s[b] == '.' {
                    assert(false);
                }
            } else {
                let j = choose|j: int|
                    0 <= j < q.len() && #[trigger] q[j] == '.' && q.len() >= 2 && all_digits(
                        q.take(j),
                    ) && all_digits(q.skip(j + 1));
                if b < a + j {
                    assert(q.take(j)[b - a] == s[b]);
                    assert(is_digit(q.take(j)[b - a]));
                }
                if b > a + j {
                    assert(s[a + j] == q[j]);
                    assert(is_digit(s[a + j]));
                }
                assert(b == a + j);
                lemma_digits_end(s, b + 1);
                let c = digits_end(s, b + 1);
                if c < k {
                    assert(q.skip(j + 1)[c - b - 1] == s[c]);
                    assert(is_digit(q.skip(j + 1)[c - b - 1]));
                }
            }
        }
    }
}

/// What the first `n` lines of a manifest hold: the init segment URI (the
/// last `#EXT-X-MAP` line that carries one wins), the media segment URIs
/// (the line right after an `#EXTINF` line, when it is not a tag), and the
/// duration text of each `#EXTINF` line.
pub open spec fn scan(lines: Seq<Seq<char>>, n: nat) -> (
    Option<Seq<char>>,
    Seq<Seq<char>>,
    Seq<Seq<char>>,
)
    decreases n,
{
    if n == 0 || n > lines.len() {
        (None, seq![], seq![])
    } else {
        let (init, segs, durs) = scan(lines, (n - 1) as nat);
        let line = lines[n - 1];
        if starts_with(line, map_tag()) {
            match map_uri(line.skip(map_tag().len() as int)) {
                Some(u) => (Some(u), segs, durs),
                None => (init, segs, durs),
            }
        } else if starts_with(line, inf_tag()) {
            let durs2 = durs.push(leading_number(line.skip(inf_tag().len() as int)));
            if n < lines.len() && !starts_with(lines[n as int], hash()) {
                (init, segs.push(lines[n as int]), durs2)
            } else {
                (init, segs, durs2)
            }
        } else {
            (init, segs, durs)
        }
    }
}

/// What the scan of a manifest's lines collects: each media segment is a
/// non-tag line that directly follows an `#EXTINF` line, there are at most
/// as many segments as durations, each duration is a decimal number's text
/// (or empty), and the init URI is the quoted URI of an `#EXT-X-MAP` line.
pub proof fn law_scan_collects_from_tag_lines(lines: Seq<Seq<char>>, n: nat)
    requires
        n <= lines.len(),
    ensures
        ({
            let (init, segs, durs) = scan(lines, n);
            &&& segs.len() <= durs.len()
            &&& forall|i: int| 0 <= i < segs.len() ==> !starts_with(#[trigger] segs[i], hash())
            &&& forall|i: int|
                #![trigger segs[i]]
                0 <= i < segs.len() ==> exists|k: int|
                    #![trigger lines[k]]
                    1 <= k <= n && k < lines.len() && lines[k] == segs[i] && starts_with(
                        lines[k - 1],
                        inf_tag(),
                    )
            &&& forall|i: int|
                0 <= i < durs.len() ==> (#[trigger] durs[i]).len() == 0 || is_decimal(durs[i])
            &&& init matches Some(u) ==> exists|k: int|
                0 <= k < n && starts_with(lines[k], map_tag()) && #[trigger] map_uri(
                    lines[k].skip(map_tag().len() as int),
                ) == Some(u)
        }),
    decreases n,
{
    if n > 0 {
        law_scan_collects_from_tag_lines(lines, (n - 1) as nat);
        let (init0, segs0, durs0) = scan(lines, (n - 1) as nat);
        let (init, segs, durs) = scan(lines, n);
        let line = lines[n - 1];
        if starts_with(line, map_tag()) {
            if let Some(u) = init {
                if map_uri(line.skip(map_tag().len() as int)) != Some(u) {
                    assert(init == init0);
                }
            }
        } else if starts_with(line, inf_tag()) {
            let d = leading_number(line.skip(inf_tag().len() as int));
            law_leading_number_is_longest_decimal_prefix(line.skip(inf_tag().len() as int));
            assert(durs == durs0.push(d));
            assert forall|i: int| 0 <= i < durs.len() implies (#[trigger] durs[i]).len() == 0
                || is_decimal(durs[i]) by {
                if i < durs0.len() {
                    assert(durs[i] == durs0[i]);
                }
            }
            if n < lines.len() && !starts_with(lines[n as int], hash()) {
                assert(segs == segs0.push(lines[n as int]));
                assert forall|i: int| 0 <= i < segs.len() implies !starts_with(#[trigger] segs[i], hash()) by {
                    if i < segs0.len() {
                        assert(segs[i] == segs0[i]);
                    }
                }
                assert forall|i: int| #![trigger segs[i]] 0 <= i < segs.len() implies exists|k: int|
                    #![trigger lines[k]]
                    1 <= k <= n && k < lines.len() && lines[k] == segs[i] && starts_with(
                        lines[k - 1],
                        inf_tag(),
                    ) by {
                    if i < segs0.len() {
                        assert(segs[i] == segs0[i]);
                    } else {
                        assert(lines[n as int] == segs[i]);
                    }
                }
            }
        }
    }
}

/// The parsed manifest — init URI, segment URIs, duration texts — or
/// `None` when the init segment or every media segment is missing.
pub open spec fn parsed_manifest(text: Seq<char>) -> Option<
    (Seq<char>, Seq<Seq<char>>, Seq<Seq<char>>),
> {
    let lines = manifest_lines(text);
    let (init, segs, durs) = scan(lines, lines.len());
    match init {
        Some(u) => if segs.len() > 0 {
            Some((u, segs, durs))
        } else {
            None
        },
        None => None,
    }
}

/// The message a manifest without an init segment or media segments gets.
pub open spec fn manifest_error() -> Seq<char> {
    "HLS manifest: missing init segment or media segments"@
}

/// One parsed `#EXT-X-MAP` init segment URI, the flat list of `#EXTINF`
/// media segment URIs, and the duration text of every `#EXTINF` line.
#[derive(Debug)]
pub struct HlsManifest {
    pub init_uri: String,
    pub segment_uris: Vec<String>,
    pub segment_durations: Vec<String>,
}

proof fn lemma_split_lines_nonempty(s: Seq<char>)
    ensures
        split_lines(s).len() >= 1,
    decreases s.len(),
{
    if s.len() > 0 {
        lemma_split_lines_nonempty(s.drop_last());
    }
}

proof fn lemma_char_views_push(v: Seq<Vec<char>>, x: Vec<char>)
    ensures
        char_views(v.push(x)) == char_views(v).push(x@),
{
    assert(char_views(v.push(x)) =~= char_views(v).push(x@));
}

/// The manifest's meaningful lines, trimmed, blank ones dropped.
fn meaningful_lines(text: &Vec<char>) -> (out: Vec<Vec<char>>)
    ensures
        char_views(out@) == manifest_lines(text@),
{
    let n = text.len();
    let mut out: Vec<Vec<char>> = Vec::new();
    let mut cur: Vec<char> = Vec::new();
    let mut i: usize = 0;
    assert(text@.take(0) =~= Seq::<char>::empty());
    assert(char_views(out@) =~= Seq::<Seq<char>>::empty());
    while i < n
        invariant
            i <= n == text.len(),
            split_lines(text@.take(i as int)).len() >= 1,
            char_views(out@) == kept_lines(split_lines(text@.take(i as int)).drop_last()),
            cur@ == split_lines(text@.take(i as int)).last(),
        decreases n - i,
    {
        let c = text[i];
        let ghost lines = split_lines(text@.take(i as int));
        let ghost next = text@.take(i + 1);
        assert(next.drop_last() =~= text@.take(i as int));
        assert(next.last() == c);
        if c == '\n' {
            let t = trim_chars(&cur);
            assert(split_lines(next).drop_last() =~= lines);
            assert(kept_lines(lines) == (if trim(lines.last()).len() == 0 {
                kept_lines(lines.drop_last())
            } else {
                kept_lines(lines.drop_last()).push(trim(lines.last()))
            }));
            if t.len() > 0 {
                proof {
                    lemma_char_views_push(out@, t);
                }
                out.push(t);
            }
            cur = Vec::new();
        } else {
            cur.push(c);
            assert(split_lines(next).drop_last() =~= lines.drop_last());
        }
        i = i + 1;
    }
    assert(text@.take(n as int) =~= text@);
    let ghost lines = split_lines(text@);
    let t = trim_chars(&cur);
    if t.len() > 0 {
        proof {
            lemma_char_views_push(out@, t);
        }
        out.push(t);
    }
    out
}

fn skip_digits(v: &Vec<char>, from: usize) -> (k: usize)
    requires
        from <= v.len(),
    ensures
        k == digits_end(v@, from as int),
{
    let mut k: usize = from;
    while k < v.len() && '0' <= v[k] && v[k] <= '9'
        invariant
            from <= k <= v.len(),
            digits_end(v@, from as int) == digits_end(v@, k as int),
        decreases v.len() - k,
    {
        k = k + 1;
    }
    k
}

/// The decimal number `v` opens with (see `leading_number`).
fn leading_number_chars(v: &Vec<char>) -> (out: Vec<char>)
    ensures
        out@ == leading_number(v@),
{
    let a: usize = if v.len() > 0 && (v[0] == '+' || v[0] == '-') {
        1
    } else {
        0
    };
    let b = skip_digits(v, a);
    proof {
        lemma_digits_end(v@, a as int);
    }
    let n: usize = if b < v.len() && v[b] == '.' {
        let c = skip_digits(v, b + 1);
        proof {
            lemma_digits_end(v@, b + 1);
        }
        if c - a > 1 {
            c
        } else {
            0
        }
    } else if b > a {
        b
    } else {
        0
    };
    take_chars(v, n)
}

/// The text of the decimal number `s` opens with — the longest prefix that
/// is an optional sign, then digits with at most one `.` among them (see
/// `law_leading_number_is_longest_decimal_prefix`), e.g. `"6.006"` out of
/// `"6.006,"` and `"1.5"` out of `"1.5.2,"`; empty when there is none.
pub fn leading_number_text(s: &str) -> (r: String)
    ensures
        r@ == leading_number(s@),
{
    let v = chars_of(s);
    let out = leading_number_chars(&v);
    string_of(out.as_slice())
}

/// The quoted `URI="..."` value in `rest`, if any.
fn map_uri_chars(rest: &Vec<char>, uri: &Vec<char>, q: &Vec<char>) -> (r: Option<Vec<char>>)
    requires
        uri@ == uri_tag(),
        q@ == quote(),
    ensures
        match map_uri(rest@) {
            Some(u) => r matches Some(x) && x@ == u,
            None => r is None,
        },
{
    match find_in(rest, uri) {
        Some(k) => {
            let after = skip_chars(rest, k + uri.len());
            match find_in(&after, q) {
                Some(e) => Some(take_chars(&after, e)),
                None => None,
            }
        },
        None => None,
    }
}

fn strings_of(v: &Vec<Vec<char>>) -> (out: Vec<String>)
    ensures
        string_views(out@) == char_views(v@),
{
    let mut out: Vec<String> = Vec::new();
    let mut i: usize = 0;
    while i < v.len()
        invariant
            i <= v.len(),
            string_views(out@) == char_views(v@.take(i as int)),
        decreases v.len() - i,
    {
        let s = string_of(v[i].as_slice());
        proof {
            assert(string_views(out@.push(s)) =~= string_views(out@).push(s@));
            assert(char_views(v@.take(i + 1)) =~= char_views(v@.take(i as int)).push(
                v@[i as int]@,
            ));
        }
        out.push(s);
        i = i + 1;
    }
    assert(v@.take(v.len() as int) =~= v@);
    out
}

/// Parses an HLS manifest: `Ok` exactly when it names an init segment
/// (`#EXT-X-MAP:...URI="..."`) and at least one media segment (a non-tag
/// line right after an `#EXTINF:` line); otherwise the error message.
pub fn parse_hls_manifest(text: &str) -> (r: Result<HlsManifest, String>)
    ensures
        match parsed_manifest(text@) {
            Some((u, segs, durs)) => r matches Ok(m) && m.init_uri@ == u && string_views(
                m.segment_uris@,
            ) == segs && string_views(m.segment_durations@) == durs,
            None => r matches Err(e) && e@ == manifest_error(),
        },
{
    let chars = chars_of(text);
    let lines = meaningful_lines(&chars);
    let map_t = chars_of("#EXT-X-MAP:");
    let inf_t = chars_of("#EXTINF:");
    let uri_t = chars_of("URI=\"");
    let mut q: Vec<char> = Vec::new();
    q.push('"');
    let mut h: Vec<char> = Vec::new();
    h.push('#');
    assert(q@ =~= quote());
    assert(h@ =~= hash());
    let ghost ls = char_views(lines@);

    let mut init: Option<Vec<char>> = None;
    let mut segs: Vec<Vec<char>> = Vec::new();
    let mut durs: Vec<Vec<char>> = Vec::new();
    let mut i: usize = 0;
    assert(char_views(segs@) =~= Seq::<Seq<char>>::empty());
    assert(char_views(durs@) =~= Seq::<Seq<char>>::empty());
    while i < lines.len()
        invariant
            i <= lines.len(),
            ls == char_views(lines@),
            map_t@ == map_tag(),
            inf_t@ == inf_tag(),
            uri_t@ == uri_tag(),
            q@ == quote(),
            h@ == hash(),
            match scan(ls, i as nat).0 {
                Some(u) => init matches Some(x) && x@ == u,
                None => init is None,
            },
            char_views(segs@) == scan(ls, i as nat).1,
            char_views(durs@) == scan(ls, i as nat).2,
        decreases lines.len() - i,
    {
        let line = &lines[i];
        assert(ls[i as int] == line@);
        if has_prefix(line, &map_t) {
            let rest = skip_chars(line, map_t.len());
            match map_uri_chars(&rest, &uri_t, &q) {
                Some(u) => {
                    init = Some(u);
                },
                None => {},
            }
        } else if has_prefix(line, &inf_t) {
            let rest = skip_chars(line, inf_t.len());
            let d = leading_number_chars(&rest);
            proof {
                lemma_char_views_push(durs@, d);
            }
            durs.push(d);
            if i + 1 < lines.len() {
                let next = &lines[i + 1];
                assert(ls[i + 1] == next@);
                if !has_prefix(next, &h) {
                    let seg = copy_range(next, 0, next.len());
                    assert(seg@ =~= next@);
                    proof {
                        lemma_char_views_push(segs@, seg);
                    }
                    segs.push(seg);
                }
            }
        }
        i = i + 1;
    }
    match init {
        Some(u) => {
            if segs.len() > 0 {
                let init_uri = string_of(u.as_slice());
                let segment_uris = strings_of(&segs);
                let segment_durations = strings_of(&durs);
                Ok(HlsManifest { init_uri, segment_uris, segment_durations })
            } else {
                Err(String::from_str("HLS manifest: missing init segment or media segments"))
            }
        },
        None => Err(String::from_str("HLS manifest: missing init segment or media segments")),
    }
}

} // verus!
