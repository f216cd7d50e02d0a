//! Photo selection and URL building for the gallery's picsum.photos
//! fetches: a fixed catalogue of nature photos (each with its real pixel
//! size), the low-res fetch size that best matches a photo's real aspect
//! ratio under a side cap, and the `https://picsum.photos/id/{id}/{w}/{h}`
//! URLs themselves.

use vstd::prelude::*;
use crate::gallery::TILE_COUNT;
use crate::text::{
    chars_of, decimal, lemma_decimal_injective, lemma_decimal_shape, push_decimal, string_of,
};

verus! {

/// Photos in the catalogue.
pub const NATURE_PHOTO_COUNT: usize = 72;

/// How many slightly smaller sizes for the larger axis the fetch-size
/// search tries below the cap.
pub const FETCH_DIMENSIONS_SEARCH_WINDOW: u32 = 6;

/// Catalogue entry `i`: a hand-picked nature photo's picsum id and its real
/// width and height in pixels.
pub open spec fn nature_photo(i: int) -> (u32, u32, u32) {
    if i == 0 {
        (12, 2500, 1667)
    } else if i == 1 {
        (18, 2500, 1667)
    } else if i == 2 {
        (54, 3264, 2176)
    } else if i == 3 {
        (66, 3264, 2448)
    } else if i == 4 {
        (108, 2000, 1333)
    } else if i == 5 {
        (114, 3264, 2448)
    } else if i == 6 {
        (132, 1600, 1066)
    } else if i == 7 {
        (162, 1500, 998)
    } else if i == 8 {
        (168, 1920, 1280)
    } else if i == 9 {
        (174, 1600, 589)
    } else if i == 10 {
        (198, 3456, 2304)
    } else if i == 11 {
        (216, 2500, 1667)
    } else if i == 12 {
        (222, 1800, 977)
    } else if i == 13 {
        (228, 4608, 3456)
    } else if i == 14 {
        (282, 5000, 3333)
    } else if i == 15 {
        (294, 3753, 2309)
    } else if i == 16 {
        (300, 4272, 2848)
    } else if i == 17 {
        (324, 3888, 2592)
    } else if i == 18 {
        (330, 4272, 2848)
    } else if i == 19 {
        (378, 5000, 3333)
    } else if i == 20 {
        (384, 5000, 3333)
    } else if i == 21 {
        (426, 4272, 2848)
    } else if i == 22 {
        (432, 5000, 3333)
    } else if i == 23 {
        (450, 4288, 2848)
    } else if i == 24 {
        (456, 3823, 2549)
    } else if i == 25 {
        (468, 5000, 3337)
    } else if i == 26 {
        (474, 4288, 2848)
    } else if i == 27 {
        (480, 3888, 2592)
    } else if i == 28 {
        (492, 5000, 3324)
    } else if i == 29 {
        (498, 5000, 3333)
    } else if i == 30 {
        (516, 3008, 2000)
    } else if i == 31 {
        (558, 4928, 3264)
    } else if i == 32 {
        (564, 2000, 1333)
    } else if i == 33 {
        (570, 2509, 1673)
    } else if i == 34 {
        (582, 2509, 1673)
    } else if i == 35 {
        (588, 2509, 1673)
    } else if i == 36 {
        (600, 2509, 1673)
    } else if i == 37 {
        (606, 2513, 1670)
    } else if i == 38 {
        (612, 2731, 1536)
    } else if i == 39 {
        (630, 2517, 1667)
    } else if i == 40 {
        (648, 2517, 1667)
    } else if i == 41 {
        (654, 2509, 1673)
    } else if i == 42 {
        (666, 5000, 3333)
    } else if i == 43 {
        (678, 4896, 3264)
    } else if i == 44 {
        (684, 3872, 2178)
    } else if i == 45 {
        (702, 5000, 3333)
    } else if i == 46 {
        (732, 5000, 3333)
    } else if i == 47 {
        (738, 2005, 3000)
    } else if i == 48 {
        (774, 5000, 3333)
    } else if i == 49 {
        (780, 3264, 1830)
    } else if i == 50 {
        (798, 4592, 3448)
    } else if i == 51 {
        (810, 5000, 3333)
    } else if i == 52 {
        (846, 4000, 3000)
    } else if i == 53 {
        (852, 3212, 2409)
    } else if i == 54 {
        (876, 5000, 3338)
    } else if i == 55 {
        (888, 5000, 2813)
    } else if i == 56 {
        (894, 5000, 3333)
    } else if i == 57 {
        (906, 3840, 2880)
    } else if i == 58 {
        (912, 5000, 3333)
    } else if i == 59 {
        (918, 3747, 2489)
    } else if i == 60 {
        (924, 3000, 2250)
    } else if i == 61 {
        (930, 3264, 4912)
    } else if i == 62 {
        (960, 3264, 1832)
    } else if i == 63 {
        (966, 5000, 3333)
    } else if i == 64 {
        (984, 4000, 2248)
    } else if i == 65 {
        (990, 5000, 3334)
    } else if i == 66 {
        (1002, 4312, 2868)
    } else if i == 67 {
        (1020, 4288, 2848)
    } else if i == 68 {
        (1044, 4032, 2268)
    } else if i == 69 {
        (1050, 5000, 3333)
    } else if i == 70 {
        (1056, 3988, 2720)
    } else {
        (1074, 5000, 3333)
    }
}

/// Catalogue entry `i` (`0 <= i < NATURE_PHOTO_COUNT`).
pub fn nature_photo_at(i: usize) -> (r: (u32, u32, u32))
    requires
        i < NATURE_PHOTO_COUNT,
    ensures
        r == nature_photo(i as int),
        r.1 > 0,
        r.2 > 0,
{
    if i == 0 {
        (12, 2500, 1667)
    } else if i == 1 {
        (18, 2500, 1667)
    } else if i == 2 {
        (54, 3264, 2176)
    } else if i == 3 {
        (66, 3264, 2448)
    } else if i == 4 {
        (108, 2000, 1333)
    } else if i == 5 {
        (114, 3264, 2448)
    } else if i == 6 {
        (132, 1600, 1066)
    } else if i == 7 {
        (162, 1500, 998)
    } else if i == 8 {
        (168, 1920, 1280)
    } else if i == 9 {
        (174, 1600, 589)
    } else if i == 10 {
        (198, 3456, 2304)
    } else if i == 11 {
        (216, 2500, 1667)
    } else if i == 12 {
        (222, 1800, 977)
    } else if i == 13 {
        (228, 4608, 3456)
    } else if i == 14 {
        (282, 5000, 3333)
    } else if i == 15 {
        (294, 3753, 2309)
    } else if i == 16 {
        (300, 4272, 2848)
    } else if i == 17 {
        (324, 3888, 2592)
    } else if i == 18 {
        (330, 4272, 2848)
    } else if i == 19 {
        (378, 5000, 3333)
    } else if i == 20 {
        (384, 5000, 3333)
    } else if i == 21 {
        (426, 4272, 2848)
    } else if i == 22 {
        (432, 5000, 3333)
    } else if i == 23 {
        (450, 4288, 2848)
    } else if i == 24 {
        (456, 3823, 2549)
    } else if i == 25 {
        (468, 5000, 3337)
    } else if i == 26 {
        (474, 4288, 2848)
    } else if i == 27 {
        (480, 3888, 2592)
    } else if i == 28 {
        (492, 5000, 3324)
    } else if i == 29 {
        (498, 5000, 3333)
    } else if i == 30 {
        (516, 3008, 2000)
    } else if i == 31 {
        (558, 4928, 3264)
    } else if i == 32 {
        (564, 2000, 1333)
    } else if i == 33 {
        (570, 2509, 1673)
    } else if i == 34 {
        (582, 2509, 1673)
    } else if i == 35 {
        (588, 2509, 1673)
    } else if i == 36 {
        (600, 2509, 1673)
    } else if i == 37 {
        (606, 2513, 1670)
    } else if i == 38 {
        (612, 2731, 1536)
    } else if i == 39 {
        (630, 2517, 1667)
    } else if i == 40 {
        (648, 2517, 1667)
    } else if i == 41 {
        (654, 2509, 1673)
    } else if i == 42 {
        (666, 5000, 3333)
    } else if i == 43 {
        (678, 4896, 3264)
    } else if i == 44 {
        (684, 3872, 2178)
    } else if i == 45 {
        (702, 5000, 3333)
    } else if i == 46 {
        (732, 5000, 3333)
    } else if i == 47 {
        (738, 2005, 3000)
    } else if i == 48 {
        (774, 5000, 3333)
    } else if i == 49 {
        (780, 3264, 1830)
    } else if i == 50 {
        (798, 4592, 3448)
    } else if i == 51 {
        (810, 5000, 3333)
    } else if i == 52 {
        (846, 4000, 3000)
    } else if i == 53 {
        (852, 3212, 2409)
    } else if i == 54 {
        (876, 5000, 3338)
    } else if i == 55 {
        (888, 5000, 2813)
    } else if i == 56 {
        (894, 5000, 3333)
    } else if i == 57 {
        (906, 3840, 2880)
    } else if i == 58 {
        (912, 5000, 3333)
    } else if i == 59 {
        (918, 3747, 2489)
    } else if i == 60 {
        (924, 3000, 2250)
    } else if i == 61 {
        (930, 3264, 4912)
    } else if i == 62 {
        (960, 3264, 1832)
    } else if i == 63 {
        (966, 5000, 3333)
    } else if i == 64 {
        (984, 4000, 2248)
    } else if i == 65 {
        (990, 5000, 3334)
    } else if i == 66 {
        (1002, 4312, 2868)
    } else if i == 67 {
        (1020, 4288, 2848)
    } else if i == 68 {
        (1044, 4032, 2268)
    } else if i == 69 {
        (1050, 5000, 3333)
    } else if i == 70 {
        (1056, 3988, 2720)
    } else {
        (1074, 5000, 3333)
    }
}

/// The catalogue slot tile `idx` of a batch identified by `nonce` shows:
/// `nonce + idx`, wrapping at 32 bits, modulo the catalogue size.
pub open spec fn photo_slot(nonce: u32, idx: int) -> int {
    ((nonce + idx) % 0x1_0000_0000) % (NATURE_PHOTO_COUNT as int)
}

/// The photo tile `idx` of a batch identified by `nonce` shows.
pub fn tile_photo(nonce: u32, idx: usize) -> (r: (u32, u32, u32))
    ensures
        r == nature_photo(photo_slot(nonce, idx as int)),
        r.1 > 0,
        r.2 > 0,
{
    let low: u64 = idx as u64 % 0x1_0000_0000u64;
    let offset: u64 = (nonce as u64 + low) % 0x1_0000_0000u64;
    proof {
        vstd::arithmetic::div_mod::lemma_add_mod_noop(nonce as int, idx as int, 0x1_0000_0000int);
        vstd::arithmetic::div_mod::lemma_mod_twice(idx as int, 0x1_0000_0000int);
        vstd::arithmetic::div_mod::lemma_add_mod_noop(nonce as int, low as int, 0x1_0000_0000int);
    }
    assert(offset == (nonce + idx) % 0x1_0000_0000);
    nature_photo_at((offset % 72u64) as usize)
}

/// `x / y` rounded to the nearest integer, halves away from zero
/// (`f32::round` on a non-negative quotient).
pub open spec fn round_div(x: int, y: int) -> int {
    (2 * x + y) / (2 * y)
}

/// `round_div(x, y)` is the integer nearest `x / y`, halves rounding up:
/// `x / y` lies within half a unit below it or less than half a unit above.
pub proof fn law_round_div_is_nearest(x: int, y: int)
    requires
        0 <= x,
        0 < y,
    ensures
        2 * round_div(x, y) * y - y <= 2 * x < 2 * round_div(x, y) * y + y,
{
    let r = round_div(x, y);
    assert(r * (2 * y) <= 2 * x + y < (r + 1) * (2 * y)) by (nonlinear_arith)
        requires
            r == (2 * x + y) / (2 * y),
            0 < y,
    ;
    assert(2 * r * y == r * (2 * y) && (r + 1) * (2 * y) == 2 * r * y + 2 * y) by (nonlinear_arith);
    assert(2 * r * y - y <= 2 * x < 2 * r * y + y);
}

/// `x`, raised to 1 when smaller.
pub open spec fn at_least_one(x: int) -> int {
    if x < 1 {
        1
    } else {
        x
    }
}

/// The fetch size for a photo of real size `aw`×`ah` whose larger axis is
/// held at `larger`: the other axis scaled to match and rounded (at least 1).
pub open spec fn candidate(aw: int, ah: int, larger: int) -> (int, int) {
    if aw >= ah {
        (larger, at_least_one(round_div(larger * ah, aw)))
    } else {
        (at_least_one(round_div(larger * aw, ah)), larger)
    }
}

/// `|w·ah − aw·h|`: how far `w`×`h`'s ratio is from `aw`×`ah`'s, as
/// `|w/h − aw/ah| = mismatch / (h·ah)`.
pub open spec fn mismatch(aw: int, ah: int, c: (int, int)) -> int {
    let d = c.0 * ah - aw * c.1;
    if d < 0 {
        -d
    } else {
        d
    }
}

/// `c`'s ratio is strictly closer to the real one than `b`'s
/// (`mismatch(c) / c.1 < mismatch(b) / b.1`, cross-multiplied).
pub open spec fn closer(aw: int, ah: int, c: (int, int), b: (int, int)) -> bool {
    mismatch(aw, ah, c) * b.1 < mismatch(aw, ah, b) * c.1
}

/// The best pair so far after considering `c`: a pair without a positive
/// height has an unbounded ratio error and never wins; otherwise the first
/// pair wins, and later only a strictly closer one replaces it.
pub open spec fn pick(aw: int, ah: int, best: Option<(int, int)>, c: (int, int)) -> Option<
    (int, int),
> {
    if c.1 <= 0 {
        best
    } else {
        match best {
            None => Some(c),
            Some(b) => if closer(aw, ah, c, b) {
                Some(c)
            } else {
                best
            },
        }
    }
}

/// The best pair among the larger-axis sizes `side, side − 1, …, side − (k − 1)`.
pub open spec fn search(aw: int, ah: int, side: int, k: nat) -> Option<(int, int)>
    decreases k,
{
    if k == 0 {
        None
    } else {
        pick(aw, ah, search(aw, ah, side, (k - 1) as nat), candidate(aw, ah, side - (k - 1)))
    }
}

/// How many sizes below the cap the search tries: the window, but never
/// below 1 pixel.
pub open spec fn window(side: int) -> int {
    let below = if side >= 1 {
        side - 1
    } else {
        0
    };
    if below < FETCH_DIMENSIONS_SEARCH_WINDOW {
        below
    } else {
        FETCH_DIMENSIONS_SEARCH_WINDOW as int
    }
}

/// The fetch size for a photo of real size `aw`×`ah` under a `side`-pixel
/// cap: the larger axis at `side` or just under it, the other scaled to
/// match, whichever integer pair's ratio comes closest to the real one. A
/// photo without height has no finite ratio, so no pair comes close: the
/// cap (at least 1) by 1.
pub open spec fn fetch_size(aw: int, ah: int, side: int) -> (int, int) {
    let fallback = (if side >= 1 {
        side
    } else {
        1
    }, 1);
    if ah <= 0 {
        fallback
    } else {
        match search(aw, ah, side, (window(side) + 1) as nat) {
            Some(c) => c,
            None => fallback,
        }
    }
}

proof fn lemma_round_div_le(l: int, a: int, b: int)
    requires
        0 <= l,
        0 <= a <= b,
        0 < b,
    ensures
        0 <= round_div(l * a, b) <= l,
{
    assert(0 <= l * a <= l * b) by (nonlinear_arith)
        requires
            0 <= l,
            0 <= a <= b,
    ;
    assert(2 * (l * a) + b < (2 * b) * (l + 1)) by (nonlinear_arith)
        requires
            l * a <= l * b,
            0 < b,
    ;
    assert((2 * (l * a) + b) / (2 * b) <= l) by (nonlinear_arith)
        requires
            2 * (l * a) + b < (2 * b) * (l + 1),
            0 < b,
    ;
    assert(0 <= (2 * (l * a) + b) / (2 * b)) by (nonlinear_arith)
        requires
            0 <= l * a,
            0 < b,
    ;
}

proof fn lemma_round_div_zero(b: int)
    requires
        0 < b,
    ensures
        round_div(0, b) == 0,
{
    assert(b / (2 * b) == 0) by (nonlinear_arith)
        requires
            0 < b,
    ;
}

/// A candidate pair's axes are both between 1 and the larger-axis size.
proof fn lemma_candidate_bounds(aw: int, ah: int, larger: int)
    requires
        0 <= aw,
        0 < ah,
        1 <= larger,
    ensures
        1 <= candidate(aw, ah, larger).0 <= larger,
        1 <= candidate(aw, ah, larger).1 <= larger,
{
    if aw >= ah {
        lemma_round_div_le(larger, ah, aw);
    } else {
        lemma_round_div_le(larger, aw, ah);
    }
}

/// `candidate`, computed.
fn candidate_size(aw: u32, ah: u32, larger: u32) -> (r: (u32, u32))
    requires
        0 <= aw,
        0 < ah,
        1 <= larger,
    ensures
        (r.0 as int, r.1 as int) == candidate(aw as int, ah as int, larger as int),
        1 <= r.0 <= larger,
        1 <= r.1 <= larger,
{
    proof {
        lemma_candidate_bounds(aw as int, ah as int, larger as int);
    }
    assert((larger as int) * (ah as int) <= 0xffff_ffff * 0xffff_ffff && (larger as int) * (
        aw as int) <= 0xffff_ffff * 0xffff_ffff) by (nonlinear_arith)
        requires
            larger <= 0xffff_ffff,
            ah <= 0xffff_ffff,
            aw <= 0xffff_ffff,
    ;
    if aw >= ah {
        let x: u128 = (larger as u128) * (ah as u128);
        assert(x == larger * ah) by (nonlinear_arith)
            requires
                x == (larger as u128) * (ah as u128),
        ;
        let q: u128 = (2 * x + aw as u128) / (2 * aw as u128);
        let other: u32 = if q < 1 {
            1
        } else {
            q as u32
        };
        (larger, other)
    } else {
        let x: u128 = (larger as u128) * (aw as u128);
        assert(x == larger * aw) by (nonlinear_arith)
            requires
                x == (larger as u128) * (aw as u128),
        ;
        let q: u128 = (2 * x + ah as u128) / (2 * ah as u128);
        let other: u32 = if q < 1 {
            1
        } else {
            q as u32
        };
        (other, larger)
    }
}

/// `mismatch`, computed.
fn mismatch_of(aw: u32, ah: u32, c: (u32, u32)) -> (r: u128)
    ensures
        r as int == mismatch(aw as int, ah as int, (c.0 as int, c.1 as int)),
        r < 0x1_0000_0000_0000_0000,
{
    assert((c.0 as int) * (ah as int) <= 0xffff_ffff * 0xffff_ffff && (aw as int) * (
        c.1 as int) <= 0xffff_ffff * 0xffff_ffff) by (nonlinear_arith)
        requires
            c.0 <= 0xffff_ffff,
            c.1 <= 0xffff_ffff,
            ah <= 0xffff_ffff,
            aw <= 0xffff_ffff,
    ;
    let a: u128 = (c.0 as u128) * (ah as u128);
    let b: u128 = (aw as u128) * (c.1 as u128);
    assert(a == c.0 * ah && b == aw * c.1 && a < 0x1_0000_0000_0000_0000 && b
        < 0x1_0000_0000_0000_0000) by (nonlinear_arith)
        requires
            a == (c.0 as u128) * (ah as u128),
            b == (aw as u128) * (c.1 as u128),
            c.0 < 0x1_0000_0000,
            ah < 0x1_0000_0000,
            aw < 0x1_0000_0000,
            c.1 < 0x1_0000_0000,
    ;
    if a >= b {
        a - b
    } else {
        b - a
    }
}

/// `closer`, computed.
fn is_closer(aw: u32, ah: u32, c: (u32, u32), b: (u32, u32)) -> (r: bool)
    ensures
        r == closer(aw as int, ah as int, (c.0 as int, c.1 as int), (b.0 as int, b.1 as int)),
{
    let mc = mismatch_of(aw, ah, c);
    let mb = mismatch_of(aw, ah, b);
    assert((mc as int) * (b.1 as int) < 0x1_0000_0000_0000_0000 * 0x1_0000_0000 && (mb as int)
        * (c.1 as int) < 0x1_0000_0000_0000_0000 * 0x1_0000_0000) by (nonlinear_arith)
        requires
            mc < 0x1_0000_0000_0000_0000,
            mb < 0x1_0000_0000_0000_0000,
            b.1 <= 0xffff_ffff,
            c.1 <= 0xffff_ffff,
    ;
    let lhs: u128 = mc * (b.1 as u128);
    let rhs: u128 = mb * (c.1 as u128);
    assert(lhs == mc * b.1 && rhs == mb * c.1) by (nonlinear_arith)
        requires
            mc < 0x1_0000_0000_0000_0000,
            mb < 0x1_0000_0000_0000_0000,
            b.1 < 0x1_0000_0000,
            c.1 < 0x1_0000_0000,
            lhs == mc * (b.1 as u128),
            rhs == mb * (c.1 as u128),
    ;
    lhs < rhs
}

/// `p` with its sizes as mathematical integers.
pub open spec fn pair_view(p: Option<(u32, u32)>) -> Option<(int, int)> {
    match p {
        Some(c) => Some((c.0 as int, c.1 as int)),
        None => None,
    }
}

/// The fetch size for a photo of real size `aspect_w`×`aspect_h` under a
/// `side_px` cap — see `fetch_size`.
pub fn fetch_dimensions(aspect_w: u32, aspect_h: u32, side_px: u32) -> (r: (u32, u32))
    ensures
        (r.0 as int, r.1 as int) == fetch_size(aspect_w as int, aspect_h as int, side_px as int),
{
    if aspect_h == 0 {
        return (if side_px >= 1 {
            side_px
        } else {
            1
        }, 1);
    }
    let span: u32 = if side_px == 0 {
        0
    } else if side_px - 1 < FETCH_DIMENSIONS_SEARCH_WINDOW {
        side_px - 1
    } else {
        FETCH_DIMENSIONS_SEARCH_WINDOW
    };
    assert(span as int == window(side_px as int));
    let mut best: Option<(u32, u32)> = None;
    let mut delta: u32 = 0;
    while delta <= span
        invariant
            aspect_w >= 0,
            aspect_h > 0,
            span as int == window(side_px as int),
            span <= FETCH_DIMENSIONS_SEARCH_WINDOW,
            delta <= span + 1,
            pair_view(best) == search(aspect_w as int, aspect_h as int, side_px as int, delta as nat),
        decreases span + 1 - delta,
    {
        let larger = side_px - delta;
        let ghost aw = aspect_w as int;
        let ghost ah = aspect_h as int;
        assert(search(aw, ah, side_px as int, (delta + 1) as nat) == pick(
            aw,
            ah,
            search(aw, ah, side_px as int, delta as nat),
            candidate(aw, ah, larger as int),
        ));
        if larger >= 1 {
            let c = candidate_size(aspect_w, aspect_h, larger);
            best = match best {
                None => Some(c),
                Some(b) => if is_closer(aspect_w, aspect_h, c, b) {
                    Some(c)
                } else {
                    Some(b)
                },
            };
            assert(pair_view(best) == pick(
                aw,
                ah,
                search(aw, ah, side_px as int, delta as nat),
                candidate(aw, ah, larger as int),
            ));
        } else {
            assert(side_px == 0 && delta == 0);
            // Only when the cap itself is 0: landscape keeps (0, 1); portrait
            // gives a zero height, which never wins.
            if aspect_w >= aspect_h {
                proof {
                    lemma_round_div_zero(aspect_w as int);
                }
                best = Some((0, 1));
                assert(0 * ah == 0);
                assert(candidate(aw, ah, 0) == (0int, 1int));
            } else {
                assert(0 * aw == 0);
                assert(candidate(aw, ah, 0).1 == 0);
                proof {
                    lemma_round_div_zero(aspect_h as int);
                }
            }
        }
        delta = delta + 1;
    }
    match best {
        Some(c) => c,
        None => (if side_px >= 1 {
            side_px
        } else {
            1
        }, 1),
    }
}

/// `"https://picsum.photos/id/{id}/{w}/{h}"`.
pub open spec fn picsum_url(id: u32, w: u32, h: u32) -> Seq<char> {
    "https://picsum.photos/id/"@ + decimal(id as nat) + seq!['/'] + decimal(w as nat) + seq!['/']
        + decimal(h as nat)
}

/// The picsum.photos URL for photo `photo_id` at `width`×`height`.
pub fn hires_fetch_url(photo_id: u32, width: u32, height: u32) -> (r: String)
    ensures
        r@ == picsum_url(photo_id, width, height),
{
    let mut v = chars_of("https://picsum.photos/id/");
    push_decimal(&mut v, photo_id as u64);
    v.push('/');
    push_decimal(&mut v, width as u64);
    v.push('/');
    push_decimal(&mut v, height as u64);
    assert(v@ =~= picsum_url(photo_id, width, height));
    string_of(v.as_slice())
}

/// Two texts without a `'/'`, each followed by a `'/'` and a rest, are equal
/// with equal rests when the whole texts are.
proof fn lemma_split_at_slash(x1: Seq<char>, y1: Seq<char>, x2: Seq<char>, y2: Seq<char>)
    requires
        forall|i: int| 0 <= i < x1.len() ==> #[trigger] x1[i] != '/',
        forall|i: int| 0 <= i < x2.len() ==> #[trigger] x2[i] != '/',
        x1 + seq!['/'] + y1 == x2 + seq!['/'] + y2,
    ensures
        x1 == x2,
        y1 == y2,
{
    let u1 = x1 + seq!['/'] + y1;
    let u2 = x2 + seq!['/'] + y2;
    if x1.len() < x2.len() {
        assert(u1[x1.len() as int] == '/');
        assert(u2[x1.len() as int] == x2[x1.len() as int]);
    }
    if x2.len() < x1.len() {
        assert(u2[x2.len() as int] == '/');
        assert(u1[x2.len() as int] == x1[x2.len() as int]);
    }
    assert(x1 =~= u1.take(x1.len() as int));
    assert(x2 =~= u2.take(x2.len() as int));
    assert(y1 =~= u1.skip(x1.len() as int + 1));
    assert(y2 =~= u2.skip(x2.len() as int + 1));
}

/// Distinct (photo id, width, height) triples give distinct URLs.
pub proof fn law_distinct_triples_give_distinct_urls(
    id1: u32,
    w1: u32,
    h1: u32,
    id2: u32,
    w2: u32,
    h2: u32,
)
    ensures
        picsum_url(id1, w1, h1) == picsum_url(id2, w2, h2) <==> (id1, w1, h1) == (id2, w2, h2),
{
    if picsum_url(id1, w1, h1) == picsum_url(id2, w2, h2) {
        let p = "https://picsum.photos/id/"@;
        let (a1, b1, c1) = (decimal(id1 as nat), decimal(w1 as nat), decimal(h1 as nat));
        let (a2, b2, c2) = (decimal(id2 as nat), decimal(w2 as nat), decimal(h2 as nat));
        lemma_decimal_shape(id1 as nat);
        lemma_decimal_shape(w1 as nat);
        lemma_decimal_shape(id2 as nat);
        lemma_decimal_shape(w2 as nat);
        let r1 = b1 + seq!['/'] + c1;
        let r2 = b2 + seq!['/'] + c2;
        assert(picsum_url(id1, w1, h1) =~= p + (a1 + seq!['/'] + r1));
        assert(picsum_url(id2, w2, h2) =~= p + (a2 + seq!['/'] + r2));
        assert((p + (a1 + seq!['/'] + r1)).skip(p.len() as int) =~= a1 + seq!['/'] + r1);
        assert((p + (a2 + seq!['/'] + r2)).skip(p.len() as int) =~= a2 + seq!['/'] + r2);
        lemma_split_at_slash(a1, r1, a2, r2);
        lemma_split_at_slash(b1, c1, b2, c2);
        lemma_decimal_injective(id1 as nat, id2 as nat);
        lemma_decimal_injective(w1 as nat, w2 as nat);
        lemma_decimal_injective(h1 as nat, h2 as nat);
    }
}

/// Catalogue ids increase from each entry to the next.
proof fn lemma_catalogue_ids_step(i: int)
    requires
        0 <= i < NATURE_PHOTO_COUNT - 1,
    ensures
        nature_photo(i).0 < nature_photo(i + 1).0,
{
}

/// Catalogue ids increase along the catalogue, so no two entries share one.
proof fn lemma_catalogue_ids_increase(i: int, j: int)
    requires
        0 <= i < j < NATURE_PHOTO_COUNT,
    ensures
        nature_photo(i).0 < nature_photo(j).0,
    decreases j - i,
{
    lemma_catalogue_ids_step(j - 1);
    if i < j - 1 {
        lemma_catalogue_ids_increase(i, j - 1);
    }
}

/// Tiles `i` and `j` of one batch sit in different catalogue slots.
proof fn lemma_batch_slots_differ(nonce: u32, i: int, j: int)
    requires
        0 <= i < j < TILE_COUNT,
    ensures
        photo_slot(nonce, i) != photo_slot(nonce, j),
        0 <= photo_slot(nonce, i) < NATURE_PHOTO_COUNT,
        0 <= photo_slot(nonce, j) < NATURE_PHOTO_COUNT,
{
    let x = nonce + i;
    let y = nonce + j;
    let m: int = 0x1_0000_0000;
    let xs = if x < m { x } else { x - m };
    let ys = if y < m { y } else { y - m };
    assert(x % m == xs);
    assert(y % m == ys);
    if (x < m) == (y < m) {
        assert(0 < ys - xs < 72);
    } else {
        // `x` sits just under 2^32 and `y` just past it: 2^32 - 11 <= x, and
        // 2^32 is 40 past a multiple of 72.
        assert(m - 12 < xs < m && 0 <= ys < 12);
        assert(xs % 72 >= 28);
    }
}

/// The tiles of one batch show different photos.
pub proof fn law_batch_tiles_show_distinct_photos(nonce: u32, side: u32, i: int, j: int)
    requires
        0 <= i < TILE_COUNT,
        0 <= j < TILE_COUNT,
        i != j,
    ensures
        tile_fetch(nonce, i, side).1 != tile_fetch(nonce, j, side).1,
{
    let (lo, hi) = if i < j { (i, j) } else { (j, i) };
    lemma_batch_slots_differ(nonce, lo, hi);
    let a = photo_slot(nonce, lo);
    let b = photo_slot(nonce, hi);
    if a < b {
        lemma_catalogue_ids_increase(a, b);
    } else {
        lemma_catalogue_ids_increase(b, a);
    }
}

/// One gallery tile's low-res fetch: its URL, the picsum photo id, and that
/// photo's real pixel size (its exact aspect ratio).
pub struct TileFetch {
    pub url: String,
    pub photo_id: u32,
    pub real_size: (u32, u32),
}

impl TileFetch {
    /// The fetch as plain values: URL, photo id, real size.
    pub open spec fn view(&self) -> (Seq<char>, u32, (u32, u32)) {
        (self.url@, self.photo_id, self.real_size)
    }
}

/// What `tile_fetch_url` yields for tile `idx` of batch `nonce` at a
/// `side`-pixel cap.
pub open spec fn tile_fetch(nonce: u32, idx: int, side: u32) -> (Seq<char>, u32, (u32, u32)) {
    let (id, rw, rh) = nature_photo(photo_slot(nonce, idx));
    let (w, h) = fetch_size(rw as int, rh as int, side as int);
    (picsum_url(id, w as u32, h as u32), id, (rw, rh))
}

proof fn lemma_fetch_size_fits(aw: int, ah: int, side: int)
    requires
        0 <= aw,
        0 <= ah,
        0 <= side <= u32::MAX,
    ensures
        0 <= fetch_size(aw, ah, side).0 <= u32::MAX,
        0 <= fetch_size(aw, ah, side).1 <= u32::MAX,
{
    if side >= 1 {
        law_fetch_size_within_cap(aw, ah, side);
    } else if ah > 0 {
        reveal_with_fuel(search, 2);
        if aw >= ah {
            lemma_round_div_zero(aw);
            assert(0 * ah == 0);
            assert(candidate(aw, ah, 0) == (0int, 1int));
        } else {
            assert(0 * aw == 0);
            assert(candidate(aw, ah, 0).1 == 0);
        }
    }
}

/// Tile `idx`'s low-res fetch in the batch identified by `nonce`.
pub fn tile_fetch_url(nonce: u32, idx: usize, side_px: u32) -> (r: TileFetch)
    ensures
        r.view() == tile_fetch(nonce, idx as int, side_px),
{
    let (photo_id, real_w, real_h) = tile_photo(nonce, idx);
    let (w, h) = fetch_dimensions(real_w, real_h, side_px);
    proof {
        lemma_fetch_size_fits(real_w as int, real_h as int, side_px as int);
    }
    let url = hires_fetch_url(photo_id, w, h);
    TileFetch { url, photo_id, real_size: (real_w, real_h) }
}

/// `plan` holds, in order, the low-res fetch of every tile of the batch
/// identified by `nonce`.
pub open spec fn plan_matches(plan: Seq<TileFetch>, nonce: u32, side: u32) -> bool {
    forall|i: int| 0 <= i < plan.len() ==> (#[trigger] plan[i]).view() == tile_fetch(nonce, i, side)
}

/// Every tile's low-res fetch in the batch identified by `nonce`.
pub fn tile_fetch_plan(nonce: u32, count: usize, side_px: u32) -> (r: Vec<TileFetch>)
    ensures
        r@.len() == count,
        plan_matches(r@, nonce, side_px),
{
    let mut out: Vec<TileFetch> = Vec::new();
    let mut i: usize = 0;
    while i < count
        invariant
            i <= count,
            out@.len() == i,
            forall|j: int| 0 <= j < i ==> (#[trigger] out@[j]).view() == tile_fetch(nonce, j, side_px),
        decreases count - i,
    {
        out.push(tile_fetch_url(nonce, i, side_px));
        i = i + 1;
    }
    out
}

/// The batch nonce for a clock reading: the milliseconds since the Unix
/// epoch (`None` when the clock reads before it), truncated to 32 bits, or 0
/// without a reading. A fresh gallery visit rarely lands on the same photos.
pub fn nonce_from_millis(millis: Option<u128>) -> (r: u32)
    ensures
        r == match millis {
            Some(m) => (m % 0x1_0000_0000) as u32,
            None => 0u32,
        },
{
    match millis {
        Some(m) => (m % 0x1_0000_0000u128) as u32,
        None => 0,
    }
}

/// Every pair the search settles on is one of its candidates.
proof fn lemma_search_is_candidate(aw: int, ah: int, side: int, k: nat)
    ensures
        search(aw, ah, side, k) matches Some(c) ==> exists|l: int|
            side - k < l <= side && c == #[trigger] candidate(aw, ah, l) && c.1 > 0,
    decreases k,
{
    if k > 0 {
        lemma_search_is_candidate(aw, ah, side, (k - 1) as nat);
        let c = candidate(aw, ah, side - (k - 1));
        let prev = search(aw, ah, side, (k - 1) as nat);
        if let Some(r) = search(aw, ah, side, k) {
            if r == c && c.1 > 0 {
                let l = side - (k - 1);
                assert(side - k < l <= side && r == candidate(aw, ah, l));
            } else {
                let p = prev->0;
                let l = choose|l: int|
                    side - (k - 1) < l <= side && p == #[trigger] candidate(aw, ah, l) && p.1 > 0;
                assert(side - k < l <= side && r == candidate(aw, ah, l));
            }
        }
    }
}

/// Under a cap of at least one pixel, both axes of the fetch size are
/// between 1 and the cap.
pub proof fn law_fetch_size_within_cap(aw: int, ah: int, side: int)
    requires
        0 <= aw,
        0 <= ah,
        1 <= side,
    ensures
        1 <= fetch_size(aw, ah, side).0 <= side,
        1 <= fetch_size(aw, ah, side).1 <= side,
{
    if ah == 0 {
        return;
    }
    let k = (window(side) + 1) as nat;
    lemma_search_is_candidate(aw, ah, side, k);
    reveal_with_fuel(search, 2);
    lemma_candidate_bounds(aw, ah, side);
    assert(search(aw, ah, side, 1) is Some);
    lemma_search_monotone(aw, ah, side, 1, k);
    let c = search(aw, ah, side, k)->0;
    let l = choose|l: int| side - k < l <= side && c == #[trigger] candidate(aw, ah, l) && c.1 > 0;
    lemma_candidate_bounds(aw, ah, l);
}

/// Once the search has a pair it keeps having one.
proof fn lemma_search_monotone(aw: int, ah: int, side: int, j: nat, k: nat)
    requires
        j <= k,
        search(aw, ah, side, j) is Some,
    ensures
        search(aw, ah, side, k) is Some,
    decreases k - j,
{
    if j < k {
        lemma_search_monotone(aw, ah, side, j, (k - 1) as nat);
    }
}

/// Ratio closeness is transitive.
proof fn lemma_closer_transitive(aw: int, ah: int, a: (int, int), b: (int, int), c: (int, int))
    requires
        a.1 > 0,
        b.1 > 0,
        c.1 > 0,
        closer(aw, ah, a, b),
        closer(aw, ah, b, c),
    ensures
        closer(aw, ah, a, c),
{
    let ma = mismatch(aw, ah, a);
    let mb = mismatch(aw, ah, b);
    let mc = mismatch(aw, ah, c);
    assert(ma * c.1 < mc * a.1) by (nonlinear_arith)
        requires
            ma * b.1 < mb * a.1,
            mb * c.1 < mc * b.1,
            a.1 > 0,
            b.1 > 0,
            c.1 > 0,
            ma >= 0,
            mb >= 0,
            mc >= 0,
    ;
}

/// The search's pair is at least as close as every candidate it saw (and
/// when it has none, every candidate it saw had a zero height).
proof fn lemma_search_is_closest(aw: int, ah: int, side: int, k: nat)
    ensures
        search(aw, ah, side, k) matches Some(b) ==> b.1 > 0 && forall|l: int|
            side - k < l <= side && (#[trigger] candidate(aw, ah, l)).1 > 0 ==> !closer(
                aw,
                ah,
                candidate(aw, ah, l),
                b,
            ),
        search(aw, ah, side, k) is None ==> forall|l: int|
            side - k < l <= side ==> (#[trigger] candidate(aw, ah, l)).1 <= 0,
    decreases k,
{
    if k > 0 {
        let j = (k - 1) as nat;
        lemma_search_is_closest(aw, ah, side, j);
        let c = candidate(aw, ah, side - j);
        let prev = search(aw, ah, side, j);
        if c.1 > 0 {
            match prev {
                None => {
                    assert forall|l: int|
                        side - k < l <= side && (#[trigger] candidate(aw, ah, l)).1 > 0 implies !closer(
                        aw,
                        ah,
                        candidate(aw, ah, l),
                        c,
                    ) by {
                        if l != side - j {
                            assert(candidate(aw, ah, l).1 <= 0);
                        }
                    }
                },
                Some(p) => {
                    if closer(aw, ah, c, p) {
                        assert forall|l: int|
                            side - k < l <= side && (#[trigger] candidate(aw, ah, l)).1 > 0 implies !closer(
                            aw,
                            ah,
                            candidate(aw, ah, l),
                            c,
                        ) by {
                            let e = candidate(aw, ah, l);
                            if l != side - j && closer(aw, ah, e, c) {
                                lemma_closer_transitive(aw, ah, e, c, p);
                            }
                        }
                    }
                },
            }
        }
    }
}

/// The fetch size's ratio is at least as close to the photo's real ratio
/// as that of every size the search tried (the larger axis at the cap or
/// up to the window below it).
pub proof fn law_fetch_size_is_closest(aw: int, ah: int, side: int)
    requires
        0 <= aw,
        0 <= ah,
        1 <= side,
    ensures
        forall|l: int|
            side - window(side) <= l <= side ==> !closer(
                aw,
                ah,
                #[trigger] candidate(aw, ah, l),
                fetch_size(aw, ah, side),
            ),
{
    if ah == 0 {
        assert forall|l: int| side - window(side) <= l <= side implies !closer(
            aw,
            ah,
            #[trigger] candidate(aw, ah, l),
            fetch_size(aw, ah, side),
        ) by {
            let c = candidate(aw, ah, l);
            assert(c.1 >= 1);
            assert(c.0 * ah == 0) by (nonlinear_arith)
                requires
                    ah == 0,
            ;
            assert(side * ah == 0) by (nonlinear_arith)
                requires
                    ah == 0,
            ;
            assert(aw * c.1 >= 0) by (nonlinear_arith)
                requires
                    aw >= 0,
                    c.1 >= 1,
            ;
            assert(mismatch(aw, ah, c) == aw * c.1);
            assert(fetch_size(aw, ah, side) == (side, 1int));
            assert(aw * 1 == aw);
            assert(mismatch(aw, ah, (side, 1int)) == aw);
        }
        return;
    }
    let k = (window(side) + 1) as nat;
    lemma_search_is_closest(aw, ah, side, k);
    reveal_with_fuel(search, 2);
    lemma_candidate_bounds(aw, ah, side);
    lemma_search_monotone(aw, ah, side, 1, k);
    assert forall|l: int| side - window(side) <= l <= side implies !closer(
        aw,
        ah,
        #[trigger] candidate(aw, ah, l),
        fetch_size(aw, ah, side),
    ) by {
        lemma_candidate_bounds(aw, ah, l);
    }
}

} // verus!
