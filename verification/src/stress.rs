//! The integer side of the Stress Tests: the xorshift32 generator behind
//! Burst Spawn's random targets and Texture Churn's random sizes and hues,
//! the flat-colour RGBA buffers Texture Churn registers every tick, and the
//! grid cell of each churn slot.

use vstd::prelude::*;

verus! {

/// The generator's seed: nonzero, as xorshift requires.
pub const STRESS_RNG_SEED: u32 = 0x9E3779B9;

/// Number of Texture Churn slots.
pub const TEXTURE_CHURN_SLOTS: usize = 8;

/// Columns of the Texture Churn slot grid.
pub const TEXTURE_CHURN_COLS: usize = 4;

/// One xorshift32 step: `x ^= x << 13; x ^= x >> 17; x ^= x << 5`.
pub open spec fn xorshift32(x: u32) -> u32 {
    let a = x ^ (x << 13u32);
    let b = a ^ (a >> 17u32);
    b ^ (b << 5u32)
}

/// The `n`-th state after `seed` (`seed` itself for `n == 0`).
pub open spec fn xorshift32_iter(seed: u32, n: nat) -> u32
    decreases n,
{
    if n == 0 {
        seed
    } else {
        xorshift32(xorshift32_iter(seed, (n - 1) as nat))
    }
}

/// The Stress Tests' pseudo-random generator (xorshift32). Lively jitter,
/// not cryptographic randomness.
pub struct StressRng {
    state: u32,
}

impl StressRng {
    /// The generator's current state.
    pub closed spec fn state(&self) -> u32 {
        self.state
    }

    /// A generator at the fixed seed.
    pub fn new() -> (r: StressRng)
        ensures
            r.state() == STRESS_RNG_SEED,
    {
        StressRng { state: STRESS_RNG_SEED }
    }

    /// Advances the generator one step and returns the new state.
    pub fn next_u32(&mut self) -> (r: u32)
        ensures
            r == xorshift32(old(self).state()),
            final(self).state() == r,
    {
        let mut x = self.state;
        x = x ^ (x << 13u32);
        x = x ^ (x >> 17u32);
        x = x ^ (x << 5u32);
        self.state = x;
        x
    }
}

/// A step of the generator never lands on zero from a nonzero state, the
/// one state xorshift can never leave.
pub proof fn law_xorshift_never_reaches_zero(x: u32)
    requires
        x != 0,
    ensures
        xorshift32(x) != 0,
{
    assert(x != 0 ==> ((x ^ (x << 13u32)) ^ ((x ^ (x << 13u32)) >> 17u32)) ^ (((x ^ (x
        << 13u32)) ^ ((x ^ (x << 13u32)) >> 17u32)) << 5u32) != 0) by (bit_vector);
}

/// From the nonzero seed, the generator never reaches zero, however many
/// numbers it is asked for.
pub proof fn law_generator_never_stalls(n: nat)
    ensures
        xorshift32_iter(STRESS_RNG_SEED, n) != 0,
    decreases n,
{
    if n > 0 {
        law_generator_never_stalls((n - 1) as nat);
        law_xorshift_never_reaches_zero(xorshift32_iter(STRESS_RNG_SEED, (n - 1) as nat));
    }
}

/// An image of `width`×`height` pixels, each the RGBA `pixel`, row-major:
/// byte `i` is `pixel[i % 4]`.
pub open spec fn solid_rgba_bytes(pixel: [u8; 4], width: u32, height: u32) -> Seq<u8> {
    Seq::new(4 * (width as nat) * (height as nat), |i: int| pixel@[i % 4])
}

/// A flat-colour RGBA buffer of `width`×`height` pixels (`pixel` repeated
/// once per pixel).
pub fn solid_rgba(pixel: [u8; 4], width: u32, height: u32) -> (r: Vec<u8>)
    requires
        width as int * height as int <= u32::MAX,
        4 * (width as int) * (height as int) <= usize::MAX,
    ensures
        r@ == solid_rgba_bytes(pixel, width, height),
{
    let pixels: u32 = width * height;
    let n: usize = pixels as usize;
    assert(4 * (width as int) * (height as int) == 4 * (n as int)) by (nonlinear_arith)
        requires
            n == width * height,
    ;
    let mut out: Vec<u8> = Vec::new();
    let mut p: usize = 0;
    while p < n
        invariant
            p <= n,
            4 * n <= usize::MAX,
            out@.len() == 4 * p,
            forall|i: int| 0 <= i < out@.len() ==> #[trigger] out@[i] == pixel@[i % 4],
        decreases n - p,
    {
        let mut c: usize = 0;
        while c < 4
            invariant
                c <= 4,
                p < n,
                4 * n <= usize::MAX,
                out@.len() == 4 * p + c,
                forall|i: int| 0 <= i < out@.len() ==> #[trigger] out@[i] == pixel@[i % 4],
            decreases 4 - c,
        {
            out.push(pixel[c]);
            assert((4 * p + c) % 4 == c as int) by (nonlinear_arith)
                requires
                    c < 4,
            ;
            c = c + 1;
        }
        p = p + 1;
    }
    assert(out@ =~= solid_rgba_bytes(pixel, width, height));
    out
}

/// The grid cell (column, row) of Texture Churn slot `i`: slots fill the
/// grid's rows left to right, top row first.
pub fn churn_slot_cell(i: usize) -> (r: (usize, usize))
    ensures
        r.0 == i % TEXTURE_CHURN_COLS,
        r.1 == i / TEXTURE_CHURN_COLS,
        r.1 * TEXTURE_CHURN_COLS + r.0 == i,
{
    (i % TEXTURE_CHURN_COLS, i / TEXTURE_CHURN_COLS)
}

/// Rows of the Texture Churn slot grid: enough for every slot.
pub fn churn_grid_rows() -> (r: usize)
    ensures
        r == (TEXTURE_CHURN_SLOTS + TEXTURE_CHURN_COLS - 1) / (TEXTURE_CHURN_COLS as int),
        r * TEXTURE_CHURN_COLS >= TEXTURE_CHURN_SLOTS,
        (r - 1) * TEXTURE_CHURN_COLS < TEXTURE_CHURN_SLOTS,
{
    (TEXTURE_CHURN_SLOTS + TEXTURE_CHURN_COLS - 1) / TEXTURE_CHURN_COLS
}

} // verus!
