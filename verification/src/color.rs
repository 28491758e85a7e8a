//! Colouring of escape-time records.
//!
//! A point presumed in the set is fully transparent black. An escaped (or
//! cycling) point gets a smooth escape index
//! `step - log2(log10(|zn|) / log10(2))`, clamped to an 8-bit intensity,
//! which then interpolates linearly between the gradient's `end` colour
//! (intensity 0) and its `start` colour (intensity 255). The logarithms
//! run behind trusted wrappers; the clamp and the interpolation are
//! verified integer arithmetic.

use vstd::prelude::*;

use crate::fbits::{div_bits, log10_bits, log2_bits, lt_bits, sub_bits, u8_of_bits};
use crate::fbits::{bits_of_u64, F_255_BITS, F_TWO_BITS, F_ZERO_BITS};
use crate::fbits::{f64_div, f64_log10, f64_log2, f64_lt, f64_of_u64, f64_sub, f64_to_u8};
use crate::fractal::{cx_norm, norm_of, MnComputation};

verus! {

/// A colour gradient between two 4-channel 8-bit colours.
pub struct MnSmoothScale {
    pub start: (u8, u8, u8, u8),
    pub end: (u8, u8, u8, u8),
}

/// The smooth escape index of a record, as the bit pattern of a double:
/// `step - log2(log10(|zn|) / log10(2))`.
pub open spec fn smooth_bits(rec: MnComputation) -> u64 {
    sub_bits(
        bits_of_u64(rec.step),
        log2_bits(div_bits(log10_bits(norm_of(rec.zn)), log10_bits(F_TWO_BITS))),
    )
}

/// The double with bit pattern `a` clamped to an 8-bit intensity: its
/// truncation when that lies in `0 ..= 255`, the nearer end of the range
/// when the value falls outside it, and 0 for a NaN.
pub open spec fn spec_clamp_u8(a: u64) -> u8 {
    match u8_of_bits(a) {
        Some(v) => v,
        None => if lt_bits(a, F_ZERO_BITS) {
            0
        } else if lt_bits(F_255_BITS, a) {
            255
        } else {
            0
        },
    }
}

/// Linear interpolation of one channel: intensity 0 gives `end`, intensity
/// 255 gives `start`, exactly `(end * (255 - c) + start * c) / 255`.
pub open spec fn spec_interp(start: u8, end: u8, c: u8) -> u8 {
    ((end * (255 - c) + start * c) / 255) as u8
}

/// The colour of an evaluation outcome: transparent black for a point
/// presumed in the set, the interpolated gradient colour (with a zero
/// fourth channel) for a stopped record.
pub open spec fn spec_from_point(g: MnSmoothScale, p: Option<MnComputation>) -> (u8, u8, u8, u8) {
    match p {
        None => (0u8, 0u8, 0u8, 0u8),
        Some(rec) => {
            let c = spec_clamp_u8(smooth_bits(rec));
            (
                spec_interp(g.start.0, g.end.0, c),
                spec_interp(g.start.1, g.end.1, c),
                spec_interp(g.start.2, g.end.2, c),
                0u8,
            )
        },
    }
}

/// Clamps a double, given as its bit pattern, to an 8-bit intensity.
fn clamp_u8(a: u64) -> (r: u8)
    ensures
        r == spec_clamp_u8(a),
{
    match f64_to_u8(a) {
        Some(v) => v,
        None => if f64_lt(a, F_ZERO_BITS) {
            0
        } else if f64_lt(F_255_BITS, a) {
            255
        } else {
            0
        },
    }
}

/// Interpolates one channel between `end` (at intensity 0) and `start`
/// (at intensity 255).
fn interp_channel(start: u8, end: u8, c: u8) -> (r: u8)
    ensures
        r == spec_interp(start, end, c),
{
    let nc: u32 = 255 - (c as u32);
    proof {
        assert((end as int) * (nc as int) + (start as int) * (c as int) <= 255 * 255)
            by (nonlinear_arith)
            requires
                end <= 255,
                start <= 255,
                c <= 255,
                nc == 255 - c,
        ;
    }
    let num: u32 = (end as u32) * nc + (start as u32) * (c as u32);
    (num / 255) as u8
}

impl MnSmoothScale {
    /// A gradient from `start` to `end`.
    pub fn new(start: (u8, u8, u8, u8), end: (u8, u8, u8, u8)) -> (r: MnSmoothScale)
        ensures
            r.start == start,
            r.end == end,
    {
        MnSmoothScale { start, end }
    }

    /// The colour of an evaluation outcome under this gradient.
    pub fn from_point(&self, p: Option<MnComputation>) -> (r: (u8, u8, u8, u8))
        ensures
            r == spec_from_point(*self, p),
    {
        match p {
            None => (0, 0, 0, 0),
            Some(rec) => {
                let n = cx_norm(rec.zn);
                let ratio = f64_div(f64_log10(n), f64_log10(F_TWO_BITS));
                let cf = f64_sub(f64_of_u64(rec.step), f64_log2(ratio));
                let c = clamp_u8(cf);
                (
                    interp_channel(self.start.0, self.end.0, c),
                    interp_channel(self.start.1, self.end.1, c),
                    interp_channel(self.start.2, self.end.2, c),
                    0,
                )
            },
        }
    }
}

/// A point presumed in the set is always coloured fully transparent black.
pub proof fn lemma_none_is_transparent(g: MnSmoothScale)
    ensures
        spec_from_point(g, None::<MnComputation>) == (0u8, 0u8, 0u8, 0u8),
{
}

/// Intensity 0 yields exactly the gradient's `end` channel, intensity 255
/// exactly its `start` channel.
pub proof fn lemma_interp_endpoints(start: u8, end: u8)
    ensures
        spec_interp(start, end, 0) == end,
        spec_interp(start, end, 255) == start,
{
}

/// A record whose smooth index clamps to 0 — an immediate escape — takes
/// exactly the gradient's `end` colour; one whose index clamps to 255 — a
/// very late escape — takes exactly its `start` colour.
pub proof fn lemma_extreme_intensities(g: MnSmoothScale, rec: MnComputation)
    ensures
        spec_clamp_u8(smooth_bits(rec)) == 0 ==> spec_from_point(g, Some(rec)) == (
            g.end.0,
            g.end.1,
            g.end.2,
            0u8,
        ),
        spec_clamp_u8(smooth_bits(rec)) == 255 ==> spec_from_point(g, Some(rec)) == (
            g.start.0,
            g.start.1,
            g.start.2,
            0u8,
        ),
{
    lemma_interp_endpoints(g.start.0, g.end.0);
    lemma_interp_endpoints(g.start.1, g.end.1);
    lemma_interp_endpoints(g.start.2, g.end.2);
}

/// Each interpolated channel lies between the two gradient channels.
pub proof fn lemma_interp_bounds(start: u8, end: u8, c: u8)
    ensures
        start <= end ==> start <= spec_interp(start, end, c) <= end,
        end <= start ==> end <= spec_interp(start, end, c) <= start,
{
    let num = end * (255 - c) + start * c;
    if start <= end {
        assert(start * 255 <= num <= end * 255) by (nonlinear_arith)
            requires
                num == end * (255 - c) + start * c,
                start <= end,
                0 <= c <= 255,
        ;
        assert(start <= num / 255 <= end) by (nonlinear_arith)
            requires
                start * 255 <= num <= end * 255,
                0 <= start,
        ;
    } else {
        assert(end * 255 <= num <= start * 255) by (nonlinear_arith)
            requires
                num == end * (255 - c) + start * c,
                end <= start,
                0 <= c <= 255,
        ;
        assert(end <= num / 255 <= start) by (nonlinear_arith)
            requires
                end * 255 <= num <= start * 255,
                0 <= end,
        ;
    }
}

/// The interpolation is monotone in the intensity: as the intensity grows
/// the channel moves from the `end` value toward the `start` value.
pub proof fn lemma_interp_monotone(start: u8, end: u8, c1: u8, c2: u8)
    requires
        c1 <= c2,
    ensures
        start <= end ==> spec_interp(start, end, c2) <= spec_interp(start, end, c1),
        end <= start ==> spec_interp(start, end, c1) <= spec_interp(start, end, c2),
{
    let n1 = end * (255 - c1) + start * c1;
    let n2 = end * (255 - c2) + start * c2;
    assert(0 <= n1 <= 255 * 255 && 0 <= n2 <= 255 * 255) by (nonlinear_arith)
        requires
            n1 == end * (255 - c1) + start * c1,
            n2 == end * (255 - c2) + start * c2,
            0 <= start <= 255,
            0 <= end <= 255,
            0 <= c1 <= 255,
            0 <= c2 <= 255,
    ;
    assert(spec_interp(start, end, c1) == n1 / 255);
    assert(spec_interp(start, end, c2) == n2 / 255);
    assert((start <= end ==> n2 <= n1) && (end <= start ==> n1 <= n2)) by (nonlinear_arith)
        requires
            n1 == end * (255 - c1) + start * c1,
            n2 == end * (255 - c2) + start * c2,
            c1 <= c2,
            0 <= c1 <= 255,
            0 <= c2 <= 255,
    ;
    assert((n2 <= n1 ==> n2 / 255 <= n1 / 255) && (n1 <= n2 ==> n1 / 255 <= n2 / 255))
        by (nonlinear_arith)
        requires
            0 <= n1,
            0 <= n2,
    ;
}

} // verus!
