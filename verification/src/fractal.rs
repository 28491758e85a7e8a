//! The escape-time evaluation of a single point of the complex plane.
//!
//! A complex number is a pair of doubles, held as bit patterns
//! ([`ComplexPoint`]). The arithmetic on complex values is done by
//! `num_complex`, and the modulus by `libm`, behind trusted wrappers; the
//! iteration itself — the step
//! budget, the bail-out and cycle tests in order, and the checkpoint
//! bookkeeping that doubles its interval — is verified, and the result of
//! an evaluation is pinned down exactly by [`spec_evaluate`].

use vstd::prelude::*;

use crate::fbits::{lt_bits, F_ONE_BITS, F_QUARTER_BITS, F_SIXTEENTH_BITS, F_TWO_BITS};
use crate::fbits::{add_bits, mul_bits, sqrt_bits, sub_bits};
use crate::fbits::{f64_lt, f64_sqrt};
use crate::fbits::{f64_add, f64_mul, f64_sub};

verus! {

/// A point of the complex plane: the bit patterns of the real and
/// imaginary components, each an IEEE 754 double.
#[derive(Clone, Copy, Debug, PartialEq, Eq, Structural)]
pub struct ComplexPoint {
    pub re: u64,
    pub im: u64,
}

/// The product of two complex numbers, as computed by `num_complex`.
pub uninterp spec fn cmul_of(a: ComplexPoint, b: ComplexPoint) -> ComplexPoint;

/// The sum of two complex numbers, as computed by `num_complex`.
pub uninterp spec fn cadd_of(a: ComplexPoint, b: ComplexPoint) -> ComplexPoint;

/// The Euclidean modulus of a complex number — the hypotenuse of its two
/// components — given as the bit pattern of a double.
pub uninterp spec fn norm_of(z: ComplexPoint) -> u64;

/// Whether two complex numbers compare equal under the IEEE 754 `==` of
/// their components (not bit equality: zeroes of either sign compare
/// equal, NaNs compare unequal).
pub uninterp spec fn ceq_of(a: ComplexPoint, b: ComplexPoint) -> bool;

/// Relies on `num_complex`'s complex multiplication
/// (`(a*c - b*d) + i(a*d + b*c)`), a function of the operand bit patterns.
#[verifier::external_body]
pub(crate) fn cx_mul(a: ComplexPoint, b: ComplexPoint) -> (r: ComplexPoint)
    ensures
        r == cmul_of(a, b),
{
    let x = num_complex::Complex64 { re: bytemuck::cast(a.re), im: bytemuck::cast(a.im) };
    let y = num_complex::Complex64 { re: bytemuck::cast(b.re), im: bytemuck::cast(b.im) };
    let z = x * y;
    ComplexPoint { re: bytemuck::cast(z.re), im: bytemuck::cast(z.im) }
}

/// Relies on `num_complex`'s componentwise complex addition, a function of
/// the operand bit patterns.
#[verifier::external_body]
pub(crate) fn cx_add(a: ComplexPoint, b: ComplexPoint) -> (r: ComplexPoint)
    ensures
        r == cadd_of(a, b),
{
    let x = num_complex::Complex64 { re: bytemuck::cast(a.re), im: bytemuck::cast(a.im) };
    let y = num_complex::Complex64 { re: bytemuck::cast(b.re), im: bytemuck::cast(b.im) };
    let z = x + y;
    ComplexPoint { re: bytemuck::cast(z.re), im: bytemuck::cast(z.im) }
}

/// Relies on `libm::hypot`, the Euclidean modulus of the two components.
/// `libm` is the same pure-Rust code on every machine, so the result is a
/// function of the operand bit patterns alone — which std's `f64::hypot`
/// (behind `num_complex::Complex::norm`) does not promise.
#[verifier::external_body]
pub(crate) fn cx_norm(z: ComplexPoint) -> (r: u64)
    ensures
        r == norm_of(z),
{
    let r: u64 = bytemuck::cast(libm::hypot(bytemuck::cast(z.re), bytemuck::cast(z.im)));
    r
}

/// Relies on `num_complex`'s derived `PartialEq`, the componentwise IEEE
/// 754 `==`, a function of the operand bit patterns.
#[verifier::external_body]
pub(crate) fn cx_eq(a: ComplexPoint, b: ComplexPoint) -> (r: bool)
    ensures
        r == ceq_of(a, b),
{
    let x = num_complex::Complex64 { re: bytemuck::cast(a.re), im: bytemuck::cast(a.im) };
    let y = num_complex::Complex64 { re: bytemuck::cast(b.re), im: bytemuck::cast(b.im) };
    x == y
}

/// One step of the Mandelbrot recurrence: `z * z + c`.
pub open spec fn next_of(z: ComplexPoint, c: ComplexPoint) -> ComplexPoint {
    cadd_of(cmul_of(z, z), c)
}

/// Whether an iterate has left the escape radius: `2.0 < |z|`.
pub open spec fn bails(z: ComplexPoint) -> bool {
    lt_bits(F_TWO_BITS, norm_of(z))
}

/// The closed-form membership tests for the main cardioid and the
/// period-2 bulb, over `p = sqrt((re - 1/4)^2 + im^2)`:
/// `re < p - 2*p^2 + 1/4`, or `(re + 1)^2 + im^2 < 1/16`.
pub open spec fn in_bulb(c: ComplexPoint) -> bool {
    let dre = sub_bits(c.re, F_QUARTER_BITS);
    let p = sqrt_bits(add_bits(mul_bits(dre, dre), mul_bits(c.im, c.im)));
    let cardioid_rhs = add_bits(sub_bits(p, mul_bits(F_TWO_BITS, mul_bits(p, p))), F_QUARTER_BITS);
    let re1 = add_bits(c.re, F_ONE_BITS);
    let bulb_lhs = add_bits(mul_bits(re1, re1), mul_bits(c.im, c.im));
    lt_bits(c.re, cardioid_rhs) || lt_bits(bulb_lhs, F_SIXTEENTH_BITS)
}

/// The state of one escape-time evaluation: the step count, the current
/// iterate `zn`, the seed `c`, and the cycle-detection checkpoint
/// (`old_zn`, refreshed every `step_lim` steps, an interval that doubles
/// each time it is reached; `step_curr` counts steps since the refresh).
#[derive(Clone, Copy, Debug, PartialEq, Eq, Structural)]
pub struct MnComputation {
    pub step: u64,
    pub zn: ComplexPoint,
    pub c: ComplexPoint,
    pub old_zn: ComplexPoint,
    pub step_lim: u64,
    pub step_curr: u64,
}

/// The fresh state for a seed: `z0 = 0`, no steps taken, the checkpoint at
/// `z0` with an interval of two steps.
pub open spec fn spec_new(seed: ComplexPoint) -> MnComputation {
    MnComputation {
        step: 0,
        zn: ComplexPoint { re: 0, im: 0 },
        c: seed,
        old_zn: ComplexPoint { re: 0, im: 0 },
        step_lim: 2,
        step_curr: 0,
    }
}

/// One committed iteration: the next iterate, the step count up one, and
/// the checkpoint bookkeeping. When the checkpoint interval is reached the
/// checkpoint moves to the new iterate and the interval doubles (held at
/// its ceiling if doubling would leave `u64`).
pub open spec fn advanced(s: MnComputation) -> MnComputation {
    let z = next_of(s.zn, s.c);
    if s.step_curr == s.step_lim {
        MnComputation {
            step: (s.step + 1) as u64,
            zn: z,
            c: s.c,
            old_zn: z,
            step_lim: if s.step_lim < 0x8000_0000_0000_0000 {
                (s.step_lim * 2) as u64
            } else {
                s.step_lim
            },
            step_curr: 0,
        }
    } else {
        MnComputation {
            step: (s.step + 1) as u64,
            zn: z,
            c: s.c,
            old_zn: s.old_zn,
            step_lim: s.step_lim,
            step_curr: (s.step_curr + 1) as u64,
        }
    }
}

/// Runs the recurrence from state `s` for at most `budget` further steps.
/// After each committed iterate the two stopping tests apply in order: the
/// bail-out `2 < |z|`, then the cycle test against the checkpoint as it
/// stood before the step. Either stop returns the committed state; an
/// exhausted budget returns `None`, "presumed in the set".
pub open spec fn run_from(s: MnComputation, budget: nat) -> Option<MnComputation>
    decreases budget,
{
    if budget == 0 {
        None
    } else {
        let t = advanced(s);
        if bails(t.zn) {
            Some(t)
        } else if ceq_of(t.zn, s.old_zn) {
            Some(t)
        } else {
            run_from(t, (budget - 1) as nat)
        }
    }
}

/// What `to_threshold` returns: a seed inside the cardioid or bulb is
/// rejected outright; otherwise the recurrence runs for up to
/// `max_iter - 1` steps.
pub open spec fn spec_to_threshold(s: MnComputation, max_iter: u64) -> Option<MnComputation> {
    if in_bulb(s.c) {
        None
    } else if max_iter == 0 {
        None
    } else {
        run_from(s, (max_iter - 1) as nat)
    }
}

/// What `evaluate` returns for a seed and a step budget.
pub open spec fn spec_evaluate(seed: ComplexPoint, max_step: u64) -> Option<MnComputation> {
    spec_to_threshold(spec_new(seed), max_step)
}

impl MnComputation {
    /// The checkpoint counter never runs past its interval.
    pub open spec fn wf(self) -> bool {
        self.step_curr <= self.step_lim
    }

    /// The fresh evaluation state for a seed.
    pub fn new(seed: ComplexPoint) -> (r: MnComputation)
        ensures
            r == spec_new(seed),
            r.wf(),
    {
        MnComputation {
            step: 0,
            zn: ComplexPoint { re: 0, im: 0 },
            c: seed,
            old_zn: ComplexPoint { re: 0, im: 0 },
            step_lim: 2,
            step_curr: 0,
        }
    }

    /// Whether the current iterate has left the escape radius.
    pub fn bailed_out(&self) -> (r: bool)
        ensures
            r == bails(self.zn),
    {
        let n = cx_norm(self.zn);
        f64_lt(F_TWO_BITS, n)
    }

    /// Whether the seed lies inside the main cardioid or the period-2
    /// bulb, by the closed-form tests of [`in_bulb`].
    pub fn is_in_bulb(&self) -> (r: bool)
        ensures
            r == in_bulb(self.c),
    {
        let dre = f64_sub(self.c.re, F_QUARTER_BITS);
        let p = f64_sqrt(f64_add(f64_mul(dre, dre), f64_mul(self.c.im, self.c.im)));
        let cardioid_rhs = f64_add(f64_sub(p, f64_mul(F_TWO_BITS, f64_mul(p, p))), F_QUARTER_BITS);
        if f64_lt(self.c.re, cardioid_rhs) {
            return true;
        }
        let re1 = f64_add(self.c.re, F_ONE_BITS);
        let bulb_lhs = f64_add(f64_mul(re1, re1), f64_mul(self.c.im, self.c.im));
        f64_lt(bulb_lhs, F_SIXTEENTH_BITS)
    }

    /// Runs the recurrence from this state for up to `max_iter - 1` steps
    /// and returns the stopped state, or `None` when the seed is rejected
    /// by the bulb tests or the budget runs out.
    pub fn to_threshold(&self, max_iter: u64) -> (r: Option<MnComputation>)
        requires
            self.wf(),
            self.step as int + max_iter as int <= u64::MAX as int + 1,
        ensures
            r == spec_to_threshold(*self, max_iter),
    {
        if self.is_in_bulb() {
            return None;
        }
        let mut s: MnComputation = *self;
        let mut k: u64 = 1;
        while k < max_iter
            invariant
                1 <= k,
                max_iter > 0 ==> k <= max_iter,
                s.wf(),
                max_iter > 0 ==> s.step as int + max_iter - k <= u64::MAX as int,
                !in_bulb(self.c),
                max_iter > 0 ==> run_from(s, (max_iter - k) as nat) == spec_to_threshold(
                    *self,
                    max_iter,
                ),
            decreases max_iter as int - k as int,
        {
            let znext = mandelbrot_next(s.zn, s.c);
            let mut t = s;
            t.zn = znext;
            t.step = s.step + 1;
            if t.step_curr == t.step_lim {
                t.old_zn = t.zn;
                t.step_curr = 0;
                t.step_lim = if t.step_lim < 0x8000_0000_0000_0000 {
                    t.step_lim * 2
                } else {
                    t.step_lim
                };
            } else {
                t.step_curr = t.step_curr + 1;
            }
            proof {
                assert(t == advanced(s));
            }
            if t.bailed_out() {
                return Some(t);
            }
            if cx_eq(t.zn, s.old_zn) {
                return Some(t);
            }
            s = t;
            k = k + 1;
        }
        None
    }
}

/// One step of the Mandelbrot recurrence, `z * z + c`.
pub(crate) fn mandelbrot_next(z: ComplexPoint, c: ComplexPoint) -> (r: ComplexPoint)
    ensures
        r == next_of(z, c),
{
    cx_add(cx_mul(z, z), c)
}

/// Evaluates one seed with a step budget: the escape-time record when a
/// stopping test fires within the budget, `None` for a point presumed in
/// the set.
pub fn evaluate(seed: ComplexPoint, max_step: u64) -> (r: Option<MnComputation>)
    ensures
        r == spec_evaluate(seed, max_step),
{
    MnComputation::new(seed).to_threshold(max_step)
}

/// A seed inside the main cardioid or the period-2 bulb is rejected
/// outright, whatever the iteration budget.
pub proof fn lemma_bulb_rejected(seed: ComplexPoint, max_step: u64)
    requires
        in_bulb(seed),
    ensures
        spec_evaluate(seed, max_step) is None,
{
}

/// A seed (not claimed by the bulb tests) whose first iterate already
/// exceeds the escape radius is caught at the first opportunity: the
/// record comes back after exactly one step, holding that iterate.
pub proof fn lemma_escape_detected_immediately(seed: ComplexPoint, max_step: u64)
    requires
        !in_bulb(seed),
        bails(next_of(spec_new(seed).zn, seed)),
        max_step >= 2,
    ensures
        spec_evaluate(seed, max_step) matches Some(rec) && rec.step == 1 && bails(rec.zn)
            && rec.zn == next_of(spec_new(seed).zn, seed),
{
    let s0 = spec_new(seed);
    let t = advanced(s0);
    assert(run_from(s0, (max_step - 1) as nat) == Some(t));
}

/// The evaluator is a function of its arguments: two results that each
/// satisfy the contract of `evaluate` for the same seed and budget are
/// bit-identical records.
pub proof fn lemma_evaluate_deterministic(
    r1: Option<MnComputation>,
    r2: Option<MnComputation>,
    seed: ComplexPoint,
    max_step: u64,
)
    requires
        r1 == spec_evaluate(seed, max_step),
        r2 == spec_evaluate(seed, max_step),
    ensures
        r1 == r2,
{
}

/// A run that stops within its budget has stepped at most `budget` times
/// past the starting state.
proof fn lemma_run_from_step_bound(s: MnComputation, budget: nat)
    ensures
        run_from(s, budget) matches Some(t) ==> t.step as int <= s.step as int + budget,
    decreases budget,
{
    if budget > 0 {
        let t = advanced(s);
        assert(t.step as int <= s.step as int + 1);
        if !bails(t.zn) && !ceq_of(t.zn, s.old_zn) {
            lemma_run_from_step_bound(t, (budget - 1) as nat);
        }
    }
}

/// A record returned within a budget of `max_step` has performed fewer
/// than `max_step` steps: the step count never exceeds the budget.
pub proof fn lemma_step_within_budget(seed: ComplexPoint, max_step: u64)
    ensures
        spec_evaluate(seed, max_step) matches Some(rec) ==> rec.step < max_step,
{
    if max_step > 0 {
        lemma_run_from_step_bound(spec_new(seed), (max_step - 1) as nat);
    }
}

/// A run that stops does so at a terminal state: the returned record is
/// one committed step past some reached state, and either its iterate has
/// left the escape radius or it equals that state's checkpoint.
proof fn lemma_run_from_stops_terminal(s: MnComputation, budget: nat)
    ensures
        run_from(s, budget) matches Some(t) ==> exists|p: MnComputation|
            t == advanced(p) && (bails(t.zn) || ceq_of(t.zn, p.old_zn)),
    decreases budget,
{
    if budget > 0 {
        let t = advanced(s);
        if bails(t.zn) || ceq_of(t.zn, s.old_zn) {
            assert(t == advanced(s) && (bails(t.zn) || ceq_of(t.zn, s.old_zn)));
        } else {
            lemma_run_from_stops_terminal(t, (budget - 1) as nat);
        }
    }
}

/// A record handed back by the evaluator is a terminal state, never a
/// half-finished one: either its iterate escaped, or it matched the
/// cycle-detection checkpoint of the state it was stepped from.
pub proof fn lemma_record_is_terminal(seed: ComplexPoint, max_step: u64)
    ensures
        spec_evaluate(seed, max_step) matches Some(rec) ==> exists|p: MnComputation|
            rec == advanced(p) && (bails(rec.zn) || ceq_of(rec.zn, p.old_zn)),
{
    if max_step > 0 {
        lemma_run_from_stops_terminal(spec_new(seed), (max_step - 1) as nat);
    }
}

} // verus!
