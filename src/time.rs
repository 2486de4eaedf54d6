//! Discrete time, easing curves and interpolation.
//!
//! Progress through a segment is a fixed-point fraction in `0..=EASE_SCALE`.
use vstd::prelude::*;

verus! {

/// Fixed-point denominator of an easing progress value.
pub const EASE_SCALE: u64 = 10000;

/// Largest exponent a `Power` easing is evaluated with.
pub const MAX_POWER: i32 = 8;

/// The shape of an interpolation curve.
#[derive(Debug, Clone, Copy, PartialEq, Eq, Structural)]
pub enum Easing {
    Linear,
    SineIn,
    SineOut,
    SineInOut,
    /// Holds the start value, then snaps to the target when the segment ends.
    Jump,
    /// `t^p`, with the exponent clamped to `1..=MAX_POWER`.
    Power(i32),
}

/// How a value moves to a new target: over `duration` ticks with an easing curve.
#[derive(Debug, Clone, Copy, PartialEq, Eq, Structural)]
pub struct Tween {
    pub duration: u32,
    pub easing: Easing,
}

impl Tween {
    /// A linear tween over `duration` ticks.
    pub fn linear(duration: u32) -> (r: Tween)
        ensures
            r == (Tween { duration, easing: Easing::Linear }),
    {
        Tween { duration, easing: Easing::Linear }
    }
}

/// A signed tick count as a duration; negative counts mean "now".
pub open spec fn ticks_of(t: i32) -> u32 {
    if t < 0 {
        0
    } else {
        t as u32
    }
}

/// Converts a signed tick count into a duration; negative counts mean "now".
pub fn ticks_from_i32(t: i32) -> (r: u32)
    ensures
        r == ticks_of(t),
{
    if t < 0 {
        0
    } else {
        t as u32
    }
}

/// Sine-in approximation, `5t^2 / (4 + t^2)` in fixed point (Bhaskara's cosine).
pub open spec fn sine_in_spec(t: nat) -> nat {
    (5 * t * t * EASE_SCALE / (4 * EASE_SCALE * EASE_SCALE + t * t)) as nat
}

/// Sine-out approximation, `4(1 - u^2) / (4 + u^2)` with `u = 1 - t`, in fixed point.
pub open spec fn sine_out_spec(t: nat) -> nat {
    let u = EASE_SCALE - t;
    ((4 * (EASE_SCALE * EASE_SCALE - u * u) * EASE_SCALE) / (4 * EASE_SCALE * EASE_SCALE + u
        * u)) as nat
}

/// Sine-in-out: the in-curve on the first half, the out-curve on the second.
pub open spec fn sine_in_out_spec(t: nat) -> nat {
    if 2 * t <= EASE_SCALE {
        sine_in_spec(2 * t) / 2
    } else {
        (EASE_SCALE / 2 + sine_out_spec((2 * t - EASE_SCALE) as nat) / 2) as nat
    }
}

pub open spec fn power_exponent(p: i32) -> nat {
    if p < 1 {
        1
    } else if p > MAX_POWER {
        MAX_POWER as nat
    } else {
        p as nat
    }
}

/// `t^e` in fixed point, one rounding step per factor.
pub open spec fn power_spec(t: nat, e: nat) -> nat
    decreases e,
{
    if e == 0 {
        EASE_SCALE as nat
    } else {
        power_spec(t, (e - 1) as nat) * t / EASE_SCALE as nat
    }
}

/// Linear progress of `elapsed` out of `duration` ticks, in fixed point.
pub open spec fn linear_progress(elapsed: nat, duration: nat) -> nat {
    ((elapsed * EASE_SCALE) as int / duration as int) as nat
}

/// Eased progress after `elapsed` of `duration` ticks.
pub open spec fn ease_spec(easing: Easing, elapsed: nat, duration: nat) -> nat {
    let t = linear_progress(elapsed, duration);
    match easing {
        Easing::Linear => t,
        Easing::SineIn => sine_in_spec(t),
        Easing::SineOut => sine_out_spec(t),
        Easing::SineInOut => sine_in_out_spec(t),
        Easing::Jump => if elapsed >= duration {
            EASE_SCALE as nat
        } else {
            0
        },
        Easing::Power(p) => power_spec(t, power_exponent(p)),
    }
}

proof fn lemma_sine_in_bounded(t: nat)
    requires
        t <= EASE_SCALE,
    ensures
        sine_in_spec(t) <= EASE_SCALE,
{
    let s = EASE_SCALE as int;
    let ti = t as int;
    let num = 5 * ti * ti * s;
    let den = 4 * s * s + ti * ti;
    assert(ti * ti <= s * s) by (nonlinear_arith)
        requires
            0 <= ti <= s,
    ;
    assert(num <= s * den) by (nonlinear_arith)
        requires
            num == 5 * ti * ti * s,
            den == 4 * s * s + ti * ti,
            ti * ti <= s * s,
            s > 0,
    ;
    assert(den > 0);
    assert(num / den <= s) by (nonlinear_arith)
        requires
            num <= s * den,
            den > 0,
            num >= 0,
    ;
}

proof fn lemma_sine_out_bounded(t: nat)
    requires
        t <= EASE_SCALE,
    ensures
        sine_out_spec(t) <= EASE_SCALE,
{
    let s = EASE_SCALE as int;
    let u = s - t;
    assert(0 <= u * u <= s * s) by (nonlinear_arith)
        requires
            0 <= u <= s,
    ;
    let num = 4 * (s * s - u * u) * s;
    let den = 4 * s * s + u * u;
    assert(num <= s * den) by (nonlinear_arith)
        requires
            num == 4 * (s * s - u * u) * s,
            den == 4 * s * s + u * u,
            u * u >= 0,
            s > 0,
    ;
    assert(num >= 0) by (nonlinear_arith)
        requires
            num == 4 * (s * s - u * u) * s,
            u * u <= s * s,
            s > 0,
    ;
    assert(num / den <= s) by (nonlinear_arith)
        requires
            num <= s * den,
            den > 0,
            num >= 0,
    ;
}

proof fn lemma_power_bounded(t: nat, e: nat)
    requires
        t <= EASE_SCALE,
    ensures
        power_spec(t, e) <= EASE_SCALE,
    decreases e,
{
    if e > 0 {
        lemma_power_bounded(t, (e - 1) as nat);
        let p = power_spec(t, (e - 1) as nat) as int;
        let s = EASE_SCALE as int;
        assert(p * t <= s * s) by (nonlinear_arith)
            requires
                0 <= p <= s,
                0 <= t <= s,
        ;
        assert(p * t / s <= s) by (nonlinear_arith)
            requires
                p * t <= s * s,
                p * t >= 0,
                s > 0,
        ;
    }
}

/// Linear progress in fixed point.
fn linear_progress_exec(elapsed: u32, duration: u32) -> (r: u64)
    requires
        duration > 0,
        elapsed <= duration,
    ensures
        r == linear_progress(elapsed as nat, duration as nat),
        r <= EASE_SCALE,
{
    let num = elapsed as u64 * EASE_SCALE;
    proof {
        let e = elapsed as int;
        let d = duration as int;
        let s = EASE_SCALE as int;
        assert(e * s <= d * s) by (nonlinear_arith)
            requires
                e <= d,
                s > 0,
        ;
        assert(e * s / d <= s) by (nonlinear_arith)
            requires
                e * s <= d * s,
                d > 0,
                e >= 0,
        ;
    }
    num / duration as u64
}

fn sine_in(t: u64) -> (r: u64)
    requires
        t <= EASE_SCALE,
    ensures
        r == sine_in_spec(t as nat),
        r <= EASE_SCALE,
{
    proof {
        lemma_sine_in_bounded(t as nat);
        assert(t * t <= EASE_SCALE * EASE_SCALE) by (nonlinear_arith)
            requires
                t <= EASE_SCALE,
        ;
        assert(5 * t * t * EASE_SCALE <= 5 * EASE_SCALE * EASE_SCALE * EASE_SCALE)
            by (nonlinear_arith)
            requires
                t * t <= EASE_SCALE * EASE_SCALE,
        ;
    }
    let num = 5 * t * t * EASE_SCALE;
    let den = 4 * EASE_SCALE * EASE_SCALE + t * t;
    num / den
}

fn sine_out(t: u64) -> (r: u64)
    requires
        t <= EASE_SCALE,
    ensures
        r == sine_out_spec(t as nat),
        r <= EASE_SCALE,
{
    proof {
        lemma_sine_out_bounded(t as nat);
    }
    let u = EASE_SCALE - t;
    proof {
        assert(u * u <= EASE_SCALE * EASE_SCALE) by (nonlinear_arith)
            requires
                u <= EASE_SCALE,
        ;
        assert(4 * (EASE_SCALE * EASE_SCALE - u * u) * EASE_SCALE <= 4 * EASE_SCALE
            * EASE_SCALE * EASE_SCALE) by (nonlinear_arith)
            requires
                u * u <= EASE_SCALE * EASE_SCALE,
        ;
    }
    let num = 4 * (EASE_SCALE * EASE_SCALE - u * u) * EASE_SCALE;
    let den = 4 * EASE_SCALE * EASE_SCALE + u * u;
    num / den
}

fn power(t: u64, e: u32) -> (r: u64)
    requires
        t <= EASE_SCALE,
    ensures
        r == power_spec(t as nat, e as nat),
        r <= EASE_SCALE,
{
    let mut acc: u64 = EASE_SCALE;
    let mut i: u32 = 0;
    while i < e
        invariant
            i <= e,
            t <= EASE_SCALE,
            acc == power_spec(t as nat, i as nat),
            acc <= EASE_SCALE,
        decreases e - i,
    {
        proof {
            lemma_power_bounded(t as nat, (i + 1) as nat);
            assert(acc * t <= EASE_SCALE * EASE_SCALE) by (nonlinear_arith)
                requires
                    acc <= EASE_SCALE,
                    t <= EASE_SCALE,
            ;
        }
        acc = acc * t / EASE_SCALE;
        i = i + 1;
    }
    acc
}

/// Eased progress, in `0..=EASE_SCALE`, after `elapsed` of `duration` ticks.
pub fn ease(easing: Easing, elapsed: u32, duration: u32) -> (r: u64)
    requires
        duration > 0,
        elapsed <= duration,
    ensures
        r == ease_spec(easing, elapsed as nat, duration as nat),
        r <= EASE_SCALE,
{
    let t = linear_progress_exec(elapsed, duration);
    match easing {
        Easing::Linear => t,
        Easing::SineIn => sine_in(t),
        Easing::SineOut => sine_out(t),
        Easing::SineInOut => {
            if 2 * t <= EASE_SCALE {
                sine_in(2 * t) / 2
            } else {
                EASE_SCALE / 2 + sine_out(2 * t - EASE_SCALE) / 2
            }
        },
        Easing::Jump => {
            if elapsed >= duration {
                EASE_SCALE
            } else {
                0
            }
        },
        Easing::Power(p) => {
            let e: u32 = if p < 1 {
                1
            } else if p > MAX_POWER {
                MAX_POWER as u32
            } else {
                p as u32
            };
            power(t, e)
        },
    }
}

/// The value `progress / EASE_SCALE` of the way from `start` to `target`,
/// rounded toward `start`.
pub open spec fn lerp_spec(start: int, target: int, progress: nat) -> int {
    if target >= start {
        start + (target - start) * progress / EASE_SCALE as int
    } else {
        start - (start - target) * progress / EASE_SCALE as int
    }
}

/// Interpolates between `start` and `target` at `progress` (fixed point).
pub fn lerp(start: i32, target: i32, progress: u64) -> (r: i32)
    requires
        progress <= EASE_SCALE,
    ensures
        r == lerp_spec(start as int, target as int, progress as nat),
        start <= target ==> start <= r <= target,
        target < start ==> target <= r <= start,
{
    let ghost s = EASE_SCALE as int;
    if target >= start {
        let d = (target as i64 - start as i64) as u64;
        proof {
            assert(d * progress <= d * s) by (nonlinear_arith)
                requires
                    progress <= s,
            ;
            assert(d * progress / s <= d) by (nonlinear_arith)
                requires
                    d * progress <= d * s,
                    s > 0,
            ;
        }
        let step = d * progress / EASE_SCALE;
        (start as i64 + step as i64) as i32
    } else {
        let d = (start as i64 - target as i64) as u64;
        proof {
            assert(d * progress <= d * s) by (nonlinear_arith)
                requires
                    progress <= s,
            ;
            assert(d * progress / s <= d) by (nonlinear_arith)
                requires
                    d * progress <= d * s,
                    s > 0,
            ;
        }
        let step = d * progress / EASE_SCALE;
        (start as i64 - step as i64) as i32
    }
}

} // verus!
