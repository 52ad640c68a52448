//! The easing curve that shapes camera transitions.

use vstd::prelude::*;

verus! {

/// One fixed-point unit: the integer `SCALE` stands for the real number 1,
/// so a fixed-point value `v` stands for the real number `v / SCALE`.
pub const SCALE: i64 = 1024;

/// Quadratic ease-in/ease-out curve on fixed-point progress values in
/// `[0, SCALE]`: it accelerates through the first half and decelerates
/// through the second. In real terms it is `2*t^2` below one half and
/// `1 - 2*(1-t)^2` above.
pub open spec fn ease_spec(t: int) -> int {
    if 2 * t < SCALE {
        (2 * t * t) / (SCALE as int)
    } else {
        SCALE - (2 * (SCALE - t) * (SCALE - t)) / (SCALE as int)
    }
}

/// Shapes a normalized transition progress so camera motion accelerates and
/// then decelerates instead of moving linearly.
pub fn ease(t: i64) -> (r: i64)
    requires
        0 <= t <= SCALE,
    ensures
        r == ease_spec(t as int),
        0 <= r <= SCALE,
{
    proof {
        lemma_ease_in_range(t as int);
    }
    if 2 * t < SCALE {
        (2 * t * t) / SCALE
    } else {
        let d = SCALE - t;
        SCALE - (2 * d * d) / SCALE
    }
}

/// The curve maps `[0, 1]` into `[0, 1]`.
pub proof fn lemma_ease_in_range(t: int)
    requires
        0 <= t <= SCALE,
    ensures
        0 <= ease_spec(t) <= SCALE,
{
    let s = SCALE as int;
    if 2 * t < s {
        assert(0 <= 2 * t * t <= s * s) by (nonlinear_arith)
            requires 0 <= t && 2 * t < s && 0 < s;
        vstd::arithmetic::div_mod::lemma_div_pos_is_pos(2 * t * t, s);
        vstd::arithmetic::div_mod::lemma_div_is_ordered(2 * t * t, s * s, s);
        vstd::arithmetic::div_mod::lemma_div_by_multiple(s, s);
        assert(s * s / s == s);
    } else {
        let d = s - t;
        assert(0 <= 2 * d * d <= s * s) by (nonlinear_arith)
            requires 0 <= d && 2 * d <= s && 0 < s;
        vstd::arithmetic::div_mod::lemma_div_pos_is_pos(2 * d * d, s);
        vstd::arithmetic::div_mod::lemma_div_is_ordered(2 * d * d, s * s, s);
        vstd::arithmetic::div_mod::lemma_div_by_multiple(s, s);
        assert(s * s / s == s);
    }
}

/// The curve fixes both endpoints and the midpoint: progress 0 maps to 0,
/// 1 maps to 1, and one half maps to one half.
pub proof fn lemma_ease_endpoints()
    ensures
        ease_spec(0) == 0,
        ease_spec(SCALE as int) == SCALE,
        ease_spec((SCALE as int) / 2) == (SCALE as int) / 2,
{
}

/// The curve is monotonically non-decreasing on `[0, 1]`.
pub proof fn lemma_ease_monotone(t1: int, t2: int)
    requires
        0 <= t1 <= t2 <= SCALE,
    ensures
        ease_spec(t1) <= ease_spec(t2),
{
    let s = SCALE as int;
    if 2 * t2 < s {
        // Both on the accelerating half.
        assert(2 * t1 * t1 <= 2 * t2 * t2) by (nonlinear_arith)
            requires 0 <= t1 <= t2;
        vstd::arithmetic::div_mod::lemma_div_is_ordered(2 * t1 * t1, 2 * t2 * t2, s);
    } else if 2 * t1 >= s {
        // Both on the decelerating half.
        let d1 = s - t1;
        let d2 = s - t2;
        assert(2 * d2 * d2 <= 2 * d1 * d1) by (nonlinear_arith)
            requires 0 <= d2 <= d1;
        vstd::arithmetic::div_mod::lemma_div_is_ordered(2 * d2 * d2, 2 * d1 * d1, s);
    } else {
        // Split across the midpoint: the first half stays at or below one
        // half, the second half at or above it.
        let h = s / 2;
        assert(2 * t1 * t1 <= s * h) by (nonlinear_arith)
            requires 0 <= t1 && 2 * t1 < s && s == 1024 && h == 512;
        vstd::arithmetic::div_mod::lemma_div_is_ordered(2 * t1 * t1, s * h, s);
        vstd::arithmetic::div_mod::lemma_div_by_multiple(h, s);
        assert(s * h / s == h);
        let d2 = s - t2;
        assert(2 * d2 * d2 <= s * h) by (nonlinear_arith)
            requires 0 <= d2 && 2 * d2 <= s && s == 1024 && h == 512;
        vstd::arithmetic::div_mod::lemma_div_is_ordered(2 * d2 * d2, s * h, s);
    }
}

} // verus!
