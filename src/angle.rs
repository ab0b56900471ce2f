use vstd::prelude::*;
use vstd::arithmetic::div_mod::{lemma_fundamental_div_mod, lemma_fundamental_div_mod_converse};

verus! {

/// Angle units in half a turn (π radians).
pub const HALF_TURN: i64 = 1_000_000;

/// Angle units in a full turn (2π radians).
pub const FULL_TURN: i64 = 2_000_000;

/// Largest magnitude of an angle handed to `wrap_angle`.
pub const MAX_ANGLE: i64 = 1_000_000_000_000_000;

/// The angle `a` brought into `[0, FULL_TURN)`.
pub open spec fn wrap(a: int) -> int {
    a % (FULL_TURN as int)
}

/// Brings an angle into `[0, FULL_TURN)`, keeping it the same modulo a full turn.
pub fn wrap_angle(a: i64) -> (r: i64)
    requires
        -MAX_ANGLE <= a <= MAX_ANGLE,
    ensures
        r == wrap(a as int),
        0 <= r < FULL_TURN,
{
    let f: u64 = FULL_TURN as u64;
    if a >= 0 {
        let m = (a as u64) % f;
        proof {
            lemma_fundamental_div_mod(a as int, f as int);
        }
        m as i64
    } else {
        let n: u64 = (-a) as u64;
        let m = n % f;
        proof {
            lemma_fundamental_div_mod(n as int, f as int);
            let q = n as int / f as int;
            if m == 0 {
                lemma_fundamental_div_mod_converse(a as int, f as int, -q, 0);
            } else {
                lemma_fundamental_div_mod_converse(a as int, f as int, -q - 1, f - m);
            }
        }
        if m == 0 {
            0
        } else {
            FULL_TURN - m as i64
        }
    }
}

/// The signed shortest turn from `from` to `to`, in `(-HALF_TURN, HALF_TURN]`.
pub open spec fn angle_diff(from: int, to: int) -> int {
    let d = wrap(to - from);
    if d > HALF_TURN {
        d - FULL_TURN
    } else {
        d
    }
}

pub fn shortest_turn(from: i64, to: i64) -> (r: i64)
    requires
        0 <= from < FULL_TURN,
        0 <= to < FULL_TURN,
    ensures
        r == angle_diff(from as int, to as int),
        -HALF_TURN < r <= HALF_TURN,
{
    let d = wrap_angle(to - from);
    if d > HALF_TURN {
        d - FULL_TURN
    } else {
        d
    }
}

/// `v * a / d`, rounded toward zero.
pub open spec fn mul_div_trunc(v: int, a: int, d: int) -> int {
    if v >= 0 {
        v * a / d
    } else {
        -((-v) * a / d)
    }
}

/// `v * a / d`, rounded toward zero, for a result within `MAX_ANGLE`.
pub fn scale_trunc(v: i64, a: u64, d: u64) -> (r: i64)
    requires
        -MAX_ANGLE <= v <= MAX_ANGLE,
        d > 0,
        a <= u64::MAX / 2,
        (if v >= 0 { v as int } else { -v }) * (a as int) / (d as int) <= MAX_ANGLE,
    ensures
        r == mul_div_trunc(v as int, a as int, d as int),
        -MAX_ANGLE <= r <= MAX_ANGLE,
{
    let mag: u128 = if v >= 0 { v as u128 } else { (-v) as u128 };
    assert(mag * a <= u128::MAX) by (nonlinear_arith)
        requires mag <= MAX_ANGLE, a <= u64::MAX;
    let q: u128 = mag * (a as u128) / (d as u128);
    if v >= 0 {
        q as i64
    } else {
        -(q as i64)
    }
}

} // verus!
