//! Angle wrapping and rate limiting on fixed-point values.

use vstd::prelude::*;
use vstd::arithmetic::div_mod::{
    lemma_fundamental_div_mod, lemma_mod_multiples_vanish, lemma_small_mod,
};
use crate::fixed::{
    add_wide, magnitude, product, saturate, saturated, scaled, truncated_quotient,
};

verus! {

/// One full turn, in microdegrees.
pub const FULL_TURN: i64 = 360_000_000;

/// Half a turn, in microdegrees.
pub const HALF_TURN: i64 = 180_000_000;

/// The canonical representative of an angle: the one value congruent to
/// `value` modulo a full turn that lies in the half-open range from minus
/// half a turn (excluded) to plus half a turn (included).
pub open spec fn wrapped(value: int) -> int {
    let r = value % (FULL_TURN as int);
    if r > HALF_TURN { r - FULL_TURN } else { r }
}

/// Whether an angle is its own canonical representative.
pub open spec fn is_canonical(value: int) -> bool {
    -HALF_TURN < value <= HALF_TURN
}

/// Whole turns make no difference to the wrapped angle.
pub proof fn lemma_wrapped_ignores_turns(value: int, turns: int)
    ensures
        wrapped(value + FULL_TURN * turns) == wrapped(value),
{
    lemma_mod_multiples_vanish(turns, value, FULL_TURN as int);
}

/// A canonical angle wraps to itself.
pub proof fn lemma_wrapped_of_canonical(value: int)
    requires
        is_canonical(value),
    ensures
        wrapped(value) == value,
{
    if value >= 0 {
        lemma_small_mod(value as nat, FULL_TURN as nat);
    } else {
        lemma_mod_multiples_vanish(1, value, FULL_TURN as int);
        lemma_small_mod((value + FULL_TURN) as nat, FULL_TURN as nat);
    }
}

/// The wrapped angle differs from the angle by whole turns; the number of
/// turns is returned.
pub proof fn lemma_wrapped_turns(value: int) -> (turns: int)
    ensures
        wrapped(value) == value + FULL_TURN * turns,
        is_canonical(wrapped(value)),
{
    let full = FULL_TURN as int;
    lemma_fundamental_div_mod(value, full);
    if value % full > HALF_TURN {
        -(value / full) - 1
    } else {
        -(value / full)
    }
}

/// Wraps an angle in microdegrees to the canonical range.
pub fn degree_wrap(value: i64) -> (val: i64)
    ensures
        val == wrapped(value as int),
        is_canonical(val as int),
{
    let r: i64 = value % FULL_TURN;
    proof {
        if value < 0 {
            // The machine remainder of a negative value is minus the
            // remainder of its opposite.
            let full = FULL_TURN as int;
            let back = (-value) % full;
            lemma_fundamental_div_mod(-value, full);
            lemma_wrapped_ignores_turns(-back, -((-value) / full));
            if back < HALF_TURN {
                lemma_wrapped_of_canonical(-back);
            } else {
                lemma_wrapped_ignores_turns(-back, 1);
                lemma_wrapped_of_canonical(-back + full);
            }
        }
    }
    if r > HALF_TURN {
        r - FULL_TURN
    } else if r <= -HALF_TURN {
        r + FULL_TURN
    } else {
        r
    }
}

/// Turning an angle round turns its wrapped value round, except at half a
/// turn, which is its own opposite.
pub proof fn lemma_wrapped_negation(value: int)
    ensures
        wrapped(-value) == if wrapped(value) == HALF_TURN {
            HALF_TURN as int
        } else {
            -wrapped(value)
        },
{
    let turns = lemma_wrapped_turns(value);
    lemma_wrapped_ignores_turns(-wrapped(value), turns);
    if wrapped(value) == HALF_TURN {
        lemma_wrapped_ignores_turns(-(HALF_TURN as int), 1);
        lemma_wrapped_of_canonical(HALF_TURN as int);
    } else {
        lemma_wrapped_of_canonical(-wrapped(value));
    }
}

/// Wrapping either side of a difference first does not change the wrapped
/// difference.
pub proof fn lemma_wrapped_difference(a: int, b: int)
    ensures
        wrapped(wrapped(a) - wrapped(b)) == wrapped(a - b),
{
    let turns_a = lemma_wrapped_turns(a);
    let turns_b = lemma_wrapped_turns(b);
    lemma_wrapped_ignores_turns(a - b, turns_a - turns_b);
}

/// The signed shortest way round from `current` to `target`: the
/// canonical representative of their difference.
pub fn angle_error(target: i64, current: i64) -> (error: i64)
    ensures
        error == wrapped(target - current),
        is_canonical(error as int),
{
    let t: i64 = degree_wrap(target);
    let c: i64 = degree_wrap(current);
    proof {
        lemma_wrapped_difference(target as int, current as int);
    }
    degree_wrap(t - c)
}

/// The ratio of a half turn in radians to a half turn in degrees, as a
/// fraction: pi to fifteen decimal places over 180, both times ten to the
/// fifteenth.
pub const PI_SCALED: i64 = 3_141_592_653_589_793;

/// The denominator that goes with `PI_SCALED`.
pub const HALF_TURN_SCALED: i64 = 180_000_000_000_000_000;

/// An angle in microdegrees as microradians, rounded toward zero.
pub open spec fn in_radians(deg: int) -> int {
    truncated_quotient(deg * PI_SCALED, HALF_TURN_SCALED as int)
}

/// An angle in microradians as microdegrees, rounded toward zero and
/// saturated.
pub open spec fn in_degrees(rad: int) -> int {
    saturated(truncated_quotient(rad * HALF_TURN_SCALED, PI_SCALED as int))
}

/// Converts an angle from microdegrees to microradians.
pub fn deg_to_rad(deg: i64) -> (rad: i64)
    ensures
        rad == in_radians(deg as int),
{
    saturate(product(deg, PI_SCALED) / HALF_TURN_SCALED as i128)
}

/// Converts an angle from microradians to microdegrees.
pub fn rad_to_deg(rad: i64) -> (deg: i64)
    ensures
        deg == in_degrees(rad as int),
{
    saturate(product(rad, HALF_TURN_SCALED) / PI_SCALED as i128)
}

/// `value` with its sign replaced by that of `sign`; zero counts as
/// positive.
pub open spec fn with_sign_of(value: int, sign: int) -> int {
    if sign < 0 { -magnitude(value) } else { magnitude(value) }
}

/// The command that a rate limiter lets through: `spin` itself when it is
/// within reach of `last_spin` at `change` per unit of time over `delta`,
/// else `last_spin` moved by that much in the direction of `spin`.
pub open spec fn slewed(last_spin: int, spin: int, change: int, delta: int) -> int {
    if magnitude(last_spin) + change * delta < magnitude(spin) {
        saturated(last_spin + with_sign_of(change, spin) * delta)
    } else {
        spin
    }
}

/// As `slewed`, but a command that is no larger than the last one passes
/// at once.
pub open spec fn slewed_accelerating(last_spin: int, spin: int, change: int, delta: int) -> int {
    if magnitude(last_spin) < magnitude(spin) {
        slewed(last_spin, spin, change, delta)
    } else {
        spin
    }
}

/// With a non-negative rate and interval, the rate limiter never hands out
/// more than was asked for.
pub proof fn lemma_slewed_within_command(last_spin: int, spin: int, change: int, delta: int)
    requires
        change >= 0,
        delta >= 0,
    ensures
        magnitude(slewed(last_spin, spin, change, delta)) <= magnitude(spin),
        magnitude(slewed_accelerating(last_spin, spin, change, delta)) <= magnitude(spin),
{
    assert(change * delta >= 0) by (nonlinear_arith)
        requires
            change >= 0,
            delta >= 0,
    ;
    assert((-change) * delta == -(change * delta)) by (nonlinear_arith);
}

/// Limits how fast a command may change: `change` per unit of time, over
/// the `delta` that passed since `last_spin` was sent.
pub fn slew(last_spin: i64, spin: i64, change: i64, delta: i64) -> (r: i64)
    ensures
        r == slewed(last_spin as int, spin as int, change as int, delta as int),
{
    let reach: i128 = product(change, delta);
    let last_size: i128 = if last_spin < 0 { -(last_spin as i128) } else { last_spin as i128 };
    let spin_size: i128 = if spin < 0 { -(spin as i128) } else { spin as i128 };
    if last_size + reach < spin_size {
        let rate: i128 = if change < 0 { -(change as i128) } else { change as i128 };
        let signed: i128 = if spin < 0 { -rate } else { rate };
        saturate(add_wide(last_spin as i128, scaled(signed, delta)))
    } else {
        spin
    }
}

/// Like `slew`, but limits only while the command grows.
pub fn slew_acc(last_spin: i64, spin: i64, change: i64, delta: i64) -> (r: i64)
    ensures
        r == slewed_accelerating(last_spin as int, spin as int, change as int, delta as int),
{
    let last_size: i128 = if last_spin < 0 { -(last_spin as i128) } else { last_spin as i128 };
    let spin_size: i128 = if spin < 0 { -(spin as i128) } else { spin as i128 };
    if last_size < spin_size {
        slew(last_spin, spin, change, delta)
    } else {
        spin
    }
}

} // verus!
