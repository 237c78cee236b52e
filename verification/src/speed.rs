//! Fan-speed values and single-step ramp arithmetic.
//!
//! A fan speed is a number of revolutions per minute. A speed that a
//! caller may request must be a multiple of the step unit and at most
//! the maximum; a speed read back from hardware may be any value. One
//! ramp step moves the current speed toward the target by at most one
//! step unit and never overshoots.

use vstd::prelude::*;

verus! {

/// Largest requestable fan speed, in revolutions per minute.
pub const RPM_MAX: u64 = 5500;

/// One ramp step, in revolutions per minute.
pub const FAN_SPEED_STEP: u64 = 500;

/// A speed that a caller may request: a step multiple, at most the maximum.
pub open spec fn valid_target(t: u64) -> bool {
    t % FAN_SPEED_STEP == 0 && t <= RPM_MAX
}

/// The speed one ramp step away from `current`, moving toward `target`.
pub open spec fn step_toward(current: u64, target: u64) -> u64 {
    if current < target {
        if current + FAN_SPEED_STEP <= target {
            (current + FAN_SPEED_STEP) as u64
        } else {
            target
        }
    } else if current > target {
        if current >= target + FAN_SPEED_STEP {
            (current - FAN_SPEED_STEP) as u64
        } else {
            target
        }
    } else {
        current
    }
}

/// Distance between two speeds.
pub open spec fn speed_dist(a: u64, b: u64) -> nat {
    if a < b {
        (b - a) as nat
    } else {
        (a - b) as nat
    }
}

/// Normalized form of a raw hardware speed reading: clamped to the
/// maximum, then rounded down to a step multiple.
pub open spec fn spec_normalize_speed(raw: u64) -> u64 {
    let clamped: u64 = if raw > RPM_MAX {
        RPM_MAX
    } else {
        raw
    };
    ((clamped / FAN_SPEED_STEP) * FAN_SPEED_STEP) as u64
}

/// Normalize a raw hardware speed reading so it satisfies the speed
/// invariant before it is stored: readings can be arbitrary (the
/// register backend alone reports up to 25500), stored speeds may not.
pub fn normalize_speed(raw: u64) -> (r: u64)
    ensures
        r == spec_normalize_speed(raw),
        valid_target(r),
        valid_target(raw) ==> r == raw,
        r <= raw,
{
    let clamped: u64 = if raw > RPM_MAX {
        RPM_MAX
    } else {
        raw
    };
    (clamped / FAN_SPEED_STEP) * FAN_SPEED_STEP
}

/// One step between two requestable speeds lands on a requestable
/// speed again.
pub proof fn lemma_step_toward_valid(c: u64, t: u64)
    requires
        valid_target(c),
        valid_target(t),
    ensures
        valid_target(step_toward(c, t)),
{
}

/// `x` lies between `a` and `b`, whichever way round they are.
pub open spec fn speed_between(a: u64, b: u64, x: u64) -> bool {
    &&& (a <= b ==> a <= x <= b)
    &&& (b <= a ==> b <= x <= a)
}

/// The speed after `n` ramp steps from `c` toward `t`.
pub open spec fn iterated_step(c: u64, t: u64, n: nat) -> u64
    decreases n,
{
    if n == 0 {
        c
    } else {
        iterated_step(step_toward(c, t), t, (n - 1) as nat)
    }
}

/// How many ramp steps it takes to reach `t` from `c`.
pub open spec fn steps_to_target(c: u64, t: u64) -> nat
    decreases speed_dist(c, t),
{
    if c == t {
        0
    } else {
        1 + steps_to_target(step_toward(c, t), t)
    }
}

/// Compute one ramp step toward `target`.
pub fn next_speed(current: u64, target: u64) -> (r: u64)
    requires
        target <= RPM_MAX,
    ensures
        r == step_toward(current, target),
{
    if current < target {
        if target - current >= FAN_SPEED_STEP {
            current + FAN_SPEED_STEP
        } else {
            target
        }
    } else if current > target {
        if current - target >= FAN_SPEED_STEP {
            current - FAN_SPEED_STEP
        } else {
            target
        }
    } else {
        current
    }
}

/// Unfolding `iterated_step` from the far end: the speed after `n + 1`
/// steps is one step past the speed after `n` steps.
pub proof fn lemma_iterated_step_last(c: u64, t: u64, n: nat)
    ensures
        iterated_step(c, t, n + 1) == step_toward(iterated_step(c, t, n), t),
    decreases n,
{
    if n == 0 {
        assert(iterated_step(c, t, 1) == iterated_step(step_toward(c, t), t, 0));
    } else {
        lemma_iterated_step_last(step_toward(c, t), t, (n - 1) as nat);
        assert(iterated_step(c, t, n + 1)
            == iterated_step(step_toward(c, t), t, ((n + 1) - 1) as nat));
        assert(((n + 1) - 1) as nat == ((n - 1) as nat) + 1);
        assert(iterated_step(c, t, n)
            == iterated_step(step_toward(c, t), t, (n - 1) as nat));
    }
}

/// After `steps_to_target(c, t)` steps the speed is exactly `t`, and it
/// stays there.
pub proof fn lemma_steps_reach_target(c: u64, t: u64)
    ensures
        iterated_step(c, t, steps_to_target(c, t)) == t,
        forall|n: nat|
            n >= steps_to_target(c, t) ==> iterated_step(c, t, n) == t,
    decreases speed_dist(c, t),
{
    if c == t {
        assert forall|n: nat| n >= 0 implies iterated_step(c, t, n) == t by {
            lemma_step_stays_at_target(t, n);
        }
    } else {
        lemma_steps_reach_target(step_toward(c, t), t);
        assert forall|n: nat|
            n >= steps_to_target(c, t) implies iterated_step(c, t, n) == t by {
            assert(n > 0);
            assert(iterated_step(c, t, n)
                == iterated_step(step_toward(c, t), t, (n - 1) as nat));
            assert((n - 1) as nat >= steps_to_target(step_toward(c, t), t));
        }
    }
}

/// Once at the target, further steps do not move.
proof fn lemma_step_stays_at_target(t: u64, n: nat)
    ensures
        iterated_step(t, t, n) == t,
    decreases n,
{
    if n > 0 {
        lemma_step_stays_at_target(t, (n - 1) as nat);
    }
}

/// Every speed along a ramp lies between the start and the target.
pub proof fn lemma_ramp_no_overshoot(c: u64, t: u64)
    ensures
        forall|n: nat| speed_between(c, t, iterated_step(c, t, n)),
{
    assert forall|n: nat| speed_between(c, t, iterated_step(c, t, n)) by {
        lemma_between_at(c, t, n);
    }
}

proof fn lemma_between_at(c: u64, t: u64, n: nat)
    ensures
        speed_between(c, t, iterated_step(c, t, n)),
    decreases n,
{
    if n > 0 {
        lemma_between_at(step_toward(c, t), t, (n - 1) as nat);
    }
}

/// Consecutive speeds along a ramp differ by at most one step unit.
pub proof fn lemma_ramp_step_bounded(c: u64, t: u64)
    ensures
        forall|n: nat|
            speed_dist(
                #[trigger] iterated_step(c, t, n),
                iterated_step(c, t, n + 1),
            ) <= FAN_SPEED_STEP,
{
    assert forall|n: nat|
        speed_dist(
            #[trigger] iterated_step(c, t, n),
            iterated_step(c, t, n + 1),
        ) <= FAN_SPEED_STEP by {
        lemma_iterated_step_last(c, t, n);
    }
}

} // verus!
