//! The fan ramp controller.
//!
//! The controller owns the logical fan state: the committed speed, the
//! recorded target, and a generation counter. A caller records a new
//! target with [`RampController::request_target`]; a background task,
//! tied to the generation it was spawned under, repeatedly calls
//! [`RampController::tick`] and carries the returned decision out
//! (write a speed, emit an event, or exit). Every effective request
//! bumps the generation and asks the caller to spawn a task under the
//! new value; the bump is the cancellation signal for every task
//! spawned earlier, which exits without touching hardware on its next
//! tick. So exactly one live task holds the latest generation, at most
//! one logical ramp is active at a time, and the committed speed
//! converges to the most recently requested target. A proposed step
//! is committed only when its hardware write is reported successful,
//! so the recorded speed is always one the hardware was given.
//!
//! The surrounding binary holds the controller behind a lock and calls
//! each method as one atomic transaction; the contracts here describe
//! every such transaction exactly, so the interleaving of tasks can be
//! reasoned about over the spec-level transition functions
//! [`spec_request_state`] and [`spec_tick_state`].

use vstd::prelude::*;

use crate::FanError;
use crate::speed::{
    FAN_SPEED_STEP, RPM_MAX, iterated_step, lemma_step_toward_valid,
    lemma_steps_reach_target, next_speed, step_toward, steps_to_target, valid_target,
};

verus! {

/// How many consecutive failed hardware writes a ramp survives before
/// it is abandoned.
pub const MAX_CONSECUTIVE_FAULTS: u64 = 3;

/// The logical fan state owned by the ramp controller.
pub struct RampController {
    /// Last speed successfully written to hardware (or the normalized
    /// seed of the initial hardware read).
    pub current: u64,
    /// Speed the most recent request asked for.
    pub target: u64,
    /// Bumped by every effective request; a ramp task is tied to the
    /// value this had when the task was spawned.
    pub generation: u64,
    /// Whether a ramp task is running.
    pub active: bool,
    /// Consecutive failed hardware writes of the running ramp.
    pub faults: u64,
}

/// What a request decided.
#[derive(Clone, Copy, Debug, PartialEq, Eq, Structural)]
pub enum RampDecision {
    /// The fan is already committed at the requested speed: nothing to
    /// do, no task spawned, no event owed.
    AlreadyAtTarget,
    /// Spawn a ramp task under this generation. Any task still running
    /// was spawned under an older generation and will exit on its next
    /// tick; the new task owns the ramp from here.
    SpawnTask(u64),
}

/// What a ramp task must do next.
#[derive(Clone, Copy, Debug, PartialEq, Eq, Structural)]
pub enum RampTick {
    /// The task was superseded by a newer request: exit without
    /// touching hardware and without emitting anything.
    Stale,
    /// One step toward the target is proposed: write this speed to
    /// hardware and report the outcome; the step is committed only on
    /// a successful report.
    Step(u64),
    /// The target is reached under the latest generation: emit the
    /// completion event and exit.
    Done,
    /// Too many consecutive write faults: emit an error event and exit.
    Abort,
}

/// What to do after reporting a hardware write result.
#[derive(Clone, Copy, Debug, PartialEq, Eq, Structural)]
pub enum WriteAdvice {
    /// Carry on with the next tick.
    Proceed,
    /// The write failed: read the controller mode and, if the firmware
    /// has taken the fan back, request user control before retrying.
    CheckMode,
}

impl RampController {
    /// Internal consistency: an active ramp runs toward a requestable
    /// target; an idle controller is converged; the fault count never
    /// exceeds its bound.
    pub open spec fn wf(self) -> bool {
        &&& valid_target(self.current)
        &&& self.active ==> valid_target(self.target)
        &&& !self.active ==> self.current == self.target
        &&& self.faults <= MAX_CONSECUTIVE_FAULTS
    }
}

/// The state after `request_target(t)`.
pub open spec fn spec_request_state(s: RampController, t: u64) -> RampController {
    if !valid_target(t) {
        s
    } else if !s.active && t == s.current {
        s
    } else {
        RampController {
            current: s.current,
            target: t,
            generation: (s.generation + 1) as u64,
            active: true,
            faults: 0,
        }
    }
}

/// The result of `request_target(t)`.
pub open spec fn spec_request_result(s: RampController, t: u64) -> Result<
    RampDecision,
    FanError,
> {
    if !valid_target(t) {
        Err(FanError::InvalidTarget)
    } else if !s.active && t == s.current {
        Ok(RampDecision::AlreadyAtTarget)
    } else {
        Ok(RampDecision::SpawnTask((s.generation + 1) as u64))
    }
}

/// The state after a tick of a task spawned under generation `g`.
pub open spec fn spec_tick_state(s: RampController, g: u64) -> RampController {
    if g != s.generation || !s.active {
        s
    } else if s.faults >= MAX_CONSECUTIVE_FAULTS {
        RampController {
            current: s.current,
            target: s.current,
            generation: s.generation,
            active: false,
            faults: 0,
        }
    } else if s.current == s.target {
        RampController {
            current: s.current,
            target: s.target,
            generation: s.generation,
            active: false,
            faults: s.faults,
        }
    } else {
        s
    }
}

/// The decision a tick of a task spawned under generation `g` returns.
pub open spec fn spec_tick_result(s: RampController, g: u64) -> RampTick {
    if g != s.generation || !s.active {
        RampTick::Stale
    } else if s.faults >= MAX_CONSECUTIVE_FAULTS {
        RampTick::Abort
    } else if s.current == s.target {
        RampTick::Done
    } else {
        RampTick::Step(step_toward(s.current, s.target))
    }
}

/// The state after a write result is reported by the task of
/// generation `g`: a successful write commits the proposed step, a
/// failed one leaves the speed for retry and counts the fault.
pub open spec fn spec_report_state(s: RampController, g: u64, ok: bool) -> RampController {
    if g != s.generation || !s.active {
        s
    } else if ok {
        RampController {
            current: step_toward(s.current, s.target),
            target: s.target,
            generation: s.generation,
            active: s.active,
            faults: 0,
        }
    } else {
        RampController {
            current: s.current,
            target: s.target,
            generation: s.generation,
            active: s.active,
            faults: if s.faults < MAX_CONSECUTIVE_FAULTS {
                (s.faults + 1) as u64
            } else {
                s.faults
            },
        }
    }
}

impl RampController {
    /// A controller seeded from an initial hardware read, normalized
    /// to the speed invariant (see `normalize_speed`): idle, with the
    /// committed speed and the target both at the seed.
    pub fn new(initial: u64) -> (c: RampController)
        requires
            valid_target(initial),
        ensures
            c.wf(),
            c.current == initial,
            c.target == initial,
            c.generation == 0,
            !c.active,
            c.faults == 0,
    {
        RampController {
            current: initial,
            target: initial,
            generation: 0,
            active: false,
            faults: 0,
        }
    }

    /// Record a new target speed.
    ///
    /// An invalid speed is rejected before anything changes. A valid
    /// one that changes anything bumps the generation — superseding
    /// any running task — records the target, and asks the caller to
    /// spawn a task under the new generation to carry the ramp on.
    /// Requesting the speed the idle controller is already committed
    /// at is a no-op.
    pub fn request_target(&mut self, t: u64) -> (r: Result<RampDecision, FanError>)
        requires
            old(self).wf(),
            old(self).generation < u64::MAX,
        ensures
            final(self).wf(),
            *final(self) == spec_request_state(*old(self), t),
            r == spec_request_result(*old(self), t),
            !valid_target(t) ==> r == Err::<RampDecision, FanError>(FanError::InvalidTarget)
                && *final(self) == *old(self),
            valid_target(t) ==> r is Ok && final(self).target == t,
    {
        if t % FAN_SPEED_STEP != 0 || t > RPM_MAX {
            return Err(FanError::InvalidTarget);
        }
        if !self.active && t == self.current {
            return Ok(RampDecision::AlreadyAtTarget);
        }
        self.generation = self.generation + 1;
        self.target = t;
        self.active = true;
        self.faults = 0;
        Ok(RampDecision::SpawnTask(self.generation))
    }

    /// One loop iteration of the ramp task spawned under generation
    /// `g`: decide whether to exit as superseded, abort after repeated
    /// faults, finish, or propose one step toward the target. A
    /// proposed step changes nothing yet; it is committed by
    /// `report_write` once its hardware write succeeded.
    pub fn tick(&mut self, g: u64) -> (r: RampTick)
        requires
            old(self).wf(),
        ensures
            final(self).wf(),
            *final(self) == spec_tick_state(*old(self), g),
            r == spec_tick_result(*old(self), g),
            g != old(self).generation ==> *final(self) == *old(self) && r == RampTick::Stale,
    {
        if g != self.generation || !self.active {
            return RampTick::Stale;
        }
        if self.faults >= MAX_CONSECUTIVE_FAULTS {
            self.target = self.current;
            self.active = false;
            self.faults = 0;
            return RampTick::Abort;
        }
        if self.current == self.target {
            self.active = false;
            return RampTick::Done;
        }
        RampTick::Step(next_speed(self.current, self.target))
    }

    /// Report whether the hardware write of the proposed step
    /// succeeded. A success commits the step and clears the fault
    /// count; a failure leaves the speed uncommitted — the next tick
    /// proposes it again — raises the fault count (up to the bound),
    /// and asks the task to check the controller mode before retrying.
    pub fn report_write(&mut self, g: u64, ok: bool) -> (advice: WriteAdvice)
        requires
            old(self).wf(),
        ensures
            final(self).wf(),
            *final(self) == spec_report_state(*old(self), g, ok),
            advice == (if !ok && g == old(self).generation && old(self).active {
                WriteAdvice::CheckMode
            } else {
                WriteAdvice::Proceed
            }),
    {
        if g != self.generation || !self.active {
            return WriteAdvice::Proceed;
        }
        if ok {
            self.current = next_speed(self.current, self.target);
            self.faults = 0;
            WriteAdvice::Proceed
        } else {
            if self.faults < MAX_CONSECUTIVE_FAULTS {
                self.faults = self.faults + 1;
            }
            WriteAdvice::CheckMode
        }
    }
}

/// One fault-free loop iteration of the task of generation `g`: the
/// tick's decision followed, where a step was proposed, by the report
/// of its successful write.
pub open spec fn spec_cycle_state(s: RampController, g: u64) -> RampController {
    spec_report_state(spec_tick_state(s, g), g, true)
}

/// The controller state after `n` fault-free loop iterations of the
/// task of generation `g`, with no request in between.
pub open spec fn iterated_cycle(s: RampController, g: u64, n: nat) -> RampController
    decreases n,
{
    if n == 0 {
        s
    } else {
        iterated_cycle(spec_cycle_state(s, g), g, (n - 1) as nat)
    }
}

/// The controller state after a sequence of requests.
pub open spec fn apply_requests(s: RampController, ts: Seq<u64>) -> RampController
    decreases ts.len(),
{
    if ts.len() == 0 {
        s
    } else {
        apply_requests(spec_request_state(s, ts[0]), ts.subrange(1, ts.len() as int))
    }
}

/// Law: an undisturbed, fault-free ramp under the latest generation
/// commits, write by successful write, exactly the speeds
/// `iterated_step` gives — so by the laws of `iterated_step` it
/// reaches the target in `steps_to_target` writes, never overshoots,
/// and moves by at most one step unit per commit — and the tick after
/// the last commit reports completion and goes idle.
pub proof fn lemma_ramp_run(s: RampController, g: u64)
    requires
        s.wf(),
        s.active,
        g == s.generation,
        s.faults == 0,
    ensures
        forall|i: nat|
            i <= steps_to_target(s.current, s.target) ==> #[trigger] iterated_cycle(s, g, i)
                == (RampController {
                current: iterated_step(s.current, s.target, i),
                target: s.target,
                generation: s.generation,
                active: true,
                faults: 0,
            }),
        iterated_cycle(s, g, steps_to_target(s.current, s.target)).current == s.target,
        spec_tick_result(iterated_cycle(s, g, steps_to_target(s.current, s.target)), g)
            == RampTick::Done,
        forall|i: nat|
            i < steps_to_target(s.current, s.target) ==> #[trigger] spec_tick_result(
                iterated_cycle(s, g, i),
                g,
            ) == RampTick::Step(iterated_step(s.current, s.target, i + 1)),
    decreases steps_to_target(s.current, s.target),
{
    lemma_steps_reach_target(s.current, s.target);
    if s.current == s.target {
        assert forall|i: nat|
            i <= steps_to_target(s.current, s.target) implies #[trigger] iterated_cycle(s, g, i)
            == (RampController {
            current: iterated_step(s.current, s.target, i),
            target: s.target,
            generation: s.generation,
            active: true,
            faults: 0,
        }) by {
            assert(i == 0);
        }
    } else {
        let s1 = spec_cycle_state(s, g);
        assert(spec_tick_state(s, g) == s);
        assert(s1 == (RampController {
            current: step_toward(s.current, s.target),
            target: s.target,
            generation: s.generation,
            active: true,
            faults: 0,
        }));
        lemma_step_toward_valid(s.current, s.target);
        lemma_ramp_run(s1, g);
        let k = steps_to_target(s.current, s.target);
        assert(steps_to_target(s1.current, s.target) == k - 1);
        assert forall|i: nat|
            i <= k implies #[trigger] iterated_cycle(s, g, i) == (RampController {
            current: iterated_step(s.current, s.target, i),
            target: s.target,
            generation: s.generation,
            active: true,
            faults: 0,
        }) by {
            if i == 0 {
                assert(iterated_cycle(s, g, 0) == s);
                assert(iterated_step(s.current, s.target, 0) == s.current);
            } else {
                assert(iterated_cycle(s, g, i) == iterated_cycle(s1, g, (i - 1) as nat));
                assert(iterated_step(s.current, s.target, i)
                    == iterated_step(s1.current, s.target, (i - 1) as nat));
            }
        }
        assert forall|i: nat|
            i < k implies #[trigger] spec_tick_result(iterated_cycle(s, g, i), g)
            == RampTick::Step(iterated_step(s.current, s.target, i + 1)) by {
            if i == 0 {
                assert(iterated_step(s.current, s.target, 1)
                    == iterated_step(s1.current, s.target, 0));
            } else {
                assert(iterated_cycle(s, g, i) == iterated_cycle(s1, g, (i - 1) as nat));
                assert(iterated_step(s.current, s.target, i + 1)
                    == iterated_step(s1.current, s.target, i as nat));
                assert(spec_tick_result(iterated_cycle(s1, g, (i - 1) as nat), g)
                    == RampTick::Step(iterated_step(s1.current, s.target, ((i - 1) + 1) as nat)));
            }
        }
    }
}

/// Law: a tick under a superseded generation neither changes the state
/// nor asks for any write or event.
pub proof fn lemma_stale_tick_inert(s: RampController, g: u64)
    requires
        g != s.generation,
    ensures
        spec_tick_state(s, g) == s,
        spec_tick_result(s, g) == RampTick::Stale,
{
}

/// Law: a valid request made while a ramp is active supersedes every
/// task spawned so far — the recorded target becomes the requested
/// one, the generation strictly increases, a tick under any earlier
/// generation is inert, and the request's decision spawns a successor
/// task under the new generation, which continues the ramp.
pub proof fn lemma_request_supersedes(s: RampController, t: u64, g: u64)
    requires
        s.active,
        valid_target(t),
        g <= s.generation,
        s.generation < u64::MAX,
    ensures
        spec_request_state(s, t).target == t,
        spec_request_state(s, t).generation == s.generation + 1,
        spec_tick_state(spec_request_state(s, t), g) == spec_request_state(s, t),
        spec_tick_result(spec_request_state(s, t), g) == RampTick::Stale,
        spec_request_result(s, t) == Ok::<RampDecision, FanError>(
            RampDecision::SpawnTask((s.generation + 1) as u64),
        ),
{
}

/// Law: after any sequence of valid requests, the recorded target is
/// the most recently requested speed. Together with `lemma_ramp_run`
/// this gives supersession correctness: the ramp that survives the
/// sequence converges to the last request's target.
pub proof fn lemma_latest_request_wins(s: RampController, ts: Seq<u64>)
    requires
        s.wf(),
        ts.len() >= 1,
        forall|i: int| 0 <= i < ts.len() ==> valid_target(#[trigger] ts[i]),
        s.generation + ts.len() <= u64::MAX,
    ensures
        apply_requests(s, ts).wf(),
        apply_requests(s, ts).target == ts.last(),
        apply_requests(s, ts).generation <= s.generation + ts.len(),
    decreases ts.len(),
{
    let s1 = spec_request_state(s, ts[0]);
    if ts.len() == 1 {
        assert(apply_requests(s1, ts.subrange(1, 1)) == s1);
    } else {
        lemma_latest_request_wins(s1, ts.subrange(1, ts.len() as int));
        assert(ts.subrange(1, ts.len() as int).last() == ts.last());
    }
}

/// Law: requesting the speed an idle controller is already committed
/// at changes nothing — no generation bump, no task, no event owed.
pub proof fn lemma_request_idempotent(s: RampController)
    requires
        s.wf(),
        !s.active,
    ensures
        spec_request_state(s, s.current) == s,
        valid_target(s.current) ==> spec_request_result(s, s.current) == Ok::<
            RampDecision,
            FanError,
        >(RampDecision::AlreadyAtTarget),
{
}

} // verus!
