//! The event sink's verified side: the events the controller and the
//! sampler owe the observer, their topics, and a first-in-first-out
//! buffer that decouples the producers from a slow observer while
//! keeping the order of emission — the surrounding binary drains the
//! buffer and pushes each event over its transport.

use std::collections::VecDeque;

use vstd::prelude::*;

verus! {

/// One notification owed to the observer.
#[derive(Clone, Copy, Debug, PartialEq, Eq, Structural)]
pub enum FanEvent {
    /// A temperature reading, in degrees (or the sentinel).
    CpuTemp(i32),
    /// A committed ramp step, in revolutions per minute.
    FanRpm(u64),
    /// A ramp completed: the observer may release its interaction lock.
    ReleaseBtnLock,
    /// A ramp was abandoned after repeated hardware faults.
    RampError,
}

/// The topic an event is published under.
pub fn event_topic(e: &FanEvent) -> (t: &'static str)
    ensures
        e is CpuTemp ==> t@ == "cpu_temp"@,
        e is FanRpm ==> t@ == "fan_rpm"@,
        e is ReleaseBtnLock ==> t@ == "release_btn_lock"@,
        e is RampError ==> t@ == "fan_ramp_error"@,
{
    match e {
        FanEvent::CpuTemp(_) => "cpu_temp",
        FanEvent::FanRpm(_) => "fan_rpm",
        FanEvent::ReleaseBtnLock => "release_btn_lock",
        FanEvent::RampError => "fan_ramp_error",
    }
}

/// A first-in-first-out buffer of pending events. Producers push
/// without blocking on the observer; whoever drains it receives the
/// events in exactly the order they were emitted.
pub struct EventQueue {
    items: VecDeque<FanEvent>,
}

impl EventQueue {
    /// The pending events, oldest first.
    pub closed spec fn view(&self) -> Seq<FanEvent> {
        self.items@
    }

    /// An empty buffer.
    pub fn new() -> (q: EventQueue)
        ensures
            q@ == Seq::<FanEvent>::empty(),
    {
        EventQueue { items: VecDeque::new() }
    }

    /// How many events are pending.
    pub fn len(&self) -> (n: usize)
        ensures
            n == self@.len(),
    {
        self.items.len()
    }

    /// Append an event; everything already pending stays ahead of it.
    pub fn emit(&mut self, e: FanEvent)
        ensures
            final(self)@ == old(self)@.push(e),
    {
        self.items.push_back(e);
    }

    /// Take the oldest pending event, if any.
    pub fn drain_one(&mut self) -> (r: Option<FanEvent>)
        ensures
            old(self)@.len() == 0 ==> r is None && final(self)@ == old(self)@,
            old(self)@.len() > 0 ==> r == Some(old(self)@[0]) && final(self)@ == old(
                self,
            )@.drop_first(),
    {
        let r = self.items.pop_front();
        proof {
            if old(self)@.len() > 0 {
                assert(old(self)@.subrange(1, old(self)@.len() as int) =~= old(
                    self,
                )@.drop_first());
            }
        }
        r
    }
}

} // verus!
