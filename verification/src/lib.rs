//! Verified core of a laptop cooling-fan controller.
//!
//! The library owns the logic that is worth proving: validation and
//! stepping of fan-speed ramps under a generation-based supersession
//! scheme, the byte- and code-level protocol of the two hardware
//! backends, parsing of temperature readings, and the ordering of the
//! outbound event buffer. All actual hardware access (device control
//! calls, the embedded-controller register file, sensor enumeration)
//! is performed by the surrounding unverified binary, which feeds
//! plain values into these functions and carries their decisions out.

use vstd::prelude::*;

pub mod backend;
pub mod events;
pub mod ramp;
pub mod sampler;
pub mod speed;

verus! {

/// Errors of the fan-control core.
#[derive(Clone, Copy, Debug, PartialEq, Eq, Structural)]
pub enum FanError {
    /// A requested speed is not a step multiple or exceeds the maximum.
    InvalidTarget,
    /// The device handle has not been opened yet.
    DeviceUnavailable,
    /// A driver transaction returned a failure status; carries the
    /// attempted operation.
    HardwareFault(crate::backend::DriverOp),
    /// The sensor topology lookup failed; readings degrade to the
    /// sentinel value instead.
    SensorUnavailable,
}

} // verus!
