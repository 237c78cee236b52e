//! The two hardware backends, at the level the library can own: the
//! fixed protocol constants, the encoding and decoding of the values
//! that cross the device boundary, and the state of the device handle.
//!
//! The actual transactions — the device control call into the kernel
//! driver, and the seeks, reads and writes on the embedded-controller
//! register file — are raw platform I/O and are performed by the
//! surrounding binary; it asks these functions what to send and what a
//! reply means.

use vstd::prelude::*;

use crate::FanError;
use crate::speed::RPM_MAX;

verus! {

/// Who owns fan-speed decisions at the firmware level.
#[derive(Clone, Copy, Debug, PartialEq, Eq, Structural)]
pub enum ControllerMode {
    /// The firmware drives the fan.
    BiosControlled,
    /// This software drives the fan.
    UserControlled,
}

/// The four transactions the kernel driver understands.
#[derive(Clone, Copy, Debug, PartialEq, Eq, Structural)]
pub enum DriverOp {
    GetFanSpeed,
    GetController,
    SetController,
    SetFanSpeed,
}

/// The fixed control code of each driver transaction.
pub open spec fn spec_ioctl_code(op: DriverOp) -> u64 {
    match op {
        DriverOp::GetFanSpeed => 0x8004_5001,
        DriverOp::GetController => 0x8004_5002,
        DriverOp::SetController => 0x4004_5003,
        DriverOp::SetFanSpeed => 0x4004_5004,
    }
}

/// Control code to issue for a driver transaction.
pub fn ioctl_code(op: DriverOp) -> (code: u64)
    ensures
        code == spec_ioctl_code(op),
{
    match op {
        DriverOp::GetFanSpeed => 0x8004_5001,
        DriverOp::GetController => 0x8004_5002,
        DriverOp::SetController => 0x4004_5003,
        DriverOp::SetFanSpeed => 0x4004_5004,
    }
}

/// Map the return value of a driver transaction: a negative status is
/// a hardware fault carrying the attempted operation.
pub fn check_ioctl_status(status: i32, op: DriverOp) -> (r: Result<(), FanError>)
    ensures
        r is Ok <==> status >= 0,
        status < 0 ==> r == Err::<(), FanError>(FanError::HardwareFault(op)),
{
    if status < 0 {
        Err(FanError::HardwareFault(op))
    } else {
        Ok(())
    }
}

/// Decode the integer the driver reports as the controller mode: zero
/// means the firmware owns the fan, anything else means the user does.
pub fn mode_from_raw(raw: i32) -> (m: ControllerMode)
    ensures
        m == (if raw == 0 {
            ControllerMode::BiosControlled
        } else {
            ControllerMode::UserControlled
        }),
{
    if raw == 0 {
        ControllerMode::BiosControlled
    } else {
        ControllerMode::UserControlled
    }
}

/// Encode a controller mode for the driver.
pub fn mode_to_raw(m: ControllerMode) -> (raw: i32)
    ensures
        m == ControllerMode::BiosControlled <==> raw == 0,
        m == ControllerMode::UserControlled <==> raw == 1,
{
    match m {
        ControllerMode::BiosControlled => 0,
        ControllerMode::UserControlled => 1,
    }
}

/// Whether a failed ramp step should make the task request user
/// control: only when the firmware has taken the fan back.
pub fn should_force_user_control(m: ControllerMode) -> (r: bool)
    ensures
        r == (m == ControllerMode::BiosControlled),
{
    match m {
        ControllerMode::BiosControlled => true,
        ControllerMode::UserControlled => false,
    }
}

/// State of the exclusively-owned connection to the kernel driver: the
/// file descriptor of the opened device, once the surrounding binary
/// has opened it.
pub struct PankhaDevice {
    /// Raw descriptor of the open device file, if any.
    pub fd: Option<i32>,
}

impl PankhaDevice {
    /// Before the device file has been opened.
    pub fn new() -> (d: PankhaDevice)
        ensures
            d.fd is None,
    {
        PankhaDevice { fd: None }
    }

    /// Record the descriptor of the freshly opened device file.
    pub fn attach(&mut self, fd: i32)
        ensures
            final(self).fd == Some(fd),
    {
        self.fd = Some(fd);
    }

    /// The descriptor every driver transaction goes through, or the
    /// error for a device that was never opened.
    pub fn get_fd(&self) -> (r: Result<i32, FanError>)
        ensures
            self.fd is Some <==> r is Ok,
            self.fd is Some ==> r == Ok::<i32, FanError>(self.fd->0),
            self.fd is None ==> r == Err::<i32, FanError>(FanError::DeviceUnavailable),
    {
        match self.fd {
            Some(fd) => Ok(fd),
            None => Err(FanError::DeviceUnavailable),
        }
    }
}

/// Byte offset of the fan status register in the embedded-controller
/// register window.
pub const OFFSET_FAN_STATUS: u64 = 21;

/// Byte offset of the fan speed register in the embedded-controller
/// register window.
pub const OFFSET_FAN_SPEED: u64 = 25;

/// Status register value for a stopped fan.
pub const FAN_OFF: u8 = 0;

/// Status register value for a running fan.
pub const FAN_ON: u8 = 0xff;

/// What the speed register holds: the speed divided by 100.
pub open spec fn spec_speed_byte(rpm: u64) -> u8 {
    (rpm / 100) as u8
}

/// The speed the two embedded-controller registers report: off is zero
/// revolutions per minute, otherwise the speed register times 100.
pub open spec fn spec_decoded_rpm(status: u8, speed: u8) -> u64 {
    if status == FAN_OFF {
        0
    } else {
        (speed * 100) as u64
    }
}

/// Decode the fan speed from the status and speed register bytes.
pub fn decode_fan_rpm(status: u8, speed: u8) -> (rpm: u64)
    ensures
        rpm == spec_decoded_rpm(status, speed),
        rpm <= 25500,
{
    if status == FAN_OFF {
        0
    } else {
        (speed as u64) * 100
    }
}

/// One byte to place at one offset of the register window.
#[derive(Clone, Copy, Debug, PartialEq, Eq, Structural)]
pub struct RegWrite {
    pub offset: u64,
    pub value: u8,
}

/// The register writes that set a fan speed, in the order they must be
/// issued and flushed: the status register is switched on first, then
/// the speed register is written — the embedded controller refuses to
/// spin the fan if the speed arrives while the status still says off.
/// Decoding the bytes written reads back as the requested speed.
pub fn register_write_plan(rpm: u64) -> (plan: Vec<RegWrite>)
    requires
        rpm <= RPM_MAX,
    ensures
        plan@.len() == 2,
        plan@[0] == (RegWrite { offset: OFFSET_FAN_STATUS, value: FAN_ON }),
        plan@[1] == (RegWrite { offset: OFFSET_FAN_SPEED, value: spec_speed_byte(rpm) }),
        rpm % 100 == 0 ==> spec_decoded_rpm(FAN_ON, plan@[1].value) == rpm,
{
    let mut plan: Vec<RegWrite> = Vec::new();
    plan.push(RegWrite { offset: OFFSET_FAN_STATUS, value: FAN_ON });
    plan.push(RegWrite { offset: OFFSET_FAN_SPEED, value: (rpm / 100) as u8 });
    plan
}

/// `needle` occurs in `hay` starting at position `k`.
pub open spec fn match_at(hay: Seq<u8>, needle: Seq<u8>, k: int) -> bool {
    &&& 0 <= k
    &&& k + needle.len() <= hay.len()
    &&& hay.subrange(k, k + needle.len()) == needle
}

/// Whether `needle` occurs anywhere in `hay`.
#[verifier::loop_isolation(false)]
pub fn contains_bytes(hay: &[u8], needle: &[u8]) -> (r: bool)
    ensures
        r == exists|k: int| match_at(hay@, needle@, k),
{
    let n = hay.len();
    let m = needle.len();
    if m > n {
        assert forall|k: int| !match_at(hay@, needle@, k) by {}
        return false;
    }
    let mut i: usize = 0;
    while i <= n - m
        invariant
            i <= n - m + 1,
            forall|k: int| 0 <= k < i ==> !match_at(hay@, needle@, k),
        decreases n - m + 1 - i,
    {
        let mut j: usize = 0;
        while j < m && hay[i + j] == needle[j]
            invariant
                j <= m,
                forall|t: int| 0 <= t < j ==> hay@[i + t] == needle@[t],
            decreases m - j,
        {
            j = j + 1;
        }
        if j == m {
            proof {
                assert(hay@.subrange(i as int, (i + m) as int) =~= needle@);
                assert(match_at(hay@, needle@, i as int));
            }
            return true;
        }
        proof {
            assert(!match_at(hay@, needle@, i as int)) by {
                if match_at(hay@, needle@, i as int) {
                    assert(hay@.subrange(i as int, (i + m) as int)[j as int]
                        == needle@[j as int]);
                }
            }
        }
        i = i + 1;
    }
    proof {
        assert forall|k: int| !match_at(hay@, needle@, k) by {
            if 0 <= k < i {
            }
        }
    }
    false
}

/// The name of the kernel module that exposes the embedded-controller
/// register window, as bytes.
pub open spec fn ec_sys_name() -> Seq<u8> {
    // "ec_sys"
    seq![101u8, 99u8, 95u8, 115u8, 121u8, 115u8]
}

/// Whether a kernel-module listing names the embedded-controller
/// module, so the register backend's debug file can exist.
pub fn lists_ec_sys(contents: &[u8]) -> (r: bool)
    ensures
        r == exists|k: int| match_at(contents@, ec_sys_name(), k),
{
    // "ec_sys"
    let needle: Vec<u8> = vec![101u8, 99u8, 95u8, 115u8, 121u8, 115u8];
    proof {
        assert(needle@ =~= ec_sys_name());
    }
    contains_bytes(contents, needle.as_slice())
}

} // verus!
