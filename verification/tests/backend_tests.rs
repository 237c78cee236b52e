use pankha::FanError;
use pankha::backend::{
    ControllerMode, DriverOp, PankhaDevice, FAN_OFF, FAN_ON, OFFSET_FAN_SPEED,
    OFFSET_FAN_STATUS, check_ioctl_status, decode_fan_rpm, ioctl_code, lists_ec_sys,
    mode_from_raw, mode_to_raw, register_write_plan, should_force_user_control,
};
use pankha::sampler::{
    SampleOutcome, TempSampler, is_coretemp_chip, is_package_feature,
    is_temp_input_subfeature, parse_temp_reading,
};

#[test]
fn ioctl_codes_match_the_driver_protocol() {
    assert_eq!(ioctl_code(DriverOp::GetFanSpeed), 0x80045001);
    assert_eq!(ioctl_code(DriverOp::GetController), 0x80045002);
    assert_eq!(ioctl_code(DriverOp::SetController), 0x40045003);
    assert_eq!(ioctl_code(DriverOp::SetFanSpeed), 0x40045004);
}

#[test]
fn negative_ioctl_status_is_a_hardware_fault() {
    assert_eq!(check_ioctl_status(0, DriverOp::GetFanSpeed), Ok(()));
    assert_eq!(check_ioctl_status(7, DriverOp::SetController), Ok(()));
    assert_eq!(
        check_ioctl_status(-1, DriverOp::SetFanSpeed),
        Err(FanError::HardwareFault(DriverOp::SetFanSpeed))
    );
    assert_eq!(
        check_ioctl_status(i32::MIN, DriverOp::GetController),
        Err(FanError::HardwareFault(DriverOp::GetController))
    );
}

#[test]
fn controller_mode_round_trips() {
    assert_eq!(mode_from_raw(0), ControllerMode::BiosControlled);
    assert_eq!(mode_from_raw(1), ControllerMode::UserControlled);
    assert_eq!(mode_from_raw(-3), ControllerMode::UserControlled);
    assert_eq!(mode_to_raw(ControllerMode::BiosControlled), 0);
    assert_eq!(mode_to_raw(ControllerMode::UserControlled), 1);
    assert_eq!(
        mode_from_raw(mode_to_raw(ControllerMode::BiosControlled)),
        ControllerMode::BiosControlled
    );
    assert_eq!(
        mode_from_raw(mode_to_raw(ControllerMode::UserControlled)),
        ControllerMode::UserControlled
    );
}

#[test]
fn mode_switch_is_requested_only_from_bios_control() {
    assert!(should_force_user_control(ControllerMode::BiosControlled));
    assert!(!should_force_user_control(ControllerMode::UserControlled));
}

#[test]
fn device_handle_is_required_for_transactions() {
    let mut dev = PankhaDevice::new();
    assert_eq!(dev.get_fd(), Err(FanError::DeviceUnavailable));
    dev.attach(5);
    assert_eq!(dev.get_fd(), Ok(5));
}

#[test]
fn register_decode_reports_off_fan_as_zero() {
    assert_eq!(decode_fan_rpm(FAN_OFF, 25), 0);
    assert_eq!(decode_fan_rpm(FAN_ON, 25), 2500);
    assert_eq!(decode_fan_rpm(FAN_ON, 0), 0);
    assert_eq!(decode_fan_rpm(0x01, 13), 1300);
    assert_eq!(decode_fan_rpm(FAN_ON, 255), 25500);
}

#[test]
fn register_write_plan_switches_status_on_first() {
    let plan = register_write_plan(2500);
    assert_eq!(plan.len(), 2);
    assert_eq!(plan[0].offset, OFFSET_FAN_STATUS);
    assert_eq!(plan[0].offset, 21);
    assert_eq!(plan[0].value, FAN_ON);
    assert_eq!(plan[1].offset, OFFSET_FAN_SPEED);
    assert_eq!(plan[1].offset, 25);
    assert_eq!(plan[1].value, 25);
    // The byte written reads back as the requested speed.
    assert_eq!(decode_fan_rpm(FAN_ON, plan[1].value), 2500);
}

#[test]
fn module_listing_search_finds_ec_sys() {
    let listing = "snd_hda_intel 53248 4 - Live\nec_sys 16384 0 - Live\n";
    assert!(lists_ec_sys(listing.as_bytes()));
    assert!(!lists_ec_sys("snd_hda_intel 53248 4 - Live\n".as_bytes()));
    assert!(!lists_ec_sys("".as_bytes()));
    assert!(!lists_ec_sys("ec_sy".as_bytes()));
    assert!(lists_ec_sys("xec_sysx".as_bytes()));
}

#[test]
fn parse_accepts_plain_integers() {
    assert_eq!(parse_temp_reading("45".as_bytes()), 45);
    assert_eq!(parse_temp_reading("0".as_bytes()), 0);
    assert_eq!(parse_temp_reading("-5".as_bytes()), -5);
    assert_eq!(parse_temp_reading("+17".as_bytes()), 17);
    assert_eq!(parse_temp_reading("  83  ".as_bytes()), 83);
    assert_eq!(parse_temp_reading("47 C".as_bytes()), 47);
    assert_eq!(parse_temp_reading("\t-12\nrest".as_bytes()), -12);
}

#[test]
fn parse_rejects_what_is_not_an_integer() {
    assert_eq!(parse_temp_reading("".as_bytes()), -1);
    assert_eq!(parse_temp_reading("   ".as_bytes()), -1);
    assert_eq!(parse_temp_reading("45.0".as_bytes()), -1);
    assert_eq!(parse_temp_reading("abc".as_bytes()), -1);
    assert_eq!(parse_temp_reading("+".as_bytes()), -1);
    assert_eq!(parse_temp_reading("-".as_bytes()), -1);
    assert_eq!(parse_temp_reading("4x5".as_bytes()), -1);
    assert_eq!(parse_temp_reading("--4".as_bytes()), -1);
}

#[test]
fn parse_respects_the_result_range() {
    assert_eq!(parse_temp_reading("2147483647".as_bytes()), i32::MAX);
    assert_eq!(parse_temp_reading("2147483648".as_bytes()), -1);
    assert_eq!(parse_temp_reading("-2147483648".as_bytes()), i32::MIN);
    assert_eq!(parse_temp_reading("-2147483649".as_bytes()), -1);
    assert_eq!(parse_temp_reading("99999999999999999999".as_bytes()), -1);
}

#[test]
fn failed_lookup_yields_sentinel_and_keeps_running() {
    let sampler = TempSampler::new();
    // A failed topology lookup on one tick...
    assert_eq!(sampler.tick(None), SampleOutcome::Emit(-1));
    // ...does not stop the next ticks.
    assert_eq!(sampler.tick(Some("46".as_bytes())), SampleOutcome::Emit(46));
    assert_eq!(sampler.tick(None), SampleOutcome::Emit(-1));
    assert_eq!(sampler.tick(Some("oddity".as_bytes())), SampleOutcome::Emit(-1));
    assert_eq!(sampler.tick(Some("47".as_bytes())), SampleOutcome::Emit(47));
}

#[test]
fn cancellation_stops_the_sampler() {
    let mut sampler = TempSampler::new();
    assert_eq!(sampler.tick(Some("46".as_bytes())), SampleOutcome::Emit(46));
    sampler.cancel();
    assert_eq!(sampler.tick(Some("46".as_bytes())), SampleOutcome::Stopped);
    assert_eq!(sampler.tick(None), SampleOutcome::Stopped);
}

#[test]
fn topology_identifiers_match_exactly() {
    assert!(is_coretemp_chip(&String::from("coretemp-isa-0000")));
    assert!(!is_coretemp_chip(&String::from("coretemp-isa-0001")));
    assert!(!is_coretemp_chip(&String::from("acpitz-acpi-0")));
    assert!(is_package_feature(&String::from("Package id 0")));
    assert!(!is_package_feature(&String::from("Core 0")));
    assert!(is_temp_input_subfeature(&String::from("temp1_input")));
    assert!(!is_temp_input_subfeature(&String::from("temp1_max")));
}
