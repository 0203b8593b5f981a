use vfio_benchmark::device::{
    check_bar_size, check_bar_writable, format_device_path, parse_device_args, require_bar,
    validate_device_address,
};
use vfio_benchmark::error::{exit_status, BenchError, Cause, UsageFault};
use vfio_benchmark::region::{Permissions, RegionInfo};

fn region(length: u64, permissions: Permissions) -> RegionInfo {
    RegionInfo { length, permissions, mappable: true }
}

#[test]
fn short_address_is_placed_in_segment_zero() {
    assert_eq!(format_device_path("22:00.0"), "/sys/bus/pci/devices/0000:22:00.0");
}

#[test]
fn full_address_is_used_as_it_is() {
    assert_eq!(format_device_path("0000:22:00.0"), "/sys/bus/pci/devices/0000:22:00.0");
}

#[test]
fn segment_is_recognised_anywhere_in_the_address() {
    // Only the run "0000:" counts, wherever it stands.
    assert_eq!(format_device_path("x0000:y"), "/sys/bus/pci/devices/x0000:y");
    assert_eq!(format_device_path("0001:22:00.0"), "/sys/bus/pci/devices/0000:0001:22:00.0");
    assert_eq!(format_device_path("000:0:"), "/sys/bus/pci/devices/0000:000:0:");
    assert_eq!(format_device_path(""), "/sys/bus/pci/devices/0000:");
}

#[test]
fn path_keeps_characters_outside_ascii() {
    assert_eq!(format_device_path("é0000:ü"), "/sys/bus/pci/devices/é0000:ü");
    assert_eq!(format_device_path("ü:1"), "/sys/bus/pci/devices/0000:ü:1");
}

#[test]
fn address_needs_colon_and_dot() {
    assert!(validate_device_address("22:00.0"));
    assert!(validate_device_address("0000:22:00.0"));
    assert!(validate_device_address(".:"));
    assert!(!validate_device_address("22-00.0"));
    assert!(!validate_device_address("22:00"));
    assert!(!validate_device_address(""));
}

#[test]
fn arguments_are_the_program_and_one_address() {
    let args = vec!["bench".to_string(), "22:00.0".to_string()];
    assert_eq!(parse_device_args(&args), Ok("22:00.0".to_string()));
}

#[test]
fn wrong_number_of_arguments_is_a_usage_error() {
    let none = vec!["bench".to_string()];
    assert_eq!(parse_device_args(&none), Err(BenchError::Usage(UsageFault::ArgumentCount)));
    let empty: Vec<String> = Vec::new();
    assert_eq!(parse_device_args(&empty), Err(BenchError::Usage(UsageFault::ArgumentCount)));
    let many = vec!["bench".to_string(), "22:00.0".to_string(), "23:00.0".to_string()];
    assert_eq!(parse_device_args(&many), Err(BenchError::Usage(UsageFault::ArgumentCount)));
}

#[test]
fn malformed_address_is_a_usage_error() {
    let bad = vec!["bench".to_string(), "2200".to_string()];
    assert_eq!(parse_device_args(&bad), Err(BenchError::Usage(UsageFault::AddressFormat)));
    let no_dot = vec!["bench".to_string(), "22:00".to_string()];
    assert_eq!(parse_device_args(&no_dot), Err(BenchError::Usage(UsageFault::AddressFormat)));
}

#[test]
fn missing_region_cannot_be_sized() {
    assert_eq!(check_bar_size(None, 0), Err(BenchError::Acquisition(Cause::NoSuchRegion)));
    assert_eq!(require_bar(None), Err(BenchError::Acquisition(Cause::NoSuchRegion)));
    assert_eq!(check_bar_writable(None), Err(BenchError::Acquisition(Cause::NoSuchRegion)));
}

#[test]
fn region_must_be_long_enough() {
    let small = region(16383, Permissions::ReadWrite);
    assert_eq!(
        check_bar_size(Some(small), 16384),
        Err(BenchError::Acquisition(Cause::RegionTooSmall { actual: 16383, required: 16384 }))
    );
    assert_eq!(check_bar_size(Some(region(16384, Permissions::ReadWrite)), 16384), Ok(()));
    assert_eq!(check_bar_size(Some(region(1 << 20, Permissions::ReadOnly)), 16384), Ok(()));
    assert_eq!(check_bar_size(Some(region(0, Permissions::ReadOnly)), 0), Ok(()));
}

#[test]
fn region_is_handed_back_when_present() {
    let r = region(4096, Permissions::WriteOnly);
    assert_eq!(require_bar(Some(r)), Ok(r));
}

#[test]
fn writability_follows_permissions() {
    assert_eq!(check_bar_writable(Some(region(64, Permissions::ReadOnly))), Ok(false));
    assert_eq!(check_bar_writable(Some(region(64, Permissions::NoAccess))), Ok(false));
    assert_eq!(check_bar_writable(Some(region(64, Permissions::WriteOnly))), Ok(true));
    assert_eq!(check_bar_writable(Some(region(64, Permissions::ReadWrite))), Ok(true));
}

#[test]
fn permissions_answer_for_each_ability() {
    assert_eq!(Permissions::new(false, false), Permissions::NoAccess);
    assert_eq!(Permissions::new(true, false), Permissions::ReadOnly);
    assert_eq!(Permissions::new(false, true), Permissions::WriteOnly);
    assert_eq!(Permissions::new(true, true), Permissions::ReadWrite);
    assert!(Permissions::ReadOnly.can_read() && !Permissions::ReadOnly.can_write());
    assert!(!Permissions::WriteOnly.can_read() && Permissions::WriteOnly.can_write());
    assert!(Permissions::ReadWrite.covers(Permissions::ReadOnly));
    assert!(Permissions::ReadWrite.covers(Permissions::WriteOnly));
    assert!(!Permissions::ReadOnly.covers(Permissions::ReadWrite));
    assert!(!Permissions::NoAccess.covers(Permissions::ReadOnly));
    assert!(Permissions::NoAccess.covers(Permissions::NoAccess));
}

#[test]
fn only_a_failed_operation_is_survivable() {
    assert!(BenchError::Usage(UsageFault::ArgumentCount).is_fatal());
    assert!(BenchError::Acquisition(Cause::DeviceNotFound).is_fatal());
    assert!(BenchError::Precondition.is_fatal());
    assert!(!BenchError::Operation { offset: 0, size: 1, cause: Cause::Io }.is_fatal());
}

#[test]
fn process_status_is_zero_only_on_success() {
    assert_eq!(exit_status(Ok(())), 0);
    assert_eq!(exit_status(Err(BenchError::Usage(UsageFault::AddressFormat))), 1);
    assert_eq!(exit_status(Err(BenchError::Acquisition(Cause::PermissionDenied))), 1);
}
