//! Finding a device and judging its first region: the address that the
//! operator gives, the path under which the system offers the device, and
//! whether the region at index 0 will do.

use vstd::prelude::*;
use vstd::string::StringExecFns;
use pci_driver::backends::vfio::VfioPciDevice;
use crate::error::{BenchError, Cause, UsageFault};
use crate::pci::describe_bar;
use crate::region::RegionInfo;
use crate::text::{chars_of, contains_run, find_run, has_char};

verus! {

/// An address in the form `BB:DD.F` or `SSSS:BB:DD.F` has a colon and a
/// dot; nothing more is asked of it.
pub open spec fn address_is_plausible(address: Seq<char>) -> bool {
    address.contains(':') && address.contains('.')
}

/// The path of the device with the given address. An address that names
/// its segment, `0000:`, is used as it is; any other is taken to lie in
/// segment 0000.
pub open spec fn device_path_of(address: Seq<char>) -> Seq<char> {
    if contains_run(address, "0000:"@) {
        "/sys/bus/pci/devices/"@ + address
    } else {
        "/sys/bus/pci/devices/"@ + "0000:"@ + address
    }
}

/// Checks the form of a device address.
pub fn validate_device_address(address: &str) -> (ok: bool)
    ensures
        ok == address_is_plausible(address@),
{
    has_char(address, ':') && has_char(address, '.')
}

/// Takes the device address from the command line, `args[0]` being the
/// program's name.
///
/// Anything but exactly one argument is a usage error, and so is an
/// argument without a colon or without a dot.
pub fn parse_device_args(args: &Vec<String>) -> (r: Result<String, BenchError>)
    ensures
        args@.len() != 2 ==> r == Err::<String, BenchError>(
            BenchError::Usage(UsageFault::ArgumentCount),
        ),
        args@.len() == 2 && !address_is_plausible(args@[1]@) ==> r == Err::<String, BenchError>(
            BenchError::Usage(UsageFault::AddressFormat),
        ),
        args@.len() == 2 && address_is_plausible(args@[1]@) ==> r is Ok && r->Ok_0@ == args@[1]@,
{
    if args.len() != 2 {
        return Err(BenchError::Usage(UsageFault::ArgumentCount));
    }
    let address: &String = &args[1];
    if !validate_device_address(address.as_str()) {
        return Err(BenchError::Usage(UsageFault::AddressFormat));
    }
    Ok(address.clone())
}

/// Turns a device address into the path of the device.
pub fn format_device_path(device_addr: &str) -> (path: String)
    ensures
        path@ == device_path_of(device_addr@),
{
    let address: Vec<char> = chars_of(device_addr);
    let segment: Vec<char> = chars_of("0000:");
    let mut path: String = String::from_str("/sys/bus/pci/devices/");
    if !find_run(&address, &segment) {
        path.append("0000:");
    }
    path.append(device_addr);
    path
}

/// The verdict on the region at index 0 for a benchmark that needs
/// `min_size` bytes of it: the device must have the region, and the region
/// must be that long.
pub open spec fn bar_size_verdict(bar0: Option<RegionInfo>, min_size: u64) -> Result<
    (),
    BenchError,
> {
    match bar0 {
        None => Err(BenchError::Acquisition(Cause::NoSuchRegion)),
        Some(region) => if region.length < min_size {
            Err(
                BenchError::Acquisition(
                    Cause::RegionTooSmall { actual: region.length, required: min_size },
                ),
            )
        } else {
            Ok(())
        },
    }
}

/// Whether the region at index 0 can be written; a device without that
/// region has no answer.
pub open spec fn bar_write_verdict(bar0: Option<RegionInfo>) -> Result<bool, BenchError> {
    match bar0 {
        None => Err(BenchError::Acquisition(Cause::NoSuchRegion)),
        Some(region) => Ok(region.permissions.spec_can_write()),
    }
}

/// Checks that the device has a region at index 0 and that it is at least
/// `min_size` bytes long.
pub fn check_bar_size(bar0: Option<RegionInfo>, min_size: u64) -> (r: Result<(), BenchError>)
    ensures
        r == bar_size_verdict(bar0, min_size),
{
    match bar0 {
        None => Err(BenchError::Acquisition(Cause::NoSuchRegion)),
        Some(region) => {
            if region.length < min_size {
                Err(
                    BenchError::Acquisition(
                        Cause::RegionTooSmall { actual: region.length, required: min_size },
                    ),
                )
            } else {
                Ok(())
            }
        },
    }
}

/// The region at index 0, which a device must have to be of any use here.
pub fn require_bar(bar0: Option<RegionInfo>) -> (r: Result<RegionInfo, BenchError>)
    ensures
        match bar0 {
            None => r == Err::<RegionInfo, BenchError>(BenchError::Acquisition(Cause::NoSuchRegion)),
            Some(region) => r == Ok::<RegionInfo, BenchError>(region),
        },
{
    match bar0 {
        None => Err(BenchError::Acquisition(Cause::NoSuchRegion)),
        Some(region) => Ok(region),
    }
}

/// Says whether the region at index 0 can be written.
pub fn check_bar_writable(bar0: Option<RegionInfo>) -> (r: Result<bool, BenchError>)
    ensures
        r == bar_write_verdict(bar0),
{
    match bar0 {
        None => Err(BenchError::Acquisition(Cause::NoSuchRegion)),
        Some(region) => Ok(region.permissions.can_write()),
    }
}

/// Checks that the region at index 0 of `device` is at least `min_size`
/// bytes long.
///
/// What the device has at index 0 is for the device to say. Whatever it is,
/// the answer is the verdict on it: an error only for a missing region or
/// for one that is shorter than `min_size`.
pub fn validate_bar_size(device: &VfioPciDevice, min_size: u64) -> (r: Result<(), BenchError>)
    ensures
        exists|bar0: Option<RegionInfo>| r == #[trigger] bar_size_verdict(bar0, min_size),
{
    let bar0: Option<RegionInfo> = describe_bar(device, 0);
    let r = check_bar_size(bar0, min_size);
    r
}

/// Whether the region at index 0 of `device` can be written.
///
/// What the device has at index 0 is for the device to say. Whatever it is,
/// the answer is the verdict on it: an error only for a missing region.
pub fn bar_supports_write(device: &VfioPciDevice) -> (r: Result<bool, BenchError>)
    ensures
        exists|bar0: Option<RegionInfo>| r == #[trigger] bar_write_verdict(bar0),
{
    let bar0: Option<RegionInfo> = describe_bar(device, 0);
    let r = check_bar_writable(bar0);
    r
}

} // verus!
