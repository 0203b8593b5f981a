//! The error taxonomy shared by every component.

use vstd::prelude::*;

verus! {

/// Why an acquisition or an operation did not succeed.
#[derive(Clone, Copy, Debug, PartialEq, Eq, Structural)]
pub enum Cause {
    /// The device does not exist.
    DeviceNotFound,
    /// The caller may not access the device, or the region lacks a
    /// permission that the requested mode needs.
    PermissionDenied,
    /// The device is bound to another driver.
    AlreadyBound,
    /// The device has no region with the requested index.
    NoSuchRegion,
    /// The region is shorter than the benchmark needs.
    RegionTooSmall { actual: u64, required: u64 },
    /// The region cannot be mapped into memory.
    NotMappable,
    /// The access reaches past the end of the tested range.
    OutOfBounds,
    /// The device went away while it was being used.
    DeviceRemoved,
    /// Any other failure reported by the device-access layer.
    Io,
}

/// What was wrong with the command line.
#[derive(Clone, Copy, Debug, PartialEq, Eq, Structural)]
pub enum UsageFault {
    /// The program takes exactly one argument, the device address.
    ArgumentCount,
    /// The address lacks the `:` or the `.` of `BB:DD.F`.
    AddressFormat,
}

/// Every way in which the benchmark can fail.
#[derive(Clone, Copy, Debug, PartialEq, Eq, Structural)]
pub enum BenchError {
    /// The operator called the program wrongly; no device was touched.
    Usage(UsageFault),
    /// The device or its region could not be obtained: the benchmark cannot
    /// run at all.
    Acquisition(Cause),
    /// A single access failed; the configuration it belonged to is skipped.
    Operation { offset: u64, size: u64, cause: Cause },
    /// A function was handed input that its contract excludes, such as an
    /// empty sample set.
    Precondition,
}

impl BenchError {
    /// Whether the whole run has to stop. Only a failed operation is
    /// survivable: it costs the configuration it occurred in and nothing
    /// else.
    pub open spec fn spec_is_fatal(self) -> bool {
        !(self is Operation)
    }

    #[verifier::when_used_as_spec(spec_is_fatal)]
    pub fn is_fatal(self) -> (fatal: bool)
        ensures
            fatal == self.spec_is_fatal(),
    {
        match self {
            BenchError::Operation { .. } => false,
            _ => true,
        }
    }
}

/// The status with which the process ends: 0 when the run went through,
/// whatever became of single configurations, and 1 when it could not.
pub fn exit_status(outcome: Result<(), BenchError>) -> (status: u8)
    ensures
        status == if outcome is Ok {
            0u8
        } else {
            1u8
        },
{
    match outcome {
        Ok(()) => 0,
        Err(_) => 1,
    }
}

} // verus!
