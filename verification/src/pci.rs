//! What a device of the `pci_driver` crate says about its regions.
//!
//! Nothing here touches the device: the length and the permissions of a
//! region were read when the device was opened, and are only looked up.
//! What they are is for the device to say, so the functions of this module
//! promise no particular value.
//!
//! The calls into `pci_driver` are the private functions at the top. Their
//! bodies are not verified: what their contracts say is taken from the
//! crate's source and believed.

use vstd::prelude::*;
use crate::region::{Permissions, RegionInfo};

verus! {

/// `VfioPciDevice`, a device opened through VFIO. Nothing is known of what
/// is inside.
#[verifier::external_type_specification]
#[verifier::external_body]
pub struct ExVfioPciDevice(pci_driver::backends::vfio::VfioPciDevice);

/// `OwningPciRegion`, a region that shares ownership of its device. Nothing
/// is known of what is inside.
#[verifier::external_type_specification]
#[verifier::external_body]
pub struct ExOwningPciRegion(pci_driver::regions::OwningPciRegion);

/// `PciSubregion`, a borrowed view of a contiguous part of a region.
/// Nothing is known of what is inside.
#[verifier::external_type_specification]
#[verifier::external_body]
pub struct ExPciSubregion<'a>(pci_driver::regions::PciSubregion<'a>);

/// `PciDevice::bar` of a VFIO device: the region of the base address
/// register with the given index, or `None` where the device has no such
/// register or does not use it. Which of the two it is, is not claimed.
#[verifier::external_body]
fn device_bar(
    device: &pci_driver::backends::vfio::VfioPciDevice,
    index: usize,
) -> Option<pci_driver::regions::OwningPciRegion> {
    pci_driver::device::PciDevice::bar(device, index)
}

/// `OwningPciRegion::is_mappable`: whether the region can be mapped into
/// memory. Nothing is claimed of the answer.
#[verifier::external_body]
fn region_is_mappable(region: &pci_driver::regions::OwningPciRegion) -> bool {
    region.is_mappable()
}

/// `AsPciSubregion::as_subregion` of an owning region: the same bytes, seen
/// as a borrowed region. Nothing is claimed of the result.
#[verifier::external_body]
fn region_as_subregion<'a>(
    region: &'a pci_driver::regions::OwningPciRegion,
) -> pci_driver::regions::PciSubregion<'a> {
    pci_driver::regions::AsPciSubregion::as_subregion(&region)
}

/// `PciRegion::len` of a borrowed region: its length in bytes. Nothing is
/// claimed of the number.
#[verifier::external_body]
fn subregion_len(region: &pci_driver::regions::PciSubregion<'_>) -> u64 {
    pci_driver::regions::PciRegion::len(region)
}

/// `PciRegion::permissions` of a borrowed region, in the terms of this
/// crate. `pci_driver` knows three permission sets, each of which allows
/// something: the claim is that the answer is never `NoAccess`.
#[verifier::external_body]
fn subregion_permissions(region: &pci_driver::regions::PciSubregion<'_>) -> (p: Permissions)
    ensures
        !(p is NoAccess),
{
    match pci_driver::regions::PciRegion::permissions(region) {
        pci_driver::regions::Permissions::Read => Permissions::ReadOnly,
        pci_driver::regions::Permissions::Write => Permissions::WriteOnly,
        pci_driver::regions::Permissions::ReadWrite => Permissions::ReadWrite,
    }
}

/// Describes a borrowed region, which is `mappable` or not as the caller
/// says.
pub fn describe_subregion(
    region: &pci_driver::regions::PciSubregion<'_>,
    mappable: bool,
) -> (info: RegionInfo)
    ensures
        info.mappable == mappable,
        !(info.permissions is NoAccess),
{
    RegionInfo {
        length: subregion_len(region),
        permissions: subregion_permissions(region),
        mappable,
    }
}

/// Describes a region of a device.
pub fn describe_region(region: &pci_driver::regions::OwningPciRegion) -> (info: RegionInfo)
    ensures
        !(info.permissions is NoAccess),
{
    let mappable: bool = region_is_mappable(region);
    let borrowed = region_as_subregion(region);
    describe_subregion(&borrowed, mappable)
}

/// Describes the region of the base address register `index` of `device`:
/// what `describe_found` makes of the answer of `PciDevice::bar`.
pub fn describe_bar(
    device: &pci_driver::backends::vfio::VfioPciDevice,
    index: usize,
) -> (info: Option<RegionInfo>)
    ensures
        info matches Some(region) ==> !(region.permissions is NoAccess),
{
    describe_found(device_bar(device, index))
}

/// Describes what a lookup of a region found: a region that was found is
/// described, and one that was not found leaves nothing to describe.
pub fn describe_found(found: Option<pci_driver::regions::OwningPciRegion>) -> (info: Option<
    RegionInfo,
>)
    ensures
        info is Some <==> found is Some,
        info matches Some(region) ==> !(region.permissions is NoAccess),
{
    match found {
        Some(region) => Some(describe_region(&region)),
        None => None,
    }
}

} // verus!
