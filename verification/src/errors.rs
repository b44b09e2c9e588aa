//! Error taxonomy of the enumeration engine.
//!
//! Every failure aborts the whole snapshot: the engine never returns a
//! partial inventory.

use vstd::prelude::*;

verus! {

/// A raw hardware status code that the decoders refuse.
///
/// The decoders recognize a fixed subset of the host's codes and fail on
/// everything else; there is deliberately no fallback "unknown" variant.
#[derive(Clone, Copy, Debug, PartialEq, Eq, Structural)]
pub enum DecodeError {
    /// The port's link layer code was neither InfiniBand nor Ethernet.
    UnknownLinkType(u8),
    /// The port's state code was not one of the recognized states.
    UnknownPortState(u32),
    /// The port's physical state code was not one of the recognized states.
    UnknownPhysState(u8),
}

/// A named field of a device-manager catalog record.
///
/// Identifies which required property or attribute a catalog read failed on.
#[derive(Clone, Copy, Debug, PartialEq, Eq, Structural)]
pub enum CatalogField {
    /// Property: composite vendor+device id of the physical card.
    SubsysId,
    /// Property: model name from the hardware database.
    ModelName,
    /// Property: vendor name from the hardware database.
    VendorName,
    /// Sysfs attribute: numeric vendor id.
    Vendor,
    /// Property of the parent record: PCI slot name.
    SlotName,
    /// Property: verbs device name.
    Name,
    /// Sysfs attribute: node GUID.
    NodeGuid,
    /// Sysfs attribute: node description.
    NodeDesc,
    /// Sysfs attribute: system image GUID.
    SysImageGuid,
    /// Sysfs attribute: firmware version.
    FwVer,
    /// Sysfs attribute: board id.
    BoardId,
}

/// A fatal error of one enumeration pass.
///
/// The `i32` payloads carry the host's last-reported error code at the point
/// of failure.
#[derive(Clone, Copy, Debug, PartialEq, Eq, Structural)]
pub enum HcaError {
    /// The native device list could not be obtained.
    HardwareUnavailable(i32),
    /// Opening a verbs device context failed.
    DeviceOpenFailed(i32),
    /// A device, port, or global-id query returned failure.
    QueryFailed(i32),
    /// A raw status code could not be decoded.
    Decode(DecodeError),
    /// A required device-manager property was missing.
    PropertyNotFound(CatalogField),
    /// A required device-manager sysfs attribute was missing.
    AttributeNotFound(CatalogField),
    /// A device-manager value was not validly decodable as text.
    Encoding(CatalogField),
}

} // verus!
