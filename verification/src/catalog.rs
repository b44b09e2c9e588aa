//! The device-manager catalog model: raw records as the host shim reads
//! them, and the fail-fast construction of card and device metadata.
//!
//! Every required property and attribute sits on the record itself, and a
//! missing or unreadable one aborts the whole read. The parent linkage
//! contributes only the PCI slot name, the one optional field: it defaults
//! to the empty string when no parent was resolvable, and is required when
//! one was.

use vstd::prelude::*;

verus! {

use crate::errors::{CatalogField, HcaError};
use crate::types::{IbDevice, IbDeviceView, PciDevice, PciDeviceView};

/// Mathematical view of a raw catalog value.
pub ghost enum RawValueView {
    /// The record does not carry the property or attribute.
    Missing,
    /// The value is present but is not valid text.
    NotText,
    /// The decoded, whitespace-trimmed text.
    Text(Seq<char>),
}

/// A raw device-manager value, exactly as the record reports it: missing,
/// unreadable, or decoded text.
#[derive(Debug)]
pub enum RawValue {
    Missing,
    NotText,
    Text(String),
}

impl DeepView for RawValue {
    type V = RawValueView;

    open spec fn deep_view(&self) -> RawValueView {
        match self {
            RawValue::Missing => RawValueView::Missing,
            RawValue::NotText => RawValueView::NotText,
            RawValue::Text(s) => RawValueView::Text(s@),
        }
    }
}

/// Mathematical view of a catalog record.
#[verifier::ext_equal]
pub ghost struct CatalogEntryView {
    pub subsys_id: RawValueView,
    pub model_name: RawValueView,
    pub vendor_name: RawValueView,
    pub vendor: RawValueView,
    pub slot_name: Option<RawValueView>,
    pub name: RawValueView,
    pub node_guid: RawValueView,
    pub node_desc: RawValueView,
    pub sys_image_guid: RawValueView,
    pub fw_ver: RawValueView,
    pub board_id: RawValueView,
}

/// One record of the adapter subsystem's catalog, with the raw values the
/// host shim read from it. Every record describes one logical device; the
/// card identity fields are required, and only the parent-derived slot
/// name is optional.
#[derive(Debug)]
pub struct CatalogEntry {
    /// Property: composite vendor+device id of the physical card.
    pub subsys_id: RawValue,
    /// Property: model name from the hardware database.
    pub model_name: RawValue,
    /// Property: vendor name from the hardware database.
    pub vendor_name: RawValue,
    /// Sysfs attribute: numeric vendor id.
    pub vendor: RawValue,
    /// The parent's PCI slot value, when a parent was resolvable; a record
    /// without one gets an empty slot name.
    pub slot_name: Option<RawValue>,
    /// Property: verbs device name.
    pub name: RawValue,
    /// Sysfs attribute: node GUID.
    pub node_guid: RawValue,
    /// Sysfs attribute: node description.
    pub node_desc: RawValue,
    /// Sysfs attribute: system image GUID.
    pub sys_image_guid: RawValue,
    /// Sysfs attribute: firmware version.
    pub fw_ver: RawValue,
    /// Sysfs attribute: board id.
    pub board_id: RawValue,
}

impl DeepView for CatalogEntry {
    type V = CatalogEntryView;

    open spec fn deep_view(&self) -> CatalogEntryView {
        CatalogEntryView {
            subsys_id: self.subsys_id.deep_view(),
            model_name: self.model_name.deep_view(),
            vendor_name: self.vendor_name.deep_view(),
            vendor: self.vendor.deep_view(),
            slot_name: self.slot_name.deep_view(),
            name: self.name.deep_view(),
            node_guid: self.node_guid.deep_view(),
            node_desc: self.node_desc.deep_view(),
            sys_image_guid: self.sys_image_guid.deep_view(),
            fw_ver: self.fw_ver.deep_view(),
            board_id: self.board_id.deep_view(),
        }
    }
}

/// What reading a required property yields: the text, or the error naming
/// the field.
pub open spec fn property_spec(v: RawValueView, f: CatalogField) -> Result<Seq<char>, HcaError> {
    match v {
        RawValueView::Missing => Err(HcaError::PropertyNotFound(f)),
        RawValueView::NotText => Err(HcaError::Encoding(f)),
        RawValueView::Text(s) => Ok(s),
    }
}

/// What reading a required sysfs attribute yields: the text, or the error
/// naming the field.
pub open spec fn sysattr_spec(v: RawValueView, f: CatalogField) -> Result<Seq<char>, HcaError> {
    match v {
        RawValueView::Missing => Err(HcaError::AttributeNotFound(f)),
        RawValueView::NotText => Err(HcaError::Encoding(f)),
        RawValueView::Text(s) => Ok(s),
    }
}

/// Read a required property from a raw value: missing values and values
/// that are not text are refused.
pub fn get_property(v: &RawValue, f: CatalogField) -> (r: Result<String, HcaError>)
    ensures
        match r {
            Ok(s) => property_spec(v.deep_view(), f) == Ok::<Seq<char>, HcaError>(s@),
            Err(e) => property_spec(v.deep_view(), f) == Err::<Seq<char>, HcaError>(e),
        },
{
    match v {
        RawValue::Missing => Err(HcaError::PropertyNotFound(f)),
        RawValue::NotText => Err(HcaError::Encoding(f)),
        RawValue::Text(s) => Ok(s.clone()),
    }
}

/// Read a required sysfs attribute from a raw value: missing values and
/// values that are not text are refused.
pub fn get_sysattr(v: &RawValue, f: CatalogField) -> (r: Result<String, HcaError>)
    ensures
        match r {
            Ok(s) => sysattr_spec(v.deep_view(), f) == Ok::<Seq<char>, HcaError>(s@),
            Err(e) => sysattr_spec(v.deep_view(), f) == Err::<Seq<char>, HcaError>(e),
        },
{
    match v {
        RawValue::Missing => Err(HcaError::AttributeNotFound(f)),
        RawValue::NotText => Err(HcaError::Encoding(f)),
        RawValue::Text(s) => Ok(s.clone()),
    }
}

/// The card metadata a catalog record describes, before any device is
/// grouped under it: the required identity fields, firmware and board id
/// still empty.
pub open spec fn pci_device_spec(e: CatalogEntryView) -> Result<PciDeviceView, HcaError> {
    match property_spec(e.subsys_id, CatalogField::SubsysId) {
        Err(er) => Err(er),
        Ok(subsys_id) => match property_spec(e.model_name, CatalogField::ModelName) {
            Err(er) => Err(er),
            Ok(model_name) => match property_spec(e.vendor_name, CatalogField::VendorName) {
                Err(er) => Err(er),
                Ok(vendor_name) => match sysattr_spec(e.vendor, CatalogField::Vendor) {
                    Err(er) => Err(er),
                    Ok(vendor) => Ok(
                        PciDeviceView {
                            subsys_id,
                            model_name,
                            vendor_name,
                            vendor,
                            board_id: Seq::empty(),
                            fw_ver: Seq::empty(),
                            ib_devices: Seq::empty(),
                        },
                    ),
                },
            },
        },
    }
}

/// The device metadata a catalog record describes, before its ports are
/// attached: the name property, then the required attributes, and
/// separately the parent's slot name — required when a parent was
/// resolvable, empty otherwise.
pub open spec fn ib_device_spec(e: CatalogEntryView) -> Result<IbDeviceView, HcaError> {
    match property_spec(e.name, CatalogField::Name) {
        Err(er) => Err(er),
        Ok(name) => match sysattr_spec(e.node_guid, CatalogField::NodeGuid) {
            Err(er) => Err(er),
            Ok(node_guid) => match sysattr_spec(e.node_desc, CatalogField::NodeDesc) {
                Err(er) => Err(er),
                Ok(node_desc) => match sysattr_spec(e.sys_image_guid, CatalogField::SysImageGuid) {
                    Err(er) => Err(er),
                    Ok(sys_image_guid) => match sysattr_spec(e.fw_ver, CatalogField::FwVer) {
                        Err(er) => Err(er),
                        Ok(fw_ver) => match sysattr_spec(e.board_id, CatalogField::BoardId) {
                            Err(er) => Err(er),
                            Ok(board_id) => match (match e.slot_name {
                                Some(v) => property_spec(v, CatalogField::SlotName),
                                None => Ok(Seq::empty()),
                            }) {
                                Err(er) => Err(er),
                                Ok(slot_name) => Ok(
                                    IbDeviceView {
                                        name,
                                        slot_name,
                                        node_guid,
                                        node_desc,
                                        sys_image_guid,
                                        fw_ver,
                                        board_id,
                                        ib_ports: Seq::empty(),
                                    },
                                ),
                            },
                        },
                    },
                },
            },
        },
    }
}

impl PciDevice {
    /// Build the card metadata from a catalog record, failing on the first
    /// missing or unreadable required identity field.
    pub fn try_from(e: &CatalogEntry) -> (r: Result<PciDevice, HcaError>)
        ensures
            match r {
                Ok(d) => pci_device_spec(e.deep_view()) == Ok::<PciDeviceView, HcaError>(
                    d.deep_view(),
                ),
                Err(er) => pci_device_spec(e.deep_view()) == Err::<PciDeviceView, HcaError>(er),
            },
    {
        let subsys_id = match get_property(&e.subsys_id, CatalogField::SubsysId) {
            Ok(s) => s,
            Err(er) => {
                return Err(er);
            },
        };
        let model_name = match get_property(&e.model_name, CatalogField::ModelName) {
            Ok(s) => s,
            Err(er) => {
                return Err(er);
            },
        };
        let vendor_name = match get_property(&e.vendor_name, CatalogField::VendorName) {
            Ok(s) => s,
            Err(er) => {
                return Err(er);
            },
        };
        let vendor = match get_sysattr(&e.vendor, CatalogField::Vendor) {
            Ok(s) => s,
            Err(er) => {
                return Err(er);
            },
        };
        let d = PciDevice {
            subsys_id,
            model_name,
            vendor_name,
            vendor,
            board_id: String::new(),
            fw_ver: String::new(),
            ib_devices: Vec::new(),
        };
        proof {
            assert(d.deep_view() =~= pci_device_spec(e.deep_view()).unwrap());
        }
        Ok(d)
    }
}

impl IbDevice {
    /// Build the device metadata from a catalog record, failing on the
    /// first missing or unreadable required field. The parent's slot name
    /// is required when a parent was resolvable and empty otherwise; the
    /// port list starts empty and is attached by the correlator.
    pub fn try_from(e: &CatalogEntry) -> (r: Result<IbDevice, HcaError>)
        ensures
            match r {
                Ok(d) => ib_device_spec(e.deep_view()) == Ok::<IbDeviceView, HcaError>(
                    d.deep_view(),
                ),
                Err(er) => ib_device_spec(e.deep_view()) == Err::<IbDeviceView, HcaError>(er),
            },
    {
        let name = match get_property(&e.name, CatalogField::Name) {
            Ok(s) => s,
            Err(er) => {
                return Err(er);
            },
        };
        let node_guid = match get_sysattr(&e.node_guid, CatalogField::NodeGuid) {
            Ok(s) => s,
            Err(er) => {
                return Err(er);
            },
        };
        let node_desc = match get_sysattr(&e.node_desc, CatalogField::NodeDesc) {
            Ok(s) => s,
            Err(er) => {
                return Err(er);
            },
        };
        let sys_image_guid = match get_sysattr(&e.sys_image_guid, CatalogField::SysImageGuid) {
            Ok(s) => s,
            Err(er) => {
                return Err(er);
            },
        };
        let fw_ver = match get_sysattr(&e.fw_ver, CatalogField::FwVer) {
            Ok(s) => s,
            Err(er) => {
                return Err(er);
            },
        };
        let board_id = match get_sysattr(&e.board_id, CatalogField::BoardId) {
            Ok(s) => s,
            Err(er) => {
                return Err(er);
            },
        };
        let slot_name = match &e.slot_name {
            Some(v) => match get_property(v, CatalogField::SlotName) {
                Ok(s) => s,
                Err(er) => {
                    return Err(er);
                },
            },
            None => String::new(),
        };
        let d = IbDevice {
            name,
            slot_name,
            node_guid,
            node_desc,
            sys_image_guid,
            fw_ver,
            board_id,
            ib_ports: Vec::new(),
        };
        proof {
            assert(d.deep_view() =~= ib_device_spec(e.deep_view()).unwrap());
        }
        Ok(d)
    }
}

} // verus!
