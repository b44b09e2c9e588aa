//! The inventory data model: physical cards, logical devices and ports,
//! with their mathematical views and well-formedness predicates.
//!
//! The whole graph is built fresh per snapshot and never mutated after
//! construction.

use vstd::prelude::*;

verus! {

use vstd::pervasive::cloned;

use crate::decode::{IbPortLinkType, IbPortPhysState, IbPortState};

/// Mathematical view of a port record.
#[verifier::ext_equal]
pub ghost struct IbPortView {
    pub port_num: u8,
    pub guid: Option<Seq<char>>,
    pub lid: u16,
    pub link_type: IbPortLinkType,
    pub state: IbPortState,
    pub phys_state: IbPortPhysState,
}

/// One port of a logical device, decoded from live verbs queries.
///
/// `guid` is present exactly when the link type is InfiniBand.
#[derive(Debug)]
pub struct IbPort {
    /// 1-based port number.
    pub port_num: u8,
    /// Rendered global identifier; present iff the port is InfiniBand.
    pub guid: Option<String>,
    /// Subnet-local address of the port.
    pub lid: u16,
    pub link_type: IbPortLinkType,
    pub state: IbPortState,
    pub phys_state: IbPortPhysState,
}

impl DeepView for IbPort {
    type V = IbPortView;

    open spec fn deep_view(&self) -> IbPortView {
        IbPortView {
            port_num: self.port_num,
            guid: self.guid.deep_view(),
            lid: self.lid,
            link_type: self.link_type,
            state: self.state,
            phys_state: self.phys_state,
        }
    }
}

impl Clone for IbPort {
    fn clone(&self) -> (r: Self)
        ensures
            r == *self,
    {
        IbPort {
            port_num: self.port_num,
            guid: match &self.guid {
                Some(g) => Some(g.clone()),
                None => None,
            },
            lid: self.lid,
            link_type: self.link_type,
            state: self.state,
            phys_state: self.phys_state,
        }
    }
}

/// A port is well-formed when its global identifier is present exactly on an
/// InfiniBand link.
pub open spec fn port_wf(p: IbPortView) -> bool {
    p.guid is Some <==> p.link_type is Infiniband
}

/// The ports of one device are numbered 1 up to their count, in order.
pub open spec fn ports_numbered(ps: Seq<IbPortView>) -> bool {
    forall|i: int| 0 <= i < ps.len() ==> (#[trigger] ps[i].port_num) as int == i + 1
}

/// A device's port list is well-formed: numbered 1 up to its length, each
/// port with its identifier present exactly on an InfiniBand link.
pub open spec fn ports_wf(ps: Seq<IbPortView>) -> bool {
    &&& ports_numbered(ps)
    &&& forall|i: int| 0 <= i < ps.len() ==> port_wf(#[trigger] ps[i])
}

/// Mathematical view of a logical device record.
#[verifier::ext_equal]
pub ghost struct IbDeviceView {
    pub name: Seq<char>,
    pub slot_name: Seq<char>,
    pub node_guid: Seq<char>,
    pub node_desc: Seq<char>,
    pub sys_image_guid: Seq<char>,
    pub fw_ver: Seq<char>,
    pub board_id: Seq<char>,
    pub ib_ports: Seq<IbPortView>,
}

/// A logical verbs device, joined from catalog metadata and the verbs-derived
/// port map.
#[derive(Debug)]
pub struct IbDevice {
    /// Verbs device name; the join key against the port map.
    pub name: String,
    /// PCI slot of the parent device; empty when no parent was resolvable.
    pub slot_name: String,
    pub node_guid: String,
    pub node_desc: String,
    pub sys_image_guid: String,
    pub fw_ver: String,
    pub board_id: String,
    /// The device's ports, numbered 1 up to their count.
    pub ib_ports: Vec<IbPort>,
}

impl DeepView for IbDevice {
    type V = IbDeviceView;

    open spec fn deep_view(&self) -> IbDeviceView {
        IbDeviceView {
            name: self.name@,
            slot_name: self.slot_name@,
            node_guid: self.node_guid@,
            node_desc: self.node_desc@,
            sys_image_guid: self.sys_image_guid@,
            fw_ver: self.fw_ver@,
            board_id: self.board_id@,
            ib_ports: self.ib_ports.deep_view(),
        }
    }
}

/// Mathematical view of a physical card record.
#[verifier::ext_equal]
pub ghost struct PciDeviceView {
    pub subsys_id: Seq<char>,
    pub model_name: Seq<char>,
    pub vendor_name: Seq<char>,
    pub vendor: Seq<char>,
    pub board_id: Seq<char>,
    pub fw_ver: Seq<char>,
    pub ib_devices: Seq<IbDeviceView>,
}

/// A physical adapter card: one per distinct subsystem id in a snapshot,
/// owning the logical devices that share that id.
#[derive(Debug)]
pub struct PciDevice {
    /// Composite vendor+device identifier; the card's identity key.
    pub subsys_id: String,
    pub model_name: String,
    pub vendor_name: String,
    /// Numeric vendor id read from the sysfs attributes.
    pub vendor: String,
    /// Board id of the most recently grouped logical device.
    pub board_id: String,
    /// Firmware version of the most recently grouped logical device.
    pub fw_ver: String,
    /// The logical devices of this card, in catalog order.
    pub ib_devices: Vec<IbDevice>,
}

impl DeepView for PciDevice {
    type V = PciDeviceView;

    open spec fn deep_view(&self) -> PciDeviceView {
        PciDeviceView {
            subsys_id: self.subsys_id@,
            model_name: self.model_name@,
            vendor_name: self.vendor_name@,
            vendor: self.vendor@,
            board_id: self.board_id@,
            fw_ver: self.fw_ver@,
            ib_devices: self.ib_devices.deep_view(),
        }
    }
}

/// Clone a port list, preserving its contents exactly.
pub fn clone_ib_ports(v: &Vec<IbPort>) -> (r: Vec<IbPort>)
    ensures
        r@ == v@,
{
    let r = v.clone();
    proof {
        assert forall|i: int| 0 <= i < r@.len() implies r@[i] == v@[i] by {
            assert(cloned::<IbPort>(v[i], r[i]));
        }
        assert(r@ =~= v@);
    }
    r
}

impl Clone for IbDevice {
    fn clone(&self) -> (r: Self)
        ensures
            r.deep_view() == self.deep_view(),
    {
        let r = IbDevice {
            name: self.name.clone(),
            slot_name: self.slot_name.clone(),
            node_guid: self.node_guid.clone(),
            node_desc: self.node_desc.clone(),
            sys_image_guid: self.sys_image_guid.clone(),
            fw_ver: self.fw_ver.clone(),
            board_id: self.board_id.clone(),
            ib_ports: clone_ib_ports(&self.ib_ports),
        };
        proof {
            assert(r.deep_view() =~= self.deep_view());
        }
        r
    }
}

/// Clone a device list, preserving its view exactly.
pub fn clone_ib_devices(v: &Vec<IbDevice>) -> (r: Vec<IbDevice>)
    ensures
        r.deep_view() == v.deep_view(),
{
    let r = v.clone();
    proof {
        assert forall|i: int| 0 <= i < r.deep_view().len() implies r.deep_view()[i]
            == v.deep_view()[i] by {
            assert(cloned::<IbDevice>(v[i], r[i]));
        }
        assert(r.deep_view() =~= v.deep_view());
    }
    r
}

impl Clone for PciDevice {
    fn clone(&self) -> (r: Self)
        ensures
            r.deep_view() == self.deep_view(),
    {
        let r = PciDevice {
            subsys_id: self.subsys_id.clone(),
            model_name: self.model_name.clone(),
            vendor_name: self.vendor_name.clone(),
            vendor: self.vendor.clone(),
            board_id: self.board_id.clone(),
            fw_ver: self.fw_ver.clone(),
            ib_devices: clone_ib_devices(&self.ib_devices),
        };
        proof {
            assert(r.deep_view() =~= self.deep_view());
        }
        r
    }
}

/// Opaque handle to one entry of the native verbs device list.
///
/// The engine never dereferences the handle; the host shim that performs the
/// native calls turns it back into the pointer it was made from.
pub struct DevicePtr {
    raw: usize,
}

impl View for DevicePtr {
    type V = usize;

    closed spec fn view(&self) -> usize {
        self.raw
    }
}

impl DevicePtr {
    /// Wrap the address of a native device list entry.
    pub fn new(raw: usize) -> (r: Self)
        ensures
            r@ == raw,
    {
        DevicePtr { raw }
    }

    /// The address this handle was made from.
    pub fn ffi_ptr(&self) -> (r: usize)
        ensures
            r == self@,
    {
        self.raw
    }
}

/// Opaque handle to a native device-attribute query buffer.
///
/// As with `DevicePtr`, the engine only carries the address through; the
/// host shim owns the buffer itself.
pub struct DeviceAttrPtr {
    raw: usize,
}

impl View for DeviceAttrPtr {
    type V = usize;

    closed spec fn view(&self) -> usize {
        self.raw
    }
}

impl DeviceAttrPtr {
    /// Wrap the address of a native device-attribute buffer.
    pub fn new(raw: usize) -> (r: Self)
        ensures
            r@ == raw,
    {
        DeviceAttrPtr { raw }
    }

    /// The address this handle was made from.
    pub fn ffi_ptr(&self) -> (r: usize)
        ensures
            r == self@,
    {
        self.raw
    }
}

} // verus!
