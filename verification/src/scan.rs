//! The verbs port scan, as a verified step machine.
//!
//! The native verbs interface can only be driven by an unverified host
//! shim, so the scan is split: the shim performs exactly the native call
//! `next_action` asks for and reports the outcome as a `ScanEvent`, while
//! every decision — the order of the queries, the decoding of every raw
//! answer, the fail-fast abort, and when the open device context must be
//! closed — is made by `step` and verified here.
//!
//! The context lifecycle is part of the machine's contract: a context
//! becomes open only when the shim reports a successful open, and the
//! machine always asks for exactly one close before it opens another
//! device or finishes, on every path, success or failure.

use vstd::prelude::*;

verus! {

use crate::catalog::{get_property, property_spec, RawValue, RawValueView};
use crate::decode::{
    decode_link_type, decode_phys_state, decode_port_state, format_global_id, global_id_label,
    link_type_spec, phys_state_spec, port_state_spec, IbPortLinkType,
};
use crate::errors::{CatalogField, DecodeError, HcaError};
use crate::portmap::PortMap;
use crate::types::{port_wf, ports_numbered, ports_wf, IbPort, IbPortView};

/// Raw per-port attributes, exactly as one native port query reports them.
#[derive(Clone, Copy, Debug, PartialEq, Eq, Structural)]
pub struct RawPortAttr {
    /// Logical port state code.
    pub state: u32,
    /// Subnet-local id.
    pub lid: u16,
    /// Link layer code.
    pub link_layer: u8,
    /// Physical state code.
    pub phys_state: u8,
}

/// The port record a raw attribute answer and a raw global identifier
/// decode to, or the first decode error: link type first, then the
/// identifier (rendered only on InfiniBand links), then the two states.
pub open spec fn ib_port_spec(port_num: u8, attr: RawPortAttr, gid: Seq<u8>) -> Result<
    IbPortView,
    DecodeError,
> {
    match link_type_spec(attr.link_layer) {
        Err(e) => Err(e),
        Ok(lt) => {
            let guid = if lt is Infiniband {
                Some(global_id_label(gid))
            } else {
                None
            };
            match port_state_spec(attr.state) {
                Err(e) => Err(e),
                Ok(st) => match phys_state_spec(attr.phys_state) {
                    Err(e) => Err(e),
                    Ok(ph) => Ok(
                        IbPortView {
                            port_num,
                            guid,
                            lid: attr.lid,
                            link_type: lt,
                            state: st,
                            phys_state: ph,
                        },
                    ),
                },
            }
        },
    }
}

/// Decode one port's raw query answers into a port record, failing on the
/// first unrecognized status code.
pub fn build_ib_port(port_num: u8, attr: RawPortAttr, gid: &Vec<u8>) -> (r: Result<
    IbPort,
    DecodeError,
>)
    requires
        gid@.len() == 16,
    ensures
        match r {
            Ok(p) => ib_port_spec(port_num, attr, gid@) == Ok::<IbPortView, DecodeError>(
                p.deep_view(),
            ),
            Err(e) => ib_port_spec(port_num, attr, gid@) == Err::<IbPortView, DecodeError>(e),
        },
{
    let link_type = match decode_link_type(attr.link_layer) {
        Ok(t) => t,
        Err(e) => {
            return Err(e);
        },
    };
    let guid = match link_type {
        IbPortLinkType::Ethernet => None,
        IbPortLinkType::Infiniband => Some(format_global_id(gid)),
    };
    let state = match decode_port_state(attr.state) {
        Ok(s) => s,
        Err(e) => {
            return Err(e);
        },
    };
    let phys_state = match decode_phys_state(attr.phys_state) {
        Ok(s) => s,
        Err(e) => {
            return Err(e);
        },
    };
    Ok(IbPort { port_num, guid, lid: attr.lid, link_type, state, phys_state })
}

/// A port record decoded from raw answers has its identifier exactly on an
/// InfiniBand link, and carries the number it was queried under.
pub proof fn lemma_ib_port_spec_wf(port_num: u8, attr: RawPortAttr, gid: Seq<u8>)
    ensures
        ib_port_spec(port_num, attr, gid) matches Ok(p) ==> port_wf(p) && p.port_num == port_num,
{
}

/// Where the scan stands between two native calls.
#[derive(Clone, Copy, Debug, PartialEq, Eq, Structural)]
pub enum ScanPhase {
    /// Nothing asked yet; the device list is next.
    Start,
    /// A context for the current device is to be opened.
    Opening,
    /// The open context's device attributes are to be queried.
    QueryingDevice,
    /// The current port's attributes are to be queried.
    QueryingPort,
    /// The current port's global identifier is to be queried.
    QueryingGid,
    /// The open context is to be closed.
    Closing,
    /// The scan is over; the result can be collected.
    Finished,
}

/// The next native call the scan asks the host shim to perform.
#[derive(Clone, Copy, Debug, PartialEq, Eq, Structural)]
pub enum ScanAction {
    /// Obtain the native device list.
    GetDeviceList,
    /// Open a context for the device at this index of the list.
    OpenDevice(usize),
    /// Query the open context's device attributes.
    QueryDevice,
    /// Query the attributes of this 1-based port of the open context.
    QueryPort(u8),
    /// Query global identifier 0 of this 1-based port of the open context.
    QueryGid(u8),
    /// Close the open context.
    CloseDevice,
    /// Nothing remains to be done; collect the result.
    Finish,
}

/// Mathematical view of what the host shim observed.
pub ghost enum ScanEventView {
    DeviceList(Result<Seq<RawValueView>, i32>),
    Opened(Result<(), i32>),
    DeviceAttrs(Result<u8, i32>),
    PortAttrs(Result<RawPortAttr, i32>),
    Gid(Result<Seq<u8>, i32>),
    Closed,
}

/// What the host shim observed for the call it was asked to make; the
/// `i32` is the host's error code at the point of failure.
pub enum ScanEvent {
    /// The device list, one raw name value per device: the machine, not
    /// the shim, decides what a name that is not valid text means.
    DeviceList(Result<Vec<RawValue>, i32>),
    /// Outcome of opening the device context.
    Opened(Result<(), i32>),
    /// The device's physical port count.
    DeviceAttrs(Result<u8, i32>),
    /// The port's raw attributes.
    PortAttrs(Result<RawPortAttr, i32>),
    /// The port's raw 16-byte global identifier.
    Gid(Result<Vec<u8>, i32>),
    /// The context was closed.
    Closed,
}

impl DeepView for ScanEvent {
    type V = ScanEventView;

    open spec fn deep_view(&self) -> ScanEventView {
        match self {
            ScanEvent::DeviceList(res) => ScanEventView::DeviceList(
                match res {
                    Ok(names) => Ok(names.deep_view()),
                    Err(c) => Err(*c),
                },
            ),
            ScanEvent::Opened(res) => ScanEventView::Opened(
                match res {
                    Ok(_) => Ok(()),
                    Err(c) => Err(*c),
                },
            ),
            ScanEvent::DeviceAttrs(res) => ScanEventView::DeviceAttrs(
                match res {
                    Ok(n) => Ok(*n),
                    Err(c) => Err(*c),
                },
            ),
            ScanEvent::PortAttrs(res) => ScanEventView::PortAttrs(
                match res {
                    Ok(a) => Ok(*a),
                    Err(c) => Err(*c),
                },
            ),
            ScanEvent::Gid(res) => ScanEventView::Gid(
                match res {
                    Ok(g) => Ok(g.deep_view()),
                    Err(c) => Err(*c),
                },
            ),
            ScanEvent::Closed => ScanEventView::Closed,
        }
    }
}

/// Mathematical view of the scan state.
#[verifier::ext_equal]
pub ghost struct ScanView {
    pub phase: ScanPhase,
    /// Device names, in host list order.
    pub names: Seq<Seq<char>>,
    /// Index of the device being scanned.
    pub idx: int,
    /// Port count the current device reported.
    pub port_cnt: int,
    /// The 1-based number of the port being queried.
    pub next_port: int,
    /// Attributes of the port whose identifier is still to be queried.
    pub pending: Option<RawPortAttr>,
    /// Ports built so far for the current device.
    pub ports: Seq<IbPortView>,
    /// Port lists of the devices already scanned, by name.
    pub result: Map<Seq<char>, Seq<IbPortView>>,
    /// The error the scan will report, recorded at the point of failure.
    pub failure: Option<HcaError>,
}

/// The scan state before any call was asked for.
pub open spec fn scan_init() -> ScanView {
    ScanView {
        phase: ScanPhase::Start,
        names: Seq::empty(),
        idx: 0,
        port_cnt: 0,
        next_port: 1,
        pending: None,
        ports: Seq::empty(),
        result: Map::empty(),
        failure: None,
    }
}

/// The device names a raw list decodes to, in order, or the error for the
/// first entry that is not valid text: the name is a required value, read
/// like the catalog's name property.
pub open spec fn device_names_spec(raw: Seq<RawValueView>) -> Result<Seq<Seq<char>>, HcaError>
    decreases raw.len(),
{
    if raw.len() == 0 {
        Ok(Seq::empty())
    } else {
        match property_spec(raw.first(), CatalogField::Name) {
            Err(e) => Err(e),
            Ok(s) => match device_names_spec(raw.drop_first()) {
                Err(e) => Err(e),
                Ok(rest) => Ok(seq![s] + rest),
            },
        }
    }
}

/// Decode the raw device list into names, failing on the first entry that
/// is missing or not valid text.
fn decode_device_names(raw: &Vec<RawValue>) -> (r: Result<Vec<String>, HcaError>)
    ensures
        match r {
            Ok(ns) => device_names_spec(raw.deep_view()) == Ok::<Seq<Seq<char>>, HcaError>(
                ns.deep_view(),
            ),
            Err(e) => device_names_spec(raw.deep_view()) == Err::<Seq<Seq<char>>, HcaError>(e),
        },
{
    let ghost rv = raw.deep_view();
    let mut names: Vec<String> = Vec::new();
    let n = raw.len();
    let mut i: usize = 0;
    proof {
        assert(rv.skip(0) =~= rv);
        assert(names.deep_view() =~= Seq::<Seq<char>>::empty());
    }
    while i < n
        invariant
            n == raw.deep_view().len(),
            i <= n,
            rv == raw.deep_view(),
            device_names_spec(rv) == (match device_names_spec(rv.skip(i as int)) {
                Ok(rest) => Ok::<Seq<Seq<char>>, HcaError>(names.deep_view() + rest),
                Err(e) => Err::<Seq<Seq<char>>, HcaError>(e),
            }),
        decreases n - i,
    {
        let ghost tail = rv.skip(i as int);
        proof {
            assert(tail[0] == rv[i as int]);
            assert(tail.drop_first() =~= rv.skip(i as int + 1));
        }
        match get_property(&raw[i], CatalogField::Name) {
            Err(e) => {
                return Err(e);
            },
            Ok(s) => {
                let ghost ns0 = names.deep_view();
                names.push(s);
                proof {
                    match device_names_spec(rv.skip(i as int + 1)) {
                        Ok(rest) => {
                            assert(ns0 + (seq![s@] + rest) =~= names.deep_view() + rest);
                        },
                        Err(_) => {},
                    }
                }
            },
        }
        i += 1;
    }
    proof {
        assert(rv.skip(n as int) =~= Seq::<RawValueView>::empty());
        assert(names.deep_view() + Seq::<Seq<char>>::empty() =~= names.deep_view());
    }
    Ok(names)
}

/// The native call asked for in a given state.
pub open spec fn scan_action(s: ScanView) -> ScanAction {
    match s.phase {
        ScanPhase::Start => ScanAction::GetDeviceList,
        ScanPhase::Opening => ScanAction::OpenDevice(s.idx as usize),
        ScanPhase::QueryingDevice => ScanAction::QueryDevice,
        ScanPhase::QueryingPort => ScanAction::QueryPort(s.next_port as u8),
        ScanPhase::QueryingGid => ScanAction::QueryGid(s.next_port as u8),
        ScanPhase::Closing => ScanAction::CloseDevice,
        ScanPhase::Finished => ScanAction::Finish,
    }
}

/// Whether an event answers the call the state asked for. A global
/// identifier is always 16 bytes.
pub open spec fn expects(s: ScanView, ev: ScanEventView) -> bool {
    match (s.phase, ev) {
        (ScanPhase::Start, ScanEventView::DeviceList(_)) => true,
        (ScanPhase::Opening, ScanEventView::Opened(_)) => true,
        (ScanPhase::QueryingDevice, ScanEventView::DeviceAttrs(_)) => true,
        (ScanPhase::QueryingPort, ScanEventView::PortAttrs(_)) => true,
        (ScanPhase::QueryingGid, ScanEventView::Gid(res)) => match res {
            Ok(g) => g.len() == 16,
            Err(_) => true,
        },
        (ScanPhase::Closing, ScanEventView::Closed) => true,
        _ => false,
    }
}

/// A device context is open exactly in the phases between a successful
/// open and the close the machine asks for.
pub open spec fn ctx_open(s: ScanView) -> bool {
    ||| s.phase is QueryingDevice
    ||| s.phase is QueryingPort
    ||| s.phase is QueryingGid
    ||| s.phase is Closing
}

/// The scan state after one event. Failures abort the whole scan: an error
/// on any query is recorded and the context is still closed before the
/// scan finishes.
pub open spec fn scan_step(s: ScanView, ev: ScanEventView) -> ScanView {
    match (s.phase, ev) {
        (ScanPhase::Start, ScanEventView::DeviceList(res)) => match res {
            Err(code) => ScanView {
                phase: ScanPhase::Finished,
                failure: Some(HcaError::HardwareUnavailable(code)),
                ..s
            },
            Ok(raw) => match device_names_spec(raw) {
                Err(e) => ScanView { phase: ScanPhase::Finished, failure: Some(e), ..s },
                Ok(names) => if names.len() == 0 {
                    ScanView { phase: ScanPhase::Finished, names, ..s }
                } else {
                    ScanView { phase: ScanPhase::Opening, names, idx: 0, ..s }
                },
            },
        },
        (ScanPhase::Opening, ScanEventView::Opened(res)) => match res {
            Err(code) => ScanView {
                phase: ScanPhase::Finished,
                failure: Some(HcaError::DeviceOpenFailed(code)),
                ..s
            },
            Ok(_) => ScanView { phase: ScanPhase::QueryingDevice, ..s },
        },
        (ScanPhase::QueryingDevice, ScanEventView::DeviceAttrs(res)) => match res {
            Err(code) => ScanView {
                phase: ScanPhase::Closing,
                failure: Some(HcaError::QueryFailed(code)),
                ..s
            },
            Ok(cnt) => if cnt == 0 {
                ScanView {
                    phase: ScanPhase::Closing,
                    port_cnt: 0,
                    next_port: 1,
                    ports: Seq::empty(),
                    result: s.result.insert(s.names[s.idx], Seq::empty()),
                    ..s
                }
            } else {
                ScanView {
                    phase: ScanPhase::QueryingPort,
                    port_cnt: cnt as int,
                    next_port: 1,
                    ports: Seq::empty(),
                    ..s
                }
            },
        },
        (ScanPhase::QueryingPort, ScanEventView::PortAttrs(res)) => match res {
            Err(code) => ScanView {
                phase: ScanPhase::Closing,
                failure: Some(HcaError::QueryFailed(code)),
                ..s
            },
            Ok(attr) => ScanView { phase: ScanPhase::QueryingGid, pending: Some(attr), ..s },
        },
        (ScanPhase::QueryingGid, ScanEventView::Gid(res)) => match res {
            Err(code) => ScanView {
                phase: ScanPhase::Closing,
                failure: Some(HcaError::QueryFailed(code)),
                pending: None,
                ..s
            },
            Ok(g) => match s.pending {
                None => s,
                Some(attr) => match ib_port_spec(s.next_port as u8, attr, g) {
                    Err(de) => ScanView {
                        phase: ScanPhase::Closing,
                        failure: Some(HcaError::Decode(de)),
                        pending: None,
                        ..s
                    },
                    Ok(p) => if s.next_port == s.port_cnt {
                        ScanView {
                            phase: ScanPhase::Closing,
                            pending: None,
                            ports: Seq::empty(),
                            result: s.result.insert(s.names[s.idx], s.ports.push(p)),
                            ..s
                        }
                    } else {
                        ScanView {
                            phase: ScanPhase::QueryingPort,
                            pending: None,
                            ports: s.ports.push(p),
                            next_port: s.next_port + 1,
                            ..s
                        }
                    },
                },
            },
        },
        (ScanPhase::Closing, ScanEventView::Closed) => match s.failure {
            Some(_) => ScanView { phase: ScanPhase::Finished, ..s },
            None => if s.idx + 1 == s.names.len() {
                ScanView { phase: ScanPhase::Finished, idx: s.idx + 1, ..s }
            } else {
                ScanView { phase: ScanPhase::Opening, idx: s.idx + 1, ..s }
            },
        },
        _ => s,
    }
}

/// What holds of every reachable scan state.
pub open spec fn scan_inv(s: ScanView) -> bool {
    &&& s.phase is Start ==> s.names.len() == 0 && s.idx == 0 && s.failure is None
    &&& (s.phase is Opening || s.phase is QueryingDevice) ==> s.failure is None
    &&& 0 <= s.idx <= s.names.len()
    &&& (s.phase is Opening || ctx_open(s)) ==> s.idx < s.names.len()
    &&& 0 <= s.port_cnt <= 255
    &&& 1 <= s.next_port <= 256
    &&& (s.phase is QueryingPort || s.phase is QueryingGid) ==> {
        &&& 1 <= s.next_port <= s.port_cnt
        &&& s.ports.len() == s.next_port - 1
        &&& s.failure is None
    }
    &&& s.phase is QueryingGid ==> s.pending is Some
    &&& ports_wf(s.ports)
    &&& forall|n: Seq<char>| #[trigger] s.result.contains_key(n) ==> ports_wf(s.result[n])
}

/// One step from a reachable state on an expected event lands in a
/// reachable state.
pub proof fn lemma_scan_step_inv(s: ScanView, ev: ScanEventView)
    requires
        scan_inv(s),
        expects(s, ev),
    ensures
        scan_inv(scan_step(s, ev)),
{
    let s2 = scan_step(s, ev);
    match (s.phase, ev) {
        (ScanPhase::QueryingGid, ScanEventView::Gid(res)) => {
            match res {
                Ok(g) => {
                    let attr = s.pending.unwrap();
                    match ib_port_spec(s.next_port as u8, attr, g) {
                        Ok(p) => {
                            lemma_ib_port_spec_wf(s.next_port as u8, attr, g);
                            let ps = s.ports.push(p);
                            assert forall|i: int| 0 <= i < ps.len() implies (
                            #[trigger] ps[i].port_num) as int == i + 1 && port_wf(ps[i]) by {
                                if i < s.ports.len() {
                                    assert(ps[i] == s.ports[i]);
                                }
                            }
                            if s.next_port == s.port_cnt {
                                assert forall|n: Seq<char>| #[trigger]
                                    s2.result.contains_key(n) implies ports_wf(s2.result[n]) by {
                                    if n != s.names[s.idx] {
                                        assert(s.result.contains_key(n));
                                    }
                                }
                            }
                        },
                        Err(_) => {},
                    }
                },
                Err(_) => {},
            }
        },
        (ScanPhase::QueryingDevice, ScanEventView::DeviceAttrs(res)) => {
            match res {
                Ok(cnt) => {
                    if cnt == 0 {
                        assert forall|n: Seq<char>| #[trigger]
                            s2.result.contains_key(n) implies ports_wf(s2.result[n]) by {
                            if n != s.names[s.idx] {
                                assert(s.result.contains_key(n));
                            }
                        }
                    }
                },
                Err(_) => {},
            }
        },
        _ => {},
    }
}

/// A context becomes open only through a successful open of the device the
/// machine asked to open.
pub proof fn lemma_ctx_opens_only_on_open(s: ScanView, ev: ScanEventView)
    requires
        scan_inv(s),
        expects(s, ev),
        !ctx_open(s),
        ctx_open(scan_step(s, ev)),
    ensures
        s.phase is Opening,
        scan_action(s) == ScanAction::OpenDevice(s.idx as usize),
        ev matches ScanEventView::Opened(res) && res is Ok,
{
}

/// An open context is released only by the close the machine asked for:
/// the only step out of the open-context phases is the `Closed` answer to
/// a `CloseDevice` action. Together with `lemma_ctx_opens_only_on_open`
/// and the scan finishing only with the context closed, every successful
/// open is paired with exactly one close, on every path.
pub proof fn lemma_ctx_closes_only_on_close(s: ScanView, ev: ScanEventView)
    requires
        scan_inv(s),
        expects(s, ev),
        ctx_open(s),
        !ctx_open(scan_step(s, ev)),
    ensures
        s.phase is Closing,
        scan_action(s) == ScanAction::CloseDevice,
        ev == ScanEventView::Closed,
{
}

/// A finished scan holds no open context.
pub proof fn lemma_finished_ctx_closed(s: ScanView)
    requires
        s.phase is Finished,
    ensures
        !ctx_open(s),
{
}

/// Whenever a step records a device in the result map, the recorded list
/// holds exactly as many ports as the device reported — `port_cnt`, the
/// count the device-attribute query answered — numbered 1 up to that
/// count, each once; no other entry of the map changes.
pub proof fn lemma_recorded_list_matches_reported_count(s: ScanView, ev: ScanEventView)
    requires
        scan_inv(s),
        expects(s, ev),
    ensures
        ({
            let s2 = scan_step(s, ev);
            s2.result != s.result ==> {
                &&& s2.result.contains_key(s.names[s.idx])
                &&& s2.result[s.names[s.idx]].len() == s2.port_cnt
                &&& ports_numbered(s2.result[s.names[s.idx]])
                &&& forall|n: Seq<char>|
                    n != s.names[s.idx] ==> #[trigger] s2.result.contains_key(n)
                        == s.result.contains_key(n) && (s.result.contains_key(n)
                        ==> s2.result[n] == s.result[n])
            }
        }),
{
    lemma_scan_step_inv(s, ev);
    let s2 = scan_step(s, ev);
    if s2.result != s.result {
        match (s.phase, ev) {
            (ScanPhase::QueryingDevice, ScanEventView::DeviceAttrs(_)) => {},
            (ScanPhase::QueryingGid, ScanEventView::Gid(_)) => {
                assert(s2.result[s.names[s.idx]].len() == s.ports.len() + 1);
            },
            _ => {},
        }
        assert(ports_numbered(s2.result[s.names[s.idx]]));
    }
}

/// The scan machine. `next_action` says which native call to make; the
/// outcome is fed back through `step`; `into_result` hands out the
/// name-keyed port map, or the first error, once the scan is finished.
pub struct PortScan {
    phase: ScanPhase,
    names: Vec<String>,
    idx: usize,
    port_cnt: u8,
    next_port: u16,
    pending: Option<RawPortAttr>,
    ports: Vec<IbPort>,
    result: PortMap,
    failure: Option<HcaError>,
}

impl View for PortScan {
    type V = ScanView;

    closed spec fn view(&self) -> ScanView {
        ScanView {
            phase: self.phase,
            names: self.names.deep_view(),
            idx: self.idx as int,
            port_cnt: self.port_cnt as int,
            next_port: self.next_port as int,
            pending: self.pending,
            ports: self.ports.deep_view(),
            result: self.result@,
            failure: self.failure,
        }
    }
}

impl PortScan {
    /// A scan that has not asked for anything yet.
    pub fn new() -> (r: Self)
        ensures
            r@ == scan_init(),
            scan_inv(r@),
    {
        let r = PortScan {
            phase: ScanPhase::Start,
            names: Vec::new(),
            idx: 0,
            port_cnt: 0,
            next_port: 1,
            pending: None,
            ports: Vec::new(),
            result: PortMap::new(),
            failure: None,
        };
        proof {
            assert(r.names.deep_view() =~= Seq::<Seq<char>>::empty());
            assert(r.ports.deep_view() =~= Seq::<IbPortView>::empty());
            assert(r@ =~= scan_init());
        }
        r
    }

    /// The native call to perform next.
    pub fn next_action(&self) -> (a: ScanAction)
        requires
            scan_inv(self@),
        ensures
            a == scan_action(self@),
    {
        match self.phase {
            ScanPhase::Start => ScanAction::GetDeviceList,
            ScanPhase::Opening => ScanAction::OpenDevice(self.idx),
            ScanPhase::QueryingDevice => ScanAction::QueryDevice,
            ScanPhase::QueryingPort => ScanAction::QueryPort(self.next_port as u8),
            ScanPhase::QueryingGid => ScanAction::QueryGid(self.next_port as u8),
            ScanPhase::Closing => ScanAction::CloseDevice,
            ScanPhase::Finished => ScanAction::Finish,
        }
    }

    /// Feed back what the host shim observed for the call that was asked
    /// for, and advance the scan.
    pub fn step(&mut self, ev: ScanEvent)
        requires
            scan_inv(old(self)@),
            expects(old(self)@, ev.deep_view()),
        ensures
            final(self)@ == scan_step(old(self)@, ev.deep_view()),
            scan_inv(final(self)@),
    {
        proof {
            lemma_scan_step_inv(self@, ev.deep_view());
        }
        let ghost s0 = self@;
        let ghost evv = ev.deep_view();
        match ev {
            ScanEvent::DeviceList(res) => {
                match res {
                    Err(code) => {
                        self.failure = Some(HcaError::HardwareUnavailable(code));
                        self.phase = ScanPhase::Finished;
                    },
                    Ok(raw) => match decode_device_names(&raw) {
                        Err(e) => {
                            self.failure = Some(e);
                            self.phase = ScanPhase::Finished;
                        },
                        Ok(names) => {
                            self.names = names;
                            if self.names.len() == 0 {
                                self.phase = ScanPhase::Finished;
                            } else {
                                self.idx = 0;
                                self.phase = ScanPhase::Opening;
                            }
                        },
                    },
                }
            },
            ScanEvent::Opened(res) => {
                match res {
                    Err(code) => {
                        self.failure = Some(HcaError::DeviceOpenFailed(code));
                        self.phase = ScanPhase::Finished;
                    },
                    Ok(_) => {
                        self.phase = ScanPhase::QueryingDevice;
                    },
                }
            },
            ScanEvent::DeviceAttrs(res) => {
                match res {
                    Err(code) => {
                        self.failure = Some(HcaError::QueryFailed(code));
                        self.phase = ScanPhase::Closing;
                    },
                    Ok(cnt) => {
                        self.port_cnt = cnt;
                        self.next_port = 1;
                        self.ports = Vec::new();
                        if cnt == 0 {
                            let name = self.names[self.idx].clone();
                            let no_ports: Vec<IbPort> = Vec::new();
                            proof {
                                assert(no_ports.deep_view() =~= Seq::<IbPortView>::empty());
                            }
                            self.result.insert(name, no_ports);
                            self.phase = ScanPhase::Closing;
                        } else {
                            self.phase = ScanPhase::QueryingPort;
                        }
                    },
                }
            },
            ScanEvent::PortAttrs(res) => {
                match res {
                    Err(code) => {
                        self.failure = Some(HcaError::QueryFailed(code));
                        self.phase = ScanPhase::Closing;
                    },
                    Ok(attr) => {
                        self.pending = Some(attr);
                        self.phase = ScanPhase::QueryingGid;
                    },
                }
            },
            ScanEvent::Gid(res) => {
                match res {
                    Err(code) => {
                        self.failure = Some(HcaError::QueryFailed(code));
                        self.pending = None;
                        self.phase = ScanPhase::Closing;
                    },
                    Ok(g) => {
                        let attr = self.pending.unwrap();
                        match build_ib_port(self.next_port as u8, attr, &g) {
                            Err(de) => {
                                self.failure = Some(HcaError::Decode(de));
                                self.pending = None;
                                self.phase = ScanPhase::Closing;
                            },
                            Ok(p) => {
                                self.ports.push(p);
                                self.pending = None;
                                if self.next_port == self.port_cnt as u16 {
                                    let mut done: Vec<IbPort> = Vec::new();
                                    core::mem::swap(&mut self.ports, &mut done);
                                    let name = self.names[self.idx].clone();
                                    self.result.insert(name, done);
                                    self.phase = ScanPhase::Closing;
                                    proof {
                                        assert(done.deep_view() =~= s0.ports.push(p.deep_view()));
                                        assert(self.ports.deep_view() =~= Seq::<
                                            IbPortView,
                                        >::empty());
                                    }
                                } else {
                                    self.next_port = self.next_port + 1;
                                    self.phase = ScanPhase::QueryingPort;
                                    proof {
                                        assert(self.ports.deep_view() =~= s0.ports.push(
                                            p.deep_view(),
                                        ));
                                    }
                                }
                            },
                        }
                    },
                }
            },
            ScanEvent::Closed => {
                match self.failure {
                    Some(_) => {
                        self.phase = ScanPhase::Finished;
                    },
                    None => {
                        let n = self.names.len();
                        proof {
                            assert(self.names.deep_view().len() == self.names@.len());
                            assert((self.idx as int) < self@.names.len());
                        }
                        self.idx = self.idx + 1;
                        if self.idx == n {
                            self.phase = ScanPhase::Finished;
                        } else {
                            self.phase = ScanPhase::Opening;
                        }
                    },
                }
            },
        }
        proof {
            assert(self@ =~= scan_step(s0, evv));
        }
    }

    /// The name-keyed port map a finished scan produced, or the error it
    /// failed with. Every port list handed out is well-formed: numbered
    /// 1 up to the device's reported count, identifiers present exactly on
    /// InfiniBand links.
    pub fn into_result(self) -> (r: Result<PortMap, HcaError>)
        requires
            self@.phase is Finished,
            scan_inv(self@),
        ensures
            match r {
                Ok(pm) => self@.failure is None && pm@ == self@.result,
                Err(e) => self@.failure == Some(e),
            },
    {
        match self.failure {
            Some(e) => Err(e),
            None => Ok(self.result),
        }
    }
}

} // verus!
