use libhca::catalog::RawValue;
use libhca::errors::{CatalogField, DecodeError, HcaError};
use libhca::scan::{PortScan, RawPortAttr, ScanAction, ScanEvent};

fn name(s: &str) -> RawValue {
    RawValue::Text(s.to_string())
}

fn gid_of(tail: [u8; 8]) -> Vec<u8> {
    let mut g: Vec<u8> = vec![0xfe, 0x80, 0, 0, 0, 0, 0, 0];
    g.extend_from_slice(&tail);
    g
}

fn ib_attr() -> RawPortAttr {
    RawPortAttr { state: 4, lid: 7, link_layer: 1, phys_state: 5 }
}

fn eth_attr() -> RawPortAttr {
    RawPortAttr { state: 2, lid: 0, link_layer: 2, phys_state: 3 }
}

#[test]
fn scan_of_one_device_with_two_ports() {
    let mut scan = PortScan::new();
    assert!(matches!(scan.next_action(), ScanAction::GetDeviceList));
    scan.step(ScanEvent::DeviceList(Ok(vec![name("mlx5_0")])));
    assert!(matches!(scan.next_action(), ScanAction::OpenDevice(0)));
    scan.step(ScanEvent::Opened(Ok(())));
    assert!(matches!(scan.next_action(), ScanAction::QueryDevice));
    scan.step(ScanEvent::DeviceAttrs(Ok(2)));
    assert!(matches!(scan.next_action(), ScanAction::QueryPort(1)));
    scan.step(ScanEvent::PortAttrs(Ok(ib_attr())));
    assert!(matches!(scan.next_action(), ScanAction::QueryGid(1)));
    scan.step(ScanEvent::Gid(Ok(gid_of([0x00, 0x14, 0x05, 0x00, 0xab, 0xcd, 0xef, 0x01]))));
    assert!(matches!(scan.next_action(), ScanAction::QueryPort(2)));
    scan.step(ScanEvent::PortAttrs(Ok(eth_attr())));
    assert!(matches!(scan.next_action(), ScanAction::QueryGid(2)));
    scan.step(ScanEvent::Gid(Ok(gid_of([0; 8]))));
    assert!(matches!(scan.next_action(), ScanAction::CloseDevice));
    scan.step(ScanEvent::Closed);
    assert!(matches!(scan.next_action(), ScanAction::Finish));

    let pm = scan.into_result().unwrap();
    let ports = pm.get(&"mlx5_0".to_string()).unwrap();
    assert_eq!(ports.len(), 2);
    assert_eq!(ports[0].port_num, 1);
    assert_eq!(ports[1].port_num, 2);
    // The identifier is present exactly on the InfiniBand port.
    assert_eq!(ports[0].guid.as_deref(), Some("0014:0500:abcd:ef01"));
    assert!(ports[1].guid.is_none());
    assert_eq!(ports[0].lid, 7);
}

#[test]
fn scan_visits_every_listed_device() {
    let mut scan = PortScan::new();
    scan.step(ScanEvent::DeviceList(Ok(vec![name("mlx5_0"), name("mlx5_1")])));
    for idx in 0..2usize {
        match scan.next_action() {
            ScanAction::OpenDevice(i) => assert_eq!(i, idx),
            other => panic!("expected an open, got {:?}", other),
        }
        scan.step(ScanEvent::Opened(Ok(())));
        scan.step(ScanEvent::DeviceAttrs(Ok(0)));
        assert!(matches!(scan.next_action(), ScanAction::CloseDevice));
        scan.step(ScanEvent::Closed);
    }
    assert!(matches!(scan.next_action(), ScanAction::Finish));
    let pm = scan.into_result().unwrap();
    assert_eq!(pm.get(&"mlx5_0".to_string()).unwrap().len(), 0);
    assert_eq!(pm.get(&"mlx5_1".to_string()).unwrap().len(), 0);
}

#[test]
fn empty_device_list_finishes_with_empty_map() {
    let mut scan = PortScan::new();
    scan.step(ScanEvent::DeviceList(Ok(Vec::new())));
    assert!(matches!(scan.next_action(), ScanAction::Finish));
    let pm = scan.into_result().unwrap();
    assert!(pm.get(&"mlx5_0".to_string()).is_none());
}

#[test]
fn device_list_failure_is_hardware_unavailable() {
    let mut scan = PortScan::new();
    scan.step(ScanEvent::DeviceList(Err(19)));
    assert!(matches!(scan.next_action(), ScanAction::Finish));
    assert_eq!(scan.into_result().unwrap_err(), HcaError::HardwareUnavailable(19));
}

#[test]
fn open_failure_aborts_without_a_close() {
    let mut scan = PortScan::new();
    scan.step(ScanEvent::DeviceList(Ok(vec![name("mlx5_0")])));
    scan.step(ScanEvent::Opened(Err(13)));
    // No context was opened, so none is to be closed.
    assert!(matches!(scan.next_action(), ScanAction::Finish));
    assert_eq!(scan.into_result().unwrap_err(), HcaError::DeviceOpenFailed(13));
}

#[test]
fn port_query_failure_still_closes_the_context() {
    let mut scan = PortScan::new();
    scan.step(ScanEvent::DeviceList(Ok(vec![name("mlx5_0")])));
    scan.step(ScanEvent::Opened(Ok(())));
    scan.step(ScanEvent::DeviceAttrs(Ok(2)));
    scan.step(ScanEvent::PortAttrs(Err(5)));
    // Fail-fast, but the open context is closed before the scan ends.
    assert!(matches!(scan.next_action(), ScanAction::CloseDevice));
    scan.step(ScanEvent::Closed);
    assert!(matches!(scan.next_action(), ScanAction::Finish));
    assert_eq!(scan.into_result().unwrap_err(), HcaError::QueryFailed(5));
}

#[test]
fn device_query_failure_still_closes_the_context() {
    let mut scan = PortScan::new();
    scan.step(ScanEvent::DeviceList(Ok(vec![name("mlx5_0")])));
    scan.step(ScanEvent::Opened(Ok(())));
    scan.step(ScanEvent::DeviceAttrs(Err(22)));
    assert!(matches!(scan.next_action(), ScanAction::CloseDevice));
    scan.step(ScanEvent::Closed);
    assert_eq!(scan.into_result().unwrap_err(), HcaError::QueryFailed(22));
}

#[test]
fn gid_query_failure_still_closes_the_context() {
    let mut scan = PortScan::new();
    scan.step(ScanEvent::DeviceList(Ok(vec![name("mlx5_0")])));
    scan.step(ScanEvent::Opened(Ok(())));
    scan.step(ScanEvent::DeviceAttrs(Ok(1)));
    scan.step(ScanEvent::PortAttrs(Ok(ib_attr())));
    scan.step(ScanEvent::Gid(Err(6)));
    assert!(matches!(scan.next_action(), ScanAction::CloseDevice));
    scan.step(ScanEvent::Closed);
    assert_eq!(scan.into_result().unwrap_err(), HcaError::QueryFailed(6));
}

#[test]
fn unknown_link_type_aborts_the_whole_scan() {
    let mut scan = PortScan::new();
    scan.step(ScanEvent::DeviceList(Ok(vec![name("mlx5_0"), name("mlx5_1")])));
    scan.step(ScanEvent::Opened(Ok(())));
    scan.step(ScanEvent::DeviceAttrs(Ok(1)));
    scan.step(ScanEvent::PortAttrs(Ok(RawPortAttr {
        state: 4,
        lid: 7,
        link_layer: 7,
        phys_state: 5,
    })));
    scan.step(ScanEvent::Gid(Ok(gid_of([0; 8]))));
    // The decode error aborts enumeration for the entire snapshot: after
    // the close, the second device is never opened.
    assert!(matches!(scan.next_action(), ScanAction::CloseDevice));
    scan.step(ScanEvent::Closed);
    assert!(matches!(scan.next_action(), ScanAction::Finish));
    assert_eq!(
        scan.into_result().unwrap_err(),
        HcaError::Decode(DecodeError::UnknownLinkType(7))
    );
}

#[test]
fn unknown_port_state_aborts_the_scan() {
    let mut scan = PortScan::new();
    scan.step(ScanEvent::DeviceList(Ok(vec![name("mlx5_0")])));
    scan.step(ScanEvent::Opened(Ok(())));
    scan.step(ScanEvent::DeviceAttrs(Ok(1)));
    scan.step(ScanEvent::PortAttrs(Ok(RawPortAttr {
        state: 6,
        lid: 7,
        link_layer: 1,
        phys_state: 5,
    })));
    scan.step(ScanEvent::Gid(Ok(gid_of([0; 8]))));
    scan.step(ScanEvent::Closed);
    assert_eq!(
        scan.into_result().unwrap_err(),
        HcaError::Decode(DecodeError::UnknownPortState(6))
    );
}

#[test]
fn unknown_phys_state_aborts_the_scan() {
    let mut scan = PortScan::new();
    scan.step(ScanEvent::DeviceList(Ok(vec![name("mlx5_0")])));
    scan.step(ScanEvent::Opened(Ok(())));
    scan.step(ScanEvent::DeviceAttrs(Ok(1)));
    scan.step(ScanEvent::PortAttrs(Ok(RawPortAttr {
        state: 4,
        lid: 7,
        link_layer: 1,
        phys_state: 9,
    })));
    scan.step(ScanEvent::Gid(Ok(gid_of([0; 8]))));
    scan.step(ScanEvent::Closed);
    assert_eq!(
        scan.into_result().unwrap_err(),
        HcaError::Decode(DecodeError::UnknownPhysState(9))
    );
}

#[test]
fn scanned_ports_are_numbered_from_one() {
    let mut scan = PortScan::new();
    scan.step(ScanEvent::DeviceList(Ok(vec![name("mlx5_0")])));
    scan.step(ScanEvent::Opened(Ok(())));
    scan.step(ScanEvent::DeviceAttrs(Ok(3)));
    for n in 1..=3u8 {
        assert!(matches!(scan.next_action(), ScanAction::QueryPort(k) if k == n));
        scan.step(ScanEvent::PortAttrs(Ok(eth_attr())));
        scan.step(ScanEvent::Gid(Ok(gid_of([0; 8]))));
    }
    scan.step(ScanEvent::Closed);
    let pm = scan.into_result().unwrap();
    let ports = pm.get(&"mlx5_0".to_string()).unwrap();
    let nums: Vec<u8> = ports.iter().map(|p| p.port_num).collect();
    assert_eq!(nums, vec![1, 2, 3]);
}

#[test]
fn non_text_device_name_fails_with_encoding_error() {
    let mut scan = PortScan::new();
    scan.step(ScanEvent::DeviceList(Ok(vec![name("mlx5_0"), RawValue::NotText])));
    // The name decode fails before any context is opened.
    assert!(matches!(scan.next_action(), ScanAction::Finish));
    assert_eq!(
        scan.into_result().unwrap_err(),
        HcaError::Encoding(CatalogField::Name)
    );
}
