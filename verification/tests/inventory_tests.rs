use libhca::catalog::{get_property, get_sysattr, CatalogEntry, RawValue};
use libhca::correlate::list_pci_devices;
use libhca::decode::{IbPortLinkType, IbPortPhysState, IbPortState};
use libhca::errors::{CatalogField, HcaError};
use libhca::portmap::PortMap;
use libhca::types::{DeviceAttrPtr, DevicePtr, IbDevice, IbPort, PciDevice};

fn text(s: &str) -> RawValue {
    RawValue::Text(s.to_string())
}

fn entry(
    subsys: &str,
    model: &str,
    vendor_name: &str,
    vendor: &str,
    slot: Option<&str>,
    name: &str,
    fw: &str,
    board: &str,
) -> CatalogEntry {
    CatalogEntry {
        subsys_id: text(subsys),
        model_name: text(model),
        vendor_name: text(vendor_name),
        vendor: text(vendor),
        slot_name: slot.map(text),
        name: text(name),
        node_guid: text("0014:0500:abcd:ef01"),
        node_desc: text("node"),
        sys_image_guid: text("0014:0500:abcd:ef02"),
        fw_ver: text(fw),
        board_id: text(board),
    }
}

fn sample_port(n: u8) -> IbPort {
    IbPort {
        port_num: n,
        guid: Some("0014:0500:abcd:ef01".to_string()),
        lid: 7,
        link_type: IbPortLinkType::Infiniband,
        state: IbPortState::Active,
        phys_state: IbPortPhysState::LinkUp,
    }
}

#[test]
fn property_reads_text_value() {
    let v = text("15b3:0014");
    assert_eq!(get_property(&v, CatalogField::SubsysId), Ok("15b3:0014".to_string()));
}

#[test]
fn missing_property_names_the_field() {
    assert_eq!(
        get_property(&RawValue::Missing, CatalogField::ModelName),
        Err(HcaError::PropertyNotFound(CatalogField::ModelName))
    );
}

#[test]
fn missing_attribute_names_the_field() {
    assert_eq!(
        get_sysattr(&RawValue::Missing, CatalogField::BoardId),
        Err(HcaError::AttributeNotFound(CatalogField::BoardId))
    );
}

#[test]
fn unreadable_value_is_an_encoding_error() {
    assert_eq!(
        get_property(&RawValue::NotText, CatalogField::Name),
        Err(HcaError::Encoding(CatalogField::Name))
    );
    assert_eq!(
        get_sysattr(&RawValue::NotText, CatalogField::FwVer),
        Err(HcaError::Encoding(CatalogField::FwVer))
    );
}

#[test]
fn pci_device_takes_identity_from_record() {
    let e = entry(
        "15b3:0014",
        "ConnectX",
        "Mellanox",
        "0x15b3",
        Some("0000:3b:00.0"),
        "mlx5_0",
        "20.36",
        "MT_0001",
    );
    let d = PciDevice::try_from(&e).unwrap();
    assert_eq!(d.subsys_id, "15b3:0014");
    assert_eq!(d.model_name, "ConnectX");
    assert_eq!(d.vendor_name, "Mellanox");
    assert_eq!(d.vendor, "0x15b3");
    assert_eq!(d.board_id, "");
    assert_eq!(d.fw_ver, "");
    assert!(d.ib_devices.is_empty());
}

#[test]
fn pci_device_fails_fast_on_first_missing_field() {
    let mut e = entry(
        "15b3:0014",
        "ConnectX",
        "Mellanox",
        "0x15b3",
        Some("s"),
        "mlx5_0",
        "20.36",
        "MT_0001",
    );
    e.subsys_id = RawValue::Missing;
    e.model_name = RawValue::Missing;
    assert_eq!(
        PciDevice::try_from(&e).unwrap_err(),
        HcaError::PropertyNotFound(CatalogField::SubsysId)
    );
}

#[test]
fn ib_device_requires_slot_when_parent_exists() {
    let mut e = entry(
        "15b3:0014",
        "ConnectX",
        "Mellanox",
        "0x15b3",
        Some("s"),
        "mlx5_0",
        "20.36",
        "MT_0001",
    );
    e.slot_name = Some(RawValue::Missing);
    assert_eq!(
        IbDevice::try_from(&e).unwrap_err(),
        HcaError::PropertyNotFound(CatalogField::SlotName)
    );
}

#[test]
fn ib_device_slot_defaults_to_empty_without_parent() {
    let e = entry(
        "15b3:0014",
        "ConnectX",
        "Mellanox",
        "0x15b3",
        None,
        "mlx5_0",
        "20.36",
        "MT_0001",
    );
    let d = IbDevice::try_from(&e).unwrap();
    assert_eq!(d.slot_name, "");
    assert_eq!(d.name, "mlx5_0");
    assert_eq!(d.fw_ver, "20.36");
    assert_eq!(d.board_id, "MT_0001");
    assert!(d.ib_ports.is_empty());
}

#[test]
fn ib_device_fails_on_missing_attribute() {
    let mut e = entry(
        "15b3:0014",
        "ConnectX",
        "Mellanox",
        "0x15b3",
        None,
        "mlx5_0",
        "20.36",
        "MT_0001",
    );
    e.node_guid = RawValue::Missing;
    assert_eq!(
        IbDevice::try_from(&e).unwrap_err(),
        HcaError::AttributeNotFound(CatalogField::NodeGuid)
    );
}

#[test]
fn empty_catalog_yields_empty_inventory() {
    let catalog: Vec<CatalogEntry> = Vec::new();
    let ports = PortMap::new();
    let cards = list_pci_devices(&catalog, &ports).unwrap();
    assert!(cards.is_empty());
}

#[test]
fn catalog_without_verbs_devices_yields_portless_devices() {
    let catalog = vec![entry(
        "15b3:0014",
        "ConnectX",
        "Mellanox",
        "0x15b3",
        Some("0000:3b:00.0"),
        "mlx5_0",
        "20.36",
        "MT_0001",
    )];
    let ports = PortMap::new();
    let cards = list_pci_devices(&catalog, &ports).unwrap();
    assert_eq!(cards.len(), 1);
    assert_eq!(cards[0].ib_devices.len(), 1);
    assert!(cards[0].ib_devices[0].ib_ports.is_empty());
}

#[test]
fn ports_attach_by_device_name() {
    let catalog = vec![
        entry(
            "15b3:0014",
            "ConnectX",
            "Mellanox",
            "0x15b3",
            Some("0000:3b:00.0"),
            "mlx5_0",
            "20.36",
            "MT_0001",
        ),
        entry(
            "15b3:0015",
            "ConnectX-B",
            "Mellanox",
            "0x15b3",
            Some("0000:3c:00.0"),
            "mlx5_1",
            "20.37",
            "MT_0002",
        ),
    ];
    let mut ports = PortMap::new();
    ports.insert("mlx5_0".to_string(), vec![sample_port(1), sample_port(2)]);
    let cards = list_pci_devices(&catalog, &ports).unwrap();
    assert_eq!(cards.len(), 2);
    let with_ports = cards.iter().find(|c| c.subsys_id == "15b3:0014").unwrap();
    let without_ports = cards.iter().find(|c| c.subsys_id == "15b3:0015").unwrap();
    assert_eq!(with_ports.ib_devices[0].ib_ports.len(), 2);
    assert_eq!(with_ports.ib_devices[0].ib_ports[0].port_num, 1);
    assert_eq!(with_ports.ib_devices[0].ib_ports[1].port_num, 2);
    assert!(without_ports.ib_devices[0].ib_ports.is_empty());
}

#[test]
fn devices_group_by_subsystem_id() {
    let catalog = vec![
        entry(
            "15b3:0014",
            "ConnectX",
            "Mellanox",
            "0x15b3",
            Some("0000:3b:00.0"),
            "mlx5_0",
            "20.36",
            "MT_0001",
        ),
        entry(
            "15b3:0014",
            "ConnectX-alt",
            "Mellanox",
            "0x15b3",
            Some("0000:3b:00.1"),
            "mlx5_1",
            "20.37",
            "MT_0002",
        ),
    ];
    let ports = PortMap::new();
    let cards = list_pci_devices(&catalog, &ports).unwrap();
    assert_eq!(cards.len(), 1);
    let card = &cards[0];
    assert_eq!(card.subsys_id, "15b3:0014");
    // Identity fields come from the first occurrence of the subsystem id.
    assert_eq!(card.model_name, "ConnectX");
    assert_eq!(card.ib_devices.len(), 2);
    assert_eq!(card.ib_devices[0].name, "mlx5_0");
    assert_eq!(card.ib_devices[1].name, "mlx5_1");
    // Firmware and board id take the most recently grouped device's values.
    assert_eq!(card.fw_ver, "20.37");
    assert_eq!(card.board_id, "MT_0002");
}

#[test]
fn parentless_record_still_yields_device() {
    // A record with no resolvable parent keeps its own identity fields and
    // gets an empty slot name; it is never skipped.
    let catalog = vec![
        entry(
            "15b3:0020",
            "BlueField",
            "Mellanox",
            "0x15b3",
            None,
            "mlx5_virtual",
            "20.00",
            "MT_0000",
        ),
        entry(
            "15b3:0014",
            "ConnectX",
            "Mellanox",
            "0x15b3",
            Some("0000:3b:00.0"),
            "mlx5_0",
            "20.36",
            "MT_0001",
        ),
    ];
    let ports = PortMap::new();
    let cards = list_pci_devices(&catalog, &ports).unwrap();
    assert_eq!(cards.len(), 2);
    let parentless = cards.iter().find(|c| c.subsys_id == "15b3:0020").unwrap();
    assert_eq!(parentless.ib_devices.len(), 1);
    assert_eq!(parentless.ib_devices[0].name, "mlx5_virtual");
    assert_eq!(parentless.ib_devices[0].slot_name, "");
}

#[test]
fn first_catalog_error_aborts_the_pass() {
    let mut bad = entry(
        "15b3:0015",
        "ConnectX-B",
        "Mellanox",
        "0x15b3",
        Some("0000:3c:00.0"),
        "mlx5_1",
        "20.37",
        "MT_0002",
    );
    bad.vendor = RawValue::Missing;
    let catalog = vec![
        entry(
            "15b3:0014",
            "ConnectX",
            "Mellanox",
            "0x15b3",
            Some("0000:3b:00.0"),
            "mlx5_0",
            "20.36",
            "MT_0001",
        ),
        bad,
    ];
    let ports = PortMap::new();
    assert_eq!(
        list_pci_devices(&catalog, &ports).unwrap_err(),
        HcaError::AttributeNotFound(CatalogField::Vendor)
    );
}

#[test]
fn port_map_lookup_follows_inserts() {
    let mut ports = PortMap::new();
    assert!(ports.get(&"mlx5_0".to_string()).is_none());
    ports.insert("mlx5_0".to_string(), vec![sample_port(1)]);
    ports.insert("mlx5_1".to_string(), vec![]);
    assert_eq!(ports.get(&"mlx5_0".to_string()).unwrap().len(), 1);
    assert_eq!(ports.get(&"mlx5_1".to_string()).unwrap().len(), 0);
    // A second insert under the same name replaces the list.
    ports.insert("mlx5_0".to_string(), vec![sample_port(1), sample_port(2)]);
    assert_eq!(ports.get(&"mlx5_0".to_string()).unwrap().len(), 2);
}

#[test]
fn device_names_stay_unique_across_cards() {
    let catalog = vec![
        entry(
            "15b3:0014",
            "ConnectX",
            "Mellanox",
            "0x15b3",
            Some("0000:3b:00.0"),
            "mlx5_0",
            "20.36",
            "MT_0001",
        ),
        entry(
            "15b3:0014",
            "ConnectX",
            "Mellanox",
            "0x15b3",
            Some("0000:3b:00.1"),
            "mlx5_1",
            "20.36",
            "MT_0001",
        ),
        entry(
            "15b3:0015",
            "ConnectX-B",
            "Mellanox",
            "0x15b3",
            None,
            "mlx5_2",
            "20.37",
            "MT_0002",
        ),
    ];
    let ports = PortMap::new();
    let cards = list_pci_devices(&catalog, &ports).unwrap();
    let mut names: Vec<String> = cards
        .iter()
        .flat_map(|c| c.ib_devices.iter().map(|d| d.name.clone()))
        .collect();
    names.sort();
    let total = names.len();
    names.dedup();
    assert_eq!(names.len(), total);
    assert_eq!(total, 3);
}

#[test]
fn repeated_runs_on_same_input_agree() {
    let make_catalog = || {
        vec![entry(
            "15b3:0014",
            "ConnectX",
            "Mellanox",
            "0x15b3",
            Some("0000:3b:00.0"),
            "mlx5_0",
            "20.36",
            "MT_0001",
        )]
    };
    // The port map entries arrive in a different order on the second run.
    let mut ports_a = PortMap::new();
    ports_a.insert("mlx5_0".to_string(), vec![sample_port(1)]);
    ports_a.insert("other".to_string(), vec![sample_port(1), sample_port(2)]);
    let mut ports_b = PortMap::new();
    ports_b.insert("other".to_string(), vec![sample_port(1), sample_port(2)]);
    ports_b.insert("mlx5_0".to_string(), vec![sample_port(1)]);

    let run_a = list_pci_devices(&make_catalog(), &ports_a).unwrap();
    let run_b = list_pci_devices(&make_catalog(), &ports_b).unwrap();
    assert_eq!(run_a.len(), run_b.len());
    assert_eq!(run_a[0].subsys_id, run_b[0].subsys_id);
    assert_eq!(run_a[0].ib_devices.len(), run_b[0].ib_devices.len());
    assert_eq!(
        run_a[0].ib_devices[0].ib_ports.len(),
        run_b[0].ib_devices[0].ib_ports.len()
    );
}

#[test]
fn device_handles_return_their_address() {
    let d = DevicePtr::new(0x7f00_1234);
    assert_eq!(d.ffi_ptr(), 0x7f00_1234);
    let a = DeviceAttrPtr::new(0x7f00_5678);
    assert_eq!(a.ffi_ptr(), 0x7f00_5678);
}
