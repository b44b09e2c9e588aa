use libhca::decode::{
    decode_link_type, decode_phys_state, decode_port_state, format_global_id, IbPortLinkType,
    IbPortPhysState, IbPortState,
};
use libhca::errors::DecodeError;

#[test]
fn link_type_one_is_infiniband() {
    assert_eq!(decode_link_type(1), Ok(IbPortLinkType::Infiniband));
}

#[test]
fn link_type_two_is_ethernet() {
    assert_eq!(decode_link_type(2), Ok(IbPortLinkType::Ethernet));
}

#[test]
fn link_type_zero_is_refused() {
    assert_eq!(decode_link_type(0), Err(DecodeError::UnknownLinkType(0)));
}

#[test]
fn link_type_other_codes_are_refused() {
    assert_eq!(decode_link_type(3), Err(DecodeError::UnknownLinkType(3)));
    assert_eq!(decode_link_type(255), Err(DecodeError::UnknownLinkType(255)));
}

#[test]
fn port_state_codes() {
    assert_eq!(decode_port_state(2), Ok(IbPortState::Initializing));
    assert_eq!(decode_port_state(4), Ok(IbPortState::Active));
    assert_eq!(decode_port_state(1), Ok(IbPortState::Down));
}

#[test]
fn port_state_unknown_code_is_refused() {
    assert_eq!(decode_port_state(3), Err(DecodeError::UnknownPortState(3)));
    assert_eq!(decode_port_state(0), Err(DecodeError::UnknownPortState(0)));
    assert_eq!(decode_port_state(99), Err(DecodeError::UnknownPortState(99)));
}

#[test]
fn phys_state_two_is_polling() {
    assert_eq!(decode_phys_state(2), Ok(IbPortPhysState::Polling));
}

#[test]
fn phys_state_five_is_link_up() {
    assert_eq!(decode_phys_state(5), Ok(IbPortPhysState::LinkUp));
}

#[test]
fn phys_state_three_is_disabled() {
    assert_eq!(decode_phys_state(3), Ok(IbPortPhysState::Disabled));
}

#[test]
fn phys_state_nine_is_refused() {
    assert_eq!(decode_phys_state(9), Err(DecodeError::UnknownPhysState(9)));
}

#[test]
fn global_id_renders_tail_bytes_as_hex_groups() {
    let raw: Vec<u8> = vec![
        0xfe, 0x80, 0x00, 0x00, 0x00, 0x00, 0x00, 0x00, 0x00, 0x14, 0x05, 0x00, 0xab, 0xcd, 0xef,
        0x01,
    ];
    assert_eq!(format_global_id(&raw), "0014:0500:abcd:ef01");
}

#[test]
fn global_id_pads_each_byte_to_two_digits() {
    let raw: Vec<u8> = vec![0, 0, 0, 0, 0, 0, 0, 0, 0, 0, 0, 0, 0, 0, 0, 0x0a];
    assert_eq!(format_global_id(&raw), "0000:0000:0000:000a");
}

#[test]
fn global_id_uses_lowercase_digits() {
    let raw: Vec<u8> = vec![
        0, 0, 0, 0, 0, 0, 0, 0, 0xff, 0xee, 0xdd, 0xcc, 0xbb, 0xaa, 0x99, 0x88,
    ];
    assert_eq!(format_global_id(&raw), "ffee:ddcc:bbaa:9988");
}

#[test]
fn link_type_labels() {
    assert_eq!(IbPortLinkType::Ethernet.display(), "Eth");
    assert_eq!(IbPortLinkType::Infiniband.display(), "IB");
}

#[test]
fn port_state_labels() {
    assert_eq!(IbPortState::Initializing.display(), "Initializing");
    assert_eq!(IbPortState::Active.display(), "Active");
    assert_eq!(IbPortState::Down.display(), "Down");
}

#[test]
fn phys_state_labels() {
    assert_eq!(IbPortPhysState::Polling.display(), "Polling");
    assert_eq!(IbPortPhysState::LinkUp.display(), "LinkUp");
    assert_eq!(IbPortPhysState::Disabled.display(), "Disabled");
}
