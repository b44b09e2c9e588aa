//! Decoding of raw hardware status codes into typed states, and formatting
//! of the port global identifier.
//!
//! The decoders are deliberately strict: each recognizes a fixed subset of
//! the host's verbs codes and rejects everything else with a `DecodeError`.

use vstd::prelude::*;

verus! {

use crate::errors::DecodeError;

/// Link layer of a port.
#[derive(Clone, Copy, Debug, PartialEq, Eq, Structural)]
pub enum IbPortLinkType {
    Ethernet,
    Infiniband,
}

/// Logical state of a port.
#[derive(Clone, Copy, Debug, PartialEq, Eq, Structural)]
pub enum IbPortState {
    Initializing,
    Active,
    Down,
}

/// Physical state of a port.
#[derive(Clone, Copy, Debug, PartialEq, Eq, Structural)]
pub enum IbPortPhysState {
    Polling,
    LinkUp,
    Disabled,
}

/// What `decode_link_type` returns for each raw link layer code.
pub open spec fn link_type_spec(raw: u8) -> Result<IbPortLinkType, DecodeError> {
    if raw == 1 {
        Ok(IbPortLinkType::Infiniband)
    } else if raw == 2 {
        Ok(IbPortLinkType::Ethernet)
    } else {
        Err(DecodeError::UnknownLinkType(raw))
    }
}

/// Decode the link layer code a port query reports: 1 is InfiniBand, 2 is
/// Ethernet, and every other value is refused.
pub fn decode_link_type(raw: u8) -> (r: Result<IbPortLinkType, DecodeError>)
    ensures
        r == link_type_spec(raw),
{
    match raw {
        1 => Ok(IbPortLinkType::Infiniband),
        2 => Ok(IbPortLinkType::Ethernet),
        _ => Err(DecodeError::UnknownLinkType(raw)),
    }
}

/// What `decode_port_state` returns for each raw port state code.
pub open spec fn port_state_spec(raw: u32) -> Result<IbPortState, DecodeError> {
    if raw == 2 {
        Ok(IbPortState::Initializing)
    } else if raw == 4 {
        Ok(IbPortState::Active)
    } else if raw == 1 {
        Ok(IbPortState::Down)
    } else {
        Err(DecodeError::UnknownPortState(raw))
    }
}

/// Decode the port state code a port query reports: 2 is initializing, 4 is
/// active, 1 is down, and every other value is refused.
pub fn decode_port_state(raw: u32) -> (r: Result<IbPortState, DecodeError>)
    ensures
        r == port_state_spec(raw),
{
    match raw {
        2 => Ok(IbPortState::Initializing),
        4 => Ok(IbPortState::Active),
        1 => Ok(IbPortState::Down),
        _ => Err(DecodeError::UnknownPortState(raw)),
    }
}

/// What `decode_phys_state` returns for each raw physical state code.
pub open spec fn phys_state_spec(raw: u8) -> Result<IbPortPhysState, DecodeError> {
    if raw == 2 {
        Ok(IbPortPhysState::Polling)
    } else if raw == 3 {
        Ok(IbPortPhysState::Disabled)
    } else if raw == 5 {
        Ok(IbPortPhysState::LinkUp)
    } else {
        Err(DecodeError::UnknownPhysState(raw))
    }
}

/// Decode the physical state code a port query reports: 2 is polling, 3 is
/// disabled, 5 is link up, and every other value is refused.
pub fn decode_phys_state(raw: u8) -> (r: Result<IbPortPhysState, DecodeError>)
    ensures
        r == phys_state_spec(raw),
{
    match raw {
        2 => Ok(IbPortPhysState::Polling),
        3 => Ok(IbPortPhysState::Disabled),
        5 => Ok(IbPortPhysState::LinkUp),
        _ => Err(DecodeError::UnknownPhysState(raw)),
    }
}

/// The short label a link type is rendered as.
pub open spec fn link_type_label(t: IbPortLinkType) -> Seq<char> {
    match t {
        IbPortLinkType::Ethernet => "Eth"@,
        IbPortLinkType::Infiniband => "IB"@,
    }
}

/// The label a port state is rendered as.
pub open spec fn port_state_label(s: IbPortState) -> Seq<char> {
    match s {
        IbPortState::Initializing => "Initializing"@,
        IbPortState::Active => "Active"@,
        IbPortState::Down => "Down"@,
    }
}

/// The label a physical state is rendered as.
pub open spec fn phys_state_label(s: IbPortPhysState) -> Seq<char> {
    match s {
        IbPortPhysState::Polling => "Polling"@,
        IbPortPhysState::LinkUp => "LinkUp"@,
        IbPortPhysState::Disabled => "Disabled"@,
    }
}

impl IbPortLinkType {
    /// Human-readable label of the link type.
    pub fn display(&self) -> (r: String)
        ensures
            r@ == link_type_label(*self),
    {
        match self {
            IbPortLinkType::Ethernet => String::from_str("Eth"),
            IbPortLinkType::Infiniband => String::from_str("IB"),
        }
    }
}

impl IbPortState {
    /// Human-readable label of the port state.
    pub fn display(&self) -> (r: String)
        ensures
            r@ == port_state_label(*self),
    {
        match self {
            IbPortState::Initializing => String::from_str("Initializing"),
            IbPortState::Active => String::from_str("Active"),
            IbPortState::Down => String::from_str("Down"),
        }
    }
}

impl IbPortPhysState {
    /// Human-readable label of the physical state.
    pub fn display(&self) -> (r: String)
        ensures
            r@ == phys_state_label(*self),
    {
        match self {
            IbPortPhysState::Polling => String::from_str("Polling"),
            IbPortPhysState::LinkUp => String::from_str("LinkUp"),
            IbPortPhysState::Disabled => String::from_str("Disabled"),
        }
    }
}

/// The lowercase hex digit of a nibble.
pub open spec fn hex_digit(n: u8) -> char {
    if n == 0 {
        '0'
    } else if n == 1 {
        '1'
    } else if n == 2 {
        '2'
    } else if n == 3 {
        '3'
    } else if n == 4 {
        '4'
    } else if n == 5 {
        '5'
    } else if n == 6 {
        '6'
    } else if n == 7 {
        '7'
    } else if n == 8 {
        '8'
    } else if n == 9 {
        '9'
    } else if n == 10 {
        'a'
    } else if n == 11 {
        'b'
    } else if n == 12 {
        'c'
    } else if n == 13 {
        'd'
    } else if n == 14 {
        'e'
    } else {
        'f'
    }
}

/// A byte as two zero-padded lowercase hex digits.
pub open spec fn hex_pair(b: u8) -> Seq<char> {
    seq![hex_digit(b / 16), hex_digit(b % 16)]
}

/// The rendering of a 16-byte port global identifier: bytes 8 to 15 as four
/// 2-byte hex groups separated by colons.
pub open spec fn global_id_label(g: Seq<u8>) -> Seq<char>
    recommends
        g.len() == 16,
{
    hex_pair(g[8]) + hex_pair(g[9]) + seq![':'] + hex_pair(g[10]) + hex_pair(g[11]) + seq![':']
        + hex_pair(g[12]) + hex_pair(g[13]) + seq![':'] + hex_pair(g[14]) + hex_pair(g[15])
}

/// Append one lowercase hex digit to a string.
fn append_hex_digit(s: &mut String, n: u8)
    requires
        n < 16,
    ensures
        final(s)@ == old(s)@ + seq![hex_digit(n)],
{
    let d = match n {
        0 => "0",
        1 => "1",
        2 => "2",
        3 => "3",
        4 => "4",
        5 => "5",
        6 => "6",
        7 => "7",
        8 => "8",
        9 => "9",
        10 => "a",
        11 => "b",
        12 => "c",
        13 => "d",
        14 => "e",
        _ => "f",
    };
    proof {
        reveal_strlit("0");
        reveal_strlit("1");
        reveal_strlit("2");
        reveal_strlit("3");
        reveal_strlit("4");
        reveal_strlit("5");
        reveal_strlit("6");
        reveal_strlit("7");
        reveal_strlit("8");
        reveal_strlit("9");
        reveal_strlit("a");
        reveal_strlit("b");
        reveal_strlit("c");
        reveal_strlit("d");
        reveal_strlit("e");
        reveal_strlit("f");
        assert(d@ =~= seq![hex_digit(n)]);
    }
    s.append(d);
}

/// Append a byte as two hex digits to a string.
fn append_hex_byte(s: &mut String, b: u8)
    ensures
        final(s)@ == old(s)@ + hex_pair(b),
{
    append_hex_digit(s, b / 16);
    append_hex_digit(s, b % 16);
    proof {
        assert(s@ =~= old(s)@ + hex_pair(b));
    }
}

/// Render a port's 16-byte raw global identifier as four colon-separated
/// 2-byte hex groups, taken from bytes 8 to 15.
pub fn format_global_id(raw: &Vec<u8>) -> (r: String)
    requires
        raw@.len() == 16,
    ensures
        r@ == global_id_label(raw@),
{
    let mut s = String::new();
    append_hex_byte(&mut s, raw[8]);
    append_hex_byte(&mut s, raw[9]);
    proof {
        reveal_strlit(":");
    }
    s.append(":");
    append_hex_byte(&mut s, raw[10]);
    append_hex_byte(&mut s, raw[11]);
    s.append(":");
    append_hex_byte(&mut s, raw[12]);
    append_hex_byte(&mut s, raw[13]);
    s.append(":");
    append_hex_byte(&mut s, raw[14]);
    append_hex_byte(&mut s, raw[15]);
    proof {
        assert(":"@ =~= seq![':']);
        assert(s@ =~= global_id_label(raw@));
    }
    s
}

} // verus!
