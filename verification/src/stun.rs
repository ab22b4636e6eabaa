//! The one STUN exchange that the tunnel makes: a binding request, and the
//! address that the server maps the sender to.

use vstd::prelude::*;
use crate::net::PeerAddr;

verus! {

/// The seconds to wait for the answer of one server.
pub const PROBE_TIMEOUT_SECS: u64 = 3;

/// The type of the attribute that holds the mapped address, masked.
pub const XOR_MAPPED_ADDRESS: u16 = 0x0020;

/// The binding request that is sent: its type, no attributes, the magic
/// cookie, and a fixed transaction id.
pub open spec fn binding_request() -> Seq<u8> {
    seq![
        0x00u8,
        0x01u8,
        0x00u8,
        0x00u8,
        0x21u8,
        0x12u8,
        0xA4u8,
        0x42u8,
        0x01u8,
        0x02u8,
        0x03u8,
        0x04u8,
        0x05u8,
        0x06u8,
        0x07u8,
        0x08u8,
        0x09u8,
        0x0Au8,
        0x0Bu8,
        0x0Cu8,
    ]
}

/// The number that two bytes write, the high byte first.
pub open spec fn be16(hi: u8, lo: u8) -> u16 {
    (hi as int * 256 + lo as int) as u16
}

/// How far the attribute after one with a value of `len` bytes begins: four
/// bytes of header, then the value, filled up to a multiple of four.
pub open spec fn attribute_stride(len: u16) -> int {
    if len % 4 == 0 {
        4 + len
    } else {
        4 + len + (4 - len % 4)
    }
}

/// The address in the attribute at `offset`, unmasked: the port with the
/// high half of the magic cookie, the octets with its four bytes.
pub open spec fn mapped_address(message: Seq<u8>, offset: int) -> PeerAddr {
    PeerAddr {
        ip: [
            message[offset + 8] ^ 0x21u8,
            message[offset + 9] ^ 0x12u8,
            message[offset + 10] ^ 0xA4u8,
            message[offset + 11] ^ 0x42u8,
        ],
        port: be16(message[offset + 6], message[offset + 7]) ^ 0x2112u16,
    }
}

/// The first IPv4 address in a masked mapped-address attribute at or after
/// `offset`. The attributes are read one after the other while more than
/// four bytes are left; one that holds a mapped address but runs off the
/// end of the message ends the reading, and so does one whose value does.
pub open spec fn scan_attributes(message: Seq<u8>, offset: int) -> Option<PeerAddr>
    decreases message.len() - offset,
{
    if offset < 0 || offset + 4 >= message.len() {
        None
    } else {
        let kind = be16(message[offset], message[offset + 1]);
        let len = be16(message[offset + 2], message[offset + 3]);
        if kind == XOR_MAPPED_ADDRESS && len >= 8 && offset + 12 > message.len() {
            None
        } else if kind == XOR_MAPPED_ADDRESS && len >= 8 && message[offset + 5] == 1 {
            Some(mapped_address(message, offset))
        } else if offset + attribute_stride(len) >= message.len() {
            None
        } else {
            scan_attributes(message, offset + attribute_stride(len))
        }
    }
}

/// The address that a response reports: the response is longer than its
/// header, is a binding success, and holds a mapped IPv4 address.
pub open spec fn reported_address(message: Seq<u8>) -> Option<PeerAddr> {
    if message.len() > 20 && message[0] == 0x01 && message[1] == 0x01 {
        scan_attributes(message, 20)
    } else {
        None
    }
}

/// The binding request to send.
pub fn stun_binding_request() -> (r: [u8; 20])
    ensures
        r@ == binding_request(),
{
    let r: [u8; 20] = [
        0x00,
        0x01,
        0x00,
        0x00,
        0x21,
        0x12,
        0xA4,
        0x42,
        0x01,
        0x02,
        0x03,
        0x04,
        0x05,
        0x06,
        0x07,
        0x08,
        0x09,
        0x0A,
        0x0B,
        0x0C,
    ];
    r
}

fn read_be16(hi: u8, lo: u8) -> (r: u16)
    ensures
        r == be16(hi, lo),
{
    hi as u16 * 256 + lo as u16
}

/// The address that a response reports, if it reports one.
pub fn parse_stun_response(message: &[u8]) -> (r: Option<PeerAddr>)
    ensures
        r == reported_address(message@),
{
    let len = message.len();
    if len <= 20 || message[0] != 0x01 || message[1] != 0x01 {
        return None;
    }
    let mut offset: usize = 20;
    while len - offset > 4
        invariant
            20 <= offset <= len,
            len == message.len(),
            reported_address(message@) == scan_attributes(message@, offset as int),
        decreases len - offset,
    {
        let kind = read_be16(message[offset], message[offset + 1]);
        let attr_len = read_be16(message[offset + 2], message[offset + 3]);
        if kind == XOR_MAPPED_ADDRESS && attr_len >= 8 {
            if len - offset < 12 {
                return None;
            }
            if message[offset + 5] == 1 {
                let port = read_be16(message[offset + 6], message[offset + 7]) ^ 0x2112u16;
                let ip: [u8; 4] = [
                    message[offset + 8] ^ 0x21u8,
                    message[offset + 9] ^ 0x12u8,
                    message[offset + 10] ^ 0xA4u8,
                    message[offset + 11] ^ 0x42u8,
                ];
                let found = PeerAddr { ip, port };
                return Some(found);
            }
        }
        let pad: usize = if attr_len % 4 == 0 {
            0
        } else {
            4 - (attr_len % 4) as usize
        };
        let stride: usize = 4 + attr_len as usize + pad;
        if stride >= len - offset {
            return None;
        }
        offset = offset + stride;
    }
    None
}

} // verus!
