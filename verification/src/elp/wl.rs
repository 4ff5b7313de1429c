//! The header of a Wayland request: object id, opcode and message size.
use vstd::prelude::*;

use crate::elp::bytes::{read_u16, read_u32};

verus! {

/// The size of a message header in bytes.
pub const HEADER_SIZE: usize = 4 + 2 + 2;

/// A decoded message header.
#[derive(Clone, Copy, PartialEq, Eq, Structural, Debug)]
pub struct Header {
    pub object: u32,
    pub op: u16,
    /// The size of the whole message, header included.
    pub size: u16,
}

/// The header that the eight bytes `b` encode in the given byte order.
pub open spec fn header_spec(b: Seq<u8>, little_endian: bool) -> Header {
    Header {
        object: crate::elp::bytes::u32_at(b, 0, little_endian),
        op: crate::elp::bytes::u16_at(b, 4, little_endian),
        size: crate::elp::bytes::u16_at(b, 6, little_endian),
    }
}

/// Decodes a message header; the size must cover the header itself.
pub fn parse_header(header: &[u8], little_endian: bool) -> (r: Header)
    requires
        header@.len() == HEADER_SIZE,
        crate::elp::bytes::u16_at(header@, 6, little_endian) >= HEADER_SIZE,
    ensures
        r == header_spec(header@, little_endian),
        r.size >= HEADER_SIZE,
{
    let object = read_u32(header, 0, little_endian);
    let op = read_u16(header, 4, little_endian);
    let size = read_u16(header, 6, little_endian);
    Header { object, op, size }
}

impl Header {
    /// The number of argument bytes that follow the header.
    pub fn params_len(&self) -> (r: usize)
        requires
            self.size >= HEADER_SIZE,
        ensures
            r == self.size - HEADER_SIZE,
    {
        (self.size - HEADER_SIZE as u16) as usize
    }
}

} // verus!
