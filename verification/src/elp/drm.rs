//! The page-flip event that the DRM device reports.
use vstd::prelude::*;

use crate::elp::bytes::read_u32;
use crate::rt::producers::DrmMessage;

verus! {

/// The size of a vblank event in bytes.
pub const VBLANK_EVENT_SIZE: usize = 32;

/// The event type of a page-flip completion.
pub const FLIP_COMPLETE: u32 = 2;

/// The page flip that the 32 bytes `b` encode in the given byte order: type
/// and length, user data, then seconds, microseconds, sequence and CRTC.
pub open spec fn page_flip_spec(b: Seq<u8>, little_endian: bool) -> DrmMessage {
    DrmMessage::PageFlip {
        tv_sec: crate::elp::bytes::u32_at(b, 16, little_endian),
        tv_usec: crate::elp::bytes::u32_at(b, 20, little_endian),
        sequence: crate::elp::bytes::u32_at(b, 24, little_endian),
        crtc_id: crate::elp::bytes::u32_at(b, 28, little_endian),
    }
}

/// Decodes a page-flip event.
pub fn parse_page_flip(event: &[u8], little_endian: bool) -> (r: DrmMessage)
    requires
        event@.len() == VBLANK_EVENT_SIZE,
        crate::elp::bytes::u32_at(event@, 0, little_endian) == FLIP_COMPLETE,
    ensures
        r == page_flip_spec(event@, little_endian),
{
    DrmMessage::PageFlip {
        tv_sec: read_u32(event, 16, little_endian),
        tv_usec: read_u32(event, 20, little_endian),
        sequence: read_u32(event, 24, little_endian),
        crtc_id: read_u32(event, 28, little_endian),
    }
}

} // verus!
