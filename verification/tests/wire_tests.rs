use hyu::connection::{read_status, ConnectionError, ReadStatus};
use hyu::elp::bytes::{read_u16, read_u32};
use hyu::elp::drm::parse_page_flip;
use hyu::elp::wl::{parse_header, Header};
use hyu::rt::producers::DrmMessage;

#[test]
fn reads_integers_in_either_byte_order() {
    let b = [0x01, 0x02, 0x03, 0x04];
    assert_eq!(read_u32(&b, 0, true), 0x0403_0201);
    assert_eq!(read_u32(&b, 0, false), 0x0102_0304);
    assert_eq!(read_u16(&b, 2, true), 0x0403);
    assert_eq!(read_u16(&b, 2, false), 0x0304);
}

#[test]
fn parses_a_request_header() {
    let mut header = Vec::new();
    header.extend_from_slice(&7u32.to_le_bytes());
    header.extend_from_slice(&3u16.to_le_bytes());
    header.extend_from_slice(&20u16.to_le_bytes());
    let h = parse_header(&header, true);
    assert_eq!(h, Header { object: 7, op: 3, size: 20 });
    assert_eq!(h.params_len(), 12);
}

#[test]
fn header_without_arguments_has_no_params() {
    let header = [1, 0, 0, 0, 0, 0, 8, 0];
    let h = parse_header(&header, true);
    assert_eq!(h.params_len(), 0);
}

#[test]
fn parses_a_page_flip_event() {
    let mut e = Vec::new();
    for v in [2u32, 32] {
        e.extend_from_slice(&v.to_le_bytes());
    }
    e.extend_from_slice(&0xdead_beefu64.to_le_bytes());
    for v in [1234u32, 5678, 42, 77] {
        e.extend_from_slice(&v.to_le_bytes());
    }
    assert_eq!(
        parse_page_flip(&e, true),
        DrmMessage::PageFlip { tv_sec: 1234, tv_usec: 5678, sequence: 42, crtc_id: 77 }
    );
}

#[test]
fn native_order_matches_the_host() {
    let little = 1u16.to_ne_bytes()[0] == 1;
    let bytes = 0x1234_5678u32.to_ne_bytes();
    assert_eq!(read_u32(&bytes, 0, little), 0x1234_5678);
}

#[test]
fn read_status_of_socket_reads() {
    assert_eq!(read_status(0, 8), Ok(ReadStatus::Closed));
    assert_eq!(read_status(8, 8), Ok(ReadStatus::Complete));
    assert_eq!(read_status(4, 8), Err(ConnectionError::Short { expected: 8, got: 4 }));
}
