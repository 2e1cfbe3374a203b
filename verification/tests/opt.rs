use dns::opt::OPT;
use dns::wire::{Cursor, WireError};

#[test]
fn parses() {
    let buf = &[0x05, 0xAC, 0x00, 0x00, 0x00, 0x00, 0x00, 0x00];

    assert_eq!(
        OPT::read(&mut Cursor::new(buf)).unwrap(),
        OPT {
            udp_payload_size: 1452,
            higher_bits: 0,
            edns0_version: 0,
            flags: 0,
            data: vec![],
        }
    );
}

#[test]
fn empty() {
    assert_eq!(OPT::read(&mut Cursor::new(&[])), Err(WireError::IO));
}

#[test]
fn encodes() {
    let record = OPT {
        udp_payload_size: 1452,
        higher_bits: 0,
        edns0_version: 0,
        flags: 0,
        data: vec![],
    };

    assert_eq!(
        record.to_bytes().unwrap(),
        vec![0x05, 0xAC, 0x00, 0x00, 0x00, 0x00, 0x00, 0x00]
    );
}

#[test]
fn parses_flags_and_payload() {
    let buf = &[0x00, 0x00, 0x00, 0x00, 0x00, 0x03, 0x00, 0x02, 0xAB, 0xCD];

    assert_eq!(
        OPT::read(&mut Cursor::new(buf)).unwrap(),
        OPT {
            udp_payload_size: 0,
            higher_bits: 0,
            edns0_version: 0,
            flags: 3,
            data: vec![0xAB, 0xCD],
        }
    );
}

#[test]
fn short_header_fails() {
    assert_eq!(
        OPT::read(&mut Cursor::new(&[0x05, 0xAC, 0x00])),
        Err(WireError::IO)
    );
}

#[test]
fn shortage_inside_payload_fails() {
    // The length prefix asks for four payload bytes; only two follow.
    let buf = &[0x00, 0x00, 0x00, 0x00, 0x00, 0x00, 0x00, 0x04, 0xAB, 0xCD];

    assert_eq!(OPT::read(&mut Cursor::new(buf)), Err(WireError::IO));
}

#[test]
fn round_trips() {
    let record = OPT {
        udp_payload_size: 4096,
        higher_bits: 1,
        edns0_version: 0,
        flags: 0x8000,
        data: vec![0xDE, 0xAD, 0xBE, 0xEF],
    };

    let bytes = record.to_bytes().unwrap();
    assert_eq!(OPT::read(&mut Cursor::new(&bytes)).unwrap(), record);
}

#[test]
fn round_trips_largest_payload() {
    let record = OPT {
        udp_payload_size: 65535,
        higher_bits: 255,
        edns0_version: 255,
        flags: 65535,
        data: vec![0xAA; 65535],
    };

    let bytes = record.to_bytes().unwrap();
    assert_eq!(bytes.len(), 8 + 65535);
    assert_eq!(OPT::read(&mut Cursor::new(&bytes)).unwrap(), record);
}

#[test]
fn truncated_prefixes_fail() {
    let record = OPT {
        udp_payload_size: 1280,
        higher_bits: 0,
        edns0_version: 0,
        flags: 0,
        data: vec![1, 2, 3],
    };

    let bytes = record.to_bytes().unwrap();
    let mut n: usize = 0;
    while n < bytes.len() {
        assert_eq!(
            OPT::read(&mut Cursor::new(&bytes[..n])),
            Err(WireError::IO)
        );
        n += 1;
    }
}

#[test]
fn length_prefix_matches_payload() {
    let record = OPT {
        udp_payload_size: 512,
        higher_bits: 0,
        edns0_version: 0,
        flags: 0,
        data: vec![7; 300],
    };

    let bytes = record.to_bytes().unwrap();
    assert_eq!(bytes.len(), 8 + 300);
    assert_eq!(bytes[6], 0x01);
    assert_eq!(bytes[7], 0x2C);
    assert_eq!(&bytes[8..], &record.data[..]);
}

#[test]
fn reads_consecutive_records() {
    let first = OPT {
        udp_payload_size: 1280,
        higher_bits: 0,
        edns0_version: 0,
        flags: 0,
        data: vec![1, 2],
    };
    let second = OPT {
        udp_payload_size: 4096,
        higher_bits: 5,
        edns0_version: 0,
        flags: 0x8000,
        data: vec![],
    };

    let mut bytes = first.to_bytes().unwrap();
    bytes.extend(second.to_bytes().unwrap());

    let mut cursor = Cursor::new(&bytes);
    assert_eq!(OPT::read(&mut cursor).unwrap(), first);
    assert_eq!(OPT::read(&mut cursor).unwrap(), second);
}

#[test]
fn record_type_number() {
    assert_eq!(OPT::RR_TYPE, 41);
}
