use torrent_engine::message::{Handshake, PeerMessage};
use torrent_engine::parser::{decode_handshake, decode_message, parse_handshake, parse_message, FrameError};

fn sample_handshake() -> Handshake {
    Handshake {
        protocol: b"bugoga".to_vec(),
        extentions: vec![1u8, 2, 3, 4, 5, 6, 7, 8],
        info_hash: vec![1u8, 2, 3, 4, 5, 6, 7, 8, 9, 10, 11, 12, 13, 14, 15, 16, 17, 18, 19, 20],
        peer_id: vec![20u8, 19, 18, 17, 16, 15, 14, 13, 12, 11, 10, 9, 8, 7, 6, 5, 4, 3, 2, 1],
    }
}

#[test]
fn message_test_parse_handshake() {
    let x = sample_handshake();
    let bytes: Vec<u8> = x.to_bytes();
    let parse_res = parse_handshake(&bytes[1..], 6);
    assert_eq!(Ok(x), parse_res);
}

#[test]
fn message_test_parse_keep_alive() {
    let val = PeerMessage::KeepAlive;
    let bytes: Vec<u8> = val.to_bytes();
    assert_eq!(parse_message(&bytes[4..], 0), Ok(val));
}

#[test]
fn message_test_parse_interested() {
    let val = PeerMessage::Interested;
    let bytes: Vec<u8> = val.to_bytes();
    assert_eq!(parse_message(&bytes[4..], 1), Ok(val));
}

#[test]
fn message_test_parse_have() {
    let val = PeerMessage::Have(463234);
    let bytes: Vec<u8> = val.to_bytes();
    assert_eq!(parse_message(&bytes[4..], 5), Ok(val));
}

#[test]
fn message_test_parse_bitfield() {
    let val = PeerMessage::Bitfield(b"adnfysdfnskdfj".to_vec());
    let bytes: Vec<u8> = val.to_bytes();
    assert_eq!(parse_message(&bytes[4..], 15), Ok(val));
}

#[test]
fn message_test_parse_request() {
    let val = PeerMessage::Request { block: 12423, offset: 345, length: 13453 };
    let bytes: Vec<u8> = val.to_bytes();
    assert_eq!(parse_message(&bytes[4..], 13), Ok(val));
}

#[test]
fn message_test_parse_piece() {
    let val = PeerMessage::Piece {
        block: 123,
        offset: 234,
        data: b"sadnfkydfasdfwefgsdresadnfkybnf".to_vec(),
    };
    let bytes: Vec<u8> = val.to_bytes();
    assert_eq!(parse_message(&bytes[4..], 40), Ok(val));
}

#[test]
fn message_test_parse_cancel() {
    let val = PeerMessage::Cancel { block: 31455, offset: 12334, length: 2355 };
    let bytes: Vec<u8> = val.to_bytes();
    assert_eq!(parse_message(&bytes[4..], 13), Ok(val));
}

#[test]
fn message_test_parse_port() {
    let val = PeerMessage::Port(63445);
    let bytes: Vec<u8> = val.to_bytes();
    assert_eq!(parse_message(&bytes[4..], 3), Ok(val));
}

#[test]
fn test_empty_messages() {
    let bytes: Vec<u8> = PeerMessage::KeepAlive.to_bytes();
    assert_eq!([0u8, 0, 0, 0].as_ref(), bytes.as_slice());
    let bytes: Vec<u8> = PeerMessage::Choke.to_bytes();
    assert_eq!([0u8, 0, 0, 1, b'0'].as_ref(), bytes.as_slice());
    let bytes: Vec<u8> = PeerMessage::Unchoke.to_bytes();
    assert_eq!([0u8, 0, 0, 1, b'1'].as_ref(), bytes.as_slice());
    let bytes: Vec<u8> = PeerMessage::Interested.to_bytes();
    assert_eq!([0u8, 0, 0, 1, b'2'].as_ref(), bytes.as_slice());
    let bytes: Vec<u8> = PeerMessage::NotInterested.to_bytes();
    assert_eq!([0u8, 0, 0, 1, b'3'].as_ref(), bytes.as_slice());
}

#[test]
fn test_simple_messages() {
    let bytes: Vec<u8> = PeerMessage::Have(0x342f21cc).to_bytes();
    assert_eq!([0u8, 0, 0, 5, b'4', 0x34, 0x2f, 0x21, 0xcc].as_ref(), bytes.as_slice());
}

#[test]
fn test_bit_ops() {
    let offset: u8 = 1 % 8;
    let mask: u8 = 1u8 << (7 - offset);
    assert_eq!(0b01000000, mask);

    let mask: u8 = 0xffu8 ^ mask;
    assert_eq!(0b10111111, mask);

    let a: u8 = 0b11100011u8;
    let b: u8 = 0b00111001u8;
    assert_eq!(0b00100001u8, a & b);
    assert_eq!(0b00011000u8, (a & b) ^ b);
}

#[test]
fn round_trip_every_variant() {
    let messages = vec![
        PeerMessage::KeepAlive,
        PeerMessage::Choke,
        PeerMessage::Unchoke,
        PeerMessage::Interested,
        PeerMessage::NotInterested,
        PeerMessage::Have(0xdeadbeef),
        PeerMessage::Bitfield(vec![0b10100000u8, 0x01]),
        PeerMessage::Bitfield(Vec::new()),
        PeerMessage::Request { block: 1, offset: 2, length: 3 },
        PeerMessage::Piece { block: 9, offset: 16384, data: b"block bytes".to_vec() },
        PeerMessage::Piece { block: 0, offset: 0, data: Vec::new() },
        PeerMessage::Cancel { block: 4, offset: 5, length: 6 },
        PeerMessage::Port(6881),
    ];
    for m in messages {
        let bytes = m.clone().to_bytes();
        assert_eq!(decode_message(&bytes), Ok((bytes.len(), m)));
    }
}

#[test]
fn decode_have_scenario() {
    let bytes = [0u8, 0, 0, 5, b'4', 0x34, 0x2f, 0x21, 0xcc];
    assert_eq!(decode_message(&bytes), Ok((9, PeerMessage::Have(0x342f21cc))));
}

#[test]
fn decode_incomplete_frames() {
    assert_eq!(decode_message(&[0u8, 0]), Err(FrameError::Incomplete));
    assert_eq!(decode_message(&[0u8, 0, 0, 5, b'4', 1, 2]), Err(FrameError::Incomplete));
}

#[test]
fn decode_invalid_frames() {
    assert_eq!(decode_message(&[0u8, 0, 0, 1, b'z']), Err(FrameError::Invalid));
    assert_eq!(decode_message(&[0u8, 0, 0, 2, b'4', 9]), Err(FrameError::Invalid));
    assert_eq!(decode_message(&[0u8, 0, 0, 2, b'0', 9]), Err(FrameError::Invalid));
    assert_eq!(decode_message(&[0u8, 0, 0, 5, b'7', 1, 2, 3, 4]), Err(FrameError::Invalid));
}

#[test]
fn handshake_full_frame_round_trip() {
    let x = sample_handshake();
    let bytes = x.to_bytes();
    assert_eq!(bytes.len(), 49 + 6);
    assert_eq!(decode_handshake(&bytes), Ok((49 + 6, x)));
    assert_eq!(decode_handshake(&bytes[..20]), Err(FrameError::Incomplete));
}

#[test]
fn handshake_validate_info_hash_only() {
    let a = sample_handshake();
    let mut b = sample_handshake();
    b.protocol = b"other protocol".to_vec();
    b.peer_id = vec![9u8; 20];
    b.extentions = vec![0u8; 8];
    assert!(a.validate(&b));
    assert!(b.validate(&a));
    let mut c = sample_handshake();
    c.info_hash[19] = 99;
    assert!(!a.validate(&c));
    assert!(!c.validate(&a));
}
