use torrent_engine::message::{Handshake, PeerMessage};
use torrent_engine::parser::{parse_handshake, parse_hash_string, parse_message, parse_torrent_extentions};

#[test]
fn parser_test_parse_handshake() {
    let x = Handshake {
        protocol: b"bugoga".to_vec(),
        extentions: vec![1u8, 2, 3, 4, 5, 6, 7, 8],
        info_hash: vec![1u8, 2, 3, 4, 5, 6, 7, 8, 9, 10, 11, 12, 13, 14, 15, 16, 17, 18, 19, 20],
        peer_id: vec![20u8, 19, 18, 17, 16, 15, 14, 13, 12, 11, 10, 9, 8, 7, 6, 5, 4, 3, 2, 1],
    };
    let bytes: Vec<u8> = x.to_bytes();
    let parse_res = parse_handshake(&bytes[1..], 6);
    assert_eq!(Ok(x), parse_res);
}

#[test]
fn parser_test_parse_keep_alive() {
    let val = PeerMessage::KeepAlive;
    let bytes: Vec<u8> = val.to_bytes();
    assert_eq!(parse_message(&bytes[4..], 0), Ok(val));
}

#[test]
fn parser_test_parse_interested() {
    let val = PeerMessage::Interested;
    let bytes: Vec<u8> = val.to_bytes();
    assert_eq!(parse_message(&bytes[4..], 1), Ok(val));
}

#[test]
fn parser_test_parse_have() {
    let val = PeerMessage::Have(463234);
    let bytes: Vec<u8> = val.to_bytes();
    assert_eq!(parse_message(&bytes[4..], 5), Ok(val));
}

#[test]
fn parser_test_parse_bitfield() {
    let val = PeerMessage::Bitfield(b"adnfysdfnskdfj".to_vec());
    let bytes: Vec<u8> = val.to_bytes();
    assert_eq!(parse_message(&bytes[4..], 15), Ok(val));
}

#[test]
fn parser_test_parse_request() {
    let val = PeerMessage::Request { block: 12423, offset: 345, length: 13453 };
    let bytes: Vec<u8> = val.to_bytes();
    assert_eq!(parse_message(&bytes[4..], 13), Ok(val));
}

#[test]
fn parser_test_parse_piece() {
    let val = PeerMessage::Piece {
        block: 123,
        offset: 234,
        data: b"sadnfkydfasdfwefgsdresadnfkybnf".to_vec(),
    };
    let bytes: Vec<u8> = val.to_bytes();
    assert_eq!(parse_message(&bytes[4..], 40), Ok(val));
}

#[test]
fn parser_test_parse_cancel() {
    let val = PeerMessage::Cancel { block: 31455, offset: 12334, length: 2355 };
    let bytes: Vec<u8> = val.to_bytes();
    assert_eq!(parse_message(&bytes[4..], 13), Ok(val));
}

#[test]
fn parser_test_parse_port() {
    let val = PeerMessage::Port(63445);
    let bytes: Vec<u8> = val.to_bytes();
    assert_eq!(parse_message(&bytes[4..], 3), Ok(val));
}

#[test]
fn test_slice() {
    let mut slice = b"bugogablablazazaza".as_ref();
    let check: Vec<&[u8]> = vec![b"bugoga".as_ref(), b"blabla".as_ref(), b"zazaza".as_ref()];
    let mut buf: Vec<&[u8]> = Vec::new();
    while slice.len() > 0 {
        let (chunk, slice2) = slice.split_at(6);
        slice = slice2;
        buf.push(chunk);
    }
    assert_eq!(check, buf);
}

#[test]
fn hash_string_reads_first_twenty_bytes() {
    let input: Vec<u8> = (0u8..32).collect();
    let parsed = parse_hash_string(&input).unwrap();
    assert_eq!(parsed, (0u8..20).collect::<Vec<u8>>());
    assert!(parse_hash_string(&input[..19]).is_none());
}

#[test]
fn extentions_read_first_eight_bytes() {
    let input: Vec<u8> = (10u8..30).collect();
    let parsed = parse_torrent_extentions(&input).unwrap();
    assert_eq!(parsed, (10u8..18).collect::<Vec<u8>>());
    assert!(parse_torrent_extentions(&input[..7]).is_none());
}
