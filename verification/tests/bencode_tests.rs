use torrent_engine::bencode::{dict_find, parse_bbytes, parse_bint, parse_dict, BencodeValue};
use torrent_engine::response::{hash_hex, hex_bytes, TorrentFile};

#[test]
fn integers_parse_with_sign_and_bounds() {
    assert_eq!(parse_bint(b"i42e", 0), Some((4, 42)));
    assert_eq!(parse_bint(b"i-42e", 0), Some((5, -42)));
    assert_eq!(parse_bint(b"i0e", 0), Some((3, 0)));
    assert_eq!(parse_bint(b"i9223372036854775807e", 0), Some((21, i64::MAX)));
    assert_eq!(parse_bint(b"i-9223372036854775808e", 0), Some((22, i64::MIN)));
    // 20 digits: past the literal cap.
    assert_eq!(parse_bint(b"i99999999999999999999e", 0), None);
    assert_eq!(parse_bint(b"ie", 0), None);
    assert_eq!(parse_bint(b"i12", 0), None);
    assert_eq!(parse_bint(b"x1e", 0), None);
}

#[test]
fn byte_strings_parse_with_length_prefix() {
    assert_eq!(parse_bbytes(b"3:abc", 0), Some((5, b"abc".to_vec())));
    assert_eq!(parse_bbytes(b"0:", 0), Some((2, Vec::new())));
    assert_eq!(parse_bbytes(b"5:abc", 0), None);
    assert_eq!(parse_bbytes(b"3abc", 0), None);
    assert_eq!(parse_bbytes(b"x:abc", 0), None);
}

#[test]
fn dictionaries_parse_flat_and_whole() {
    let entries = parse_dict(b"d1:ai1e2:bb3:xyze").unwrap();
    assert_eq!(entries.len(), 2);
    assert_eq!(entries[0].0, b"a".to_vec());
    assert_eq!(entries[0].1, BencodeValue::Int(1));
    assert_eq!(entries[1].0, b"bb".to_vec());
    assert_eq!(entries[1].1, BencodeValue::Bytes(b"xyz".to_vec()));

    assert_eq!(dict_find(&entries, b"bb"), Some(1));
    assert_eq!(dict_find(&entries, b"a"), Some(0));
    assert_eq!(dict_find(&entries, b"c"), None);

    assert!(parse_dict(b"de").unwrap().is_empty());
    // trailing garbage, a nested list, a missing terminator: no dictionary
    assert!(parse_dict(b"dex").is_none());
    assert!(parse_dict(b"d1:ali1eee").is_none());
    assert!(parse_dict(b"d1:ai1e").is_none());
    assert!(parse_dict(b"i1e").is_none());
}

#[test]
fn hex_rendering_is_two_lowercase_digits_per_byte() {
    assert_eq!(hex_bytes(&[0x00, 0xff, 0x10]), b"00ff10".to_vec());
    assert_eq!(hex_bytes(&[]), Vec::<u8>::new());
    assert_eq!(hash_hex(&[0x00, 0xff, 0x10]), "00ff10".to_string());
    assert_eq!(hash_hex(&[0xde, 0xad, 0xbe, 0xef]), "deadbeef".to_string());
}

#[test]
fn torrent_file_report_carries_hex_hash() {
    let t = TorrentFile::new(
        &[0xab, 0x01],
        16384,
        12345,
        Some("http://t.example/announce".to_string()),
        None,
        vec!["a.txt".to_string()],
    );
    assert_eq!(t.hash, "ab01".to_string());
    assert_eq!(t.piece_length, 16384);
    assert_eq!(t.size, 12345);
    assert_eq!(t.announce, Some("http://t.example/announce".to_string()));
    assert_eq!(t.comment, None);
    assert_eq!(t.files, vec!["a.txt".to_string()]);
}
