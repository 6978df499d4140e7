use torrent_engine::bencode::BencodeValue;
use torrent_engine::tracker::{
    build_announce_uri, invoke_peers, invoke_port, parse_announce_response, AnnounceRequest,
    AnnounceResponse, AnnounceResponseError, Peer, TrackerEvent,
};

fn two_peer_blob() -> Vec<u8> {
    vec![97u8, 51, 102, 120, 33, 50, 98, 53, 105, 100, 32, 65]
}

fn expected_peers() -> Vec<Peer> {
    vec![
        Peer { id: None, ip: vec![97, 51, 102, 120], port: 8498 },
        Peer { id: None, ip: vec![98, 53, 105, 100], port: 8257 },
    ]
}

#[test]
fn announce_success_response() {
    let mut doc: Vec<u8> =
        b"d8:completei30e10:incompletei13e8:intervali2627e12:min intervali1313e5:peers12:".to_vec();
    doc.extend_from_slice(&two_peer_blob());
    doc.push(b'e');
    let parsed = parse_announce_response(&doc);
    assert_eq!(
        parsed,
        AnnounceResponse::Success {
            warning_message: None,
            interval: 2627,
            min_interval: Some(1313),
            tracker_id: None,
            complete: 30,
            incomplete: 13,
            peers: expected_peers(),
        }
    );
}

#[test]
fn announce_failure_reason_wins() {
    // The peers entry is not even a plausible peer list; the failure reason
    // must win without peer-list parsing being attempted.
    let doc = b"d14:failure reason14:not registered5:peers5:abcdee";
    let parsed = parse_announce_response(doc);
    assert_eq!(
        parsed,
        AnnounceResponse::Failure(AnnounceResponseError::FailureMessage(
            b"not registered".to_vec()
        ))
    );
}

#[test]
fn announce_invalid_responses() {
    let invalid = AnnounceResponse::Failure(AnnounceResponseError::Invalid);
    assert_eq!(parse_announce_response(b"hello"), invalid);
    assert_eq!(parse_announce_response(b""), invalid);
    assert_eq!(parse_announce_response(b"d8:completei1ee"), invalid);
    assert_eq!(parse_announce_response(b"d1:lli1eee"), invalid);
    let bad_peers = b"d8:completei30e10:incompletei13e8:intervali5e5:peers5:abcdee";
    assert_eq!(parse_announce_response(bad_peers), invalid);
}

#[test]
fn compact_peer_list_of_twelve_bytes() {
    let value = BencodeValue::Bytes(two_peer_blob());
    assert_eq!(invoke_peers(&value), Some(expected_peers()));
}

#[test]
fn compact_peer_list_rejects_bad_length() {
    assert_eq!(invoke_peers(&BencodeValue::Bytes(b"abcde".to_vec())), None);
    assert_eq!(invoke_peers(&BencodeValue::Int(12)), None);
    assert_eq!(invoke_peers(&BencodeValue::Bytes(Vec::new())), Some(Vec::new()));
}

#[test]
fn port_is_read_big_endian() {
    assert_eq!(invoke_port(&[0x21, 0x32]), 8498);
    assert_eq!(invoke_port(&[0x20, 0x41, 0xff]), 8257);
}

#[test]
fn announce_uri_with_required_fields() {
    let req = AnnounceRequest {
        info_hash: vec![b'A'; 20],
        peer_id: vec![b'B'; 20],
        port: 6882,
        uploaded: 0,
        downloaded: 0,
        left: 5,
        event: TrackerEvent::Started,
        numwant: None,
        key: None,
        tracker_id: None,
    };
    let uri = build_announce_uri(b"http://t.example/announce", &req);
    assert_eq!(
        uri,
        b"http://t.example/announce?info_hash=AAAAAAAAAAAAAAAAAAAA&peer_id=BBBBBBBBBBBBBBBBBBBB\
&port=6882&uploaded=0&downloaded=0&left=5&event=started"
            .to_vec()
    );
}

#[test]
fn announce_uri_percent_encodes_raw_bytes() {
    let mut hash: Vec<u8> = vec![b'a'; 18];
    hash.push(0x00);
    hash.push(0xff);
    let req = AnnounceRequest {
        info_hash: hash,
        peer_id: vec![b'~'; 20],
        port: 80,
        uploaded: 1,
        downloaded: 23,
        left: 456,
        event: TrackerEvent::Completed,
        numwant: Some(50),
        key: Some(b"k y".to_vec()),
        tracker_id: Some(b"t-1".to_vec()),
    };
    let uri = build_announce_uri(b"udp://x/", &req);
    assert_eq!(
        uri,
        b"udp://x/?info_hash=aaaaaaaaaaaaaaaaaa%00%FF&peer_id=~~~~~~~~~~~~~~~~~~~~\
&port=80&uploaded=1&downloaded=23&left=456&event=completed&numwant=50&key=k%20y&trackerid=t-1"
            .to_vec()
    );
}

#[test]
fn event_names_render_lowercase() {
    assert_eq!(TrackerEvent::Started.name_bytes(), b"started".to_vec());
    assert_eq!(TrackerEvent::Stopped.name_bytes(), b"stopped".to_vec());
    assert_eq!(TrackerEvent::Completed.name_bytes(), b"completed".to_vec());
}
