use torrent_engine::message::{Handshake, PeerMessage};
use torrent_engine::peer::{
    ChokeState, ConnectionPhase, InterestState, Peer, PeerError, PeerEvent,
};
use torrent_engine::session::{
    Block, MetaDescriptor, SessionStatus, TorrentService, TorrentSession,
};
use torrent_engine::tracker::{AnnounceResponse, AnnounceResponseError, Peer as PeerAddr};

fn two_addresses() -> Vec<PeerAddr> {
    vec![
        PeerAddr { id: None, ip: vec![10, 0, 0, 1], port: 6881 },
        PeerAddr { id: None, ip: vec![10, 0, 0, 2], port: 6882 },
    ]
}

fn success_with(peers: Vec<PeerAddr>) -> AnnounceResponse {
    AnnounceResponse::Success {
        warning_message: None,
        interval: 60,
        min_interval: None,
        tracker_id: None,
        complete: 1,
        incomplete: 1,
        peers,
    }
}

#[test]
fn session_with_no_reachable_peers_reports_terminal_condition() {
    let mut s = TorrentSession::new(vec![7u8; 20]);
    s.on_announce(success_with(two_addresses()));
    assert_eq!(s.status(), SessionStatus::Running);

    let first = s.next_candidate().unwrap();
    assert_eq!(first.ip, vec![10, 0, 0, 1]);
    s.peer_lost();
    let second = s.next_candidate().unwrap();
    assert_eq!(second.ip, vec![10, 0, 0, 2]);
    s.peer_lost();

    assert!(s.next_candidate().is_none());
    assert!(s.take_block().is_none());
    assert_eq!(s.status(), SessionStatus::NoPeersAvailable);
    assert_eq!(s.failed_peers, 2);
}

#[test]
fn session_that_delivered_data_finishes_instead() {
    let mut s = TorrentSession::new(vec![7u8; 20]);
    s.on_announce(success_with(two_addresses()));
    let _ = s.next_candidate().unwrap();
    s.peer_connected();
    s.on_block(Block { block: 0, offset: 0, data: b"abc".to_vec() });
    s.on_block(Block { block: 0, offset: 3, data: b"def".to_vec() });
    let b = s.take_block().unwrap();
    assert_eq!(b, Block { block: 0, offset: 0, data: b"abc".to_vec() });
    let b = s.take_block().unwrap();
    assert_eq!(b, Block { block: 0, offset: 3, data: b"def".to_vec() });
    let _ = s.next_candidate().unwrap();
    s.peer_lost();
    s.peer_lost();
    assert_eq!(s.status(), SessionStatus::Finished);
}

#[test]
fn blocks_come_out_in_file_order_whatever_the_arrival_order() {
    let mut s = TorrentSession::new(vec![7u8; 20]);
    s.on_block(Block { block: 1, offset: 0, data: b"third".to_vec() });
    s.on_block(Block { block: 0, offset: 16384, data: b"second".to_vec() });
    s.on_block(Block { block: 0, offset: 0, data: b"first".to_vec() });
    assert_eq!(s.take_block().unwrap().data, b"first".to_vec());
    assert_eq!(s.take_block().unwrap().data, b"second".to_vec());
    assert_eq!(s.take_block().unwrap().data, b"third".to_vec());
    assert!(s.take_block().is_none());
    assert_eq!(s.blocks_delivered, 3);
}

#[test]
fn tracker_failure_adds_no_peers() {
    let mut s = TorrentSession::new(vec![7u8; 20]);
    s.on_announce(AnnounceResponse::Failure(AnnounceResponseError::Invalid));
    assert!(s.next_candidate().is_none());
}

#[test]
fn service_keeps_one_session_per_info_hash() {
    let mut service = TorrentService::new(vec![b'B'; 20]);
    let meta = MetaDescriptor {
        info_hash: vec![b'A'; 20],
        announce_url: b"http://t.example/announce".to_vec(),
        piece_length: 16384,
        total_size: 5,
        files: vec![b"a.txt".to_vec()],
    };
    let (idx1, uri) = service.new_torrent(&meta);
    assert_eq!(idx1, 0);
    assert_eq!(
        uri,
        b"http://t.example/announce?info_hash=AAAAAAAAAAAAAAAAAAAA&peer_id=BBBBBBBBBBBBBBBBBBBB\
&port=6882&uploaded=0&downloaded=0&left=5&event=started"
            .to_vec()
    );
    let (idx2, _) = service.new_torrent(&meta);
    assert_eq!(idx2, 0);
    assert_eq!(service.torrents.len(), 1);

    let other = MetaDescriptor {
        info_hash: vec![b'C'; 20],
        announce_url: b"http://t.example/announce".to_vec(),
        piece_length: 16384,
        total_size: 9,
        files: Vec::new(),
    };
    let (idx3, _) = service.new_torrent(&other);
    assert_eq!(idx3, 1);
    assert_eq!(service.torrents.len(), 2);
    assert_eq!(service.find(&vec![b'A'; 20]), Some(0));
    assert_eq!(service.find(&vec![b'C'; 20]), Some(1));
    assert_eq!(service.find(&vec![b'D'; 20]), None);
}

fn handshake_with_hash(h: u8) -> Handshake {
    Handshake {
        protocol: b"BitTorrent protocol".to_vec(),
        extentions: vec![0u8; 8],
        info_hash: vec![h; 20],
        peer_id: vec![1u8; 20],
    }
}

#[test]
fn connection_runs_through_its_phases() {
    let mut p = Peer::new();
    assert_eq!(p.phase, ConnectionPhase::Connecting);
    assert_eq!(p.state.choke, ChokeState::Choked);
    assert_eq!(p.state.interest, InterestState::NotInterested);

    p.handshake_sent();
    assert_eq!(p.phase, ConnectionPhase::AwaitingHandshake);
    let local = handshake_with_hash(5);
    let mut remote = handshake_with_hash(5);
    remote.peer_id = vec![2u8; 20];
    assert!(p.on_handshake(&local, &remote).is_ok());
    assert_eq!(p.phase, ConnectionPhase::Handshaked);
    p.interested_sent();
    assert_eq!(p.phase, ConnectionPhase::Ready);
}

#[test]
fn handshake_mismatch_closes_the_connection() {
    let mut p = Peer::new();
    p.handshake_sent();
    let local = handshake_with_hash(5);
    let remote = handshake_with_hash(6);
    assert_eq!(p.on_handshake(&local, &remote), Err(PeerError::Handshake));
    assert_eq!(p.phase, ConnectionPhase::Closed);
}

fn ready_peer() -> Peer {
    let mut p = Peer::new();
    p.handshake_sent();
    let local = handshake_with_hash(5);
    let remote = handshake_with_hash(5);
    p.on_handshake(&local, &remote).unwrap();
    p.interested_sent();
    p
}

#[test]
fn messages_update_state_and_are_classified() {
    let mut p = ready_peer();
    assert_eq!(p.on_message(&PeerMessage::KeepAlive), PeerEvent::Quiet);
    assert_eq!(p.on_message(&PeerMessage::Unchoke), PeerEvent::StateChange);
    assert_eq!(p.state.choke, ChokeState::Unchoked);
    assert_eq!(p.on_message(&PeerMessage::Choke), PeerEvent::StateChange);
    assert_eq!(p.state.choke, ChokeState::Choked);
    assert_eq!(p.on_message(&PeerMessage::Interested), PeerEvent::StateChange);
    assert_eq!(p.state.interest, InterestState::Interested);
    assert_eq!(p.on_message(&PeerMessage::NotInterested), PeerEvent::StateChange);
    assert_eq!(p.state.interest, InterestState::NotInterested);

    assert_eq!(p.on_message(&PeerMessage::Bitfield(vec![0b10000000u8])), PeerEvent::Data);
    assert!(p.have(0));
    assert!(!p.have(1));
    assert_eq!(p.on_message(&PeerMessage::Have(1)), PeerEvent::Data);
    assert!(p.have(1));
    assert_eq!(p.on_message(&PeerMessage::Have(100)), PeerEvent::Data);
    assert!(!p.have(100));
    assert_eq!(p.bitfield, vec![0b11000000u8]);

    let piece = PeerMessage::Piece { block: 0, offset: 0, data: b"x".to_vec() };
    assert_eq!(p.on_message(&piece), PeerEvent::Data);
    let request = PeerMessage::Request { block: 0, offset: 0, length: 1 };
    assert_eq!(p.on_message(&request), PeerEvent::Request);
    let cancel = PeerMessage::Cancel { block: 0, offset: 0, length: 1 };
    assert_eq!(p.on_message(&cancel), PeerEvent::Request);
    assert_eq!(p.on_message(&PeerMessage::Port(6881)), PeerEvent::Quiet);
    assert_eq!(p.phase, ConnectionPhase::Ready);
}
