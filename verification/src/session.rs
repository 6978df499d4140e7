//! Torrent session and service: the bookkeeping that coordinates peer
//! connections, the tracker, and a download consumer for one info hash.
//!
//! The session owns plain state only — the peer address pool, the counters
//! of live and failed connections, and the bounded block cache — and the
//! caller drives it: it performs the connects, reads and announces, and
//! reports each outcome here.  The service is the registry of sessions,
//! at most one per info hash.

use std::collections::VecDeque;

use vstd::prelude::*;

use crate::message::HashString;
use crate::tracker::{
    build_announce_uri, peers_view, spec_announce_uri, AnnounceRequest, AnnounceRequestModel,
    AnnounceResponse, AnnounceResponseModel, Peer, TrackerEvent,
};

verus! {

/// A torrent-level fault, with its description.
#[derive(Debug)]
pub struct TorrentError(pub String);

/// One downloaded block: a sub-range of a piece.
#[derive(Debug, PartialEq)]
pub struct Block {
    pub block: u32,
    pub offset: u32,
    pub data: Vec<u8>,
}

/// Where a session stands: still working, finished after delivering data,
/// or terminally out of peers with nothing delivered.
#[derive(Debug, Clone, Copy, PartialEq, Eq, Structural)]
pub enum SessionStatus {
    Running,
    Finished,
    NoPeersAvailable,
}

/// The TCP port announced to the tracker.
pub const ANNOUNCE_PORT: u16 = 6882;

/// One download session for one info hash.
#[derive(Debug)]
pub struct TorrentSession {
    pub info_hash: HashString,
    pub pending_peers: Vec<Peer>,
    pub active_peers: usize,
    pub failed_peers: usize,
    pub blocks_delivered: u64,
    pub cache: VecDeque<Block>,
}

/// Whether `a` comes no later than `b` in the file's logical order: by
/// piece index first, then by offset within the piece.
pub open spec fn block_le(a: Block, b: Block) -> bool {
    ||| a.block < b.block
    ||| (a.block == b.block && a.offset <= b.offset)
}

/// The status a session reports: terminal exactly when no peer is pending
/// or connected and the cache is drained; which terminal state depends on
/// whether any block was ever delivered.
pub open spec fn spec_status(s: TorrentSession) -> SessionStatus {
    if s.pending_peers@.len() == 0 && s.active_peers == 0 && s.cache@.len() == 0 {
        if s.blocks_delivered == 0 {
            SessionStatus::NoPeersAvailable
        } else {
            SessionStatus::Finished
        }
    } else {
        SessionStatus::Running
    }
}

impl TorrentSession {
    /// A fresh session: no peers, nothing cached, nothing delivered.
    pub fn new(info_hash: HashString) -> (r: TorrentSession)
        ensures
            r.info_hash@ == info_hash@,
            r.pending_peers@.len() == 0,
            r.active_peers == 0,
            r.failed_peers == 0,
            r.blocks_delivered == 0,
            r.cache@.len() == 0,
    {
        TorrentSession {
            info_hash,
            pending_peers: Vec::new(),
            active_peers: 0,
            failed_peers: 0,
            blocks_delivered: 0,
            cache: VecDeque::new(),
        }
    }

    /// Merges an announce response into the peer pool: a success appends
    /// its peers, a failure changes nothing (the tracker duty waits for the
    /// next scheduled announce).
    pub fn on_announce(&mut self, resp: AnnounceResponse)
        ensures
            final(self).info_hash == old(self).info_hash,
            final(self).active_peers == old(self).active_peers,
            final(self).failed_peers == old(self).failed_peers,
            final(self).blocks_delivered == old(self).blocks_delivered,
            final(self).cache == old(self).cache,
            (match resp@ {
                AnnounceResponseModel::Success { peers, .. } => peers_view(
                    final(self).pending_peers@,
                ) == peers_view(old(self).pending_peers@) + peers,
                AnnounceResponseModel::Failure(_) => final(self).pending_peers
                    == old(self).pending_peers,
            }),
    {
        match resp {
            AnnounceResponse::Success { mut peers, .. } => {
                let ghost ps = peers@;
                self.pending_peers.append(&mut peers);
                proof {
                    assert(peers_view(self.pending_peers@) =~= peers_view(
                        old(self).pending_peers@,
                    ) + peers_view(ps));
                }
            },
            AnnounceResponse::Failure(_) => {},
        }
    }

    /// Takes the next peer address to try, oldest first; `None` when the
    /// pool is exhausted.
    pub fn next_candidate(&mut self) -> (r: Option<Peer>)
        ensures
            final(self).info_hash == old(self).info_hash,
            final(self).active_peers == old(self).active_peers,
            final(self).failed_peers == old(self).failed_peers,
            final(self).blocks_delivered == old(self).blocks_delivered,
            final(self).cache == old(self).cache,
            (match r {
                Some(p) => old(self).pending_peers@.len() > 0 && p == old(self).pending_peers@[0]
                    && final(self).pending_peers@ == old(self).pending_peers@.skip(1),
                None => old(self).pending_peers@.len() == 0 && final(self).pending_peers == old(self).pending_peers,
            }),
    {
        if self.pending_peers.len() == 0 {
            None
        } else {
            let p = self.pending_peers.remove(0);
            proof {
                assert(self.pending_peers@ =~= old(self).pending_peers@.skip(1));
            }
            Some(p)
        }
    }

    /// A candidate peer finished its handshake and counts as live.
    pub fn peer_connected(&mut self)
        requires
            old(self).active_peers < usize::MAX,
        ensures
            final(self).active_peers == old(self).active_peers + 1,
            final(self).info_hash == old(self).info_hash,
            final(self).pending_peers == old(self).pending_peers,
            final(self).failed_peers == old(self).failed_peers,
            final(self).blocks_delivered == old(self).blocks_delivered,
            final(self).cache == old(self).cache,
    {
        self.active_peers = self.active_peers + 1;
    }

    /// A live or attempted peer is gone — a transport fault, a bad frame or
    /// a handshake mismatch; fatal to that connection only.
    pub fn peer_lost(&mut self)
        requires
            old(self).failed_peers < usize::MAX,
        ensures
            final(self).active_peers == (if old(self).active_peers > 0 {
                (old(self).active_peers - 1) as usize
            } else {
                0usize
            }),
            final(self).failed_peers == old(self).failed_peers + 1,
            final(self).info_hash == old(self).info_hash,
            final(self).pending_peers == old(self).pending_peers,
            final(self).blocks_delivered == old(self).blocks_delivered,
            final(self).cache == old(self).cache,
    {
        if self.active_peers > 0 {
            self.active_peers = self.active_peers - 1;
        }
        self.failed_peers = self.failed_peers + 1;
    }

    /// A peer delivered a block: it joins the cache, oldest first, tagged
    /// with its piece and offset.
    pub fn on_block(&mut self, b: Block)
        ensures
            final(self).cache@ == old(self).cache@.push(b),
            final(self).info_hash == old(self).info_hash,
            final(self).pending_peers == old(self).pending_peers,
            final(self).active_peers == old(self).active_peers,
            final(self).failed_peers == old(self).failed_peers,
            final(self).blocks_delivered == old(self).blocks_delivered,
    {
        self.cache.push_back(b);
    }

    /// Hands the consumer the next cached block in the file's logical
    /// order — the lowest piece index, then the lowest offset, oldest among
    /// equals — whatever order the peers delivered in; `None` when the
    /// cache is drained.  The caller must not call this while its consumer
    /// channel is full: a full channel is backpressure, not a reason to
    /// drop a block.
    pub fn take_block(&mut self) -> (r: Option<Block>)
        requires
            old(self).blocks_delivered < u64::MAX,
        ensures
            final(self).info_hash == old(self).info_hash,
            final(self).pending_peers == old(self).pending_peers,
            final(self).active_peers == old(self).active_peers,
            final(self).failed_peers == old(self).failed_peers,
            (match r {
                Some(b) => {
                    &&& old(self).cache@.len() > 0
                    &&& (exists|i: int|
                        {
                            &&& 0 <= i < old(self).cache@.len()
                            &&& b == old(self).cache@[i]
                            &&& final(self).cache@ == #[trigger] old(self).cache@.remove(i)
                            &&& forall|j: int| 0 <= j < i ==> !block_le(old(self).cache@[j], b)
                        })
                    &&& forall|j: int|
                        0 <= j < old(self).cache@.len() ==> block_le(b, #[trigger] old(self).cache@[j])
                    &&& final(self).blocks_delivered == old(self).blocks_delivered + 1
                },
                None => old(self).cache@.len() == 0 && final(self).cache@ == old(self).cache@
                    && final(self).blocks_delivered == old(self).blocks_delivered,
            }),
    {
        if self.cache.len() == 0 {
            return None;
        }
        let mut best: usize = 0;
        let mut k: usize = 1;
        while k < self.cache.len()
            invariant
                best < k <= self.cache@.len(),
                forall|j: int| 0 <= j < k ==> block_le(self.cache@[best as int], #[trigger] self.cache@[j]),
                forall|j: int|
                    0 <= j < best ==> !block_le(#[trigger] self.cache@[j], self.cache@[best as int]),
            decreases self.cache@.len() - k,
        {
            let challenger = &self.cache[k];
            let holder = &self.cache[best];
            if challenger.block < holder.block || (challenger.block == holder.block
                && challenger.offset < holder.offset) {
                best = k;
            }
            k = k + 1;
        }
        self.blocks_delivered = self.blocks_delivered + 1;
        let ghost i = best as int;
        match self.cache.remove(best) {
            Some(b) => {
                proof {
                    assert(b == old(self).cache@[i] && self.cache@ == old(self).cache@.remove(i)
                        && forall|j: int| 0 <= j < i ==> !block_le(old(self).cache@[j], b));
                }
                Some(b)
            },
            None => {
                proof {
                    assert(false);
                }
                None
            },
        }
    }

    /// Where the session stands.  A session with zero reachable peers after
    /// exhausting its pool, nothing live and nothing cached reports the
    /// terminal no-peers condition instead of hanging.
    pub fn status(&self) -> (r: SessionStatus)
        ensures
            r == spec_status(*self),
    {
        if self.pending_peers.len() == 0 && self.active_peers == 0 && self.cache.len() == 0 {
            if self.blocks_delivered == 0 {
                SessionStatus::NoPeersAvailable
            } else {
                SessionStatus::Finished
            }
        } else {
            SessionStatus::Running
        }
    }
}

/// The parsed metadata descriptor the surrounding service hands in.
#[derive(Debug)]
pub struct MetaDescriptor {
    pub info_hash: HashString,
    pub announce_url: Vec<u8>,
    pub piece_length: u64,
    pub total_size: u64,
    pub files: Vec<Vec<u8>>,
}

/// The announce request a new download opens with: everything still to
/// fetch, the `started` event, and the service's own identity.
pub open spec fn spec_started_request(
    peer_id: Seq<u8>,
    uploaded: u64,
    downloaded: u64,
    meta: MetaDescriptor,
) -> AnnounceRequestModel {
    AnnounceRequestModel {
        info_hash: meta.info_hash@,
        peer_id: peer_id,
        port: ANNOUNCE_PORT,
        uploaded: uploaded,
        downloaded: downloaded,
        left: meta.total_size,
        event: TrackerEvent::Started,
        numwant: None,
        key: None,
        tracker_id: None,
    }
}

/// The registry of sessions, at most one per info hash.
#[derive(Debug)]
pub struct TorrentService {
    pub peer_id: HashString,
    pub uploaded: u64,
    pub downloaded: u64,
    pub torrents: Vec<TorrentSession>,
}

/// Well-formed service: no two sessions share an info hash.
pub open spec fn wf_service(s: TorrentService) -> bool {
    forall|i: int, j: int|
        0 <= i < j < s.torrents@.len() ==> s.torrents@[i].info_hash@ != s.torrents@[j].info_hash@
}

impl TorrentService {
    /// A fresh registry with the given identity and no sessions.
    pub fn new(peer_id: HashString) -> (r: TorrentService)
        ensures
            wf_service(r),
            r.peer_id@ == peer_id@,
            r.uploaded == 0,
            r.downloaded == 0,
            r.torrents@.len() == 0,
    {
        TorrentService { peer_id, uploaded: 0, downloaded: 0, torrents: Vec::new() }
    }

    /// The session for `hash`, if one is live.
    pub fn find(&self, hash: &[u8]) -> (r: Option<usize>)
        ensures
            (match r {
                Some(i) => i < self.torrents@.len() && self.torrents@[i as int].info_hash@
                    == hash@,
                None => forall|i: int|
                    0 <= i < self.torrents@.len() ==> self.torrents@[i].info_hash@ != hash@,
            }),
    {
        let mut k: usize = 0;
        while k < self.torrents.len()
            invariant
                k <= self.torrents@.len(),
                forall|i: int| 0 <= i < k ==> self.torrents@[i].info_hash@ != hash@,
            decreases self.torrents@.len() - k,
        {
            if crate::message::bytes_eq(self.torrents[k].info_hash.as_slice(), hash) {
                return Some(k);
            }
            k = k + 1;
        }
        None
    }

    /// Routes a download request: attaches to the live session for the
    /// descriptor's info hash, or registers a fresh one.  Returns the
    /// session's index and the announce URI for the opening `started`
    /// announce, which the caller performs.
    pub fn new_torrent(&mut self, meta: &MetaDescriptor) -> (r: (usize, Vec<u8>))
        requires
            wf_service(*old(self)),
        ensures
            wf_service(*final(self)),
            final(self).peer_id == old(self).peer_id,
            final(self).uploaded == old(self).uploaded,
            final(self).downloaded == old(self).downloaded,
            r.0 < final(self).torrents@.len(),
            final(self).torrents@[r.0 as int].info_hash@ == meta.info_hash@,
            (if (exists|i: int|
                0 <= i < old(self).torrents@.len() && old(self).torrents@[i].info_hash@
                    == meta.info_hash@) {
                final(self).torrents == old(self).torrents
            } else {
                &&& final(self).torrents@.len() == old(self).torrents@.len() + 1
                &&& final(self).torrents@.subrange(0, old(self).torrents@.len() as int) == old(self).torrents@
                &&& r.0 == old(self).torrents@.len()
                &&& final(self).torrents@[r.0 as int].pending_peers@.len() == 0
                &&& final(self).torrents@[r.0 as int].active_peers == 0
                &&& final(self).torrents@[r.0 as int].blocks_delivered == 0
                &&& final(self).torrents@[r.0 as int].cache@.len() == 0
            }),
            r.1@ == spec_announce_uri(
                meta.announce_url@,
                spec_started_request(
                    old(self).peer_id@,
                    old(self).uploaded,
                    old(self).downloaded,
                    *meta,
                ),
            ),
    {
        let request = AnnounceRequest {
            info_hash: crate::parser::copy_range(meta.info_hash.as_slice(), 0, meta.info_hash.len()),
            peer_id: crate::parser::copy_range(self.peer_id.as_slice(), 0, self.peer_id.len()),
            port: ANNOUNCE_PORT,
            uploaded: self.uploaded,
            downloaded: self.downloaded,
            left: meta.total_size,
            event: TrackerEvent::Started,
            numwant: None,
            key: None,
            tracker_id: None,
        };
        let uri = build_announce_uri(meta.announce_url.as_slice(), &request);
        proof {
            assert(request.info_hash@ =~= meta.info_hash@);
            assert(request.peer_id@ =~= self.peer_id@);
        }
        let idx: usize = match self.find(meta.info_hash.as_slice()) {
            Some(i) => i,
            None => {
                let hash = crate::parser::copy_range(
                    meta.info_hash.as_slice(),
                    0,
                    meta.info_hash.len(),
                );
                proof {
                    assert(hash@ =~= meta.info_hash@);
                }
                let session = TorrentSession::new(hash);
                self.torrents.push(session);
                proof {
                    assert(self.torrents@.subrange(0, old(self).torrents@.len() as int) =~= old(self).torrents@);
                }
                self.torrents.len() - 1
            },
        };
        (idx, uri)
    }
}

} // verus!
