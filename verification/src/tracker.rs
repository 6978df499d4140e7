//! Tracker client: building announce request URIs and decoding announce
//! responses.
//!
//! The announce URI percent-encodes the two 20-byte identifiers as raw byte
//! sequences, renders every numeric field as decimal ASCII and the event as
//! its lowercase name.  The response is a restricted dictionary-encoded
//! document (see `bencode`); a `failure reason` entry wins over everything
//! else, the required integer entries `interval`, `complete` and
//! `incomplete` and a compact `peers` byte string make a success, and any
//! other shape is the invalid response.

use vstd::prelude::*;

use crate::bencode::{
    dict_get, entries_view, parse_dict, spec_parse_dict, BencodeEntries, BencodeValue,
    BencodeValueModel,
};
use crate::message::HashString;
use crate::parser::{read_be_u16, spec_be16_value};

verus! {

/// The event reported to the tracker by an announce.
#[derive(Debug, Clone, Copy, PartialEq, Eq, Structural)]
pub enum TrackerEvent {
    Started,
    Stopped,
    Completed,
}

/// The lowercase name of an event, as the announce URI renders it.
pub open spec fn spec_event_name(e: TrackerEvent) -> Seq<u8> {
    match e {
        TrackerEvent::Started => seq![0x73u8, 0x74u8, 0x61u8, 0x72u8, 0x74u8, 0x65u8, 0x64u8],
        TrackerEvent::Stopped => seq![0x73u8, 0x74u8, 0x6fu8, 0x70u8, 0x70u8, 0x65u8, 0x64u8],
        TrackerEvent::Completed => seq![
            0x63u8,
            0x6fu8,
            0x6du8,
            0x70u8,
            0x6cu8,
            0x65u8,
            0x74u8,
            0x65u8,
            0x64u8,
        ],
    }
}

/// One announce request.
pub struct AnnounceRequest {
    pub info_hash: HashString,
    pub peer_id: HashString,
    pub port: u16,
    pub uploaded: u64,
    pub downloaded: u64,
    pub left: u64,
    pub event: TrackerEvent,
    pub numwant: Option<usize>,
    pub key: Option<Vec<u8>>,
    pub tracker_id: Option<Vec<u8>>,
}

/// Mathematical image of an `AnnounceRequest`.
pub struct AnnounceRequestModel {
    pub info_hash: Seq<u8>,
    pub peer_id: Seq<u8>,
    pub port: u16,
    pub uploaded: u64,
    pub downloaded: u64,
    pub left: u64,
    pub event: TrackerEvent,
    pub numwant: Option<usize>,
    pub key: Option<Seq<u8>>,
    pub tracker_id: Option<Seq<u8>>,
}

impl View for AnnounceRequest {
    type V = AnnounceRequestModel;

    open spec fn view(&self) -> AnnounceRequestModel {
        AnnounceRequestModel {
            info_hash: self.info_hash@,
            peer_id: self.peer_id@,
            port: self.port,
            uploaded: self.uploaded,
            downloaded: self.downloaded,
            left: self.left,
            event: self.event,
            numwant: self.numwant,
            key: match self.key {
                Some(ref k) => Some(k@),
                None => None,
            },
            tracker_id: match self.tracker_id {
                Some(ref t) => Some(t@),
                None => None,
            },
        }
    }
}

/// A byte that a query string carries unescaped.
pub open spec fn is_unreserved(b: u8) -> bool {
    ||| 0x41 <= b <= 0x5a
    ||| 0x61 <= b <= 0x7a
    ||| 0x30 <= b <= 0x39
    ||| b == 0x2d
    ||| b == 0x2e
    ||| b == 0x5f
    ||| b == 0x7e
}

/// The uppercase hexadecimal digit of a value below 16.
pub open spec fn hex_digit(x: u8) -> u8
    recommends
        x < 16,
{
    if x < 10 {
        (0x30 + x) as u8
    } else {
        (0x41 + x - 10) as u8
    }
}

/// The percent-encoding of one byte: itself when unreserved, else `%XX`.
pub open spec fn pct_byte(b: u8) -> Seq<u8> {
    if is_unreserved(b) {
        seq![b]
    } else {
        seq![0x25u8, hex_digit(b / 16), hex_digit(b % 16)]
    }
}

/// The percent-encoding of a byte sequence.
pub open spec fn pct_encode(s: Seq<u8>) -> Seq<u8>
    decreases s.len(),
{
    if s.len() == 0 {
        Seq::empty()
    } else {
        pct_byte(s[0]) + pct_encode(s.skip(1))
    }
}

/// Appending a byte to the input appends its encoding to the output.
proof fn lemma_pct_encode_snoc(s: Seq<u8>, x: u8)
    ensures
        pct_encode(s.push(x)) == pct_encode(s) + pct_byte(x),
    decreases s.len(),
{
    if s.len() == 0 {
        assert(s.push(x).skip(1) =~= Seq::empty());
        assert(s.push(x)[0] == x);
        assert(pct_encode(s.push(x)) == pct_byte(x) + pct_encode(s.push(x).skip(1)));
        assert(pct_encode(s.push(x).skip(1)) == Seq::<u8>::empty());
        assert(pct_byte(x) + Seq::<u8>::empty() =~= pct_encode(s) + pct_byte(x));
    } else {
        assert(s.push(x).skip(1) =~= s.skip(1).push(x));
        lemma_pct_encode_snoc(s.skip(1), x);
        assert(s.push(x)[0] == s[0]);
        assert(pct_encode(s.push(x)) == pct_byte(s[0]) + pct_encode(s.skip(1).push(x)));
        assert(pct_byte(s[0]) + (pct_encode(s.skip(1)) + pct_byte(x)) =~= (pct_byte(s[0])
            + pct_encode(s.skip(1))) + pct_byte(x));
        assert(pct_encode(s) == pct_byte(s[0]) + pct_encode(s.skip(1)));
    }
}

/// The decimal ASCII digits of a number.
pub open spec fn dec_digits(n: int) -> Seq<u8>
    recommends
        n >= 0,
    decreases n,
{
    if n < 10 {
        seq![(0x30 + n) as u8]
    } else {
        dec_digits(n / 10) + seq![(0x30 + n % 10) as u8]
    }
}

/// Appends the percent-encoding of `data` to `out`.
pub fn push_pct_encoded(out: &mut Vec<u8>, data: &[u8])
    ensures
        final(out)@ == old(out)@ + pct_encode(data@),
{
    let mut i: usize = 0;
    proof {
        assert(data@.take(0) =~= Seq::empty());
        assert(out@ =~= old(out)@ + pct_encode(data@.take(0)));
    }
    while i < data.len()
        invariant
            i <= data.len(),
            out@ == old(out)@ + pct_encode(data@.take(i as int)),
        decreases data.len() - i,
    {
        let b: u8 = data[i];
        if (0x41 <= b && b <= 0x5a) || (0x61 <= b && b <= 0x7a) || (0x30 <= b && b <= 0x39) || b
            == 0x2d || b == 0x2e || b == 0x5f || b == 0x7e {
            out.push(b);
        } else {
            out.push(0x25);
            let hi: u8 = b / 16;
            let lo: u8 = b % 16;
            out.push(
                if hi < 10 {
                    0x30 + hi
                } else {
                    0x41 + hi - 10
                },
            );
            out.push(
                if lo < 10 {
                    0x30 + lo
                } else {
                    0x41 + lo - 10
                },
            );
        }
        proof {
            assert(data@.take(i + 1) =~= data@.take(i as int).push(data@[i as int]));
            lemma_pct_encode_snoc(data@.take(i as int), data@[i as int]);
            assert(out@ =~= old(out)@ + pct_encode(data@.take(i + 1)));
        }
        i = i + 1;
    }
    proof {
        assert(data@.take(data@.len() as int) =~= data@);
    }
}

/// Appends the decimal ASCII digits of `n` to `out`.
pub fn push_decimal(out: &mut Vec<u8>, n: u64)
    ensures
        final(out)@ == old(out)@ + dec_digits(n as int),
    decreases n,
{
    if n < 10 {
        out.push(0x30 + (n as u8));
        proof {
            assert(out@ =~= old(out)@ + dec_digits(n as int));
        }
    } else {
        push_decimal(out, n / 10);
        out.push(0x30 + ((n % 10) as u8));
        proof {
            assert(out@ =~= old(out)@ + dec_digits(n as int));
        }
    }
}

/// The announce URI for `req` against the announce URL `announce`: the URL,
/// then the query string with every field of the request.
pub open spec fn spec_announce_uri(announce: Seq<u8>, r: AnnounceRequestModel) -> Seq<u8> {
    announce + frag_info_hash() + pct_encode(r.info_hash) + frag_peer_id() + pct_encode(r.peer_id)
        + frag_port() + dec_digits(r.port as int) + frag_uploaded() + dec_digits(r.uploaded as int)
        + frag_downloaded() + dec_digits(r.downloaded as int) + frag_left() + dec_digits(
        r.left as int,
    ) + frag_event() + spec_event_name(r.event) + (match r.numwant {
        Some(n) => frag_numwant() + dec_digits(n as int),
        None => Seq::empty(),
    }) + (match r.key {
        Some(k) => frag_key() + pct_encode(k),
        None => Seq::empty(),
    }) + (match r.tracker_id {
        Some(t) => frag_trackerid() + pct_encode(t),
        None => Seq::empty(),
    })
}

impl TrackerEvent {
    /// The lowercase name of this event.
    pub fn name_bytes(&self) -> (r: Vec<u8>)
        ensures
            r@ == spec_event_name(*self),
    {
        let mut v: Vec<u8> = Vec::new();
        match self {
            TrackerEvent::Started => {
                v.push(0x73);
                v.push(0x74);
                v.push(0x61);
                v.push(0x72);
                v.push(0x74);
                v.push(0x65);
                v.push(0x64);
            },
            TrackerEvent::Stopped => {
                v.push(0x73);
                v.push(0x74);
                v.push(0x6f);
                v.push(0x70);
                v.push(0x70);
                v.push(0x65);
                v.push(0x64);
            },
            TrackerEvent::Completed => {
                v.push(0x63);
                v.push(0x6f);
                v.push(0x6d);
                v.push(0x70);
                v.push(0x6c);
                v.push(0x65);
                v.push(0x74);
                v.push(0x65);
                v.push(0x64);
            },
        }
        proof {
            assert(v@ =~= spec_event_name(*self));
        }
        v
    }
}

/// Builds the announce URI for `req` against the announce URL `announce`.
pub fn build_announce_uri(announce: &[u8], req: &AnnounceRequest) -> (r: Vec<u8>)
    ensures
        r@ == spec_announce_uri(announce@, req@),
{
    let mut out: Vec<u8> = Vec::new();
    crate::message::push_all(&mut out, announce);
    push_frag_info_hash(&mut out);
    push_pct_encoded(&mut out, req.info_hash.as_slice());
    push_frag_peer_id(&mut out);
    push_pct_encoded(&mut out, req.peer_id.as_slice());
    push_frag_port(&mut out);
    push_decimal(&mut out, req.port as u64);
    push_frag_uploaded(&mut out);
    push_decimal(&mut out, req.uploaded);
    push_frag_downloaded(&mut out);
    push_decimal(&mut out, req.downloaded);
    push_frag_left(&mut out);
    push_decimal(&mut out, req.left);
    push_frag_event(&mut out);
    let ev = req.event.name_bytes();
    crate::message::push_all(&mut out, ev.as_slice());
    match &req.numwant {
        Some(n) => {
            push_frag_numwant(&mut out);
            push_decimal(&mut out, *n as u64);
        },
        None => {},
    }
    match &req.key {
        Some(k) => {
            push_frag_key(&mut out);
            push_pct_encoded(&mut out, k.as_slice());
        },
        None => {},
    }
    match &req.tracker_id {
        Some(t) => {
            push_frag_trackerid(&mut out);
            push_pct_encoded(&mut out, t.as_slice());
        },
        None => {},
    }
    proof {
        assert(out@ =~= spec_announce_uri(announce@, req@));
    }
    out
}

/// One peer address from an announce response.
#[derive(Debug, Clone, PartialEq)]
pub struct Peer {
    pub id: Option<HashString>,
    pub ip: Vec<u8>,
    pub port: u16,
}

/// Mathematical image of a `Peer`.
pub struct PeerModel {
    pub id: Option<Seq<u8>>,
    pub ip: Seq<u8>,
    pub port: u16,
}

impl View for Peer {
    type V = PeerModel;

    open spec fn view(&self) -> PeerModel {
        PeerModel {
            id: match self.id {
                Some(ref v) => Some(v@),
                None => None,
            },
            ip: self.ip@,
            port: self.port,
        }
    }
}

/// Mathematical image of a peer list.
pub open spec fn peers_view(v: Seq<Peer>) -> Seq<PeerModel> {
    Seq::new(v.len(), |i: int| v[i]@)
}

/// Why an announce failed: the tracker's own failure message, or a response
/// this client cannot read.
#[derive(Debug, Clone, PartialEq)]
pub enum AnnounceResponseError {
    FailureMessage(Vec<u8>),
    Invalid,
}

/// Mathematical image of an `AnnounceResponseError`.
pub enum AnnounceResponseErrorModel {
    FailureMessage(Seq<u8>),
    Invalid,
}

impl View for AnnounceResponseError {
    type V = AnnounceResponseErrorModel;

    open spec fn view(&self) -> AnnounceResponseErrorModel {
        match self {
            AnnounceResponseError::FailureMessage(m) => AnnounceResponseErrorModel::FailureMessage(
                m@,
            ),
            AnnounceResponseError::Invalid => AnnounceResponseErrorModel::Invalid,
        }
    }
}

/// A decoded announce response.
#[derive(Debug, Clone, PartialEq)]
pub enum AnnounceResponse {
    Success {
        warning_message: Option<Vec<u8>>,
        interval: usize,
        min_interval: Option<usize>,
        tracker_id: Option<Vec<u8>>,
        complete: usize,
        incomplete: usize,
        peers: Vec<Peer>,
    },
    Failure(AnnounceResponseError),
}

/// Mathematical image of an `AnnounceResponse`.
pub enum AnnounceResponseModel {
    Success {
        warning_message: Option<Seq<u8>>,
        interval: usize,
        min_interval: Option<usize>,
        tracker_id: Option<Seq<u8>>,
        complete: usize,
        incomplete: usize,
        peers: Seq<PeerModel>,
    },
    Failure(AnnounceResponseErrorModel),
}

impl View for AnnounceResponse {
    type V = AnnounceResponseModel;

    open spec fn view(&self) -> AnnounceResponseModel {
        match self {
            AnnounceResponse::Success {
                warning_message,
                interval,
                min_interval,
                tracker_id,
                complete,
                incomplete,
                peers,
            } => AnnounceResponseModel::Success {
                warning_message: match warning_message {
                    Some(w) => Some(w@),
                    None => None,
                },
                interval: *interval,
                min_interval: *min_interval,
                tracker_id: match tracker_id {
                    Some(t) => Some(t@),
                    None => None,
                },
                complete: *complete,
                incomplete: *incomplete,
                peers: peers_view(peers@),
            },
            AnnounceResponse::Failure(e) => AnnounceResponseModel::Failure(e@),
        }
    }
}

/// An integer entry, as the integral response fields read one: any other
/// shape is absent.
pub open spec fn translate_int(v: Option<BencodeValueModel>) -> Option<usize> {
    match v {
        Some(BencodeValueModel::Int(x)) => Some(x as usize),
        _ => None,
    }
}

/// A byte-string entry: any other shape is absent.
pub open spec fn translate_bytes(v: Option<BencodeValueModel>) -> Option<Seq<u8>> {
    match v {
        Some(BencodeValueModel::Bytes(b)) => Some(b),
        _ => None,
    }
}

/// The peers written in a compact peer list: 6 bytes each, a 4-byte address
/// then a big-endian port.  A length not a multiple of 6 is no peer list.
pub open spec fn spec_peers_list(b: Seq<u8>) -> Option<Seq<PeerModel>> {
    if b.len() % 6 != 0 {
        None
    } else {
        Some(
            Seq::new(
                b.len() / 6,
                |k: int|
                    PeerModel {
                        id: None,
                        ip: b.subrange(6 * k, 6 * k + 4),
                        port: spec_be16_value(b.subrange(6 * k + 4, 6 * k + 6)),
                    },
            ),
        )
    }
}

/// The success response read from the entries of an announce dictionary;
/// `None` when a required entry is missing or ill-shaped.
pub open spec fn spec_response_from_dict(d: Seq<(Seq<u8>, BencodeValueModel)>) -> Option<
    AnnounceResponseModel,
> {
    match translate_int(dict_get(d, key_interval())) {
        None => None,
        Some(interval) => match translate_int(dict_get(d, key_complete())) {
            None => None,
            Some(complete) => match translate_int(dict_get(d, key_incomplete())) {
                None => None,
                Some(incomplete) => match translate_bytes(dict_get(d, key_peers())) {
                    None => None,
                    Some(pbytes) => match spec_peers_list(pbytes) {
                        None => None,
                        Some(peers) => Some(
                            AnnounceResponseModel::Success {
                                warning_message: translate_bytes(
                                    dict_get(d, key_warning_message()),
                                ),
                                interval,
                                min_interval: translate_int(dict_get(d, key_min_interval())),
                                tracker_id: translate_bytes(dict_get(d, key_tracker_id())),
                                complete,
                                incomplete,
                                peers,
                            },
                        ),
                    },
                },
            },
        },
    }
}

/// The announce response written in `s`: a tracker failure message when the
/// dictionary carries one, a success when the required entries are present
/// and well-shaped, and the invalid response otherwise.
pub open spec fn spec_announce_response(s: Seq<u8>) -> AnnounceResponseModel {
    match spec_parse_dict(s) {
        None => AnnounceResponseModel::Failure(AnnounceResponseErrorModel::Invalid),
        Some(d) => match dict_get(d, key_failure_reason()) {
            Some(BencodeValueModel::Bytes(msg)) => AnnounceResponseModel::Failure(
                AnnounceResponseErrorModel::FailureMessage(msg),
            ),
            _ => match spec_response_from_dict(d) {
                Some(r) => r,
                None => AnnounceResponseModel::Failure(AnnounceResponseErrorModel::Invalid),
            },
        },
    }
}

/// The big-endian port held in the first two bytes.
pub fn invoke_port(bytes: &[u8]) -> (r: u16)
    requires
        bytes@.len() >= 2,
    ensures
        r == spec_be16_value(bytes@.take(2)),
{
    let r = read_be_u16(bytes, 0);
    proof {
        assert(bytes@.subrange(0, 2) =~= bytes@.take(2));
    }
    r
}

/// The peer list held in a `peers` entry: the compact byte-string form, or
/// nothing when the entry is not such a list.
pub fn invoke_peers(value: &BencodeValue) -> (r: Option<Vec<Peer>>)
    ensures
        r matches Some(peers) ==> (translate_bytes(Some(value@)) matches Some(b)
            && spec_peers_list(b) == Some(peers_view(peers@))),
        r is None ==> (match translate_bytes(Some(value@)) {
            Some(b) => spec_peers_list(b) is None,
            None => true,
        }),
{
    match value {
        BencodeValue::Int(_) => None,
        BencodeValue::Bytes(bytes) => {
            if bytes.len() % 6 != 0 {
                return None;
            }
            let n: usize = bytes.len() / 6;
            let ghost target = spec_peers_list(bytes@).unwrap();
            let mut peers: Vec<Peer> = Vec::new();
            let mut k: usize = 0;
            while k < n
                invariant
                    k <= n,
                    n == bytes@.len() / 6,
                    bytes@.len() % 6 == 0,
                    bytes@.len() <= usize::MAX,
                    target == spec_peers_list(bytes@).unwrap(),
                    spec_peers_list(bytes@) is Some,
                    peers@.len() == k,
                    forall|j: int| 0 <= j < k ==> peers@[j]@ == target[j],
                decreases n - k,
            {
                proof {
                    assert(6 * (k as int) + 6 <= bytes@.len()) by (nonlinear_arith)
                        requires
                            (k as int) < bytes@.len() / 6 && bytes@.len() % 6 == 0,
                    ;
                }
                let base: usize = 6 * k;
                let ip = crate::parser::copy_range(bytes.as_slice(), base, base + 4);
                let port = read_be_u16(bytes.as_slice(), base + 4);
                proof {
                    assert(bytes@.subrange(base + 4, base + 6) =~= bytes@.subrange(
                        6 * (k as int) + 4,
                        6 * (k as int) + 6,
                    ));
                }
                peers.push(Peer { id: None, ip, port });
                k = k + 1;
            }
            proof {
                assert(peers_view(peers@) =~= target);
            }
            Some(peers)
        },
    }
}

/// Reads the success response from the entries of an announce dictionary;
/// `None` when a required entry is missing or ill-shaped.
pub fn response_from_dict(entries: &BencodeEntries) -> (r: Option<AnnounceResponse>)
    ensures
        r matches Some(resp) ==> spec_response_from_dict(entries_view(entries@)) == Some(resp@),
        r is None ==> spec_response_from_dict(entries_view(entries@)) is None,
{
    let interval: usize = match find_int(entries, key_interval_bytes().as_slice()) {
        Some(v) => v,
        None => {
            return None;
        },
    };
    let complete: usize = match find_int(entries, key_complete_bytes().as_slice()) {
        Some(v) => v,
        None => {
            return None;
        },
    };
    let incomplete: usize = match find_int(entries, key_incomplete_bytes().as_slice()) {
        Some(v) => v,
        None => {
            return None;
        },
    };
    let peers_idx: usize = match crate::bencode::dict_find(
        entries,
        key_peers_bytes().as_slice(),
    ) {
        Some(i) => i,
        None => {
            return None;
        },
    };
    let peers: Vec<Peer> = match invoke_peers(&entries[peers_idx].1) {
        Some(p) => p,
        None => {
            return None;
        },
    };
    let warning_message = find_bytes(entries, key_warning_message_bytes().as_slice());
    let min_interval = find_int(entries, key_min_interval_bytes().as_slice());
    let tracker_id = find_bytes(entries, key_tracker_id_bytes().as_slice());
    Some(
        AnnounceResponse::Success {
            warning_message,
            interval,
            min_interval,
            tracker_id,
            complete,
            incomplete,
            peers,
        },
    )
}

/// Reads the announce response written in `bytes`.
pub fn parse_announce_response(bytes: &[u8]) -> (r: AnnounceResponse)
    ensures
        r@ == spec_announce_response(bytes@),
{
    let entries: BencodeEntries = match parse_dict(bytes) {
        Some(e) => e,
        None => {
            return AnnounceResponse::Failure(AnnounceResponseError::Invalid);
        },
    };
    match crate::bencode::dict_find(&entries, key_failure_reason_bytes().as_slice()) {
        Some(i) => {
            let entry = &entries[i];
            match &entry.1 {
                BencodeValue::Bytes(msg) => {
                    let owned = crate::parser::copy_range(msg.as_slice(), 0, msg.len());
                    proof {
                        assert(owned@ =~= msg@);
                    }
                    return AnnounceResponse::Failure(
                        AnnounceResponseError::FailureMessage(owned),
                    );
                },
                BencodeValue::Int(_) => {},
            }
        },
        None => {},
    }
    match response_from_dict(&entries) {
        Some(resp) => resp,
        None => AnnounceResponse::Failure(AnnounceResponseError::Invalid),
    }
}

/// The integer entry under `key`, as `translate_int` reads it.
fn find_int(entries: &BencodeEntries, key: &[u8]) -> (r: Option<usize>)
    ensures
        r == translate_int(dict_get(entries_view(entries@), key@)),
{
    match crate::bencode::dict_find(entries, key) {
        None => None,
        Some(i) => {
            let entry = &entries[i];
            match &entry.1 {
                BencodeValue::Int(x) => Some(*x as usize),
                BencodeValue::Bytes(_) => None,
            }
        },
    }
}

/// The byte-string entry under `key`, as `translate_bytes` reads it.
fn find_bytes(entries: &BencodeEntries, key: &[u8]) -> (r: Option<Vec<u8>>)
    ensures
        match r {
            Some(v) => translate_bytes(dict_get(entries_view(entries@), key@)) == Some(v@),
            None => translate_bytes(dict_get(entries_view(entries@), key@)) is None,
        },
{
    match crate::bencode::dict_find(entries, key) {
        None => None,
        Some(i) => {
            let entry = &entries[i];
            match &entry.1 {
                BencodeValue::Bytes(b) => {
                    let owned = crate::parser::copy_range(b.as_slice(), 0, b.len());
                    proof {
                        assert(owned@ =~= b@);
                    }
                    Some(owned)
                },
                BencodeValue::Int(_) => None,
            }
        },
    }
}

/// The dictionary key `failure reason`.
pub open spec fn key_failure_reason() -> Seq<u8> {
    seq![0x66u8, 0x61u8, 0x69u8, 0x6cu8, 0x75u8, 0x72u8, 0x65u8, 0x20u8, 0x72u8, 0x65u8, 0x61u8, 0x73u8, 0x6fu8, 0x6eu8]
}

/// The dictionary key `failure reason`, as bytes.
fn key_failure_reason_bytes() -> (r: Vec<u8>)
    ensures
        r@ == key_failure_reason(),
{
    let mut v: Vec<u8> = Vec::new();
    v.push(0x66);
    v.push(0x61);
    v.push(0x69);
    v.push(0x6c);
    v.push(0x75);
    v.push(0x72);
    v.push(0x65);
    v.push(0x20);
    v.push(0x72);
    v.push(0x65);
    v.push(0x61);
    v.push(0x73);
    v.push(0x6f);
    v.push(0x6e);
    proof {
        assert(v@ =~= key_failure_reason());
    }
    v
}

/// The dictionary key `warning message`.
pub open spec fn key_warning_message() -> Seq<u8> {
    seq![0x77u8, 0x61u8, 0x72u8, 0x6eu8, 0x69u8, 0x6eu8, 0x67u8, 0x20u8, 0x6du8, 0x65u8, 0x73u8, 0x73u8, 0x61u8, 0x67u8, 0x65u8]
}

/// The dictionary key `warning message`, as bytes.
fn key_warning_message_bytes() -> (r: Vec<u8>)
    ensures
        r@ == key_warning_message(),
{
    let mut v: Vec<u8> = Vec::new();
    v.push(0x77);
    v.push(0x61);
    v.push(0x72);
    v.push(0x6e);
    v.push(0x69);
    v.push(0x6e);
    v.push(0x67);
    v.push(0x20);
    v.push(0x6d);
    v.push(0x65);
    v.push(0x73);
    v.push(0x73);
    v.push(0x61);
    v.push(0x67);
    v.push(0x65);
    proof {
        assert(v@ =~= key_warning_message());
    }
    v
}

/// The dictionary key `interval`.
pub open spec fn key_interval() -> Seq<u8> {
    seq![0x69u8, 0x6eu8, 0x74u8, 0x65u8, 0x72u8, 0x76u8, 0x61u8, 0x6cu8]
}

/// The dictionary key `interval`, as bytes.
fn key_interval_bytes() -> (r: Vec<u8>)
    ensures
        r@ == key_interval(),
{
    let mut v: Vec<u8> = Vec::new();
    v.push(0x69);
    v.push(0x6e);
    v.push(0x74);
    v.push(0x65);
    v.push(0x72);
    v.push(0x76);
    v.push(0x61);
    v.push(0x6c);
    proof {
        assert(v@ =~= key_interval());
    }
    v
}

/// The dictionary key `min interval`.
pub open spec fn key_min_interval() -> Seq<u8> {
    seq![0x6du8, 0x69u8, 0x6eu8, 0x20u8, 0x69u8, 0x6eu8, 0x74u8, 0x65u8, 0x72u8, 0x76u8, 0x61u8, 0x6cu8]
}

/// The dictionary key `min interval`, as bytes.
fn key_min_interval_bytes() -> (r: Vec<u8>)
    ensures
        r@ == key_min_interval(),
{
    let mut v: Vec<u8> = Vec::new();
    v.push(0x6d);
    v.push(0x69);
    v.push(0x6e);
    v.push(0x20);
    v.push(0x69);
    v.push(0x6e);
    v.push(0x74);
    v.push(0x65);
    v.push(0x72);
    v.push(0x76);
    v.push(0x61);
    v.push(0x6c);
    proof {
        assert(v@ =~= key_min_interval());
    }
    v
}

/// The dictionary key `tracker id`.
pub open spec fn key_tracker_id() -> Seq<u8> {
    seq![0x74u8, 0x72u8, 0x61u8, 0x63u8, 0x6bu8, 0x65u8, 0x72u8, 0x20u8, 0x69u8, 0x64u8]
}

/// The dictionary key `tracker id`, as bytes.
fn key_tracker_id_bytes() -> (r: Vec<u8>)
    ensures
        r@ == key_tracker_id(),
{
    let mut v: Vec<u8> = Vec::new();
    v.push(0x74);
    v.push(0x72);
    v.push(0x61);
    v.push(0x63);
    v.push(0x6b);
    v.push(0x65);
    v.push(0x72);
    v.push(0x20);
    v.push(0x69);
    v.push(0x64);
    proof {
        assert(v@ =~= key_tracker_id());
    }
    v
}

/// The dictionary key `complete`.
pub open spec fn key_complete() -> Seq<u8> {
    seq![0x63u8, 0x6fu8, 0x6du8, 0x70u8, 0x6cu8, 0x65u8, 0x74u8, 0x65u8]
}

/// The dictionary key `complete`, as bytes.
fn key_complete_bytes() -> (r: Vec<u8>)
    ensures
        r@ == key_complete(),
{
    let mut v: Vec<u8> = Vec::new();
    v.push(0x63);
    v.push(0x6f);
    v.push(0x6d);
    v.push(0x70);
    v.push(0x6c);
    v.push(0x65);
    v.push(0x74);
    v.push(0x65);
    proof {
        assert(v@ =~= key_complete());
    }
    v
}

/// The dictionary key `incomplete`.
pub open spec fn key_incomplete() -> Seq<u8> {
    seq![0x69u8, 0x6eu8, 0x63u8, 0x6fu8, 0x6du8, 0x70u8, 0x6cu8, 0x65u8, 0x74u8, 0x65u8]
}

/// The dictionary key `incomplete`, as bytes.
fn key_incomplete_bytes() -> (r: Vec<u8>)
    ensures
        r@ == key_incomplete(),
{
    let mut v: Vec<u8> = Vec::new();
    v.push(0x69);
    v.push(0x6e);
    v.push(0x63);
    v.push(0x6f);
    v.push(0x6d);
    v.push(0x70);
    v.push(0x6c);
    v.push(0x65);
    v.push(0x74);
    v.push(0x65);
    proof {
        assert(v@ =~= key_incomplete());
    }
    v
}

/// The dictionary key `peers`.
pub open spec fn key_peers() -> Seq<u8> {
    seq![0x70u8, 0x65u8, 0x65u8, 0x72u8, 0x73u8]
}

/// The dictionary key `peers`, as bytes.
fn key_peers_bytes() -> (r: Vec<u8>)
    ensures
        r@ == key_peers(),
{
    let mut v: Vec<u8> = Vec::new();
    v.push(0x70);
    v.push(0x65);
    v.push(0x65);
    v.push(0x72);
    v.push(0x73);
    proof {
        assert(v@ =~= key_peers());
    }
    v
}

/// The query fragment `?info_hash=`.
pub open spec fn frag_info_hash() -> Seq<u8> {
    seq![0x3fu8, 0x69u8, 0x6eu8, 0x66u8, 0x6fu8, 0x5fu8, 0x68u8, 0x61u8, 0x73u8, 0x68u8, 0x3du8]
}

/// Appends the query fragment `?info_hash=` to `out`.
fn push_frag_info_hash(out: &mut Vec<u8>)
    ensures
        final(out)@ == old(out)@ + frag_info_hash(),
{
    out.push(0x3f);
    out.push(0x69);
    out.push(0x6e);
    out.push(0x66);
    out.push(0x6f);
    out.push(0x5f);
    out.push(0x68);
    out.push(0x61);
    out.push(0x73);
    out.push(0x68);
    out.push(0x3d);
    proof {
        assert(out@ =~= old(out)@ + frag_info_hash());
    }
}

/// The query fragment `&peer_id=`.
pub open spec fn frag_peer_id() -> Seq<u8> {
    seq![0x26u8, 0x70u8, 0x65u8, 0x65u8, 0x72u8, 0x5fu8, 0x69u8, 0x64u8, 0x3du8]
}

/// Appends the query fragment `&peer_id=` to `out`.
fn push_frag_peer_id(out: &mut Vec<u8>)
    ensures
        final(out)@ == old(out)@ + frag_peer_id(),
{
    out.push(0x26);
    out.push(0x70);
    out.push(0x65);
    out.push(0x65);
    out.push(0x72);
    out.push(0x5f);
    out.push(0x69);
    out.push(0x64);
    out.push(0x3d);
    proof {
        assert(out@ =~= old(out)@ + frag_peer_id());
    }
}

/// The query fragment `&port=`.
pub open spec fn frag_port() -> Seq<u8> {
    seq![0x26u8, 0x70u8, 0x6fu8, 0x72u8, 0x74u8, 0x3du8]
}

/// Appends the query fragment `&port=` to `out`.
fn push_frag_port(out: &mut Vec<u8>)
    ensures
        final(out)@ == old(out)@ + frag_port(),
{
    out.push(0x26);
    out.push(0x70);
    out.push(0x6f);
    out.push(0x72);
    out.push(0x74);
    out.push(0x3d);
    proof {
        assert(out@ =~= old(out)@ + frag_port());
    }
}

/// The query fragment `&uploaded=`.
pub open spec fn frag_uploaded() -> Seq<u8> {
    seq![0x26u8, 0x75u8, 0x70u8, 0x6cu8, 0x6fu8, 0x61u8, 0x64u8, 0x65u8, 0x64u8, 0x3du8]
}

/// Appends the query fragment `&uploaded=` to `out`.
fn push_frag_uploaded(out: &mut Vec<u8>)
    ensures
        final(out)@ == old(out)@ + frag_uploaded(),
{
    out.push(0x26);
    out.push(0x75);
    out.push(0x70);
    out.push(0x6c);
    out.push(0x6f);
    out.push(0x61);
    out.push(0x64);
    out.push(0x65);
    out.push(0x64);
    out.push(0x3d);
    proof {
        assert(out@ =~= old(out)@ + frag_uploaded());
    }
}

/// The query fragment `&downloaded=`.
pub open spec fn frag_downloaded() -> Seq<u8> {
    seq![0x26u8, 0x64u8, 0x6fu8, 0x77u8, 0x6eu8, 0x6cu8, 0x6fu8, 0x61u8, 0x64u8, 0x65u8, 0x64u8, 0x3du8]
}

/// Appends the query fragment `&downloaded=` to `out`.
fn push_frag_downloaded(out: &mut Vec<u8>)
    ensures
        final(out)@ == old(out)@ + frag_downloaded(),
{
    out.push(0x26);
    out.push(0x64);
    out.push(0x6f);
    out.push(0x77);
    out.push(0x6e);
    out.push(0x6c);
    out.push(0x6f);
    out.push(0x61);
    out.push(0x64);
    out.push(0x65);
    out.push(0x64);
    out.push(0x3d);
    proof {
        assert(out@ =~= old(out)@ + frag_downloaded());
    }
}

/// The query fragment `&left=`.
pub open spec fn frag_left() -> Seq<u8> {
    seq![0x26u8, 0x6cu8, 0x65u8, 0x66u8, 0x74u8, 0x3du8]
}

/// Appends the query fragment `&left=` to `out`.
fn push_frag_left(out: &mut Vec<u8>)
    ensures
        final(out)@ == old(out)@ + frag_left(),
{
    out.push(0x26);
    out.push(0x6c);
    out.push(0x65);
    out.push(0x66);
    out.push(0x74);
    out.push(0x3d);
    proof {
        assert(out@ =~= old(out)@ + frag_left());
    }
}

/// The query fragment `&event=`.
pub open spec fn frag_event() -> Seq<u8> {
    seq![0x26u8, 0x65u8, 0x76u8, 0x65u8, 0x6eu8, 0x74u8, 0x3du8]
}

/// Appends the query fragment `&event=` to `out`.
fn push_frag_event(out: &mut Vec<u8>)
    ensures
        final(out)@ == old(out)@ + frag_event(),
{
    out.push(0x26);
    out.push(0x65);
    out.push(0x76);
    out.push(0x65);
    out.push(0x6e);
    out.push(0x74);
    out.push(0x3d);
    proof {
        assert(out@ =~= old(out)@ + frag_event());
    }
}

/// The query fragment `&numwant=`.
pub open spec fn frag_numwant() -> Seq<u8> {
    seq![0x26u8, 0x6eu8, 0x75u8, 0x6du8, 0x77u8, 0x61u8, 0x6eu8, 0x74u8, 0x3du8]
}

/// Appends the query fragment `&numwant=` to `out`.
fn push_frag_numwant(out: &mut Vec<u8>)
    ensures
        final(out)@ == old(out)@ + frag_numwant(),
{
    out.push(0x26);
    out.push(0x6e);
    out.push(0x75);
    out.push(0x6d);
    out.push(0x77);
    out.push(0x61);
    out.push(0x6e);
    out.push(0x74);
    out.push(0x3d);
    proof {
        assert(out@ =~= old(out)@ + frag_numwant());
    }
}

/// The query fragment `&key=`.
pub open spec fn frag_key() -> Seq<u8> {
    seq![0x26u8, 0x6bu8, 0x65u8, 0x79u8, 0x3du8]
}

/// Appends the query fragment `&key=` to `out`.
fn push_frag_key(out: &mut Vec<u8>)
    ensures
        final(out)@ == old(out)@ + frag_key(),
{
    out.push(0x26);
    out.push(0x6b);
    out.push(0x65);
    out.push(0x79);
    out.push(0x3d);
    proof {
        assert(out@ =~= old(out)@ + frag_key());
    }
}

/// The query fragment `&trackerid=`.
pub open spec fn frag_trackerid() -> Seq<u8> {
    seq![0x26u8, 0x74u8, 0x72u8, 0x61u8, 0x63u8, 0x6bu8, 0x65u8, 0x72u8, 0x69u8, 0x64u8, 0x3du8]
}

/// Appends the query fragment `&trackerid=` to `out`.
fn push_frag_trackerid(out: &mut Vec<u8>)
    ensures
        final(out)@ == old(out)@ + frag_trackerid(),
{
    out.push(0x26);
    out.push(0x74);
    out.push(0x72);
    out.push(0x61);
    out.push(0x63);
    out.push(0x6b);
    out.push(0x65);
    out.push(0x72);
    out.push(0x69);
    out.push(0x64);
    out.push(0x3d);
    proof {
        assert(out@ =~= old(out)@ + frag_trackerid());
    }
}

} // verus!
