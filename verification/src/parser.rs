//! Decoding of the wire frames described in `message`.
//!
//! Decoding is total over well-formed input and partial otherwise: a frame
//! whose bytes have not all arrived is `Incomplete`, a frame with an
//! unrecognized tag or a payload of the wrong size is `Invalid`.  A bad
//! frame is fatal to the connection that produced it; nothing here retries.

use vstd::prelude::*;

use crate::message::{
    spec_be16, spec_be32, spec_encode_handshake, spec_encode_message, spec_message_body,
    wf_handshake, wf_message, Handshake, HandshakeModel, HashString, MessageModel, PeerMessage,
};

verus! {

/// Failure of a frame decode: more bytes are needed, or the frame can never
/// be read.
#[derive(Debug, Clone, Copy, PartialEq, Eq, Structural)]
pub enum FrameError {
    Incomplete,
    Invalid,
}

/// The 32-bit integer held big-endian in a 4-byte string.
pub open spec fn spec_be32_value(s: Seq<u8>) -> u32
    recommends
        s.len() == 4,
{
    ((s[0] as u32) << 24u32) | ((s[1] as u32) << 16u32) | ((s[2] as u32) << 8u32) | (s[3] as u32)
}

/// The 16-bit integer held big-endian in a 2-byte string.
pub open spec fn spec_be16_value(s: Seq<u8>) -> u16
    recommends
        s.len() == 2,
{
    ((s[0] as u16) << 8u16) | (s[1] as u16)
}

/// Reading back the big-endian bytes of an integer gives the integer.
pub proof fn lemma_be32_round_trip(x: u32)
    ensures
        spec_be32_value(spec_be32(x)) == x,
{
    assert((((x >> 24u32) as u8 as u32) << 24u32) | (((x >> 16u32) as u8 as u32) << 16u32) | (((x
        >> 8u32) as u8 as u32) << 8u32) | (x as u8 as u32) == x) by (bit_vector);
}

/// Reading back the big-endian bytes of an integer gives the integer.
pub proof fn lemma_be16_round_trip(x: u16)
    ensures
        spec_be16_value(spec_be16(x)) == x,
{
    assert((((x >> 8u16) as u8 as u16) << 8u16) | (x as u8 as u16) == x) by (bit_vector);
}

/// The message held in a frame body (tag byte and payload) of declared
/// size `body.len()`.  The empty body is the keep-alive frame.
pub open spec fn spec_parse_body(body: Seq<u8>) -> Result<MessageModel, FrameError> {
    if body.len() == 0 {
        Ok(MessageModel::KeepAlive)
    } else {
        let payload = body.skip(1);
        if body[0] == 0x30 {
            if payload.len() == 0 {
                Ok(MessageModel::Choke)
            } else {
                Err(FrameError::Invalid)
            }
        } else if body[0] == 0x31 {
            if payload.len() == 0 {
                Ok(MessageModel::Unchoke)
            } else {
                Err(FrameError::Invalid)
            }
        } else if body[0] == 0x32 {
            if payload.len() == 0 {
                Ok(MessageModel::Interested)
            } else {
                Err(FrameError::Invalid)
            }
        } else if body[0] == 0x33 {
            if payload.len() == 0 {
                Ok(MessageModel::NotInterested)
            } else {
                Err(FrameError::Invalid)
            }
        } else if body[0] == 0x34 {
            if payload.len() == 4 {
                Ok(MessageModel::Have(spec_be32_value(payload)))
            } else {
                Err(FrameError::Invalid)
            }
        } else if body[0] == 0x35 {
            Ok(MessageModel::Bitfield(payload))
        } else if body[0] == 0x36 {
            if payload.len() == 12 {
                Ok(
                    MessageModel::Request {
                        block: spec_be32_value(payload.subrange(0, 4)),
                        offset: spec_be32_value(payload.subrange(4, 8)),
                        length: spec_be32_value(payload.subrange(8, 12)),
                    },
                )
            } else {
                Err(FrameError::Invalid)
            }
        } else if body[0] == 0x37 {
            if payload.len() >= 8 {
                Ok(
                    MessageModel::Piece {
                        block: spec_be32_value(payload.subrange(0, 4)),
                        offset: spec_be32_value(payload.subrange(4, 8)),
                        data: payload.skip(8),
                    },
                )
            } else {
                Err(FrameError::Invalid)
            }
        } else if body[0] == 0x38 {
            if payload.len() == 12 {
                Ok(
                    MessageModel::Cancel {
                        block: spec_be32_value(payload.subrange(0, 4)),
                        offset: spec_be32_value(payload.subrange(4, 8)),
                        length: spec_be32_value(payload.subrange(8, 12)),
                    },
                )
            } else {
                Err(FrameError::Invalid)
            }
        } else if body[0] == 0x39 {
            if payload.len() == 2 {
                Ok(MessageModel::Port(spec_be16_value(payload)))
            } else {
                Err(FrameError::Invalid)
            }
        } else {
            Err(FrameError::Invalid)
        }
    }
}

/// The message held in the first `size` bytes of `s`, a frame body of
/// declared size `size`.
pub open spec fn spec_parse_message(s: Seq<u8>, size: u32) -> Result<MessageModel, FrameError> {
    if s.len() < size {
        Err(FrameError::Incomplete)
    } else {
        spec_parse_body(s.take(size as int))
    }
}

/// The first message frame of `s`: length field, tag and payload.  Returns
/// the count of bytes consumed beside the message.
pub open spec fn spec_decode_message(s: Seq<u8>) -> Result<(int, MessageModel), FrameError> {
    if s.len() < 4 {
        Err(FrameError::Incomplete)
    } else {
        let size = spec_be32_value(s.take(4)) as int;
        if s.len() < 4 + size {
            Err(FrameError::Incomplete)
        } else {
            match spec_parse_body(s.subrange(4, 4 + size)) {
                Ok(m) => Ok((4 + size, m)),
                Err(e) => Err(e),
            }
        }
    }
}

/// The handshake whose protocol name has length `size`, held in `s` (the
/// frame after its 1-byte length field).
pub open spec fn spec_parse_handshake(s: Seq<u8>, size: u8) -> Result<HandshakeModel, FrameError> {
    if s.len() < size + 48 {
        Err(FrameError::Incomplete)
    } else {
        Ok(
            HandshakeModel {
                protocol: s.take(size as int),
                extentions: s.subrange(size as int, size + 8),
                info_hash: s.subrange(size + 8, size + 28),
                peer_id: s.subrange(size + 28, size + 48),
            },
        )
    }
}

/// The first handshake frame of `s`, length byte included.  Returns the
/// count of bytes consumed beside the handshake.
pub open spec fn spec_decode_handshake(s: Seq<u8>) -> Result<(int, HandshakeModel), FrameError> {
    if s.len() < 1 {
        Err(FrameError::Incomplete)
    } else {
        match spec_parse_handshake(s.skip(1), s[0]) {
            Ok(h) => Ok((1 + (s[0] as int) + 48, h)),
            Err(e) => Err(e),
        }
    }
}

/// The bytes of `i` from `start` to `end`, as a fresh vector.
pub fn copy_range(i: &[u8], start: usize, end: usize) -> (r: Vec<u8>)
    requires
        start <= end <= i@.len(),
    ensures
        r@ == i@.subrange(start as int, end as int),
{
    let mut out: Vec<u8> = Vec::new();
    let mut k: usize = start;
    while k < end
        invariant
            start <= k <= end <= i@.len(),
            out@ == i@.subrange(start as int, k as int),
        decreases end - k,
    {
        out.push(i[k]);
        proof {
            assert(i@.subrange(start as int, k + 1) =~= i@.subrange(start as int, k as int).push(
                i@[k as int],
            ));
        }
        k = k + 1;
    }
    out
}

/// The 32-bit integer held big-endian at position `at` of `i`.
pub fn read_be_u32(i: &[u8], at: usize) -> (r: u32)
    requires
        at + 4 <= i@.len(),
    ensures
        r == spec_be32_value(i@.subrange(at as int, at + 4)),
{
    let r: u32 = ((i[at] as u32) << 24u32) | ((i[at + 1] as u32) << 16u32) | ((i[at + 2] as u32)
        << 8u32) | (i[at + 3] as u32);
    proof {
        let s = i@.subrange(at as int, at + 4);
        assert(s[0] == i@[at as int] && s[1] == i@[at + 1] && s[2] == i@[at + 2] && s[3] == i@[at
            + 3]);
    }
    r
}

/// The 16-bit integer held big-endian at position `at` of `i`.
pub fn read_be_u16(i: &[u8], at: usize) -> (r: u16)
    requires
        at + 2 <= i@.len(),
    ensures
        r == spec_be16_value(i@.subrange(at as int, at + 2)),
{
    let r: u16 = ((i[at] as u16) << 8u16) | (i[at + 1] as u16);
    proof {
        let s = i@.subrange(at as int, at + 2);
        assert(s[0] == i@[at as int] && s[1] == i@[at + 1]);
    }
    r
}

/// The first 20 bytes of `i`, a 20-byte identifier; `None` when fewer than
/// 20 bytes are present.
pub fn parse_hash_string(i: &[u8]) -> (r: Option<HashString>)
    ensures
        i@.len() >= 20 ==> (r matches Some(v) && v@ == i@.take(20)),
        i@.len() < 20 ==> r is None,
{
    if i.len() < 20 {
        None
    } else {
        Some(copy_range(i, 0, 20))
    }
}

/// The first 8 bytes of `i`, a reserved-extensions region; `None` when
/// fewer than 8 bytes are present.
pub fn parse_torrent_extentions(i: &[u8]) -> (r: Option<Vec<u8>>)
    ensures
        i@.len() >= 8 ==> (r matches Some(v) && v@ == i@.take(8)),
        i@.len() < 8 ==> r is None,
{
    if i.len() < 8 {
        None
    } else {
        Some(copy_range(i, 0, 8))
    }
}

/// Reads the handshake fields from `i`, the frame after its length byte,
/// whose protocol name has length `size`.
pub fn parse_handshake(i: &[u8], size: u8) -> (r: Result<Handshake, FrameError>)
    ensures
        r matches Ok(h) ==> (spec_parse_handshake(i@, size) matches Ok(hm) && hm == h@ && wf_handshake(h@)),
        r matches Err(e) ==> spec_parse_handshake(i@, size) == Err::<HandshakeModel, FrameError>(e),
{
    let needed: usize = size as usize + 48;
    if i.len() < needed {
        Err(FrameError::Incomplete)
    } else {
        let protocol = copy_range(i, 0, size as usize);
        let tail = &i[size as usize..i.len()];
        let extentions = match parse_torrent_extentions(tail) {
            Some(e) => e,
            None => {
                return Err(FrameError::Invalid);
            },
        };
        let hashes = &i[size as usize + 8..i.len()];
        let info_hash = match parse_hash_string(hashes) {
            Some(h) => h,
            None => {
                return Err(FrameError::Invalid);
            },
        };
        let ids = &i[size as usize + 28..i.len()];
        let peer_id = match parse_hash_string(ids) {
            Some(p) => p,
            None => {
                return Err(FrameError::Invalid);
            },
        };
        proof {
            assert(tail@.take(8) =~= i@.subrange(size as int, size + 8));
            assert(hashes@.take(20) =~= i@.subrange(size + 8, size + 28));
            assert(ids@.take(20) =~= i@.subrange(size + 28, size + 48));
            assert(i@.subrange(0, size as int) =~= i@.take(size as int));
        }
        Ok(Handshake { protocol, extentions, info_hash, peer_id })
    }
}

/// Reads the message held in the first `size` bytes of `i`, a frame body
/// of declared size `size`.
pub fn parse_message(i: &[u8], size: u32) -> (r: Result<PeerMessage, FrameError>)
    ensures
        r matches Ok(m) ==> (spec_parse_message(i@, size) matches Ok(mm) && mm == m@),
        r matches Err(e) ==> spec_parse_message(i@, size) == Err::<MessageModel, FrameError>(e),
{
    if i.len() < size as usize {
        return Err(FrameError::Incomplete);
    }
    let ghost body = i@.take(size as int);
    if size == 0 {
        return Ok(PeerMessage::KeepAlive);
    }
    let payload_len: u32 = size - 1;
    proof {
        assert(body.skip(1) =~= i@.subrange(1, size as int));
        assert(body[0] == i@[0]);
        assert(body.skip(1).len() == payload_len);
    }
    let tag: u8 = i[0];
    if tag == 0x30 || tag == 0x31 || tag == 0x32 || tag == 0x33 {
        if payload_len != 0 {
            return Err(FrameError::Invalid);
        }
        if tag == 0x30 {
            Ok(PeerMessage::Choke)
        } else if tag == 0x31 {
            Ok(PeerMessage::Unchoke)
        } else if tag == 0x32 {
            Ok(PeerMessage::Interested)
        } else {
            Ok(PeerMessage::NotInterested)
        }
    } else if tag == 0x34 {
        if payload_len != 4 {
            return Err(FrameError::Invalid);
        }
        let index: u32 = read_be_u32(i, 1);
        proof {
            assert(body.skip(1) =~= i@.subrange(1, 5));
        }
        Ok(PeerMessage::Have(index))
    } else if tag == 0x35 {
        let bits = copy_range(i, 1, size as usize);
        proof {
            assert(bits@ =~= body.skip(1));
        }
        Ok(PeerMessage::Bitfield(bits))
    } else if tag == 0x36 || tag == 0x38 {
        if payload_len != 12 {
            return Err(FrameError::Invalid);
        }
        let block: u32 = read_be_u32(i, 1);
        let offset: u32 = read_be_u32(i, 5);
        let length: u32 = read_be_u32(i, 9);
        proof {
            assert(body.skip(1).subrange(0, 4) =~= i@.subrange(1, 5));
            assert(body.skip(1).subrange(4, 8) =~= i@.subrange(5, 9));
            assert(body.skip(1).subrange(8, 12) =~= i@.subrange(9, 13));
        }
        if tag == 0x36 {
            Ok(PeerMessage::Request { block, offset, length })
        } else {
            Ok(PeerMessage::Cancel { block, offset, length })
        }
    } else if tag == 0x37 {
        if payload_len < 8 {
            return Err(FrameError::Invalid);
        }
        let block: u32 = read_be_u32(i, 1);
        let offset: u32 = read_be_u32(i, 5);
        let data = copy_range(i, 9, size as usize);
        proof {
            assert(body.skip(1).subrange(0, 4) =~= i@.subrange(1, 5));
            assert(body.skip(1).subrange(4, 8) =~= i@.subrange(5, 9));
            assert(data@ =~= body.skip(1).skip(8));
        }
        Ok(PeerMessage::Piece { block, offset, data })
    } else if tag == 0x39 {
        if payload_len != 2 {
            return Err(FrameError::Invalid);
        }
        let port: u16 = read_be_u16(i, 1);
        proof {
            assert(body.skip(1) =~= i@.subrange(1, 3));
        }
        Ok(PeerMessage::Port(port))
    } else {
        Err(FrameError::Invalid)
    }
}

/// Reads the first message frame of `bytes`, length field included; `Ok`
/// carries the count of bytes consumed and the message.
pub fn decode_message(bytes: &[u8]) -> (r: Result<(usize, PeerMessage), FrameError>)
    ensures
        r matches Ok(p) ==> (spec_decode_message(bytes@) matches Ok(q) && q.0 == p.0 && q.1
            == p.1@),
        r matches Err(e) ==> spec_decode_message(bytes@) == Err::<(int, MessageModel), FrameError>(
            e,
        ),
{
    if bytes.len() < 4 {
        return Err(FrameError::Incomplete);
    }
    let size: u32 = read_be_u32(bytes, 0);
    proof {
        assert(bytes@.subrange(0, 4) =~= bytes@.take(4));
    }
    if bytes.len() - 4 < size as usize {
        return Err(FrameError::Incomplete);
    }
    let rest = &bytes[4..bytes.len()];
    proof {
        assert(rest@.take(size as int) =~= bytes@.subrange(4, 4 + size as int));
    }
    match parse_message(rest, size) {
        Ok(m) => Ok((4 + size as usize, m)),
        Err(e) => Err(e),
    }
}

/// Reads the first handshake frame of `bytes`, length byte included; `Ok`
/// carries the count of bytes consumed and the handshake.
pub fn decode_handshake(bytes: &[u8]) -> (r: Result<(usize, Handshake), FrameError>)
    ensures
        r matches Ok(p) ==> (spec_decode_handshake(bytes@) matches Ok(q) && q.0 == p.0 && q.1
            == p.1@ && wf_handshake(p.1@)),
        r matches Err(e) ==> spec_decode_handshake(bytes@) == Err::<
            (int, HandshakeModel),
            FrameError,
        >(e),
{
    if bytes.len() < 1 {
        return Err(FrameError::Incomplete);
    }
    let size: u8 = bytes[0];
    let rest = &bytes[1..bytes.len()];
    proof {
        assert(rest@ =~= bytes@.skip(1));
    }
    match parse_handshake(rest, size) {
        Ok(h) => Ok((1 + size as usize + 48, h)),
        Err(e) => Err(e),
    }
}

impl Handshake {
    /// Reads the first handshake frame of `bytes`, length byte included.
    pub fn parse(bytes: &[u8]) -> (r: Result<(usize, Handshake), FrameError>)
        ensures
            r matches Ok(p) ==> (spec_decode_handshake(bytes@) matches Ok(q) && q.0 == p.0 && q.1
                == p.1@ && wf_handshake(p.1@)),
            r matches Err(e) ==> spec_decode_handshake(bytes@) == Err::<
                (int, HandshakeModel),
                FrameError,
            >(e),
    {
        decode_handshake(bytes)
    }
}

impl PeerMessage {
    /// Reads the first message frame of `bytes`, length field included.
    pub fn parse(bytes: &[u8]) -> (r: Result<(usize, PeerMessage), FrameError>)
        ensures
            r matches Ok(p) ==> (spec_decode_message(bytes@) matches Ok(q) && q.0 == p.0 && q.1
                == p.1@),
            r matches Err(e) ==> spec_decode_message(bytes@) == Err::<
                (int, MessageModel),
                FrameError,
            >(e),
    {
        decode_message(bytes)
    }
}

/// Round trip of the message codec: decoding an encoded frame consumes the
/// whole frame and gives back the message.
pub proof fn lemma_message_round_trip(m: MessageModel)
    requires
        wf_message(m),
    ensures
        spec_decode_message(spec_encode_message(m)) matches Ok(p) && p.0 == spec_encode_message(
            m,
        ).len() && p.1 == m,
{
    let body = spec_message_body(m);
    let size: u32 = body.len() as u32;
    let s = spec_encode_message(m);
    assert(s.take(4) =~= spec_be32(size));
    lemma_be32_round_trip(size);
    assert(s.subrange(4, 4 + size as int) =~= body);
    lemma_parse_body_of_encoded(m);
}

/// Parsing the tag-and-payload body of an encoded message gives back the
/// message.
proof fn lemma_parse_body_of_encoded(m: MessageModel)
    requires
        wf_message(m),
    ensures
        spec_parse_body(spec_message_body(m)) == Ok::<MessageModel, FrameError>(m),
{
    let body = spec_message_body(m);
    match m {
        MessageModel::KeepAlive => {
        },
        MessageModel::Choke => {
            assert(body.skip(1) =~= Seq::<u8>::empty());
        },
        MessageModel::Unchoke => {
            assert(body.skip(1) =~= Seq::<u8>::empty());
        },
        MessageModel::Interested => {
            assert(body.skip(1) =~= Seq::<u8>::empty());
        },
        MessageModel::NotInterested => {
            assert(body.skip(1) =~= Seq::<u8>::empty());
        },
        MessageModel::Have(index) => {
            assert(body.skip(1) =~= spec_be32(index));
            lemma_be32_round_trip(index);
        },
        MessageModel::Bitfield(bits) => {
            assert(body.skip(1) =~= bits);
        },
        MessageModel::Request { block, offset, length } => {
            assert(body.skip(1).subrange(0, 4) =~= spec_be32(block));
            assert(body.skip(1).subrange(4, 8) =~= spec_be32(offset));
            assert(body.skip(1).subrange(8, 12) =~= spec_be32(length));
            lemma_be32_round_trip(block);
            lemma_be32_round_trip(offset);
            lemma_be32_round_trip(length);
        },
        MessageModel::Piece { block, offset, data } => {
            assert(body.skip(1).subrange(0, 4) =~= spec_be32(block));
            assert(body.skip(1).subrange(4, 8) =~= spec_be32(offset));
            assert(body.skip(1).skip(8) =~= data);
            lemma_be32_round_trip(block);
            lemma_be32_round_trip(offset);
        },
        MessageModel::Cancel { block, offset, length } => {
            assert(body.skip(1).subrange(0, 4) =~= spec_be32(block));
            assert(body.skip(1).subrange(4, 8) =~= spec_be32(offset));
            assert(body.skip(1).subrange(8, 12) =~= spec_be32(length));
            lemma_be32_round_trip(block);
            lemma_be32_round_trip(offset);
            lemma_be32_round_trip(length);
        },
        MessageModel::Port(port) => {
            assert(body.skip(1) =~= spec_be16(port));
            lemma_be16_round_trip(port);
        },
    }
}

/// Round trip of the handshake codec: decoding an encoded handshake frame
/// consumes the whole frame and gives back the handshake.
pub proof fn lemma_handshake_round_trip(h: HandshakeModel)
    requires
        wf_handshake(h),
    ensures
        spec_decode_handshake(spec_encode_handshake(h)) matches Ok(p) && p.0
            == spec_encode_handshake(h).len() && p.1 == h,
{
    let s = spec_encode_handshake(h);
    let size: u8 = h.protocol.len() as u8;
    assert(s[0] == size);
    let rest = s.skip(1);
    assert(rest =~= h.protocol + h.extentions + h.info_hash + h.peer_id);
    assert(rest.take(size as int) =~= h.protocol);
    assert(rest.subrange(size as int, size + 8) =~= h.extentions);
    assert(rest.subrange(size + 8, size + 28) =~= h.info_hash);
    assert(rest.subrange(size + 28, size + 48) =~= h.peer_id);
}

} // verus!
