//! Wire-level data of the peer protocol: the handshake and the peer message
//! union, with their exact byte encodings.
//!
//! A peer message frame is `[4-byte big-endian length][1-byte tag][payload]`,
//! where the length counts the tag and the payload; `KeepAlive` is the
//! zero-length frame with no tag.  The handshake frame is
//! `[1-byte protocol-name length][protocol-name][8 reserved bytes]`
//! `[20-byte info hash][20-byte peer id]`.

use vstd::prelude::*;

verus! {

/// 20-byte opaque identifier (an info hash or a peer id).
pub type HashString = Vec<u8>;

/// Opening frame of a peer connection.
#[derive(Clone, Debug, PartialEq)]
pub struct Handshake {
    pub protocol: Vec<u8>,
    pub extentions: Vec<u8>,
    pub info_hash: HashString,
    pub peer_id: HashString,
}

/// Mathematical image of a `Handshake`.
pub struct HandshakeModel {
    pub protocol: Seq<u8>,
    pub extentions: Seq<u8>,
    pub info_hash: Seq<u8>,
    pub peer_id: Seq<u8>,
}

impl View for Handshake {
    type V = HandshakeModel;

    open spec fn view(&self) -> HandshakeModel {
        HandshakeModel {
            protocol: self.protocol@,
            extentions: self.extentions@,
            info_hash: self.info_hash@,
            peer_id: self.peer_id@,
        }
    }
}

/// Well-formed handshake: the protocol name fits its 1-byte length field,
/// the reserved region is 8 bytes, the identifiers 20 bytes each.
pub open spec fn wf_handshake(h: HandshakeModel) -> bool {
    &&& h.protocol.len() <= 255
    &&& h.extentions.len() == 8
    &&& h.info_hash.len() == 20
    &&& h.peer_id.len() == 20
}

/// The byte encoding of a handshake.
pub open spec fn spec_encode_handshake(h: HandshakeModel) -> Seq<u8> {
    seq![h.protocol.len() as u8] + h.protocol + h.extentions + h.info_hash + h.peer_id
}

/// One message of the peer protocol.
#[derive(Clone, Debug, PartialEq)]
pub enum PeerMessage {
    KeepAlive,
    Choke,
    Unchoke,
    Interested,
    NotInterested,
    Have(u32),
    Bitfield(Vec<u8>),
    Request { block: u32, offset: u32, length: u32 },
    Piece { block: u32, offset: u32, data: Vec<u8> },
    Cancel { block: u32, offset: u32, length: u32 },
    Port(u16),
}

/// Mathematical image of a `PeerMessage`.
pub enum MessageModel {
    KeepAlive,
    Choke,
    Unchoke,
    Interested,
    NotInterested,
    Have(u32),
    Bitfield(Seq<u8>),
    Request { block: u32, offset: u32, length: u32 },
    Piece { block: u32, offset: u32, data: Seq<u8> },
    Cancel { block: u32, offset: u32, length: u32 },
    Port(u16),
}

impl View for PeerMessage {
    type V = MessageModel;

    open spec fn view(&self) -> MessageModel {
        match self {
            PeerMessage::KeepAlive => MessageModel::KeepAlive,
            PeerMessage::Choke => MessageModel::Choke,
            PeerMessage::Unchoke => MessageModel::Unchoke,
            PeerMessage::Interested => MessageModel::Interested,
            PeerMessage::NotInterested => MessageModel::NotInterested,
            PeerMessage::Have(index) => MessageModel::Have(*index),
            PeerMessage::Bitfield(bits) => MessageModel::Bitfield(bits@),
            PeerMessage::Request { block, offset, length } => MessageModel::Request {
                block: *block,
                offset: *offset,
                length: *length,
            },
            PeerMessage::Piece { block, offset, data } => MessageModel::Piece {
                block: *block,
                offset: *offset,
                data: data@,
            },
            PeerMessage::Cancel { block, offset, length } => MessageModel::Cancel {
                block: *block,
                offset: *offset,
                length: *length,
            },
            PeerMessage::Port(port) => MessageModel::Port(*port),
        }
    }
}

/// Big-endian bytes of a 32-bit integer.
pub open spec fn spec_be32(x: u32) -> Seq<u8> {
    seq![(x >> 24u32) as u8, (x >> 16u32) as u8, (x >> 8u32) as u8, x as u8]
}

/// Big-endian bytes of a 16-bit integer.
pub open spec fn spec_be16(x: u16) -> Seq<u8> {
    seq![(x >> 8u16) as u8, x as u8]
}

/// Tag byte and payload of a message: everything after the length field.
/// `KeepAlive` contributes nothing.
pub open spec fn spec_message_body(m: MessageModel) -> Seq<u8> {
    match m {
        MessageModel::KeepAlive => Seq::empty(),
        MessageModel::Choke => seq![0x30u8],
        MessageModel::Unchoke => seq![0x31u8],
        MessageModel::Interested => seq![0x32u8],
        MessageModel::NotInterested => seq![0x33u8],
        MessageModel::Have(index) => seq![0x34u8] + spec_be32(index),
        MessageModel::Bitfield(bits) => seq![0x35u8] + bits,
        MessageModel::Request { block, offset, length } => seq![0x36u8] + spec_be32(block)
            + spec_be32(offset) + spec_be32(length),
        MessageModel::Piece { block, offset, data } => seq![0x37u8] + spec_be32(block) + spec_be32(
            offset,
        ) + data,
        MessageModel::Cancel { block, offset, length } => seq![0x38u8] + spec_be32(block) + spec_be32(
            offset,
        ) + spec_be32(length),
        MessageModel::Port(port) => seq![0x39u8] + spec_be16(port),
    }
}

/// Well-formed message: its body fits the 4-byte length field.
pub open spec fn wf_message(m: MessageModel) -> bool {
    spec_message_body(m).len() <= u32::MAX
}

/// The full frame of a message: length field, then tag and payload.
pub open spec fn spec_encode_message(m: MessageModel) -> Seq<u8> {
    spec_be32(spec_message_body(m).len() as u32) + spec_message_body(m)
}

/// Appends the bytes of `data` to `out`.
pub fn push_all(out: &mut Vec<u8>, data: &[u8])
    ensures
        final(out)@ == old(out)@ + data@,
{
    let mut i: usize = 0;
    proof {
        assert(out@ =~= old(out)@ + data@.take(0));
    }
    while i < data.len()
        invariant
            i <= data.len(),
            out@ == old(out)@ + data@.take(i as int),
        decreases data.len() - i,
    {
        out.push(data[i]);
        proof {
            assert(old(out)@ + data@.take(i + 1) =~= (old(out)@ + data@.take(i as int)).push(
                data@[i as int],
            ));
        }
        i = i + 1;
    }
    proof {
        assert(out@ =~= old(out)@ + data@);
    }
}

/// Appends the big-endian bytes of `x` to `out`.
pub fn push_be_u32(out: &mut Vec<u8>, x: u32)
    ensures
        final(out)@ == old(out)@ + spec_be32(x),
{
    out.push((x >> 24u32) as u8);
    out.push((x >> 16u32) as u8);
    out.push((x >> 8u32) as u8);
    out.push(x as u8);
    proof {
        assert(out@ =~= old(out)@ + spec_be32(x));
    }
}

/// Appends the big-endian bytes of `x` to `out`.
pub fn push_be_u16(out: &mut Vec<u8>, x: u16)
    ensures
        final(out)@ == old(out)@ + spec_be16(x),
{
    out.push((x >> 8u16) as u8);
    out.push(x as u8);
    proof {
        assert(out@ =~= old(out)@ + spec_be16(x));
    }
}

/// Whether two byte strings hold the same bytes.
pub fn bytes_eq(a: &[u8], b: &[u8]) -> (r: bool)
    ensures
        r == (a@ == b@),
{
    if a.len() != b.len() {
        return false;
    }
    let mut i: usize = 0;
    while i < a.len()
        invariant
            i <= a.len(),
            a.len() == b.len(),
            forall|k: int| 0 <= k < i ==> a@[k] == b@[k],
        decreases a.len() - i,
    {
        if a[i] != b[i] {
            return false;
        }
        i = i + 1;
    }
    proof {
        assert(a@ =~= b@);
    }
    true
}

impl Handshake {
    /// Two handshakes are compatible exactly when their info hashes are
    /// byte-identical; the other fields play no part.
    pub fn validate(&self, another: &Handshake) -> (r: bool)
        ensures
            r == (self@.info_hash == another@.info_hash),
    {
        bytes_eq(self.info_hash.as_slice(), another.info_hash.as_slice())
    }

    /// The byte frame of this handshake.
    pub fn to_bytes(&self) -> (r: Vec<u8>)
        requires
            wf_handshake(self@),
        ensures
            r@ == spec_encode_handshake(self@),
    {
        let mut ret: Vec<u8> = Vec::new();
        ret.push(self.protocol.len() as u8);
        push_all(&mut ret, self.protocol.as_slice());
        push_all(&mut ret, self.extentions.as_slice());
        push_all(&mut ret, self.info_hash.as_slice());
        push_all(&mut ret, self.peer_id.as_slice());
        proof {
            assert(ret@ =~= spec_encode_handshake(self@));
        }
        ret
    }
}

/// The frame of a message that is a bare tag: length 1, no payload.
pub fn make_empty_message(message_id: u8) -> (r: Vec<u8>)
    ensures
        r@ == spec_be32(1) + seq![message_id],
{
    let mut ret: Vec<u8> = Vec::new();
    push_be_u32(&mut ret, 1);
    ret.push(message_id);
    proof {
        assert(ret@ =~= spec_be32(1) + seq![message_id]);
    }
    ret
}

impl PeerMessage {
    /// The byte frame of this message.
    pub fn to_bytes(&self) -> (r: Vec<u8>)
        requires
            wf_message(self@),
        ensures
            r@ == spec_encode_message(self@),
    {
        match self {
            PeerMessage::KeepAlive => {
                let mut ret: Vec<u8> = Vec::new();
                push_be_u32(&mut ret, 0);
                proof {
                    assert(ret@ =~= spec_encode_message(self@));
                }
                ret
            },
            PeerMessage::Choke => {
                let ret = make_empty_message(0x30u8);
                proof {
                    assert(ret@ =~= spec_encode_message(self@));
                }
                ret
            },
            PeerMessage::Unchoke => {
                let ret = make_empty_message(0x31u8);
                proof {
                    assert(ret@ =~= spec_encode_message(self@));
                }
                ret
            },
            PeerMessage::Interested => {
                let ret = make_empty_message(0x32u8);
                proof {
                    assert(ret@ =~= spec_encode_message(self@));
                }
                ret
            },
            PeerMessage::NotInterested => {
                let ret = make_empty_message(0x33u8);
                proof {
                    assert(ret@ =~= spec_encode_message(self@));
                }
                ret
            },
            PeerMessage::Have(index) => {
                let mut ret: Vec<u8> = Vec::new();
                push_be_u32(&mut ret, 5);
                ret.push(0x34u8);
                push_be_u32(&mut ret, *index);
                proof {
                    assert(ret@ =~= spec_encode_message(self@));
                }
                ret
            },
            PeerMessage::Bitfield(bits) => {
                let size: usize = 1 + bits.len();
                let mut ret: Vec<u8> = Vec::new();
                push_be_u32(&mut ret, size as u32);
                ret.push(0x35u8);
                push_all(&mut ret, bits.as_slice());
                proof {
                    assert(ret@ =~= spec_encode_message(self@));
                }
                ret
            },
            PeerMessage::Request { block, offset, length } => {
                let mut ret: Vec<u8> = Vec::new();
                push_be_u32(&mut ret, 13);
                ret.push(0x36u8);
                push_be_u32(&mut ret, *block);
                push_be_u32(&mut ret, *offset);
                push_be_u32(&mut ret, *length);
                proof {
                    assert(ret@ =~= spec_encode_message(self@));
                }
                ret
            },
            PeerMessage::Piece { block, offset, data } => {
                let size: usize = 9 + data.len();
                let mut ret: Vec<u8> = Vec::new();
                push_be_u32(&mut ret, size as u32);
                ret.push(0x37u8);
                push_be_u32(&mut ret, *block);
                push_be_u32(&mut ret, *offset);
                push_all(&mut ret, data.as_slice());
                proof {
                    assert(ret@ =~= spec_encode_message(self@));
                }
                ret
            },
            PeerMessage::Cancel { block, offset, length } => {
                let mut ret: Vec<u8> = Vec::new();
                push_be_u32(&mut ret, 13);
                ret.push(0x38u8);
                push_be_u32(&mut ret, *block);
                push_be_u32(&mut ret, *offset);
                push_be_u32(&mut ret, *length);
                proof {
                    assert(ret@ =~= spec_encode_message(self@));
                }
                ret
            },
            PeerMessage::Port(port) => {
                let mut ret: Vec<u8> = Vec::new();
                push_be_u32(&mut ret, 3);
                ret.push(0x39u8);
                push_be_u16(&mut ret, *port);
                proof {
                    assert(ret@ =~= spec_encode_message(self@));
                }
                ret
            },
        }
    }
}

} // verus!
