//! One peer connection: the handshake sequence and the message-exchange
//! protocol, as a state machine over plain values.
//!
//! The caller owns the transport and drives the machine: it reports the
//! handshake it sent, the handshake it received, and every decoded message.
//! The machine validates, keeps the choke and interest axes and the peer's
//! known bitfield, and classifies each message for the session.

use vstd::prelude::*;

use crate::bitfield::{bit_at, mask_of};
use crate::message::{Handshake, MessageModel, PeerMessage};

verus! {

/// Failure of a peer connection: a transport fault, a protocol fault, or a
/// handshake whose info hash disagrees.
#[derive(Debug, Clone, Copy, PartialEq, Eq, Structural)]
pub enum PeerError {
    IoError,
    Simple,
    Handshake,
}

/// The choke axis: whether the remote side will serve requests.
#[derive(Debug, Clone, Copy, PartialEq, Eq, Structural)]
pub enum ChokeState {
    Choked,
    Unchoked,
}

/// The interest axis: whether the remote side wants pieces of ours.
#[derive(Debug, Clone, Copy, PartialEq, Eq, Structural)]
pub enum InterestState {
    Interested,
    NotInterested,
}

/// The two independent axes of a peer's state.
#[derive(Debug, Clone, Copy, PartialEq, Eq, Structural)]
pub struct PeerState {
    pub choke: ChokeState,
    pub interest: InterestState,
}

/// Where a connection stands in its life cycle.
#[derive(Debug, Clone, Copy, PartialEq, Eq, Structural)]
pub enum ConnectionPhase {
    Connecting,
    AwaitingHandshake,
    Handshaked,
    Ready,
    Closed,
}

/// What a message means to the session: a state update kept here, a data
/// event (`Have`, `Bitfield`, `Piece`), a request event (`Request`,
/// `Cancel`), or nothing.
#[derive(Debug, Clone, Copy, PartialEq, Eq, Structural)]
pub enum PeerEvent {
    Quiet,
    StateChange,
    Data,
    Request,
}

/// The classification of a message.
pub open spec fn spec_event_of(m: MessageModel) -> PeerEvent {
    match m {
        MessageModel::KeepAlive => PeerEvent::Quiet,
        MessageModel::Choke => PeerEvent::StateChange,
        MessageModel::Unchoke => PeerEvent::StateChange,
        MessageModel::Interested => PeerEvent::StateChange,
        MessageModel::NotInterested => PeerEvent::StateChange,
        MessageModel::Have(_) => PeerEvent::Data,
        MessageModel::Bitfield(_) => PeerEvent::Data,
        MessageModel::Piece { .. } => PeerEvent::Data,
        MessageModel::Request { .. } => PeerEvent::Request,
        MessageModel::Cancel { .. } => PeerEvent::Request,
        MessageModel::Port(_) => PeerEvent::Quiet,
    }
}

/// One peer connection's protocol state.
#[derive(Debug)]
pub struct Peer {
    pub bitfield: Vec<u8>,
    pub state: PeerState,
    pub phase: ConnectionPhase,
}

impl Peer {
    /// A fresh connection: transport opening, nothing known of the peer,
    /// the peer assumed choked until it says otherwise.
    pub fn new() -> (r: Peer)
        ensures
            r.phase == ConnectionPhase::Connecting,
            r.bitfield@.len() == 0,
            r.state.choke == ChokeState::Choked,
            r.state.interest == InterestState::NotInterested,
    {
        Peer {
            bitfield: Vec::new(),
            state: PeerState { choke: ChokeState::Choked, interest: InterestState::NotInterested },
            phase: ConnectionPhase::Connecting,
        }
    }

    /// The local handshake went out on the transport.
    pub fn handshake_sent(&mut self)
        requires
            old(self).phase == ConnectionPhase::Connecting,
        ensures
            final(self).phase == ConnectionPhase::AwaitingHandshake,
            final(self).bitfield == old(self).bitfield,
            final(self).state == old(self).state,
    {
        self.phase = ConnectionPhase::AwaitingHandshake;
    }

    /// The remote handshake arrived: accepted exactly when its info hash
    /// matches the local one; a mismatch closes the connection.
    pub fn on_handshake(&mut self, local: &Handshake, remote: &Handshake) -> (r: Result<
        (),
        PeerError,
    >)
        requires
            old(self).phase == ConnectionPhase::AwaitingHandshake,
        ensures
            r is Ok <==> local@.info_hash == remote@.info_hash,
            r is Ok ==> final(self).phase == ConnectionPhase::Handshaked,
            r is Err ==> final(self).phase == ConnectionPhase::Closed && r == Err::<
                (),
                PeerError,
            >(PeerError::Handshake),
            final(self).bitfield == old(self).bitfield,
            final(self).state == old(self).state,
    {
        if local.validate(remote) {
            self.phase = ConnectionPhase::Handshaked;
            Ok(())
        } else {
            self.phase = ConnectionPhase::Closed;
            Err(PeerError::Handshake)
        }
    }

    /// The local `Interested` declaration went out: the connection is ready
    /// to exchange messages (the choke axis still waits on the peer).
    pub fn interested_sent(&mut self)
        requires
            old(self).phase == ConnectionPhase::Handshaked,
        ensures
            final(self).phase == ConnectionPhase::Ready,
            final(self).bitfield == old(self).bitfield,
            final(self).state == old(self).state,
    {
        self.phase = ConnectionPhase::Ready;
    }

    /// The transport failed or a frame could not be decoded: the connection
    /// closes; it is never retried here.
    pub fn connection_lost(&mut self)
        ensures
            final(self).phase == ConnectionPhase::Closed,
            final(self).bitfield == old(self).bitfield,
            final(self).state == old(self).state,
    {
        self.phase = ConnectionPhase::Closed;
    }

    /// Whether the peer is known to hold `piece`.
    pub fn have(&self, piece: u32) -> (r: bool)
        ensures
            r == bit_at(self.bitfield@, piece as nat),
    {
        crate::bitfield::Bitfield::have_bit(&self.bitfield, piece)
    }

    /// One incoming message: updates the axes on a choke or interest
    /// signal, the known bitfield on `Have` and `Bitfield`, and classifies
    /// the message for the session.  A `Have` past the bitfield's end
    /// changes nothing.
    pub fn on_message(&mut self, msg: &PeerMessage) -> (r: PeerEvent)
        requires
            old(self).phase == ConnectionPhase::Ready,
        ensures
            r == spec_event_of(msg@),
            final(self).phase == ConnectionPhase::Ready,
            (match msg@ {
                MessageModel::Choke => final(self).state == (PeerState {
                    choke: ChokeState::Choked,
                    interest: old(self).state.interest,
                }),
                MessageModel::Unchoke => final(self).state == (PeerState {
                    choke: ChokeState::Unchoked,
                    interest: old(self).state.interest,
                }),
                MessageModel::Interested => final(self).state == (PeerState {
                    choke: old(self).state.choke,
                    interest: InterestState::Interested,
                }),
                MessageModel::NotInterested => final(self).state == (PeerState {
                    choke: old(self).state.choke,
                    interest: InterestState::NotInterested,
                }),
                _ => final(self).state == old(self).state,
            }),
            (match msg@ {
                MessageModel::Have(index) => {
                    &&& final(self).bitfield@.len() == old(self).bitfield@.len()
                    &&& index / 8 < old(self).bitfield@.len() ==> final(self).bitfield@ == old(
                        self,
                    ).bitfield@.update(
                        index as int / 8,
                        old(self).bitfield@[index as int / 8] | mask_of(index),
                    )
                    &&& index / 8 >= old(self).bitfield@.len() ==> final(self).bitfield@ == old(
                        self,
                    ).bitfield@
                    &&& forall|j: nat|
                        #[trigger] bit_at(final(self).bitfield@, j) == ((j == index && index / 8
                            < old(self).bitfield@.len()) || bit_at(old(self).bitfield@, j))
                },
                MessageModel::Bitfield(bits) => final(self).bitfield@ == bits,
                _ => final(self).bitfield@ == old(self).bitfield@,
            }),
    {
        match msg {
            PeerMessage::KeepAlive => PeerEvent::Quiet,
            PeerMessage::Choke => {
                self.state = PeerState { choke: ChokeState::Choked, interest: self.state.interest };
                PeerEvent::StateChange
            },
            PeerMessage::Unchoke => {
                self.state = PeerState {
                    choke: ChokeState::Unchoked,
                    interest: self.state.interest,
                };
                PeerEvent::StateChange
            },
            PeerMessage::Interested => {
                self.state = PeerState {
                    choke: self.state.choke,
                    interest: InterestState::Interested,
                };
                PeerEvent::StateChange
            },
            PeerMessage::NotInterested => {
                self.state = PeerState {
                    choke: self.state.choke,
                    interest: InterestState::NotInterested,
                };
                PeerEvent::StateChange
            },
            PeerMessage::Have(index) => {
                let _ = crate::bitfield::Bitfield::add_bit(&mut self.bitfield, *index);
                PeerEvent::Data
            },
            PeerMessage::Bitfield(bits) => {
                self.bitfield = crate::parser::copy_range(bits.as_slice(), 0, bits.len());
                proof {
                    assert(self.bitfield@ =~= bits@);
                }
                PeerEvent::Data
            },
            PeerMessage::Piece { .. } => PeerEvent::Data,
            PeerMessage::Request { .. } => PeerEvent::Request,
            PeerMessage::Cancel { .. } => PeerEvent::Request,
            PeerMessage::Port(_) => PeerEvent::Quiet,
        }
    }
}

} // verus!
