//! Engine of a peer-to-peer file-distribution protocol: wire-level message
//! framing, peer handshake validation, piece-availability tracking, tracker
//! communication, and the session bookkeeping that coordinates peer
//! connections toward downloading a shared file set.
//!
//! The crate holds the protocol logic only; transports (TCP streams, HTTP
//! requests to the tracker) are driven by the caller, which feeds received
//! bytes in and carries produced bytes out.

pub mod bencode;
pub mod bitfield;
pub mod message;
pub mod parser;
pub mod peer;
pub mod response;
pub mod session;
pub mod tracker;
