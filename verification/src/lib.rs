//! Protocol negotiation for the start of a duplex byte connection.
//!
//! Both ends of a connection first exchange a fixed version header, then the
//! initiator proposes an application sub-protocol and the acceptor replies,
//! after which the raw connection is handed to the agreed sub-protocol.
//!
//! This crate holds the negotiation core: the wire-level message model, the
//! acceptor ("listener") and initiator ("dialer") state machines, and the
//! error taxonomy. The framed transport that carries the messages is a
//! collaborator: the state machines here consume and produce whole frames,
//! and a driving loop outside this crate moves those frames over the wire.

pub mod dialer;
pub mod errors;
pub mod listener;
pub mod message;
