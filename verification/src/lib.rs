//! A user-space TCP endpoint: a connection demultiplexer and the subset of the
//! RFC 793 state machine needed to accept inbound connections over raw IPv4
//! frames, complete the three-way handshake, acknowledge segments, initiate a
//! graceful close, and reject stray traffic.
//!
//! The crate is a pure core: it consumes parsed frames as byte slices and
//! returns the frames to transmit; the virtual network device itself is owned
//! by the surrounding program.

pub mod conn;
pub mod dispatch;
pub mod headers;
pub mod seqnum;
pub mod wire;
