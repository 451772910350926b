//! Plain-value models of the IPv4 and TCP headers.
//!
//! Inbound headers are delivered as `Ipv4Fields` / `TcpFields`, the fields
//! the state machine reads, extracted from the wire format. Outbound headers
//! are built from the prototype `IpProto` / `TcpProto` cached in each
//! connection; their mutable fields (sequence, acknowledgment, flags) are
//! rewritten on every transmission.

use vstd::prelude::*;

verus! {

/// The fields of a parsed IPv4 header that the dispatcher consumes.
/// Addresses are big-endian `u32` values; `header_len` is the length in
/// bytes of the header including options.
#[derive(Clone, Copy, Debug, PartialEq, Eq, Structural)]
pub struct Ipv4Fields {
    pub src: u32,
    pub dst: u32,
    pub protocol: u8,
    pub header_len: usize,
}

/// The fields of a parsed TCP header that the state machine consumes.
#[derive(Clone, Copy, Debug, PartialEq, Eq, Structural)]
pub struct TcpFields {
    pub src_port: u16,
    pub dst_port: u16,
    pub seq: u32,
    pub ackn: u32,
    pub wnd: u16,
    pub syn: bool,
    pub ack: bool,
    pub fin: bool,
    pub rst: bool,
    pub header_len: usize,
}

/// Prototype IPv4 header for outbound segments: static fields only, set at
/// connection construction (TTL 64, protocol 6, addresses swapped from the
/// incoming SYN).
#[derive(Clone, Copy, Debug, PartialEq, Eq, Structural)]
pub struct IpProto {
    pub src: u32,
    pub dst: u32,
    pub ttl: u8,
    pub protocol: u8,
}

/// Prototype TCP header for outbound segments. `seq` and `ackn` are
/// rewritten from the send/receive spaces on every transmission; a SYN or
/// FIN flag is consumed (cleared) once its sequence cost has been counted.
#[derive(Clone, Copy, Debug, PartialEq, Eq, Structural)]
pub struct TcpProto {
    pub src_port: u16,
    pub dst_port: u16,
    pub seq: u32,
    pub ackn: u32,
    pub wnd: u16,
    pub syn: bool,
    pub ack: bool,
    pub fin: bool,
    pub rst: bool,
}

/// One outbound segment: the header models as they were serialized, and the
/// serialized IPv4 frame ready for the wire.
#[derive(Debug)]
pub struct Segment {
    pub ip: IpProto,
    pub tcp: TcpProto,
    pub frame: Vec<u8>,
}

} // verus!
