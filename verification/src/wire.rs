//! The boundary to the wire format: parsing inbound headers and serializing
//! outbound segments, both done by the `etherparse` crate behind trusted
//! wrappers. Parsing and serialization are functions of the bytes and fields
//! alone, so their results are given names (`ipv4_parse`, `tcp_parse`,
//! `frame_bytes`) that the contracts of the verified code speak of.

use vstd::prelude::*;
use crate::headers::{Ipv4Fields, TcpFields, IpProto, TcpProto};

verus! {

/// What parsing an IPv4 header out of `b` yields: `None` on malformed
/// input, otherwise the extracted fields. A function of the bytes alone.
pub uninterp spec fn ipv4_parse(b: Seq<u8>) -> Option<Ipv4Fields>;

/// What parsing a TCP header out of `b` yields: `None` on malformed input,
/// otherwise the extracted fields. A function of the bytes alone.
pub uninterp spec fn tcp_parse(b: Seq<u8>) -> Option<TcpFields>;

/// The serialized IPv4 frame for the given headers and payload: 20-byte
/// IPv4 header, 20-byte TCP header with its checksum filled in, then the
/// payload. A function of the arguments alone.
pub uninterp spec fn frame_bytes(ip: IpProto, tcp: TcpProto, payload: Seq<u8>) -> Seq<u8>;

/// Relies on `etherparse::Ipv4HeaderSlice::from_slice`: the outcome is a
/// function of the input bytes alone; on success the header occupies a
/// prefix of the input of at least 20 bytes, so the reported header length
/// never exceeds the input length.
#[verifier::external_body]
pub(crate) fn parse_ipv4(buf: &[u8]) -> (r: Option<Ipv4Fields>)
    ensures
        r == ipv4_parse(buf@),
        r matches Some(h) ==> 20 <= h.header_len <= buf@.len(),
{
    match etherparse::Ipv4HeaderSlice::from_slice(buf) {
        Ok(h) => Some(Ipv4Fields {
            src: u32::from_be_bytes(h.source()),
            dst: u32::from_be_bytes(h.destination()),
            protocol: h.protocol().0,
            header_len: h.slice().len(),
        }),
        Err(_) => None,
    }
}

/// Relies on `etherparse::TcpHeaderSlice::from_slice`: the outcome is a
/// function of the input bytes alone; on success the header occupies a
/// prefix of the input of at least 20 bytes, so the reported header length
/// never exceeds the input length.
#[verifier::external_body]
pub(crate) fn parse_tcp(buf: &[u8]) -> (r: Option<TcpFields>)
    ensures
        r == tcp_parse(buf@),
        r matches Some(h) ==> 20 <= h.header_len <= buf@.len(),
{
    match etherparse::TcpHeaderSlice::from_slice(buf) {
        Ok(h) => Some(TcpFields {
            src_port: h.source_port(),
            dst_port: h.destination_port(),
            seq: h.sequence_number(),
            ackn: h.acknowledgment_number(),
            wnd: h.window_size(),
            syn: h.syn(),
            ack: h.ack(),
            fin: h.fin(),
            rst: h.rst(),
            header_len: h.slice().len(),
        }),
        Err(_) => None,
    }
}

/// Relies on `etherparse::Ipv4Header::new`/`write` and
/// `etherparse::TcpHeader::new`/`calc_checksum_ipv4`/`write`: serialization
/// is a function of the header fields and the payload alone; the output is
/// the 20-byte IPv4 header (total length `ip_payload_len + 20`), then the
/// 20-byte TCP header with its checksum computed over the IPv4
/// pseudo-header, the TCP header and the payload, then the payload itself.
/// Within these bounds none of those calls fails.
#[verifier::external_body]
pub(crate) fn build_frame(ip: &IpProto, tcp: &TcpProto, ip_payload_len: u16, payload: &[u8]) -> (r: Vec<u8>)
    requires
        payload@.len() <= 1460,
        ip_payload_len == 20 + payload@.len(),
    ensures
        r@ == frame_bytes(*ip, *tcp, payload@),
        r@.len() == 40 + payload@.len(),
{
    let iph = etherparse::Ipv4Header::new(
        ip_payload_len, ip.ttl, etherparse::IpNumber(ip.protocol),
        ip.src.to_be_bytes(), ip.dst.to_be_bytes(),
    ).unwrap();
    let mut tcph = etherparse::TcpHeader::new(tcp.src_port, tcp.dst_port, tcp.seq, tcp.wnd);
    tcph.acknowledgment_number = tcp.ackn;
    (tcph.syn, tcph.ack, tcph.fin, tcph.rst) = (tcp.syn, tcp.ack, tcp.fin, tcp.rst);
    tcph.checksum = tcph.calc_checksum_ipv4(&iph, payload).unwrap();
    let mut out: Vec<u8> = Vec::with_capacity(1500);
    iph.write(&mut out).unwrap();
    tcph.write(&mut out).unwrap();
    out.extend_from_slice(payload);
    out
}

} // verus!
