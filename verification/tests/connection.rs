use tcp_endpoint::conn::{Connection, ProtoError, State};
use tcp_endpoint::headers::{Ipv4Fields, TcpFields};

fn peer_ip() -> Ipv4Fields {
    Ipv4Fields {
        src: u32::from_be_bytes([10, 0, 0, 2]),
        dst: u32::from_be_bytes([10, 0, 0, 1]),
        protocol: 6,
        header_len: 20,
    }
}

fn seg(seq: u32, ackn: u32, wnd: u16, syn: bool, ack: bool, fin: bool) -> TcpFields {
    TcpFields {
        src_port: 4000,
        dst_port: 80,
        seq,
        ackn,
        wnd,
        syn,
        ack,
        fin,
        rst: false,
        header_len: 20,
    }
}

#[test]
fn synchronized_states() {
    assert!(!State::SynRcvd.is_synchonized());
    assert!(State::Estab.is_synchonized());
    assert!(State::FinWait1.is_synchonized());
    assert!(State::FinWait2.is_synchonized());
    assert!(State::CloseWait.is_synchonized());
    assert!(State::TimeWait.is_synchonized());
}

#[test]
fn accept_requires_syn() {
    // a first segment without SYN is silently dropped
    let ip = peer_ip();
    let ack_only = seg(1000, 0, 5840, false, true, false);
    assert!(Connection::accept(&ip, &ack_only).is_none());
}

#[test]
fn accept_builds_syn_ack() {
    let ip = peer_ip();
    let syn = seg(1000, 0, 5840, true, false, false);
    let (c, reply) = Connection::accept(&ip, &syn).expect("SYN must create a connection");
    assert_eq!(c.state, State::SynRcvd);
    assert!(reply.tcp.syn);
    assert!(reply.tcp.ack);
    assert_eq!(reply.tcp.seq, 0);
    assert_eq!(reply.tcp.ackn, 1001);
    assert_eq!(reply.tcp.wnd, 1024);
    assert_eq!(reply.tcp.src_port, 80);
    assert_eq!(reply.tcp.dst_port, 4000);
    // the SYN's sequence cost is counted once, and the flag consumed
    assert_eq!(c.send.nxt, 1);
    assert!(!c.tcp.syn);
    assert_eq!(c.recv.irs, 1000);
    assert_eq!(c.recv.nxt, 1001);
    assert_eq!(c.recv.wnd, 5840);
}

#[test]
fn handshake_then_immediate_fin() {
    // Peer: SYN {seq=1000, win=5840}. Reply: SYN+ACK {seq=0, ack=1001, win=1024}.
    let ip = peer_ip();
    let syn = seg(1000, 0, 5840, true, false, false);
    let (mut c, reply) = Connection::accept(&ip, &syn).unwrap();
    assert_eq!((reply.tcp.seq, reply.tcp.ackn, reply.tcp.wnd), (0, 1001, 1024));
    // Peer: ACK {seq=1001, ack=1}. The endpoint establishes, then closes at once.
    let ack = seg(1001, 1, 5840, false, true, false);
    let out = c.on_packet(&ack, &[]).unwrap();
    assert_eq!(c.state, State::FinWait1);
    assert_eq!(out.len(), 1);
    assert!(out[0].tcp.fin);
    assert_eq!(out[0].tcp.seq, 1);
    // the segment length of the peer's ACK counts its ACK flag, so the
    // acknowledgment runs one past the peer's sequence number
    assert_eq!(out[0].tcp.ackn, 1002);
    assert_eq!(c.send.una, 1);
    assert_eq!(c.send.nxt, 2);
    assert!(!c.tcp.fin);
}

fn connection_in_fin_wait1() -> Connection {
    let ip = peer_ip();
    let syn = seg(1000, 0, 5840, true, false, false);
    let (mut c, _) = Connection::accept(&ip, &syn).unwrap();
    let ack = seg(1001, 1, 5840, false, true, false);
    c.on_packet(&ack, &[]).unwrap();
    assert_eq!(c.state, State::FinWait1);
    c
}

#[test]
fn close_via_separate_ack_then_fin_ack() {
    let mut c = connection_in_fin_wait1();
    // Peer acknowledges our FIN: ACK {seq=1002, ack=2}. State becomes FinWait2.
    let ack2 = seg(1002, 2, 5840, false, true, false);
    let out = c.on_packet(&ack2, &[]).unwrap();
    assert_eq!(c.state, State::FinWait2);
    assert!(out.is_empty());
    // A FIN whose acknowledgment is not newer than send.una is ignored in
    // this revision: the acknowledgment check runs before FIN processing.
    let stale_fin = seg(1003, 2, 5840, false, true, true);
    let out = c.on_packet(&stale_fin, &[]).unwrap();
    assert_eq!(c.state, State::FinWait2);
    assert!(out.is_empty());
}

#[test]
fn close_via_combined_fin_ack() {
    let mut c = connection_in_fin_wait1();
    // Peer: FIN+ACK {seq=1002, ack=2}. The endpoint acknowledges and enters TimeWait.
    let fin_ack = seg(1002, 2, 5840, false, true, true);
    let out = c.on_packet(&fin_ack, &[]).unwrap();
    assert_eq!(c.state, State::TimeWait);
    assert_eq!(out.len(), 1);
    assert!(!out[0].tcp.fin);
    assert!(!out[0].tcp.syn);
    assert_eq!(out[0].tcp.seq, 2);
    // seq 1002 plus payload 0, FIN and ACK each counting one
    assert_eq!(out[0].tcp.ackn, 1004);
}

#[test]
fn out_of_window_segment_gets_empty_ack() {
    let mut c = connection_in_fin_wait1();
    let send_nxt = c.send.nxt;
    let recv_nxt = c.recv.nxt;
    // far outside [recv.nxt, recv.nxt + wnd)
    let stray = seg(9999, 2, 5840, false, true, false);
    let out = c.on_packet(&stray, &[]).unwrap();
    assert_eq!(out.len(), 1);
    assert_eq!(out[0].tcp.seq, send_nxt);
    assert_eq!(out[0].tcp.ackn, recv_nxt);
    assert!(!out[0].tcp.syn && !out[0].tcp.fin && !out[0].tcp.rst);
    // connection unaffected
    assert_eq!(c.state, State::FinWait1);
    assert_eq!(c.send.nxt, send_nxt);
    assert_eq!(c.recv.nxt, recv_nxt);
}

#[test]
fn two_out_of_window_segments_get_identical_acks() {
    let mut c = connection_in_fin_wait1();
    let stray = seg(9999, 2, 5840, false, true, false);
    let first = c.on_packet(&stray, &[]).unwrap();
    let second = c.on_packet(&stray, &[]).unwrap();
    assert_eq!(first.len(), 1);
    assert_eq!(second.len(), 1);
    assert_eq!(first[0].tcp, second[0].tcp);
    assert_eq!(first[0].ip, second[0].ip);
    assert_eq!(first[0].frame, second[0].frame);
}

#[test]
fn wraparound_syn_and_ack() {
    // Peer SYN at the top of the sequence space: the acknowledgment wraps to 0.
    let ip = peer_ip();
    let syn = seg(u32::MAX, 0, 5840, true, false, false);
    let (mut c, reply) = Connection::accept(&ip, &syn).unwrap();
    assert_eq!(reply.tcp.ackn, 0);
    assert_eq!(c.recv.irs, u32::MAX);
    assert_eq!(c.recv.nxt, 0);
    // Subsequent peer ACK with seq = 0 is accepted.
    let ack = seg(0, 1, 5840, false, true, false);
    let out = c.on_packet(&ack, &[]).unwrap();
    assert_eq!(c.state, State::FinWait1);
    assert_eq!(out.len(), 1);
    assert_eq!(c.recv.nxt, 1);
}

#[test]
fn data_in_synchronized_state_is_fatal() {
    let ip = peer_ip();
    let syn = seg(1000, 0, 5840, true, false, false);
    let (mut c, _) = Connection::accept(&ip, &syn).unwrap();
    let ack_with_data = seg(1001, 1, 5840, false, true, false);
    let res = c.on_packet(&ack_with_data, &[1, 2, 3]);
    assert_eq!(res.unwrap_err(), ProtoError::UnhandledData);
}

#[test]
fn fin_outside_fin_wait2_is_fatal() {
    let ip = peer_ip();
    let syn = seg(1000, 0, 5840, true, false, false);
    let (mut c, _) = Connection::accept(&ip, &syn).unwrap();
    // acceptable segment whose acknowledgment fits nothing we sent: the
    // connection stays in SynRcvd, and its FIN is unhandled there
    let bad_fin = seg(1001, 555, 5840, false, true, true);
    let res = c.on_packet(&bad_fin, &[]);
    assert_eq!(res.unwrap_err(), ProtoError::UnhandledFin);
}

fn wrapped_le(a: u32, b: u32) -> bool {
    b.wrapping_sub(a) < 0x8000_0000
}

#[test]
fn send_space_stays_ordered() {
    // send.una <= send.nxt under wrapped ordering, at every step of a session
    let ip = peer_ip();
    let syn = seg(1000, 0, 5840, true, false, false);
    let (mut c, _) = Connection::accept(&ip, &syn).unwrap();
    assert!(wrapped_le(c.send.una, c.send.nxt));
    let ack = seg(1001, 1, 5840, false, true, false);
    c.on_packet(&ack, &[]).unwrap();
    assert!(wrapped_le(c.send.una, c.send.nxt));
    let fin_ack = seg(1002, 2, 5840, false, true, true);
    c.on_packet(&fin_ack, &[]).unwrap();
    assert!(wrapped_le(c.send.una, c.send.nxt));
}

#[test]
fn recv_nxt_never_retreats() {
    // recv.nxt is monotonic non-decreasing under wrapped ordering
    let ip = peer_ip();
    let syn = seg(1000, 0, 5840, true, false, false);
    let (mut c, _) = Connection::accept(&ip, &syn).unwrap();
    let mut last = c.recv.nxt;
    let probes = [
        seg(1001, 1, 5840, false, true, false),
        seg(9999, 2, 5840, false, true, false), // out of window: no advance
        seg(1002, 2, 5840, false, true, true),
    ];
    for p in probes.iter() {
        c.on_packet(p, &[]).unwrap();
        assert!(wrapped_le(last, c.recv.nxt));
        last = c.recv.nxt;
    }
}

#[test]
fn synchronized_implies_recv_past_irs() {
    // once synchronized, recv.nxt has moved strictly past irs
    let ip = peer_ip();
    let syn = seg(u32::MAX, 0, 5840, true, false, false);
    let (mut c, _) = Connection::accept(&ip, &syn).unwrap();
    let ack = seg(0, 1, 5840, false, true, false);
    c.on_packet(&ack, &[]).unwrap();
    assert!(c.state.is_synchonized());
    assert!(c.recv.nxt != c.recv.irs);
    assert!(wrapped_le(c.recv.irs, c.recv.nxt));
}

#[test]
fn write_truncates_to_transmit_buffer() {
    let ip = peer_ip();
    let syn = seg(1000, 0, 5840, true, false, false);
    let (mut c, _) = Connection::accept(&ip, &syn).unwrap();
    let payload = vec![0u8; 2000];
    let (segment, taken) = c.write(&payload);
    // 1500-byte buffer minus two 20-byte headers
    assert_eq!(taken, 1460);
    assert_eq!(segment.frame.len(), 1500);
    assert_eq!(c.send.nxt, 1 + 1460);
}

#[test]
fn send_rst_sets_flag_and_current_numbers() {
    let ip = peer_ip();
    let syn = seg(1000, 0, 5840, true, false, false);
    let (mut c, _) = Connection::accept(&ip, &syn).unwrap();
    let segment = c.send_rst();
    assert!(segment.tcp.rst);
    // write repopulates sequence and acknowledgment from the spaces
    assert_eq!(segment.tcp.seq, 1);
    assert_eq!(segment.tcp.ackn, 1001);
}
