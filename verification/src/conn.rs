//! The per-connection TCP state machine: passive open, segment
//! acceptability against the receive window, acknowledgment accounting
//! against the send window, the passive-open/close subset of the RFC 793
//! state graph, and transmission of outbound segments.
//!
//! The meaning of processing one inbound segment is given by the spec
//! function `step`; `on_packet` is verified to realize it exactly.

use vstd::prelude::*;
use vstd::wrapping::u32_specs;
use crate::headers::{Ipv4Fields, TcpFields, IpProto, TcpProto, Segment};
use crate::seqnum::{
    spec_between, seq_dist, wrapped_le, is_between_wrapped, lemma_dist_add, lemma_dist_chain,
    lemma_sub_one_add_one, lemma_add_one_sub_one, lemma_wadd_chain, SEQ_MOD,
};
use crate::wire::{frame_bytes, build_frame};

verus! {

/// The connection states that can arise under passive open and the
/// immediate close this endpoint performs. The remaining RFC 793 states are
/// reserved for future use.
#[derive(Clone, Copy, Debug, PartialEq, Eq, Structural)]
pub enum State {
    SynRcvd,
    Estab,
    FinWait1,
    FinWait2,
    CloseWait,
    TimeWait,
}

impl State {
    /// True in every state in which both peers have confirmed their initial
    /// sequence numbers: all states but `SynRcvd`.
    pub open spec fn synchronized(self) -> bool {
        self !is SynRcvd
    }

    /// True once both sides' initial sequence numbers are confirmed.
    pub fn is_synchonized(&self) -> (r: bool)
        ensures
            r == self.synchronized(),
    {
        match self {
            State::Estab | State::FinWait1 | State::FinWait2 | State::CloseWait | State::TimeWait => true,
            State::SynRcvd => false,
        }
    }
}

/// State of the send sequence space (RFC 793 S3.2 F4): `una` is the oldest
/// unacknowledged octet, `nxt` the next sequence number to send, `wnd` the
/// send window. `wl1`/`wl2` record the last window update (stored, not yet
/// consulted); `iss` is the initial send sequence number.
#[derive(Clone, Copy, Debug, PartialEq, Eq, Structural)]
pub struct SendSequenceSpace {
    pub una: u32,
    pub nxt: u32,
    pub wnd: u16,
    pub up: bool,
    pub wl1: usize,
    pub wl2: usize,
    pub iss: u32,
}

/// State of the receive sequence space (RFC 793 S3.2 F5): `nxt` is the next
/// sequence number expected, `wnd` the receive window, `irs` the initial
/// receive sequence number (the peer's SYN).
#[derive(Clone, Copy, Debug, PartialEq, Eq, Structural)]
pub struct RecvSequenceSpace {
    pub nxt: u32,
    pub wnd: u16,
    pub up: bool,
    pub irs: u32,
}

/// A protocol condition this revision of the endpoint cannot handle; the
/// caller is expected to treat it as fatal, as the RFC-complete endpoint
/// would instead queue data or track the peer's FIN.
#[derive(Clone, Copy, Debug, PartialEq, Eq, Structural)]
pub enum ProtoError {
    /// An acknowledged segment carried user data; no receive buffer exists.
    UnhandledData,
    /// The peer sent FIN in a state other than `FinWait2`.
    UnhandledFin,
}

/// One TCP connection: protocol state, the two sequence spaces, and the
/// prototype headers from which every outbound segment is built.
#[derive(Clone, Copy, Debug, PartialEq, Eq, Structural)]
pub struct Connection {
    pub state: State,
    pub send: SendSequenceSpace,
    pub recv: RecvSequenceSpace,
    pub tcp: TcpProto,
    pub ip: IpProto,
}

/// The outcome of processing one inbound segment: the connection afterward,
/// the headers of the segments transmitted in response (in order), and the
/// fatal condition hit, if any.
pub struct StepOutcome {
    pub conn: Connection,
    pub out: Seq<TcpProto>,
    pub err: Option<ProtoError>,
}

/// The sequence-space length of a segment as this endpoint counts it:
/// payload bytes plus one for FIN plus one for ACK. (RFC 793 counts SYN and
/// FIN; the ACK term is this design's deliberate deviation, kept as is.)
pub open spec fn seg_len(t: TcpFields, data_len: nat) -> nat {
    data_len + (if t.fin { 1nat } else { 0nat }) + (if t.ack { 1nat } else { 0nat })
}

/// The acceptability test of RFC 793 S3.3 against the receive window.
pub open spec fn acceptable(recv: RecvSequenceSpace, seqn: u32, slen: nat) -> bool {
    let lo = u32_specs::wrapping_sub(recv.nxt, 1);
    let wend = u32_specs::wrapping_add(recv.nxt, recv.wnd as u32);
    if slen == 0 {
        if recv.wnd == 0 {
            seqn == recv.nxt
        } else {
            spec_between(lo, seqn, wend)
        }
    } else {
        if recv.wnd == 0 {
            false
        } else {
            spec_between(lo, seqn, wend)
                || spec_between(lo, u32_specs::wrapping_add(seqn, (slen - 1) as u32), wend)
        }
    }
}

/// The prototype TCP header as it is serialized: sequence and
/// acknowledgment numbers populated from the send/receive spaces.
pub open spec fn seg_out_tcp(c: Connection) -> TcpProto {
    TcpProto { seq: c.send.nxt, ackn: c.recv.nxt, ..c.tcp }
}

/// The connection after transmitting an empty segment with no SYN or FIN
/// pending: only the prototype's sequence and acknowledgment fields move.
pub open spec fn refresh_proto(c: Connection) -> Connection {
    Connection { tcp: seg_out_tcp(c), ..c }
}

/// Step E of segment processing: once our SYN and FIN have both been
/// acknowledged (`una == iss + 2`), `FinWait1` advances to `FinWait2`.
pub open spec fn fin_acked_step(c: Connection) -> Connection {
    if c.state is FinWait1 && c.send.una == u32_specs::wrapping_add(c.send.iss, 2) {
        Connection { state: State::FinWait2, ..c }
    } else {
        c
    }
}

/// Step F of segment processing: a peer FIN is answered with an empty ACK
/// in `FinWait2` (entering `TimeWait`); in any other state it is a fatal
/// condition in this revision. `pending` holds segments already emitted
/// earlier in the same step.
pub open spec fn peer_fin_step(c: Connection, t: TcpFields, pending: Seq<TcpProto>) -> StepOutcome {
    if t.fin {
        if c.state is FinWait2 {
            StepOutcome {
                conn: (Connection { state: State::TimeWait, ..refresh_proto(c) }),
                out: pending.push(seg_out_tcp(c)),
                err: None,
            }
        } else {
            StepOutcome { conn: c, out: pending, err: Some(ProtoError::UnhandledFin) }
        }
    } else {
        StepOutcome { conn: c, out: pending, err: None }
    }
}

/// What processing one inbound segment does, in the strict order of the
/// design: acceptability test (answering an out-of-window segment with an
/// empty ACK), advance of `recv.nxt`, the ACK requirement, handshake
/// completion, acknowledgment accounting with the immediate close out of
/// `Estab`, FIN-acknowledgment detection, and the peer's FIN.
pub open spec fn step(c: Connection, t: TcpFields, data_len: nat) -> StepOutcome {
    let slen = seg_len(t, data_len);
    if !acceptable(c.recv, t.seq, slen) {
        StepOutcome { conn: refresh_proto(c), out: seq![seg_out_tcp(c)], err: None }
    } else {
        let ca = Connection {
            recv: (RecvSequenceSpace {
                nxt: u32_specs::wrapping_add(t.seq, slen as u32),
                ..c.recv
            }),
            ..c
        };
        if !t.ack {
            StepOutcome { conn: ca, out: Seq::empty(), err: None }
        } else {
            let cb = if ca.state is SynRcvd && spec_between(
                u32_specs::wrapping_sub(ca.send.una, 1),
                t.ackn,
                u32_specs::wrapping_add(ca.send.nxt, 1),
            ) {
                Connection { state: State::Estab, ..ca }
            } else {
                ca
            };
            if cb.state is Estab || cb.state is FinWait1 || cb.state is FinWait2 {
                if !spec_between(cb.send.una, t.ackn, u32_specs::wrapping_add(cb.send.nxt, 1)) {
                    StepOutcome { conn: cb, out: Seq::empty(), err: None }
                } else {
                    let cc = Connection {
                        send: (SendSequenceSpace { una: t.ackn, ..cb.send }),
                        ..cb
                    };
                    if data_len != 0 {
                        StepOutcome { conn: cc, out: Seq::empty(), err: Some(ProtoError::UnhandledData) }
                    } else if cc.state is Estab {
                        let fin_out = TcpProto { fin: true, ..seg_out_tcp(cc) };
                        let cd = Connection {
                            state: State::FinWait1,
                            send: (SendSequenceSpace {
                                nxt: u32_specs::wrapping_add(cc.send.nxt, 1),
                                ..cc.send
                            }),
                            tcp: (TcpProto { fin: false, ..fin_out }),
                            ..cc
                        };
                        peer_fin_step(fin_acked_step(cd), t, seq![fin_out])
                    } else {
                        peer_fin_step(fin_acked_step(cc), t, Seq::empty())
                    }
                }
            } else {
                peer_fin_step(fin_acked_step(cb), t, Seq::empty())
            }
        }
    }
}

/// The IPv4 prototype answering `ip`: addresses swapped, TTL 64, TCP.
pub open spec fn reply_ip(ip: Ipv4Fields) -> IpProto {
    IpProto { src: ip.dst, dst: ip.src, ttl: 64, protocol: 6 }
}

/// The SYN+ACK answering a SYN carrying `t`: ports swapped, sequence 0 (the
/// initial send sequence number of this design), acknowledgment one past
/// the peer's sequence number (wrapped), window 1024.
pub open spec fn synack_header(t: TcpFields) -> TcpProto {
    TcpProto {
        src_port: t.dst_port,
        dst_port: t.src_port,
        seq: 0,
        ackn: u32_specs::wrapping_add(t.seq, 1),
        wnd: 1024,
        syn: true,
        ack: true,
        fin: false,
        rst: false,
    }
}

/// The connection `accept` returns for a SYN carrying `ip`/`t`, after its
/// SYN+ACK has been emitted (so the SYN's sequence cost is already counted
/// in `send.nxt` and the prototype's SYN flag is consumed).
pub open spec fn accept_conn(ip: Ipv4Fields, t: TcpFields) -> Connection {
    Connection {
        state: State::SynRcvd,
        send: (SendSequenceSpace {
            iss: 0,
            una: 0,
            nxt: 1,
            wnd: 1024,
            up: false,
            wl1: 0,
            wl2: 0,
        }),
        recv: (RecvSequenceSpace {
            irs: t.seq,
            nxt: u32_specs::wrapping_add(t.seq, 1),
            wnd: t.wnd,
            up: false,
        }),
        tcp: (TcpProto { syn: false, ..synack_header(t) }),
        ip: reply_ip(ip),
    }
}

/// An acknowledgment accepted by the send window lies between `una`
/// (exclusive) and `nxt` (inclusive): it strictly shrinks the span of
/// unacknowledged sequence numbers.
proof fn lemma_ack_in_send_window(una: u32, ackn: u32, nxt: u32)
    requires
        seq_dist(una, nxt) <= 2,
        spec_between(una, ackn, u32_specs::wrapping_add(nxt, 1)),
    ensures
        seq_dist(ackn, nxt) + 1 <= seq_dist(una, nxt),
{
    lemma_dist_add(nxt, 1);
    lemma_dist_chain(una, nxt, u32_specs::wrapping_add(nxt, 1));
    lemma_dist_chain(una, ackn, nxt);
}

impl Connection {
    /// Well-formedness of a live connection: the initial send sequence
    /// number is this design's constant 0, at most the SYN and FIN are ever
    /// in flight (so the send space spans at most two sequence numbers),
    /// and the prototype header carries no unconsumed SYN or FIN.
    pub open spec fn wf(self) -> bool {
        &&& self.send.iss == 0
        &&& seq_dist(self.send.una, self.send.nxt) <= 2
        &&& !self.tcp.syn
        &&& !self.tcp.fin
    }

    /// Transmit one segment carrying a prefix of `payload` (truncated to
    /// what fits in the 1500-byte transmit buffer next to the two 20-byte
    /// headers). Populates the prototype's sequence and acknowledgment
    /// numbers, serializes, then counts the consumed sequence numbers:
    /// payload bytes, plus one for SYN and one for FIN, each flag being
    /// cleared as it is counted. Returns the segment and the number of
    /// payload bytes taken.
    pub fn write(&mut self, payload: &[u8]) -> (r: (Segment, usize))
        ensures
            r.1 == if payload@.len() <= 1460 { payload@.len() as int } else { 1460int },
            r.0.tcp == seg_out_tcp(*old(self)),
            r.0.ip == old(self).ip,
            r.0.frame@ == frame_bytes(old(self).ip, seg_out_tcp(*old(self)), payload@.take(r.1 as int)),
            final(self).send == (SendSequenceSpace {
                nxt: u32_specs::wrapping_add(
                    old(self).send.nxt,
                    (r.1
                        + (if old(self).tcp.syn { 1int } else { 0int })
                        + (if old(self).tcp.fin { 1int } else { 0int })) as u32,
                ),
                ..old(self).send
            }),
            final(self).tcp == (TcpProto { syn: false, fin: false, ..seg_out_tcp(*old(self)) }),
            final(self).recv == old(self).recv,
            final(self).state == old(self).state,
            final(self).ip == old(self).ip,
    {
        self.tcp.seq = self.send.nxt;
        self.tcp.ackn = self.recv.nxt;
        let n: usize = if payload.len() <= 1460 { payload.len() } else { 1460 };
        let body: &[u8] = vstd::slice::slice_subrange(payload, 0, n);
        let ip_payload_len: u16 = (20 + n) as u16;
        let frame = build_frame(&self.ip, &self.tcp, ip_payload_len, body);
        proof {
            assert(body@ == payload@.take(n as int));
        }
        let seg = Segment { ip: self.ip, tcp: self.tcp, frame };
        self.send.nxt = self.send.nxt.wrapping_add(n as u32);
        if self.tcp.syn {
            self.send.nxt = self.send.nxt.wrapping_add(1);
            self.tcp.syn = false;
        }
        if self.tcp.fin {
            self.send.nxt = self.send.nxt.wrapping_add(1);
            self.tcp.fin = false;
        }
        (seg, n)
    }

    /// Passive open. A segment without SYN for an unknown four-tuple is
    /// silently dropped (`None`). A SYN creates a connection in `SynRcvd`
    /// with the receive space seeded from the segment, and answers it with
    /// a SYN+ACK (sequence 0, acknowledging one past the peer's sequence
    /// number, window 1024).
    pub fn accept(iph: &Ipv4Fields, tcph: &TcpFields) -> (r: Option<(Connection, Segment)>)
        ensures
            !tcph.syn ==> r is None,
            tcph.syn ==> (r matches Some(p) && {
                &&& p.0 == accept_conn(*iph, *tcph)
                &&& p.0.wf()
                &&& seq_dist(p.0.recv.irs, p.0.recv.nxt) == 1
                &&& p.1.tcp == synack_header(*tcph)
                &&& p.1.ip == reply_ip(*iph)
                &&& p.1.frame@ == frame_bytes(reply_ip(*iph), synack_header(*tcph), Seq::<u8>::empty())
            }),
    {
        if !tcph.syn {
            // only expecting SYN packets
            return None;
        }
        let iss: u32 = 0;
        let wnd: u16 = 1024;
        let mut c = Connection {
            state: State::SynRcvd,
            send: SendSequenceSpace {
                iss,
                una: iss,
                nxt: iss,
                wnd,
                up: false,
                wl1: 0,
                wl2: 0,
            },
            recv: RecvSequenceSpace {
                irs: tcph.seq,
                nxt: tcph.seq.wrapping_add(1),
                wnd: tcph.wnd,
                up: false,
            },
            tcp: TcpProto {
                src_port: tcph.dst_port,
                dst_port: tcph.src_port,
                seq: iss,
                ackn: 0,
                wnd,
                syn: true,
                ack: true,
                fin: false,
                rst: false,
            },
            ip: IpProto { src: iph.dst, dst: iph.src, ttl: 64, protocol: 6 },
        };
        let empty: &[u8] = &[];
        let (seg, _) = c.write(empty);
        proof {
            assert(empty@.take(0) =~= Seq::<u8>::empty());
        }
        Some((c, seg))
    }

    /// Process one inbound segment addressed to this connection, in the
    /// strict order of `step`: the acceptability test (an out-of-window
    /// segment is answered with one empty ACK and nothing else changes),
    /// the advance of `recv.nxt` over the segment's sequence-space length,
    /// the ACK requirement, handshake completion out of `SynRcvd`,
    /// acknowledgment accounting in the synchronized states with the
    /// immediate close out of `Estab`, FIN-acknowledgment detection, and
    /// the peer's FIN. Returns the segments to transmit, in order, or the
    /// fatal condition this revision cannot handle.
    #[verifier::rlimit(60)]
    pub fn on_packet(&mut self, tcph: &TcpFields, data: &[u8]) -> (r: Result<Vec<Segment>, ProtoError>)
        requires
            old(self).wf(),
            data@.len() <= 1504,
        ensures
            *final(self) == step(*old(self), *tcph, data@.len() as nat).conn,
            final(self).wf(),
            ({
                let o = step(*old(self), *tcph, data@.len() as nat);
                match r {
                    Ok(segs) => {
                        &&& o.err is None
                        &&& segs@.len() == o.out.len()
                        &&& forall|i: int| 0 <= i < o.out.len() ==> {
                            &&& (#[trigger] segs@[i]).tcp == o.out[i]
                            &&& segs@[i].ip == old(self).ip
                            &&& segs@[i].frame@ == frame_bytes(old(self).ip, o.out[i], Seq::<u8>::empty())
                        }
                    },
                    Err(e) => o.err == Some(e),
                }
            }),
    {
        let ghost c0 = *self;
        let ghost dlen = data@.len() as nat;
        let empty: &[u8] = &[];
        proof {
            assert(empty@.take(0) =~= Seq::<u8>::empty());
        }
        let mut out: Vec<Segment> = Vec::new();
        let seqn = tcph.seq;
        let mut slen: u32 = data.len() as u32;
        if tcph.fin {
            slen = slen + 1;
        }
        if tcph.ack {
            slen = slen + 1;
        }
        proof {
            assert(slen == seg_len(*tcph, dlen));
        }
        let wend = self.recv.nxt.wrapping_add(self.recv.wnd as u32);
        let lo = self.recv.nxt.wrapping_sub(1);
        let okay: bool = if slen == 0 {
            if self.recv.wnd == 0 {
                seqn == self.recv.nxt
            } else {
                is_between_wrapped(lo, seqn, wend)
            }
        } else {
            if self.recv.wnd == 0 {
                false
            } else {
                is_between_wrapped(lo, seqn, wend)
                    || is_between_wrapped(lo, seqn.wrapping_add(slen - 1), wend)
            }
        };
        proof {
            assert(okay == acceptable(c0.recv, seqn, seg_len(*tcph, dlen)));
        }
        if !okay {
            let (seg, _) = self.write(empty);
            out.push(seg);
            return Ok(out);
        }
        self.recv.nxt = seqn.wrapping_add(slen);
        if !tcph.ack {
            return Ok(out);
        }
        let ackn = tcph.ackn;
        if self.state == State::SynRcvd {
            if is_between_wrapped(self.send.una.wrapping_sub(1), ackn, self.send.nxt.wrapping_add(1)) {
                // the peer has acknowledged our SYN
                self.state = State::Estab;
            }
            // otherwise a RST is owed per the RFC; this revision stays silent
        }
        if self.state == State::Estab || self.state == State::FinWait1 || self.state == State::FinWait2 {
            if !is_between_wrapped(self.send.una, ackn, self.send.nxt.wrapping_add(1)) {
                return Ok(out);
            }
            proof {
                lemma_ack_in_send_window(c0.send.una, ackn, self.send.nxt);
                lemma_dist_add(self.send.nxt, 1);
                lemma_dist_chain(ackn, self.send.nxt, u32_specs::wrapping_add(self.send.nxt, 1));
            }
            self.send.una = ackn;
            if data.len() > 0 {
                // no receive buffer exists yet; user data is fatal here
                return Err(ProtoError::UnhandledData);
            }
            if self.state == State::Estab {
                // terminate the connection at once: emit our FIN
                self.tcp.fin = true;
                let (seg, _) = self.write(empty);
                out.push(seg);
                self.state = State::FinWait1;
            }
        }
        if self.state == State::FinWait1 {
            if self.send.una == self.send.iss.wrapping_add(2) {
                // our FIN has been acknowledged
                self.state = State::FinWait2;
            }
        }
        if tcph.fin {
            if self.state == State::FinWait2 {
                // acknowledge the peer's FIN and wait out the quiet time
                let (seg, _) = self.write(empty);
                out.push(seg);
                self.state = State::TimeWait;
            } else {
                return Err(ProtoError::UnhandledFin);
            }
        }
        Ok(out)
    }

    /// Reset transmission: sets RST on the prototype and transmits an empty
    /// segment. (The sequence and acknowledgment numbers are repopulated
    /// from the send/receive spaces by `write`, and the RST flag stays on
    /// the prototype; this path is not reached from the state machine.)
    pub fn send_rst(&mut self) -> (r: Segment)
        ensures
            r.tcp == (TcpProto { rst: true, seq: old(self).send.nxt, ackn: old(self).recv.nxt, ..old(self).tcp }),
            r.ip == old(self).ip,
            r.frame@ == frame_bytes(old(self).ip, r.tcp, Seq::<u8>::empty()),
            *final(self) == (Connection {
                tcp: (TcpProto { syn: false, fin: false, ..r.tcp }),
                send: (SendSequenceSpace {
                    nxt: u32_specs::wrapping_add(
                        old(self).send.nxt,
                        ((if old(self).tcp.syn { 1int } else { 0int })
                            + (if old(self).tcp.fin { 1int } else { 0int })) as u32,
                    ),
                    ..old(self).send
                }),
                ..*old(self)
            }),
    {
        self.tcp.rst = true;
        self.tcp.seq = 0;
        self.tcp.ackn = 0;
        let empty: &[u8] = &[];
        let (seg, _) = self.write(empty);
        proof {
            assert(empty@.take(0) =~= Seq::<u8>::empty());
        }
        seg
    }
}

/// Law: for every live connection the send space is ordered:
/// `send.una <= send.nxt` under the wrapped ordering. (`accept` establishes
/// well-formedness and `on_packet` preserves it, so this holds of every
/// reachable connection.)
pub proof fn lemma_send_space_ordered(c: Connection)
    requires
        c.wf(),
    ensures
        wrapped_le(c.send.una, c.send.nxt),
{
}

/// Law: `recv.nxt` is monotonic non-decreasing under the wrapped ordering.
/// One processing step never moves it backward, and advances it by at most
/// the receive window plus the segment's sequence-space length; `irs` never
/// moves at all.
pub proof fn lemma_recv_nxt_monotonic(c: Connection, t: TcpFields, data_len: nat)
    requires
        data_len <= 1504,
    ensures
        step(c, t, data_len).conn.recv.irs == c.recv.irs,
        wrapped_le(c.recv.nxt, step(c, t, data_len).conn.recv.nxt),
        seq_dist(c.recv.nxt, step(c, t, data_len).conn.recv.nxt) <= c.recv.wnd + seg_len(t, data_len),
{
    let slen = seg_len(t, data_len);
    let nxt = c.recv.nxt;
    let lo = u32_specs::wrapping_sub(nxt, 1);
    let wend = u32_specs::wrapping_add(nxt, c.recv.wnd as u32);
    if acceptable(c.recv, t.seq, slen) {
        let nxt2 = u32_specs::wrapping_add(t.seq, slen as u32);
        lemma_sub_one_add_one(nxt);
        lemma_dist_add(nxt, c.recv.wnd as u32);
        lemma_dist_chain(lo, nxt, wend);
        if slen == 0 {
            if c.recv.wnd == 0 {
                assert(nxt2 == nxt);
            } else {
                lemma_dist_chain(lo, nxt, t.seq);
                assert(nxt2 == t.seq);
            }
        } else {
            if spec_between(lo, t.seq, wend) {
                lemma_dist_add(t.seq, slen as u32);
                lemma_dist_chain(lo, t.seq, nxt2);
                lemma_dist_chain(lo, nxt, nxt2);
            } else {
                let last = u32_specs::wrapping_add(t.seq, (slen - 1) as u32);
                lemma_wadd_chain(t.seq, (slen - 1) as u32, 1);
                lemma_dist_add(last, 1);
                lemma_dist_chain(lo, last, nxt2);
                lemma_dist_chain(lo, nxt, nxt2);
            }
        }
    }
}

/// Law: `recv.nxt` stays strictly past `irs` across a processing step, as
/// long as the stream position has not advanced to within one window (plus
/// one segment) of wrapping the full 2^32 numbers back onto `irs`.
/// `accept` starts every connection at distance 1, so with that proviso the
/// synchronized states always see `recv.nxt > irs`.
pub proof fn lemma_recv_nxt_past_irs(c: Connection, t: TcpFields, data_len: nat)
    requires
        data_len <= 1504,
        0 < seq_dist(c.recv.irs, c.recv.nxt),
        seq_dist(c.recv.irs, c.recv.nxt) + c.recv.wnd + seg_len(t, data_len) < SEQ_MOD,
    ensures
        0 < seq_dist(step(c, t, data_len).conn.recv.irs, step(c, t, data_len).conn.recv.nxt),
{
    lemma_recv_nxt_monotonic(c, t, data_len);
    lemma_dist_chain(c.recv.irs, c.recv.nxt, step(c, t, data_len).conn.recv.nxt);
}

/// Law: an out-of-window segment is answered with exactly one empty ACK
/// carrying the current `send.nxt` and `recv.nxt`, and the connection is
/// otherwise unchanged; two such segments in a row therefore produce two
/// replies identical in content.
pub proof fn lemma_out_of_window_replies_identical(
    c: Connection,
    t1: TcpFields,
    l1: nat,
    t2: TcpFields,
    l2: nat,
)
    requires
        !acceptable(c.recv, t1.seq, seg_len(t1, l1)),
        !acceptable(step(c, t1, l1).conn.recv, t2.seq, seg_len(t2, l2)),
    ensures
        step(c, t1, l1).out == seq![seg_out_tcp(c)],
        step(step(c, t1, l1).conn, t2, l2).out == seq![seg_out_tcp(c)],
        step(c, t1, l1).conn.state == c.state,
        step(step(c, t1, l1).conn, t2, l2).conn.state == c.state,
        step(c, t1, l1).conn.send == c.send,
        step(c, t1, l1).conn.recv == c.recv,
{
    assert(seg_out_tcp(refresh_proto(c)) == seg_out_tcp(c));
    assert(step(step(c, t1, l1).conn, t2, l2).out =~= seq![seg_out_tcp(c)]);
}

/// Law: a duplicate SYN for an existing connection — a bare retransmission
/// of the SYN the connection was created from — fails the acceptability
/// test and yields exactly one empty ACK; the connection state does not
/// move. (The dispatcher routes it to `on_packet`, never to `accept`.)
pub proof fn lemma_duplicate_syn(c: Connection, t: TcpFields)
    requires
        t.syn,
        !t.ack,
        !t.fin,
        t.seq == c.recv.irs,
        c.recv.nxt == u32_specs::wrapping_add(c.recv.irs, 1),
    ensures
        !acceptable(c.recv, t.seq, seg_len(t, 0)),
        step(c, t, 0).out == seq![seg_out_tcp(c)],
        step(c, t, 0).conn.state == c.state,
{
    lemma_dist_add(c.recv.irs, 1);
    lemma_add_one_sub_one(c.recv.irs);
}

/// Law: a SYN carrying sequence `s` and window `w` is answered by a
/// SYN+ACK whose acknowledgment is `s + 1` (wrapped), whose sequence is 0
/// (this design's initial send sequence number) and whose window is 1024;
/// the new connection records `irs = s`, `recv.wnd = w`.
pub proof fn lemma_syn_ack_reply(ip: Ipv4Fields, t: TcpFields)
    requires
        t.syn,
    ensures
        synack_header(t).syn,
        synack_header(t).ack,
        synack_header(t).seq == 0,
        synack_header(t).ackn == u32_specs::wrapping_add(t.seq, 1),
        synack_header(t).wnd == 1024,
        accept_conn(ip, t).recv.irs == t.seq,
        accept_conn(ip, t).recv.wnd == t.wnd,
        accept_conn(ip, t).state is SynRcvd,
{
}

} // verus!
