//! The connection demultiplexer: parses the IPv4 and TCP headers of each
//! inbound frame, drops non-IPv4 / non-TCP / malformed frames, and routes
//! the remainder by four-tuple — a known four-tuple to its connection's
//! `on_packet`, an unknown one to passive open.

use vstd::prelude::*;
use crate::headers::{Ipv4Fields, TcpFields, Segment};
use crate::conn::{Connection, ProtoError, step, accept_conn, synack_header, reply_ip};
use crate::wire::{ipv4_parse, tcp_parse, frame_bytes, parse_ipv4, parse_tcp};

verus! {

/// The four-tuple identifying a TCP flow, oriented from the peer's point of
/// view: `src` is the remote endpoint, `dst` the local one. Unique per live
/// connection.
#[derive(Clone, Copy, Debug, PartialEq, Eq, Hash, Structural)]
pub struct Quad {
    pub src_ip: u32,
    pub src_port: u16,
    pub dst_ip: u32,
    pub dst_port: u16,
}

/// The four-tuple of a frame with the given parsed headers.
pub open spec fn quad_of(ip: Ipv4Fields, t: TcpFields) -> Quad {
    Quad { src_ip: ip.src, src_port: t.src_port, dst_ip: ip.dst, dst_port: t.dst_port }
}

/// What the dispatcher did with one inbound frame.
#[derive(Clone, Copy, Debug, PartialEq, Eq, Structural)]
pub enum FrameVerdict {
    /// The bytes do not parse as an IPv4 header: to be logged, then discarded.
    BadIpv4Header,
    /// The IPv4 protocol is not TCP (6): to be logged, then discarded.
    BadProtocol,
    /// The bytes after the IPv4 header do not parse as a TCP header: to be
    /// logged, then discarded.
    BadTcpHeader,
    /// Unknown four-tuple and no SYN: silently dropped, no connection made.
    Dropped,
    /// Unknown four-tuple with SYN: a connection was created and its
    /// SYN+ACK is among the segments to transmit.
    Accepted,
    /// Known four-tuple: the segment was processed by its connection.
    Delivered,
}

/// The dispatcher: owns the live connections, keyed by four-tuple.
pub struct Dispatcher {
    pub connections: Vec<(Quad, Connection)>,
}

impl Dispatcher {
    /// Every held connection is well-formed, and no four-tuple appears
    /// twice.
    pub open spec fn wf(self) -> bool {
        &&& forall|i: int|
            0 <= i < self.connections@.len() ==> (#[trigger] self.connections@[i]).1.wf()
        &&& forall|i: int, j: int|
            0 <= i < j < self.connections@.len()
                ==> (#[trigger] self.connections@[i]).0 != (#[trigger] self.connections@[j]).0
    }

    /// Whether a connection for `q` is live.
    pub open spec fn has_conn(self, q: Quad) -> bool {
        exists|i: int|
            0 <= i < self.connections@.len() && (#[trigger] self.connections@[i]).0 == q
    }

    /// An empty dispatcher: no live connections.
    pub fn new() -> (r: Dispatcher)
        ensures
            r.wf(),
            r.connections@.len() == 0,
    {
        Dispatcher { connections: Vec::new() }
    }

    /// The number of live connections.
    pub fn connection_count(&self) -> (r: usize)
        ensures
            r == self.connections@.len(),
    {
        self.connections.len()
    }

    /// Route one inbound IPv4 frame. Malformed or non-TCP frames are
    /// discarded with a verdict naming why; a known four-tuple is handed to
    /// its connection, an unknown one to passive open (which creates a
    /// connection only for a SYN). Returns the verdict together with the
    /// segments to transmit, in order, or the fatal protocol condition hit.
    pub fn handle_frame(&mut self, frame: &[u8]) -> (r: Result<(FrameVerdict, Vec<Segment>), ProtoError>)
        requires
            old(self).wf(),
            frame@.len() <= 1504,
        ensures
            final(self).wf(),
            ({
                let fr = frame@;
                match ipv4_parse(fr) {
                    None => {
                        &&& *final(self) == *old(self)
                        &&& (r matches Ok(p) && p.0 is BadIpv4Header && p.1@.len() == 0)
                    },
                    Some(ih) => {
                        if ih.protocol != 6 {
                            &&& *final(self) == *old(self)
                            &&& (r matches Ok(p) && p.0 is BadProtocol && p.1@.len() == 0)
                        } else {
                            match tcp_parse(fr.subrange(ih.header_len as int, fr.len() as int)) {
                                None => {
                                    &&& *final(self) == *old(self)
                                    &&& (r matches Ok(p) && p.0 is BadTcpHeader && p.1@.len() == 0)
                                },
                                Some(th) => {
                                    let q = quad_of(ih, th);
                                    let dlen = (fr.len() - ih.header_len - th.header_len) as nat;
                                    if old(self).has_conn(q) {
                                        exists|i: int|
                                            {
                                                &&& 0 <= i < old(self).connections@.len()
                                                &&& (#[trigger] old(self).connections@[i]).0 == q
                                                &&& ({
                                                    let o = step(old(self).connections@[i].1, th, dlen);
                                                    &&& final(self).connections@
                                                        == old(self).connections@.update(i, (q, o.conn))
                                                    &&& match r {
                                                        Ok(p) => {
                                                            &&& p.0 is Delivered
                                                            &&& o.err is None
                                                            &&& p.1@.len() == o.out.len()
                                                            &&& forall|k: int| 0 <= k < o.out.len() ==> {
                                                                &&& (#[trigger] p.1@[k]).tcp == o.out[k]
                                                                &&& p.1@[k].ip == old(self).connections@[i].1.ip
                                                                &&& p.1@[k].frame@ == frame_bytes(
                                                                    old(self).connections@[i].1.ip,
                                                                    o.out[k],
                                                                    Seq::<u8>::empty(),
                                                                )
                                                            }
                                                        },
                                                        Err(e) => o.err == Some(e),
                                                    }
                                                })
                                            }
                                    } else if th.syn {
                                        &&& final(self).connections@
                                            == old(self).connections@.push((q, accept_conn(ih, th)))
                                        &&& (r matches Ok(p) && {
                                            &&& p.0 is Accepted
                                            &&& p.1@.len() == 1
                                            &&& p.1@[0].tcp == synack_header(th)
                                            &&& p.1@[0].ip == reply_ip(ih)
                                            &&& p.1@[0].frame@ == frame_bytes(
                                                reply_ip(ih),
                                                synack_header(th),
                                                Seq::<u8>::empty(),
                                            )
                                        })
                                    } else {
                                        &&& *final(self) == *old(self)
                                        &&& (r matches Ok(p) && p.0 is Dropped && p.1@.len() == 0)
                                    }
                                },
                            }
                        }
                    },
                }
            }),
    {
        let iph = match parse_ipv4(frame) {
            Some(h) => h,
            None => {
                return Ok((FrameVerdict::BadIpv4Header, Vec::new()));
            },
        };
        if iph.protocol != 6 {
            return Ok((FrameVerdict::BadProtocol, Vec::new()));
        }
        let rest = vstd::slice::slice_subrange(frame, iph.header_len, frame.len());
        let tcph = match parse_tcp(rest) {
            Some(h) => h,
            None => {
                return Ok((FrameVerdict::BadTcpHeader, Vec::new()));
            },
        };
        let datai = iph.header_len + tcph.header_len;
        let data = vstd::slice::slice_subrange(frame, datai, frame.len());
        let quad = Quad {
            src_ip: iph.src,
            src_port: tcph.src_port,
            dst_ip: iph.dst,
            dst_port: tcph.dst_port,
        };
        let mut i: usize = 0;
        while i < self.connections.len() && self.connections[i].0 != quad
            invariant
                i <= self.connections@.len(),
                forall|j: int| 0 <= j < i ==> (#[trigger] self.connections@[j]).0 != quad,
            decreases self.connections@.len() - i,
        {
            i = i + 1;
        }
        if i < self.connections.len() {
            let pair = self.connections.remove(i);
            let mut conn = pair.1;
            let res = conn.on_packet(&tcph, data);
            self.connections.insert(i, (pair.0, conn));
            proof {
                let upd = old(self).connections@.update(
                    i as int,
                    (quad, step(old(self).connections@[i as int].1, tcph, data@.len() as nat).conn),
                );
                assert(self.connections@ =~= upd);
                assert forall|a: int|
                    0 <= a < self.connections@.len() implies (#[trigger] self.connections@[a]).1.wf() by {
                    if a != i {
                        assert(self.connections@[a] == old(self).connections@[a]);
                    }
                }
                assert forall|a: int, b: int|
                    0 <= a < b < self.connections@.len() implies (#[trigger] self.connections@[a]).0
                        != (#[trigger] self.connections@[b]).0 by {
                    assert(self.connections@[a].0 == old(self).connections@[a].0);
                    assert(self.connections@[b].0 == old(self).connections@[b].0);
                }
            }
            match res {
                Ok(segs) => Ok((FrameVerdict::Delivered, segs)),
                Err(e) => Err(e),
            }
        } else {
            proof {
                assert(!old(self).has_conn(quad));
            }
            match Connection::accept(&iph, &tcph) {
                Some(pc) => {
                    let (c, seg) = pc;
                    self.connections.push((quad, c));
                    proof {
                        assert forall|a: int, b: int|
                            0 <= a < b < self.connections@.len() implies (#[trigger] self.connections@[a]).0
                                != (#[trigger] self.connections@[b]).0 by {
                            if b < self.connections@.len() - 1 {
                                assert(self.connections@[a] == old(self).connections@[a]);
                                assert(self.connections@[b] == old(self).connections@[b]);
                            } else {
                                assert(self.connections@[a] == old(self).connections@[a]);
                                assert(self.connections@[b].0 == quad);
                            }
                        }
                    }
                    let mut v: Vec<Segment> = Vec::new();
                    v.push(seg);
                    Ok((FrameVerdict::Accepted, v))
                },
                None => Ok((FrameVerdict::Dropped, Vec::new())),
            }
        }
    }
}

} // verus!
