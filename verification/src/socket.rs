use vstd::prelude::*;
use crate::blob::{ForeignOwner, Packet};
use crate::error::StackError;
use crate::fifo::FifoQueue;

verus! {

/// The socket kinds a caller can request. Only `TCP` and `UDP` can be
/// created; the other kinds are reserved and unimplemented.
#[allow(non_camel_case_types)]
#[derive(Clone, Copy, PartialEq, Eq, Structural, Debug)]
pub enum SocketType {
    RAW_IPV4,
    RAW_IPV6,
    ICMP,
    TCP,
    UDP,
}

/// The application bytes still carried by a sequence of queued packets, in
/// queue order: the concatenation of every packet's not-yet-sent suffix.
pub open spec fn queue_bytes(s: Seq<Packet>) -> Seq<u8>
    decreases s.len(),
{
    if s.len() == 0 {
        Seq::empty()
    } else {
        s[0].remaining() + queue_bytes(s.drop_first())
    }
}

/// The release obligations carried by a sequence of queued packets, in
/// queue order.
pub open spec fn queue_owners(s: Seq<Packet>) -> Seq<ForeignOwner>
    decreases s.len(),
{
    if s.len() == 0 {
        Seq::empty()
    } else {
        (match s[0].blob.owner {
            Some(o) => seq![o],
            None => Seq::empty(),
        }) + queue_owners(s.drop_first())
    }
}

pub open spec fn queue_wf(s: Seq<Packet>) -> bool {
    forall|i: int| 0 <= i < s.len() ==> (#[trigger] s[i]).wf()
}

pub proof fn lemma_queue_bytes_push(s: Seq<Packet>, p: Packet)
    ensures
        queue_bytes(s.push(p)) == queue_bytes(s) + p.remaining(),
    decreases s.len(),
{
    if s.len() == 0 {
        assert(s.push(p).drop_first() =~= Seq::<Packet>::empty());
        assert(queue_bytes(s.push(p).drop_first()) == Seq::<u8>::empty());
        assert(queue_bytes(s.push(p)) =~= queue_bytes(s) + p.remaining());
    } else {
        assert(s.push(p).drop_first() =~= s.drop_first().push(p));
        lemma_queue_bytes_push(s.drop_first(), p);
        assert(s.push(p)[0] == s[0]);
        assert(queue_bytes(s.push(p)) == s[0].remaining() + (queue_bytes(s.drop_first())
            + p.remaining()));
        assert(s[0].remaining() + (queue_bytes(s.drop_first()) + p.remaining()) =~= (
        s[0].remaining() + queue_bytes(s.drop_first())) + p.remaining());
    }
}

/// One application-level socket: the caller-facing queues and the
/// partial-send resumption state around one engine socket.
///
/// The two ghost sequences are the socket's byte-stream history on the send
/// side: `accepted` is the concatenation of all bytes the engine has accepted
/// so far, and `live_submitted` is the concatenation, in submission order, of
/// all bytes submitted through `send` and not abandoned by a failed transmit.
pub struct SmolSocket {
    pub socket_type: SocketType,
    /// The engine's identifier for the underlying protocol-engine socket,
    /// distinct from the caller-visible handle this socket is registered
    /// under.
    pub socket_handle: smoltcp::socket::SocketHandle,
    /// Outbound application data awaiting transmission into the engine.
    pub to_send: FifoQueue<Packet>,
    /// The in-flight slot: a packet only partially accepted by the last
    /// transmission attempt, served before anything new is pulled from
    /// `to_send` ("resume before advance").
    pub current_to_send: Option<Packet>,
    /// Inbound application data drained from the engine.
    pub received: FifoQueue<Vec<u8>>,
    pub accepted: Ghost<Seq<u8>>,
    pub live_submitted: Ghost<Seq<u8>>,
}

impl SmolSocket {
    /// The bytes of the in-flight packet still awaiting transmission.
    pub open spec fn staged_chunk(self) -> Seq<u8> {
        match self.current_to_send {
            Some(p) => p.remaining(),
            None => Seq::empty(),
        }
    }

    /// The release obligation carried by the in-flight packet, if any.
    pub open spec fn staged_owner(self) -> Option<ForeignOwner> {
        match self.current_to_send {
            Some(p) => p.blob.owner,
            None => None,
        }
    }

    /// Everything submitted and not yet accepted by the engine, in order:
    /// the in-flight packet's remainder first, then the queued packets.
    pub open spec fn pending_bytes(self) -> Seq<u8> {
        self.staged_chunk() + queue_bytes(self.to_send@)
    }

    /// The release obligations of everything still awaiting transmission:
    /// the in-flight packet's, if any, then the queued packets', in order.
    pub open spec fn pending_owners(self) -> Seq<ForeignOwner> {
        (match self.current_to_send {
            Some(p) => match p.blob.owner {
                Some(o) => seq![o],
                None => Seq::empty(),
            },
            None => Seq::empty(),
        }) + queue_owners(self.to_send@)
    }

    /// The bytes the next transmission attempt would offer: the in-flight
    /// packet's remainder, or, with an empty slot, the front packet's. This
    /// is the first chunk of `pending_bytes`, and the most a failed
    /// transmission attempt can abandon.
    pub open spec fn next_chunk(self) -> Seq<u8> {
        match self.current_to_send {
            Some(p) => p.remaining(),
            None => if self.to_send@.len() > 0 {
                self.to_send@[0].remaining()
            } else {
                Seq::empty()
            },
        }
    }

    /// Well-formedness: every read cursor is in bounds, and the submitted
    /// stream is exactly what was accepted followed by what is pending.
    pub open spec fn wf(self) -> bool {
        &&& (match self.current_to_send {
            Some(p) => p.wf(),
            None => true,
        })
        &&& queue_wf(self.to_send@)
        &&& self.live_submitted@ == self.accepted@ + self.pending_bytes()
    }

    pub fn new(socket_handle: smoltcp::socket::SocketHandle, socket_type: SocketType) -> (s:
        SmolSocket)
        ensures
            s.socket_type == socket_type,
            s.socket_handle == socket_handle,
            s.to_send@ == Seq::<Packet>::empty(),
            s.current_to_send is None,
            s.received@ == Seq::<Vec<u8>>::empty(),
            s.accepted@ == Seq::<u8>::empty(),
            s.live_submitted@ == Seq::<u8>::empty(),
            s.wf(),
    {
        let s = SmolSocket {
            socket_type,
            socket_handle,
            to_send: FifoQueue::new(),
            current_to_send: None,
            received: FifoQueue::new(),
            accepted: Ghost(Seq::empty()),
            live_submitted: Ghost(Seq::empty()),
        };
        proof {
            assert(s.live_submitted@ =~= s.accepted@ + s.pending_bytes());
        }
        s
    }

    /// Append a packet to the outbound application queue. A connectionless
    /// socket kind (`UDP`, `ICMP`) must name a destination endpoint; without
    /// one the packet is handed back with `EndpointRequired` and nothing is
    /// enqueued.
    pub fn send(&mut self, packet: Packet) -> (r: Result<(), (StackError, Packet)>)
        requires
            old(self).wf(),
            packet.wf(),
        ensures
            final(self).wf(),
            final(self).socket_type == old(self).socket_type,
            final(self).socket_handle == old(self).socket_handle,
            final(self).received == old(self).received,
            r is Err <==> (packet.endpoint is None && (old(self).socket_type == SocketType::UDP
                || old(self).socket_type == SocketType::ICMP)),
            (match r {
                Ok(_) => {
                    &&& final(self).to_send@ == old(self).to_send@.push(packet)
                    &&& final(self).current_to_send == old(self).current_to_send
                    &&& final(self).accepted == old(self).accepted
                    &&& final(self).live_submitted@ == old(self).live_submitted@
                        + packet.remaining()
                },
                Err((e, p)) => {
                    &&& e == StackError::EndpointRequired
                    &&& p == packet
                    &&& *final(self) == *old(self)
                },
            }),
    {
        if packet.endpoint.is_none() && (self.socket_type == SocketType::UDP || self.socket_type
            == SocketType::ICMP) {
            Err((StackError::EndpointRequired, packet))
        } else {
            let ghost rem = packet.remaining();
            proof {
                lemma_queue_bytes_push(self.to_send@, packet);
            }
            self.live_submitted = Ghost(self.live_submitted@ + rem);
            self.to_send.push_back(packet);
            proof {
                assert(self.live_submitted@ =~= self.accepted@ + self.pending_bytes());
            }
            Ok(())
        }
    }

    /// Pop one buffer of drained application data; `None` when the inbound
    /// queue is empty.
    pub fn receive(&mut self) -> (r: Option<Vec<u8>>)
        requires
            old(self).wf(),
        ensures
            final(self).wf(),
            final(self).socket_type == old(self).socket_type,
            final(self).socket_handle == old(self).socket_handle,
            final(self).to_send == old(self).to_send,
            final(self).current_to_send == old(self).current_to_send,
            final(self).accepted == old(self).accepted,
            final(self).live_submitted == old(self).live_submitted,
            (match r {
                Some(v) => old(self).received@.len() > 0 && v == old(self).received@[0] && final(self).received@ == old(self).received@.drop_first(),
                None => old(self).received@.len() == 0 && final(self).received@ == old(self).received@,
            }),
    {
        self.received.pop_front()
    }

    /// Append a freshly drained buffer to the inbound application queue.
    pub fn push_received(&mut self, data: Vec<u8>)
        requires
            old(self).wf(),
        ensures
            final(self).wf(),
            final(self).received@ == old(self).received@.push(data),
            final(self).socket_type == old(self).socket_type,
            final(self).socket_handle == old(self).socket_handle,
            final(self).to_send == old(self).to_send,
            final(self).current_to_send == old(self).current_to_send,
            final(self).accepted == old(self).accepted,
            final(self).live_submitted == old(self).live_submitted,
    {
        self.received.push_back(data);
    }

    /// Resume-or-advance: keep the in-flight packet if one is held, else move
    /// the front of the outbound queue into the in-flight slot. The pending
    /// byte stream is unchanged; only its division between slot and queue
    /// moves.
    pub fn stage_next_packet(&mut self)
        requires
            old(self).wf(),
        ensures
            final(self).wf(),
            final(self).socket_type == old(self).socket_type,
            final(self).socket_handle == old(self).socket_handle,
            final(self).received == old(self).received,
            final(self).accepted == old(self).accepted,
            final(self).live_submitted == old(self).live_submitted,
            final(self).pending_bytes() == old(self).pending_bytes(),
            final(self).current_to_send is Some <==> (old(self).current_to_send is Some || old(self).to_send@.len() > 0),
            final(self).staged_chunk() == old(self).next_chunk(),
            (match old(self).current_to_send {
                Some(_) => *final(self) == *old(self),
                None => {
                    if old(self).to_send@.len() > 0 {
                        final(self).current_to_send == Some(old(self).to_send@[0]) && final(self).to_send@ == old(self).to_send@.drop_first()
                    } else {
                        final(self).current_to_send is None && final(self).to_send@ == old(self).to_send@
                    }
                },
            }),
    {
        if self.current_to_send.is_none() {
            let p = self.to_send.pop_front();
            self.current_to_send = p;
            proof {
                assert(final(self).pending_bytes() =~= old(self).pending_bytes());
            }
        }
    }

    /// Copy the in-flight packet's not-yet-sent bytes into a fresh buffer,
    /// ready to be offered to the engine.
    pub fn staged_copy(&self) -> (v: Vec<u8>)
        requires
            self.wf(),
            self.current_to_send is Some,
        ensures
            v@ == self.staged_chunk(),
    {
        match &self.current_to_send {
            Some(p) => p.blob.copy_remaining(),
            None => {
                proof {
                    assert(false);
                }
                Vec::new()
            },
        }
    }

    /// Record that the engine accepted `n` bytes of the in-flight packet.
    /// The accepted history grows by exactly those bytes; if the packet is
    /// finished its release obligation (if any) is handed back, otherwise the
    /// read cursor advances and the packet stays in flight, so no byte is
    /// dropped or repeated.
    pub fn note_sent(&mut self, n: usize) -> (r: Option<ForeignOwner>)
        requires
            old(self).wf(),
            old(self).current_to_send is Some,
            n <= old(self).staged_chunk().len(),
        ensures
            final(self).wf(),
            final(self).socket_type == old(self).socket_type,
            final(self).socket_handle == old(self).socket_handle,
            final(self).received == old(self).received,
            final(self).to_send == old(self).to_send,
            final(self).live_submitted == old(self).live_submitted,
            final(self).accepted@ == old(self).accepted@ + old(self).staged_chunk().take(n as int),
            final(self).pending_bytes() == old(self).pending_bytes().skip(n as int),
            (if n == old(self).staged_chunk().len() {
                final(self).current_to_send is None && r == old(self).staged_owner()
            } else {
                final(self).current_to_send is Some && r is None && final(self).staged_chunk()
                    == old(self).staged_chunk().skip(n as int) && final(self).staged_owner() == old(self).staged_owner()
            }),
    {
        let packet_opt = self.current_to_send.take();
        match packet_opt {
            Some(mut packet) => {
                let ghost chunk = old(self).staged_chunk();
                let rem = packet.blob.remaining_len();
                self.accepted = Ghost(self.accepted@ + chunk.take(n as int));
                if n == rem {
                    proof {
                        assert(chunk.take(n as int) =~= chunk);
                    }
                    let owner = packet.blob.into_owner();
                    proof {
                        assert(self.live_submitted@ =~= self.accepted@ + self.pending_bytes());
                        assert(self.pending_bytes() =~= old(self).pending_bytes().skip(n as int));
                    }
                    owner
                } else {
                    packet.blob.advance(n);
                    self.current_to_send = Some(packet);
                    proof {
                        assert(self.staged_chunk() =~= chunk.skip(n as int));
                        assert(self.pending_bytes() =~= old(self).pending_bytes().skip(n as int));
                        assert(self.accepted@ + self.pending_bytes() =~= old(self).accepted@ + (
                        chunk + queue_bytes(self.to_send@)));
                        assert(self.live_submitted@ =~= self.accepted@ + self.pending_bytes());
                    }
                    None
                }
            },
            None => {
                proof {
                    assert(false);
                }
                None
            },
        }
    }

    /// Record that the transmission attempt itself failed: the in-flight
    /// packet is discarded (the current retry policy), its release obligation
    /// is handed back, and the submitted-stream history drops the abandoned
    /// bytes.
    pub fn note_send_failed(&mut self) -> (r: Option<ForeignOwner>)
        requires
            old(self).wf(),
            old(self).current_to_send is Some,
        ensures
            final(self).wf(),
            final(self).socket_type == old(self).socket_type,
            final(self).socket_handle == old(self).socket_handle,
            final(self).received == old(self).received,
            final(self).to_send == old(self).to_send,
            final(self).accepted == old(self).accepted,
            final(self).current_to_send is None,
            r == old(self).staged_owner(),
            final(self).pending_bytes() == old(self).pending_bytes().skip(
                old(self).staged_chunk().len() as int,
            ),
            final(self).live_submitted@ == old(self).accepted@ + final(self).pending_bytes(),
    {
        let packet_opt = self.current_to_send.take();
        match packet_opt {
            Some(packet) => {
                let owner = packet.blob.into_owner();
                self.live_submitted = Ghost(self.accepted@ + queue_bytes(self.to_send@));
                proof {
                    assert(self.pending_bytes() =~= queue_bytes(self.to_send@));
                    assert(self.pending_bytes() =~= old(self).pending_bytes().skip(
                        old(self).staged_chunk().len() as int,
                    ));
                }
                owner
            },
            None => {
                proof {
                    assert(false);
                }
                None
            },
        }
    }

    /// Abandon everything still awaiting transmission and hand back, in
    /// queue order, the release obligations of the foreign-owned packets
    /// among it: the teardown path, letting the embedder run every release
    /// callback for data that will never reach the engine.
    pub fn drain_send_owners(&mut self) -> (r: Vec<ForeignOwner>)
        requires
            old(self).wf(),
        ensures
            final(self).wf(),
            r@ == old(self).pending_owners(),
            final(self).current_to_send is None,
            final(self).to_send@ == Seq::<Packet>::empty(),
            final(self).received == old(self).received,
            final(self).socket_type == old(self).socket_type,
            final(self).socket_handle == old(self).socket_handle,
            final(self).accepted == old(self).accepted,
            final(self).live_submitted@ == old(self).accepted@,
    {
        let mut r: Vec<ForeignOwner> = Vec::new();
        match self.current_to_send.take() {
            Some(packet) => {
                match packet.blob.into_owner() {
                    Some(o) => r.push(o),
                    None => {},
                }
            },
            None => {},
        }
        proof {
            assert(r@ + queue_owners(self.to_send@) =~= old(self).pending_owners());
        }
        while self.to_send.len() > 0
            invariant
                self.current_to_send is None,
                r@ + queue_owners(self.to_send@) == old(self).pending_owners(),
                self.received == old(self).received,
                self.socket_type == old(self).socket_type,
                self.socket_handle == old(self).socket_handle,
                self.accepted == old(self).accepted,
            decreases self.to_send@.len(),
        {
            let ghost q = self.to_send@;
            let p = self.to_send.pop_front();
            match p {
                Some(packet) => {
                    match packet.blob.into_owner() {
                        Some(o) => {
                            r.push(o);
                            proof {
                                assert(r@ + queue_owners(self.to_send@) =~= old(
                                    self,
                                ).pending_owners());
                            }
                        },
                        None => {
                            proof {
                                assert(r@ + queue_owners(self.to_send@) =~= old(
                                    self,
                                ).pending_owners());
                            }
                        },
                    }
                },
                None => {
                    proof {
                        assert(false);
                    }
                },
            }
        }
        self.live_submitted = Ghost(self.accepted@);
        proof {
            assert(self.pending_bytes() =~= Seq::<u8>::empty());
            assert(self.live_submitted@ =~= self.accepted@ + self.pending_bytes());
            assert(r@ =~= old(self).pending_owners());
        }
        r
    }

    /// Take the next packet to transmit out of the socket: the in-flight
    /// packet if one is held, else the front of the outbound queue. A packet
    /// handed out this way leaves the socket's submitted-stream accounting.
    pub fn get_latest_packet(&mut self) -> (r: Option<Packet>)
        requires
            old(self).wf(),
        ensures
            final(self).wf(),
            final(self).socket_type == old(self).socket_type,
            final(self).socket_handle == old(self).socket_handle,
            final(self).received == old(self).received,
            final(self).accepted == old(self).accepted,
            final(self).current_to_send is None,
            (match old(self).current_to_send {
                Some(p) => r == Some(p) && final(self).to_send == old(self).to_send,
                None => (match r {
                    Some(p) => old(self).to_send@.len() > 0 && p == old(self).to_send@[0] && final(self).to_send@ == old(self).to_send@.drop_first(),
                    None => old(self).to_send@.len() == 0 && final(self).to_send@ == old(self).to_send@,
                }),
            }),
    {
        let r = match self.current_to_send.take() {
            Some(packet) => Some(packet),
            None => self.to_send.pop_front(),
        };
        self.live_submitted = Ghost(self.accepted@ + self.pending_bytes());
        proof {
            assert(self.staged_chunk() =~= Seq::<u8>::empty());
        }
        r
    }
}

/// Partial-send invariant: for a well-formed socket, the bytes accepted by
/// the engine so far are exactly a prefix of the bytes submitted through
/// `send` (in submission order, minus packets abandoned by a failed
/// transmit), with no byte skipped and none repeated; what follows that
/// prefix is exactly what is still pending.
///
/// This holds after any sequence of calls: `new` establishes `wf`, and every
/// operation above both requires and preserves it, whatever positive number
/// of bytes each transmission attempt accepts. `send` is the only operation
/// that grows `live_submitted`, and it appends exactly the submitted
/// payload, so absent failed transmits `live_submitted` is the full
/// concatenation of everything submitted; a failed transmit removes only
/// the abandoned packet's remainder (`note_send_failed`).
pub proof fn lemma_accepted_is_prefix_of_submitted(s: SmolSocket)
    requires
        s.wf(),
    ensures
        s.live_submitted@ == s.accepted@ + s.pending_bytes(),
        s.accepted@ == s.live_submitted@.take(s.accepted@.len() as int),
        s.pending_bytes() == s.live_submitted@.skip(s.accepted@.len() as int),
{
    assert(s.accepted@ =~= s.live_submitted@.take(s.accepted@.len() as int));
    assert(s.pending_bytes() =~= s.live_submitted@.skip(s.accepted@.len() as int));
}

} // verus!
