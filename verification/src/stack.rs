use vstd::prelude::*;
use crate::addr::{Ipv4Addr, Ipv4Cidr, Ipv6Addr, Ipv6Cidr, CidrRepr};
use crate::blob::{ForeignOwner, Packet};
use crate::engine;
use crate::error::StackError;
use crate::socket::{SmolSocket, SocketType};

verus! {

/// `s_new` is `s_old` after a packet was appended to its outbound queue.
pub open spec fn sent_into(s_old: SmolSocket, s_new: SmolSocket, packet: Packet) -> bool {
    &&& s_new.socket_type == s_old.socket_type
    &&& s_new.socket_handle == s_old.socket_handle
    &&& s_new.received == s_old.received
    &&& s_new.current_to_send == s_old.current_to_send
    &&& s_new.to_send@ == s_old.to_send@.push(packet)
    &&& s_new.accepted == s_old.accepted
    &&& s_new.live_submitted@ == s_old.live_submitted@ + packet.remaining()
}

/// `s_new` is `s_old` after one pump step: the engine accepted the next
/// `s_new.accepted@.len() - s_old.accepted@.len()` pending bytes, in order
/// and without a gap, and at most one freshly drained buffer was appended to
/// the inbound queue. On the outbound side exactly one of two things
/// happened: the pending stream advanced by precisely the accepted count
/// (everything not accepted, in particular everything when the engine
/// refuses to send, is preserved in order), or the transmission attempt
/// failed — nothing was accepted and exactly the one chunk the attempt
/// offered (`next_chunk`) was abandoned, never more.
pub open spec fn pumped(s_old: SmolSocket, s_new: SmolSocket) -> bool {
    &&& s_new.socket_type == s_old.socket_type
    &&& s_new.socket_handle == s_old.socket_handle
    &&& s_old.accepted@.len() <= s_new.accepted@.len()
    &&& s_new.accepted@ == s_old.accepted@ + s_old.pending_bytes().take(
        s_new.accepted@.len() - s_old.accepted@.len(),
    )
    &&& pumped_outbound(s_old, s_new)
    &&& s_new.received@.take(s_old.received@.len() as int) == s_old.received@
    &&& s_new.received@.len() <= s_old.received@.len() + 1
}

/// The outbound half of `pumped`: the pending stream either advances by
/// exactly the accepted count, or (on a failed attempt) loses exactly the
/// offered chunk with nothing accepted.
pub open spec fn pumped_outbound(s_old: SmolSocket, s_new: SmolSocket) -> bool {
    ||| (s_new.pending_bytes() == s_old.pending_bytes().skip(
        s_new.accepted@.len() - s_old.accepted@.len(),
    ) && s_new.live_submitted@ == s_old.live_submitted@)
    ||| (s_new.accepted@ == s_old.accepted@ && s_new.pending_bytes() == s_old.pending_bytes().skip(
        s_old.next_chunk().len() as int,
    ) && s_new.live_submitted@ == s_old.accepted@ + s_new.pending_bytes())
}

/// Across a pump step the accepted stream only grows: what the engine had
/// already accepted stays in place, as a prefix of the new accepted stream.
/// Chained over any sequence of pump calls, no accepted byte is ever
/// dropped, reordered or repeated.
pub proof fn lemma_pump_extends_accepted(s_old: SmolSocket, s_new: SmolSocket)
    requires
        pumped(s_old, s_new),
    ensures
        s_old.accepted@ == s_new.accepted@.take(s_old.accepted@.len() as int),
{
    assert(s_old.accepted@ =~= s_new.accepted@.take(s_old.accepted@.len() as int));
}

/// `s_new` is `s_old` after one buffer of drained application data was
/// popped from the inbound queue; `v` is that buffer.
pub open spec fn received_from(s_old: SmolSocket, s_new: SmolSocket, v: Vec<u8>) -> bool {
    &&& s_new.socket_type == s_old.socket_type
    &&& s_new.socket_handle == s_old.socket_handle
    &&& s_new.to_send == s_old.to_send
    &&& s_new.current_to_send == s_old.current_to_send
    &&& s_new.accepted == s_old.accepted
    &&& s_new.live_submitted == s_old.live_submitted
    &&& s_old.received@.len() > 0
    &&& v == s_old.received@[0]
    &&& s_new.received@ == s_old.received@.drop_first()
}

/// The release obligations still pending across a socket registry, in
/// registry order.
pub open spec fn registry_owners(s: Seq<(usize, SmolSocket)>) -> Seq<ForeignOwner>
    decreases s.len(),
{
    if s.len() == 0 {
        Seq::empty()
    } else {
        s[0].1.pending_owners() + registry_owners(s.drop_first())
    }
}

/// The stack orchestrator: the engine's socket set, the registry of
/// application-level sockets keyed by caller-visible handles, and the
/// address and route configuration accumulated before finalize.
///
/// Two-phase lifecycle: while `finalized` is false the configuration calls
/// accumulate addresses and gateways; a successful `finalize` flips the flag
/// once and irreversibly, after which the embedder builds the engine's
/// interface from the recorded configuration and starts polling.
pub struct SmolStack {
    /// The protocol engine's socket set. Public so that the embedder can
    /// hand it to the engine's interface polling, which touches socket
    /// states but never adds or removes sockets.
    pub sockets: smoltcp::socket::SocketSet<'static>,
    /// The last caller-visible handle issued; handles are monotonic and
    /// never reused.
    pub current_key: usize,
    /// The socket registry: caller-visible handle, application socket.
    pub smol_sockets: Vec<(usize, SmolSocket)>,
    /// Local network prefixes accumulated before finalize.
    pub ip_addrs: Vec<CidrRepr>,
    pub default_v4_gw: Option<Ipv4Addr>,
    pub default_v6_gw: Option<Ipv6Addr>,
    pub finalized: bool,
}

impl SmolStack {
    pub open spec fn has_key(self, key: usize) -> bool {
        exists|i: int|
            0 <= i < self.smol_sockets@.len() && (#[trigger] self.smol_sockets@[i]).0 == key
    }

    pub open spec fn keys_distinct(self) -> bool {
        forall|i: int, j: int|
            0 <= i < j < self.smol_sockets@.len() ==> (#[trigger] self.smol_sockets@[i]).0 != (
            #[trigger] self.smol_sockets@[j]).0
    }

    /// Registry entry `i` is well formed: its socket's stream invariant
    /// holds, and a TCP entry's engine handle is a TCP socket of the engine
    /// set, so pumping it reaches a real engine socket.
    pub open spec fn entry_wf(self, i: int) -> bool {
        &&& self.smol_sockets@[i].1.wf()
        &&& (self.smol_sockets@[i].1.socket_type == SocketType::TCP ==> engine::tcp_handles(
            self.sockets,
        ).contains(self.smol_sockets@[i].1.socket_handle))
    }

    pub open spec fn wf(self) -> bool {
        &&& self.keys_distinct()
        &&& forall|i: int| 0 <= i < self.smol_sockets@.len() ==> #[trigger] self.entry_wf(i)
    }

    /// The configuration fields and handle counter are untouched.
    pub open spec fn config_unchanged(s_old: SmolStack, s_new: SmolStack) -> bool {
        &&& s_new.current_key == s_old.current_key
        &&& s_new.ip_addrs@ == s_old.ip_addrs@
        &&& s_new.default_v4_gw == s_old.default_v4_gw
        &&& s_new.default_v6_gw == s_old.default_v6_gw
        &&& s_new.finalized == s_old.finalized
    }

    pub fn new() -> (s: SmolStack)
        ensures
            s.wf(),
            engine::tcp_handles(s.sockets) == Set::<smoltcp::socket::SocketHandle>::empty(),
            s.current_key == 0usize,
            s.smol_sockets@ == Seq::<(usize, SmolSocket)>::empty(),
            s.ip_addrs@ == Seq::<CidrRepr>::empty(),
            s.default_v4_gw is None,
            s.default_v6_gw is None,
            !s.finalized,
    {
        SmolStack {
            sockets: engine::new_socket_set(),
            current_key: 0,
            smol_sockets: Vec::new(),
            ip_addrs: Vec::new(),
            default_v4_gw: None,
            default_v6_gw: None,
            finalized: false,
        }
    }

    /// Issue the next caller-visible socket handle. The counter only ever
    /// grows, so a handle, once issued, is never issued again, even after
    /// the socket it named is gone.
    pub fn new_socket_handle_key(&mut self) -> (key: usize)
        requires
            old(self).current_key < usize::MAX,
        ensures
            key == old(self).current_key + 1,
            final(self).current_key == key,
            final(self).sockets == old(self).sockets,
            final(self).smol_sockets == old(self).smol_sockets,
            final(self).ip_addrs == old(self).ip_addrs,
            final(self).default_v4_gw == old(self).default_v4_gw,
            final(self).default_v6_gw == old(self).default_v6_gw,
            final(self).finalized == old(self).finalized,
            old(self).wf() ==> final(self).wf(),
    {
        self.current_key = self.current_key + 1;
        proof {
            if old(self).wf() {
                self.lemma_entries_wf_after_engine(*old(self));
            }
        }
        self.current_key
    }

    fn find_index(&self, key: usize) -> (r: Option<usize>)
        ensures
            (match r {
                Some(i) => 0 <= i < self.smol_sockets@.len() && self.smol_sockets@[i as int].0
                    == key,
                None => !self.has_key(key),
            }),
    {
        let mut i: usize = 0;
        while i < self.smol_sockets.len()
            invariant
                i <= self.smol_sockets@.len(),
                forall|j: int| 0 <= j < i ==> (#[trigger] self.smol_sockets@[j]).0 != key,
            decreases self.smol_sockets@.len() - i,
        {
            if self.smol_sockets[i].0 == key {
                return Some(i);
            }
            i = i + 1;
        }
        None
    }

    /// Whether a socket is registered under `key`.
    pub fn has_socket(&self, key: usize) -> (r: bool)
        ensures
            r == self.has_key(key),
    {
        self.find_index(key).is_some()
    }

    /// Borrow the socket registered under `smol_socket_handle`.
    pub fn get_smol_socket(&self, smol_socket_handle: usize) -> (r: Option<&SmolSocket>)
        ensures
            (match r {
                Some(s) => exists|i: int|
                    0 <= i < self.smol_sockets@.len() && (#[trigger] self.smol_sockets@[i]).0
                        == smol_socket_handle && self.smol_sockets@[i].1 == *s,
                None => !self.has_key(smol_socket_handle),
            }),
    {
        match self.find_index(smol_socket_handle) {
            Some(i) => Some(&self.smol_sockets[i].1),
            None => None,
        }
    }

    /// Register a new socket of the requested kind under a fresh handle.
    /// `TCP` and `UDP` allocate generous engine buffers (a 65000-byte window
    /// for TCP, 1024-byte datagram space for UDP); the reserved kinds are
    /// reported as unsupported and change nothing.
    pub fn add_socket(&mut self, socket_type: SocketType, smol_socket_handle: usize) -> (r: Result<
        (),
        StackError,
    >)
        requires
            old(self).wf(),
            !old(self).has_key(smol_socket_handle),
        ensures
            final(self).wf(),
            Self::config_unchanged(*old(self), *final(self)),
            r is Ok <==> (socket_type == SocketType::TCP || socket_type == SocketType::UDP),
            (match r {
                Ok(_) => {
                    &&& final(self).smol_sockets@.len() == old(self).smol_sockets@.len() + 1
                    &&& final(self).smol_sockets@.subrange(0, old(self).smol_sockets@.len() as int)
                        == old(self).smol_sockets@
                    &&& final(self).smol_sockets@.last().0 == smol_socket_handle
                    &&& final(self).smol_sockets@.last().1.socket_type == socket_type
                    &&& final(self).smol_sockets@.last().1.to_send@.len() == 0
                    &&& final(self).smol_sockets@.last().1.received@.len() == 0
                    &&& final(self).smol_sockets@.last().1.current_to_send is None
                    &&& final(self).has_key(smol_socket_handle)
                },
                Err(e) => {
                    &&& e == StackError::UnsupportedSocketKind
                    &&& final(self).smol_sockets == old(self).smol_sockets
                    &&& final(self).sockets == old(self).sockets
                },
            }),
    {
        match socket_type {
            SocketType::TCP => {
                let h = engine::add_tcp_socket(&mut self.sockets, 65000, 65000);
                let sock = SmolSocket::new(h, SocketType::TCP);
                self.smol_sockets.push((smol_socket_handle, sock));
                proof {
                    assert(self.smol_sockets@.subrange(
                        0,
                        old(self).smol_sockets@.len() as int,
                    ) =~= old(self).smol_sockets@);
                    self.lemma_add_entry_wf(*old(self), smol_socket_handle);
                }
                Ok(())
            },
            SocketType::UDP => {
                let h = engine::add_udp_socket(&mut self.sockets, 0, 1024, 1024);
                let sock = SmolSocket::new(h, SocketType::UDP);
                self.smol_sockets.push((smol_socket_handle, sock));
                proof {
                    assert(self.smol_sockets@.subrange(
                        0,
                        old(self).smol_sockets@.len() as int,
                    ) =~= old(self).smol_sockets@);
                    self.lemma_add_entry_wf(*old(self), smol_socket_handle);
                }
                Ok(())
            },
            _ => Err(StackError::UnsupportedSocketKind),
        }
    }

    proof fn lemma_add_entry_wf(self, prev: SmolStack, key: usize)
        requires
            prev.wf(),
            !prev.has_key(key),
            self.smol_sockets@.len() == prev.smol_sockets@.len() + 1,
            self.smol_sockets@.subrange(0, prev.smol_sockets@.len() as int)
                == prev.smol_sockets@,
            self.smol_sockets@.last().0 == key,
            self.smol_sockets@.last().1.wf(),
            self.smol_sockets@.last().1.socket_type == SocketType::TCP ==> engine::tcp_handles(
                self.sockets,
            ).contains(self.smol_sockets@.last().1.socket_handle),
            forall|h: smoltcp::socket::SocketHandle|
                engine::tcp_handles(prev.sockets).contains(h) ==> engine::tcp_handles(
                    self.sockets,
                ).contains(h),
        ensures
            self.wf(),
            self.has_key(key),
    {
        let n = prev.smol_sockets@.len() as int;
        assert forall|i: int| 0 <= i < n implies self.smol_sockets@[i] == prev.smol_sockets@[i] by {
            assert(prev.smol_sockets@[i] == self.smol_sockets@.subrange(0, n)[i]);
        }
        assert forall|i: int, j: int|
            0 <= i < j < self.smol_sockets@.len() implies (#[trigger] self.smol_sockets@[i]).0 != (
        #[trigger] self.smol_sockets@[j]).0 by {
            if j < n {
                assert(prev.keys_distinct());
            } else {
                if self.smol_sockets@[i].0 == key {
                    assert(prev.has_key(key));
                }
            }
        }
        assert forall|i: int| 0 <= i < self.smol_sockets@.len() implies #[trigger] self.entry_wf(
            i,
        ) by {
            if i < n {
                assert(prev.entry_wf(i));
            }
        }
        assert(self.smol_sockets@[self.smol_sockets@.len() - 1].0 == key);
    }

    /// Record a local network prefix; valid only before finalize.
    pub fn add_ipv4_address(&mut self, cidr: Ipv4Cidr)
        requires
            !old(self).finalized,
        ensures
            final(self).ip_addrs@ == old(self).ip_addrs@.push(CidrRepr::V4(cidr)),
            final(self).sockets == old(self).sockets,
            final(self).current_key == old(self).current_key,
            final(self).smol_sockets == old(self).smol_sockets,
            final(self).default_v4_gw == old(self).default_v4_gw,
            final(self).default_v6_gw == old(self).default_v6_gw,
            final(self).finalized == old(self).finalized,
            old(self).wf() ==> final(self).wf(),
    {
        self.ip_addrs.push(CidrRepr::V4(cidr));
        proof {
            if old(self).wf() {
                self.lemma_entries_wf_after_engine(*old(self));
            }
        }
    }

    /// Record a local network prefix; valid only before finalize.
    pub fn add_ipv6_address(&mut self, cidr: Ipv6Cidr)
        requires
            !old(self).finalized,
        ensures
            final(self).ip_addrs@ == old(self).ip_addrs@.push(CidrRepr::V6(cidr)),
            final(self).sockets == old(self).sockets,
            final(self).current_key == old(self).current_key,
            final(self).smol_sockets == old(self).smol_sockets,
            final(self).default_v4_gw == old(self).default_v4_gw,
            final(self).default_v6_gw == old(self).default_v6_gw,
            final(self).finalized == old(self).finalized,
            old(self).wf() ==> final(self).wf(),
    {
        self.ip_addrs.push(CidrRepr::V6(cidr));
        proof {
            if old(self).wf() {
                self.lemma_entries_wf_after_engine(*old(self));
            }
        }
    }

    /// Record the default IPv4 gateway; valid only before finalize.
    pub fn add_default_v4_gateway(&mut self, address: Ipv4Addr)
        requires
            !old(self).finalized,
        ensures
            final(self).default_v4_gw == Some(address),
            final(self).sockets == old(self).sockets,
            final(self).current_key == old(self).current_key,
            final(self).smol_sockets == old(self).smol_sockets,
            final(self).ip_addrs == old(self).ip_addrs,
            final(self).default_v6_gw == old(self).default_v6_gw,
            final(self).finalized == old(self).finalized,
            old(self).wf() ==> final(self).wf(),
    {
        self.default_v4_gw = Some(address);
        proof {
            if old(self).wf() {
                self.lemma_entries_wf_after_engine(*old(self));
            }
        }
    }

    /// Record the default IPv6 gateway; valid only before finalize.
    pub fn add_default_v6_gateway(&mut self, address: Ipv6Addr)
        requires
            !old(self).finalized,
        ensures
            final(self).default_v6_gw == Some(address),
            final(self).sockets == old(self).sockets,
            final(self).current_key == old(self).current_key,
            final(self).smol_sockets == old(self).smol_sockets,
            final(self).ip_addrs == old(self).ip_addrs,
            final(self).default_v4_gw == old(self).default_v4_gw,
            final(self).finalized == old(self).finalized,
            old(self).wf() ==> final(self).wf(),
    {
        self.default_v6_gw = Some(address);
        proof {
            if old(self).wf() {
                self.lemma_entries_wf_after_engine(*old(self));
            }
        }
    }

    /// Close the configuration phase, one-shot and irreversibly. Succeeds
    /// exactly when it has not succeeded before, at least one local address
    /// is configured, and a default gateway of at least one family is
    /// configured (each family is independently optional, so single-stack
    /// deployments need only their own family's gateway). On any error the
    /// stack is left exactly as it was, in particular not poll-able.
    pub fn finalize(&mut self) -> (r: Result<(), StackError>)
        ensures
            *final(self) == (SmolStack { finalized: final(self).finalized, ..*old(self) }),
            r is Ok <==> (!old(self).finalized && old(self).ip_addrs@.len() > 0 && (old(
                self,
            ).default_v4_gw is Some || old(self).default_v6_gw is Some)),
            (match r {
                Ok(_) => final(self).finalized,
                Err(e) => {
                    &&& final(self).finalized == old(self).finalized
                    &&& (if old(self).finalized {
                        e == StackError::AlreadyFinalized
                    } else if old(self).ip_addrs@.len() == 0 {
                        e == StackError::MissingLocalAddress
                    } else {
                        e == StackError::MissingGateway
                    })
                },
            }),
            old(self).wf() ==> final(self).wf(),
    {
        if self.finalized {
            Err(StackError::AlreadyFinalized)
        } else if self.ip_addrs.len() == 0 {
            Err(StackError::MissingLocalAddress)
        } else if self.default_v4_gw.is_none() && self.default_v6_gw.is_none() {
            Err(StackError::MissingGateway)
        } else {
            self.finalized = true;
            proof {
                if old(self).wf() {
                    self.lemma_entries_wf_after_engine(*old(self));
                }
            }
            Ok(())
        }
    }

    /// Whether finalize has succeeded, and polling and pumping may begin.
    pub fn is_finalized(&self) -> (r: bool)
        ensures
            r == self.finalized,
    {
        self.finalized
    }

    /// Request a TCP connection to an IPv4 remote endpoint from the engine.
    pub fn tcp_connect_ipv4(
        &mut self,
        smol_socket_handle: usize,
        address: Ipv4Addr,
        src_port: u16,
        dst_port: u16,
    ) -> (r: Result<(), StackError>)
        requires
            old(self).wf(),
        ensures
            final(self).wf(),
            Self::config_unchanged(*old(self), *final(self)),
            final(self).smol_sockets == old(self).smol_sockets,
            r == Err::<(), StackError>(StackError::HandleNotFound) <==> !old(self).has_key(
                smol_socket_handle,
            ),
            (match r {
                Ok(_) => true,
                Err(e) => e == StackError::HandleNotFound || e == StackError::WrongSocketType || e
                    == StackError::ConnectFailed,
            }),
            r == Err::<(), StackError>(StackError::WrongSocketType) ==> exists|i: int|
                0 <= i < old(self).smol_sockets@.len() && (#[trigger] old(
                    self,
                ).smol_sockets@[i]).0 == smol_socket_handle && old(
                    self,
                ).smol_sockets@[i].1.socket_type != SocketType::TCP,
            (r is Ok || r == Err::<(), StackError>(StackError::ConnectFailed)) ==> exists|i: int|
                0 <= i < old(self).smol_sockets@.len() && (#[trigger] old(
                    self,
                ).smol_sockets@[i]).0 == smol_socket_handle && old(
                    self,
                ).smol_sockets@[i].1.socket_type == SocketType::TCP,
            r is Err ==> final(self).sockets == old(self).sockets,
    {
        let idx = match self.find_index(smol_socket_handle) {
            None => {
                return Err(StackError::HandleNotFound);
            },
            Some(i) => i,
        };
        proof {
            assert(old(self).entry_wf(idx as int));
        }
        if !matches!(self.smol_sockets[idx].1.socket_type, SocketType::TCP) {
            return Err(StackError::WrongSocketType);
        }
        let eh = self.smol_sockets[idx].1.socket_handle;
        let r = engine::tcp_connect_v4(
            &mut self.sockets,
            eh,
            address.a,
            address.b,
            address.c,
            address.d,
            dst_port,
            src_port,
        );
        proof {
            self.lemma_entries_wf_after_engine(*old(self));
        }
        match r {
            Ok(_) => Ok(()),
            Err(_) => Err(StackError::ConnectFailed),
        }
    }

    /// Request a TCP connection to an IPv6 remote endpoint from the engine.
    pub fn tcp_connect_ipv6(
        &mut self,
        smol_socket_handle: usize,
        address: Ipv6Addr,
        src_port: u16,
        dst_port: u16,
    ) -> (r: Result<(), StackError>)
        requires
            old(self).wf(),
        ensures
            final(self).wf(),
            Self::config_unchanged(*old(self), *final(self)),
            final(self).smol_sockets == old(self).smol_sockets,
            r == Err::<(), StackError>(StackError::HandleNotFound) <==> !old(self).has_key(
                smol_socket_handle,
            ),
            (match r {
                Ok(_) => true,
                Err(e) => e == StackError::HandleNotFound || e == StackError::WrongSocketType || e
                    == StackError::ConnectFailed,
            }),
            r == Err::<(), StackError>(StackError::WrongSocketType) ==> exists|i: int|
                0 <= i < old(self).smol_sockets@.len() && (#[trigger] old(
                    self,
                ).smol_sockets@[i]).0 == smol_socket_handle && old(
                    self,
                ).smol_sockets@[i].1.socket_type != SocketType::TCP,
            (r is Ok || r == Err::<(), StackError>(StackError::ConnectFailed)) ==> exists|i: int|
                0 <= i < old(self).smol_sockets@.len() && (#[trigger] old(
                    self,
                ).smol_sockets@[i]).0 == smol_socket_handle && old(
                    self,
                ).smol_sockets@[i].1.socket_type == SocketType::TCP,
            r is Err ==> final(self).sockets == old(self).sockets,
    {
        let idx = match self.find_index(smol_socket_handle) {
            None => {
                return Err(StackError::HandleNotFound);
            },
            Some(i) => i,
        };
        proof {
            assert(old(self).entry_wf(idx as int));
        }
        if !matches!(self.smol_sockets[idx].1.socket_type, SocketType::TCP) {
            return Err(StackError::WrongSocketType);
        }
        let eh = self.smol_sockets[idx].1.socket_handle;
        let mut segments: Vec<u16> = Vec::new();
        segments.push(address.s0);
        segments.push(address.s1);
        segments.push(address.s2);
        segments.push(address.s3);
        segments.push(address.s4);
        segments.push(address.s5);
        segments.push(address.s6);
        segments.push(address.s7);
        let r = engine::tcp_connect_v6(&mut self.sockets, eh, &segments, dst_port, src_port);
        proof {
            self.lemma_entries_wf_after_engine(*old(self));
        }
        match r {
            Ok(_) => Ok(()),
            Err(_) => Err(StackError::ConnectFailed),
        }
    }

    /// Append application data to the outbound queue of the socket
    /// registered under `smol_socket_handle`. Reports `HandleNotFound` for
    /// an unknown handle, and `EndpointRequired` when a connectionless
    /// socket is given a packet without a destination endpoint; in either
    /// case the packet is handed back and nothing is enqueued.
    pub fn socket_send(&mut self, smol_socket_handle: usize, packet: Packet) -> (r: Result<
        (),
        (StackError, Packet),
    >)
        requires
            old(self).wf(),
            packet.wf(),
        ensures
            final(self).wf(),
            Self::config_unchanged(*old(self), *final(self)),
            final(self).sockets == old(self).sockets,
            (match r {
                Ok(_) => exists|i: int|
                    {
                        &&& 0 <= i < old(self).smol_sockets@.len()
                        &&& (#[trigger] old(self).smol_sockets@[i]).0 == smol_socket_handle
                        &&& final(self).smol_sockets@ == old(self).smol_sockets@.update(
                            i,
                            (smol_socket_handle, final(self).smol_sockets@[i].1),
                        )
                        &&& sent_into(
                            old(self).smol_sockets@[i].1,
                            final(self).smol_sockets@[i].1,
                            packet,
                        )
                    },
                Err((e, p)) => {
                    &&& p == packet
                    &&& final(self).smol_sockets@ == old(self).smol_sockets@
                    &&& (e == StackError::HandleNotFound <==> !old(self).has_key(
                        smol_socket_handle,
                    ))
                    &&& (e == StackError::HandleNotFound || e == StackError::EndpointRequired)
                    &&& (e == StackError::EndpointRequired ==> packet.endpoint is None)
                },
            }),
            r is Ok ==> old(self).has_key(smol_socket_handle),
    {
        let idx = match self.find_index(smol_socket_handle) {
            None => {
                return Err((StackError::HandleNotFound, packet));
            },
            Some(i) => i,
        };
        proof {
            assert(old(self).entry_wf(idx as int));
        }
        if packet.endpoint.is_none() && (matches!(
            self.smol_sockets[idx].1.socket_type,
            SocketType::UDP,
        ) || matches!(self.smol_sockets[idx].1.socket_type, SocketType::ICMP)) {
            return Err((StackError::EndpointRequired, packet));
        }
        let (key, mut sock) = self.smol_sockets.remove(idx);
        let res = sock.send(packet);
        self.smol_sockets.insert(idx, (key, sock));
        proof {
            assert(self.smol_sockets@ =~= old(self).smol_sockets@.update(
                idx as int,
                self.smol_sockets@[idx as int],
            ));
            self.lemma_wf_after_update(*old(self), idx as int);
        }
        match res {
            Ok(_) => Ok(()),
            Err(ep) => {
                proof {
                    assert(false);
                }
                Err(ep)
            },
        }
    }

    /// Pop one buffer of drained application data from the socket registered
    /// under `smol_socket_handle`; `NoData` exactly when that socket's
    /// inbound queue is empty.
    pub fn socket_receive(&mut self, smol_socket_handle: usize) -> (r: Result<Vec<u8>, StackError>)
        requires
            old(self).wf(),
        ensures
            final(self).wf(),
            Self::config_unchanged(*old(self), *final(self)),
            final(self).sockets == old(self).sockets,
            (match r {
                Ok(v) => exists|i: int|
                    {
                        &&& 0 <= i < old(self).smol_sockets@.len()
                        &&& (#[trigger] old(self).smol_sockets@[i]).0 == smol_socket_handle
                        &&& final(self).smol_sockets@ == old(self).smol_sockets@.update(
                            i,
                            (smol_socket_handle, final(self).smol_sockets@[i].1),
                        )
                        &&& received_from(
                            old(self).smol_sockets@[i].1,
                            final(self).smol_sockets@[i].1,
                            v,
                        )
                    },
                Err(e) => {
                    &&& final(self).smol_sockets@ == old(self).smol_sockets@
                    &&& (e == StackError::HandleNotFound <==> !old(self).has_key(
                        smol_socket_handle,
                    ))
                    &&& (e == StackError::HandleNotFound || e == StackError::NoData)
                    &&& (e == StackError::NoData ==> exists|i: int|
                        0 <= i < old(self).smol_sockets@.len() && (#[trigger] old(
                            self,
                        ).smol_sockets@[i]).0 == smol_socket_handle && old(
                            self,
                        ).smol_sockets@[i].1.received@.len() == 0)
                },
            }),
    {
        let idx = match self.find_index(smol_socket_handle) {
            None => {
                return Err(StackError::HandleNotFound);
            },
            Some(i) => i,
        };
        proof {
            assert(old(self).entry_wf(idx as int));
        }
        if self.smol_sockets[idx].1.received.is_empty() {
            return Err(StackError::NoData);
        }
        let (key, mut sock) = self.smol_sockets.remove(idx);
        let res = sock.receive();
        self.smol_sockets.insert(idx, (key, sock));
        proof {
            assert(self.smol_sockets@ =~= old(self).smol_sockets@.update(
                idx as int,
                self.smol_sockets@[idx as int],
            ));
            self.lemma_wf_after_update(*old(self), idx as int);
        }
        match res {
            Some(v) => Ok(v),
            None => {
                proof {
                    assert(false);
                }
                Err(StackError::NoData)
            },
        }
    }

    /// The per-socket pump: one transmit-then-receive step against the
    /// engine for the TCP socket registered under `smol_socket_handle`.
    ///
    /// Resume-or-advance: the in-flight packet, if any, is served before the
    /// outbound queue. If the engine currently accepts data, as many pending
    /// bytes as it will take are written, the read cursor advances by
    /// exactly the accepted count, and a partially accepted packet goes back
    /// to the in-flight slot; a packet whose transmission attempt fails is
    /// discarded. Then one available chunk of received data is drained into
    /// the inbound queue. `Ok(Some(owner))` hands back the release
    /// obligation of a foreign-owned packet that left the socket during this
    /// call.
    ///
    /// Pumping a non-TCP socket reports `NotImplemented`; those kinds are
    /// reserved.
    pub fn spin(&mut self, smol_socket_handle: usize) -> (r: Result<
        Option<ForeignOwner>,
        StackError,
    >)
        requires
            old(self).wf(),
        ensures
            final(self).wf(),
            Self::config_unchanged(*old(self), *final(self)),
            (match r {
                Ok(_) => exists|i: int|
                    {
                        &&& 0 <= i < old(self).smol_sockets@.len()
                        &&& (#[trigger] old(self).smol_sockets@[i]).0 == smol_socket_handle
                        &&& old(self).smol_sockets@[i].1.socket_type == SocketType::TCP
                        &&& final(self).smol_sockets@ == old(self).smol_sockets@.update(
                            i,
                            (smol_socket_handle, final(self).smol_sockets@[i].1),
                        )
                        &&& pumped(old(self).smol_sockets@[i].1, final(self).smol_sockets@[i].1)
                    },
                Err(e) => {
                    &&& final(self).smol_sockets@ == old(self).smol_sockets@
                    &&& final(self).sockets == old(self).sockets
                    &&& (e == StackError::HandleNotFound <==> !old(self).has_key(
                        smol_socket_handle,
                    ))
                    &&& (e == StackError::HandleNotFound || e == StackError::NotImplemented)
                    &&& (e == StackError::NotImplemented ==> exists|i: int|
                        0 <= i < old(self).smol_sockets@.len() && (#[trigger] old(
                            self,
                        ).smol_sockets@[i]).0 == smol_socket_handle && old(
                            self,
                        ).smol_sockets@[i].1.socket_type != SocketType::TCP)
                },
            }),
    {
        let idx = match self.find_index(smol_socket_handle) {
            None => {
                return Err(StackError::HandleNotFound);
            },
            Some(i) => i,
        };
        proof {
            assert(old(self).entry_wf(idx as int));
        }
        if !matches!(self.smol_sockets[idx].1.socket_type, SocketType::TCP) {
            return Err(StackError::NotImplemented);
        }
        let (key, mut sock) = self.smol_sockets.remove(idx);
        let ghost sock0 = sock;
        let eh = sock.socket_handle;
        let mut released: Option<ForeignOwner> = None;
        if engine::tcp_may_send(&mut self.sockets, eh) {
            sock.stage_next_packet();
            if sock.current_to_send.is_some() {
                let data = sock.staged_copy();
                let res = engine::tcp_send_slice(&mut self.sockets, eh, data.as_slice());
                match res {
                    Ok(n) => {
                        proof {
                            assert(sock.staged_chunk().take(n as int) =~= sock0.pending_bytes()
                                .take(n as int));
                        }
                        released = sock.note_sent(n);
                        proof {
                            assert(sock.accepted@.len() - sock0.accepted@.len() == n);
                            assert(sock.pending_bytes() =~= sock0.pending_bytes().skip(n as int));
                            assert(sock.live_submitted@ == sock0.live_submitted@);
                        }
                    },
                    Err(_) => {
                        released = sock.note_send_failed();
                        proof {
                            assert(sock.accepted@ == sock0.accepted@);
                            assert(sock.pending_bytes() =~= sock0.pending_bytes().skip(
                                sock0.next_chunk().len() as int,
                            ));
                            assert(sock.live_submitted@ == sock0.accepted@
                                + sock.pending_bytes());
                        }
                    },
                }
            } else {
                proof {
                    assert(sock.pending_bytes() =~= sock0.pending_bytes().skip(0));
                    assert(sock.live_submitted@ == sock0.live_submitted@);
                }
            }
        } else {
            proof {
                assert(sock.pending_bytes() =~= sock0.pending_bytes().skip(0));
            }
        }
        let ghost sock1 = sock;
        proof {
            assert(sock.accepted@ =~= sock0.accepted@ + sock0.pending_bytes().take(
                sock.accepted@.len() - sock0.accepted@.len(),
            ));
            assert(pumped_outbound(sock0, sock1));
        }
        if engine::tcp_can_recv(&mut self.sockets, eh) {
            let res = engine::tcp_recv_chunk(&mut self.sockets, eh);
            match res {
                Ok(buf) => {
                    sock.push_received(buf);
                },
                Err(_) => {},
            }
        }
        proof {
            assert(sock.received@.take(sock0.received@.len() as int) =~= sock0.received@);
            assert(sock.pending_bytes() =~= sock1.pending_bytes());
            assert(sock.accepted@ == sock1.accepted@ && sock.live_submitted@
                == sock1.live_submitted@);
            assert(pumped_outbound(sock0, sock));
            assert(pumped(sock0, sock));
        }
        self.smol_sockets.insert(idx, (key, sock));
        proof {
            assert(self.smol_sockets@ =~= old(self).smol_sockets@.update(
                idx as int,
                self.smol_sockets@[idx as int],
            ));
            self.lemma_wf_after_update(*old(self), idx as int);
        }
        Ok(released)
    }

    /// Abandon, on every registered socket, everything still awaiting
    /// transmission, and hand back the release obligations of the
    /// foreign-owned packets among it, in registry order: the teardown
    /// path, letting the embedder run every release callback before the
    /// stack goes away. Inbound data and the engine's sockets are left as
    /// they are.
    pub fn drain_send_owners(&mut self) -> (r: Vec<ForeignOwner>)
        requires
            old(self).wf(),
        ensures
            final(self).wf(),
            Self::config_unchanged(*old(self), *final(self)),
            final(self).sockets == old(self).sockets,
            r@ == registry_owners(old(self).smol_sockets@),
            final(self).smol_sockets@.len() == old(self).smol_sockets@.len(),
            forall|j: int|
                0 <= j < old(self).smol_sockets@.len() ==> {
                    &&& (#[trigger] final(self).smol_sockets@[j]).0 == old(
                        self,
                    ).smol_sockets@[j].0
                    &&& final(self).smol_sockets@[j].1.pending_bytes() == Seq::<u8>::empty()
                    &&& final(self).smol_sockets@[j].1.received == old(
                        self,
                    ).smol_sockets@[j].1.received
                    &&& final(self).smol_sockets@[j].1.socket_type == old(
                        self,
                    ).smol_sockets@[j].1.socket_type
                },
    {
        let mut r: Vec<ForeignOwner> = Vec::new();
        let mut i: usize = 0;
        proof {
            assert(self.smol_sockets@.skip(0) =~= self.smol_sockets@);
            assert(r@ + registry_owners(self.smol_sockets@.skip(0)) =~= registry_owners(
                old(self).smol_sockets@,
            ));
        }
        while i < self.smol_sockets.len()
            invariant
                self.wf(),
                i <= self.smol_sockets@.len(),
                self.smol_sockets@.len() == old(self).smol_sockets@.len(),
                self.sockets == old(self).sockets,
                Self::config_unchanged(*old(self), *self),
                r@ + registry_owners(self.smol_sockets@.skip(i as int)) == registry_owners(
                    old(self).smol_sockets@,
                ),
                forall|j: int|
                    0 <= j < i ==> {
                        &&& (#[trigger] self.smol_sockets@[j]).0 == old(self).smol_sockets@[j].0
                        &&& self.smol_sockets@[j].1.pending_bytes() == Seq::<u8>::empty()
                        &&& self.smol_sockets@[j].1.received == old(self).smol_sockets@[j].1.received
                        &&& self.smol_sockets@[j].1.socket_type == old(self).smol_sockets@[j].1.socket_type
                    },
                forall|j: int|
                    i <= j < self.smol_sockets@.len() ==> #[trigger] self.smol_sockets@[j] == old(
                        self,
                    ).smol_sockets@[j],
            decreases self.smol_sockets@.len() - i,
        {
            let ghost prev = *self;
            proof {
                assert(prev.entry_wf(i as int));
            }
            let (k, mut sock) = self.smol_sockets.remove(i);
            let ghost r0 = r@;
            let ghost drained = prev.smol_sockets@[i as int].1.pending_owners();
            let mut os = sock.drain_send_owners();
            r.append(&mut os);
            self.smol_sockets.insert(i, (k, sock));
            proof {
                assert(self.smol_sockets@ =~= prev.smol_sockets@.update(
                    i as int,
                    self.smol_sockets@[i as int],
                ));
                self.lemma_wf_after_update(prev, i as int);
                assert(self.smol_sockets@[i as int].1.pending_bytes() =~= Seq::<u8>::empty());
                // the drained entry's obligations step the running total from
                // this suffix to the next
                assert(prev.smol_sockets@.skip(i as int).drop_first() =~= prev.smol_sockets@.skip(
                    i as int + 1,
                ));
                assert(self.smol_sockets@.skip(i as int + 1) =~= prev.smol_sockets@.skip(
                    i as int + 1,
                ));
                assert(registry_owners(prev.smol_sockets@.skip(i as int)) == drained
                    + registry_owners(prev.smol_sockets@.skip(i as int + 1)));
                assert((r0 + drained) + registry_owners(prev.smol_sockets@.skip(i as int + 1)) =~= r0
                    + (drained + registry_owners(prev.smol_sockets@.skip(i as int + 1))));
            }
            i = i + 1;
        }
        proof {
            assert(self.smol_sockets@.skip(i as int) =~= Seq::<(usize, SmolSocket)>::empty());
            assert(registry_owners(self.smol_sockets@.skip(i as int)) == Seq::<
                ForeignOwner,
            >::empty());
            assert(r@ =~= registry_owners(old(self).smol_sockets@));
        }
        r
    }

    /// The registry after replacing one entry's socket with a well-formed
    /// socket of the same kind and engine handle, under an engine set that
    /// kept every TCP handle, is still well formed.
    proof fn lemma_wf_after_update(self, prev: SmolStack, i: int)
        requires
            prev.wf(),
            0 <= i < prev.smol_sockets@.len(),
            self.smol_sockets@.len() == prev.smol_sockets@.len(),
            forall|j: int|
                0 <= j < prev.smol_sockets@.len() && j != i ==> self.smol_sockets@[j]
                    == prev.smol_sockets@[j],
            self.smol_sockets@[i].0 == prev.smol_sockets@[i].0,
            self.smol_sockets@[i].1.wf(),
            self.smol_sockets@[i].1.socket_type == prev.smol_sockets@[i].1.socket_type,
            self.smol_sockets@[i].1.socket_handle == prev.smol_sockets@[i].1.socket_handle,
            forall|h: smoltcp::socket::SocketHandle|
                engine::tcp_handles(prev.sockets).contains(h) ==> engine::tcp_handles(
                    self.sockets,
                ).contains(h),
        ensures
            self.wf(),
    {
        assert forall|a: int, b: int|
            0 <= a < b < self.smol_sockets@.len() implies (#[trigger] self.smol_sockets@[a]).0 != (
        #[trigger] self.smol_sockets@[b]).0 by {
            assert((prev.smol_sockets@[a]).0 != (prev.smol_sockets@[b]).0);
            assert(self.smol_sockets@[a].0 == prev.smol_sockets@[a].0);
            assert(self.smol_sockets@[b].0 == prev.smol_sockets@[b].0);
        }
        assert forall|j: int| 0 <= j < self.smol_sockets@.len() implies #[trigger] self.entry_wf(
            j,
        ) by {
            assert(prev.entry_wf(j));
        }
    }

    /// After a step that changed neither the registry nor the set of TCP
    /// handles in the engine set, the stack is still well formed.
    proof fn lemma_entries_wf_after_engine(self, prev: SmolStack)
        requires
            prev.wf(),
            self.smol_sockets@ == prev.smol_sockets@,
            engine::tcp_handles(self.sockets) == engine::tcp_handles(prev.sockets),
        ensures
            self.wf(),
    {
        assert forall|i: int, j: int|
            0 <= i < j < self.smol_sockets@.len() implies (#[trigger] self.smol_sockets@[i]).0 != (
        #[trigger] self.smol_sockets@[j]).0 by {
            assert((prev.smol_sockets@[i]).0 != (prev.smol_sockets@[j]).0);
        }
        assert forall|i: int| 0 <= i < self.smol_sockets@.len() implies #[trigger] self.entry_wf(
            i,
        ) by {
            assert(prev.entry_wf(i));
            assert(self.smol_sockets@[i] == prev.smol_sockets@[i]);
        }
    }
}

} // verus!
