use vstd::prelude::*;
use crate::blob::{Blob, ForeignOwner};
use crate::fifo::FifoQueue;

verus! {

/// The release obligations carried by a sequence of queued raw frames, in
/// queue order.
pub open spec fn frame_owners(s: Seq<Blob>) -> Seq<ForeignOwner>
    decreases s.len(),
{
    if s.len() == 0 {
        Seq::empty()
    } else {
        (match s[0].owner {
            Some(o) => seq![o],
            None => Seq::empty(),
        }) + frame_owners(s.drop_first())
    }
}

/// The queue state of the virtual device: two raw-frame queues standing in
/// for a kernel TUN/TAP device, shared between the protocol engine's device
/// adapter and the embedding caller.
///
/// `packets_from_outside` carries frames injected by the caller toward the
/// engine; `packets_from_inside` carries frames the engine produced, awaiting
/// retrieval by the caller. The embedder layers the "data available" signal
/// (a condition variable) around this type: it must notify waiters after
/// every `send` or `transmit_commit` (new data) and after every successful
/// `recv` (space freed), strictly after the call returns.
pub struct VirtualTunInterface {
    /// The fixed maximum transmission unit reported to the engine.
    pub mtu: usize,
    /// Frames produced by the engine, for the caller to take.
    pub packets_from_inside: FifoQueue<Vec<u8>>,
    /// Frames injected by the caller, for the engine to consume.
    pub packets_from_outside: FifoQueue<Blob>,
}

impl VirtualTunInterface {
    pub fn new() -> (d: VirtualTunInterface)
        ensures
            d.mtu == 1500usize,
            d.packets_from_inside@ == Seq::<Vec<u8>>::empty(),
            d.packets_from_outside@ == Seq::<Blob>::empty(),
    {
        VirtualTunInterface {
            mtu: 1500,
            packets_from_inside: FifoQueue::new(),
            packets_from_outside: FifoQueue::new(),
        }
    }

    pub fn mtu(&self) -> (n: usize)
        ensures
            n == self.mtu,
    {
        self.mtu
    }

    /// The device's non-blocking receive attempt: pop the oldest injected
    /// frame for the engine; `None` is the "would block" signal, telling the
    /// engine's poll loop there is no work this tick.
    pub fn recv(&mut self) -> (r: Option<Blob>)
        ensures
            final(self).mtu == old(self).mtu,
            final(self).packets_from_inside == old(self).packets_from_inside,
            (match r {
                Some(b) => old(self).packets_from_outside@.len() > 0 && b == old(self).packets_from_outside@[0] && final(self).packets_from_outside@ == old(self).packets_from_outside@.drop_first(),
                None => old(self).packets_from_outside@.len() == 0 && final(self).packets_from_outside@ == old(self).packets_from_outside@,
            }),
    {
        self.packets_from_outside.pop_front()
    }

    /// The device's transmit commit: once the engine has written a complete
    /// frame, append it for the caller. Nothing is published mid-write; the
    /// queue gains the whole frame in one step.
    pub fn transmit_commit(&mut self, frame: Vec<u8>)
        ensures
            final(self).mtu == old(self).mtu,
            final(self).packets_from_outside == old(self).packets_from_outside,
            final(self).packets_from_inside@ == old(self).packets_from_inside@.push(frame),
    {
        self.packets_from_inside.push_back(frame);
    }

    /// Inject a raw frame from the caller toward the engine.
    pub fn send(&mut self, blob: Blob)
        ensures
            final(self).mtu == old(self).mtu,
            final(self).packets_from_inside == old(self).packets_from_inside,
            final(self).packets_from_outside@ == old(self).packets_from_outside@.push(blob),
    {
        self.packets_from_outside.push_back(blob);
    }

    /// Take the oldest engine-produced frame without waiting: exactly the
    /// front of the queue, or `NoData` at once when the queue is empty. A
    /// blocking retrieval is this call in a wait-with-predicate loop on the
    /// embedder's data-available signal.
    pub fn receive_instantly(&mut self) -> (r: Option<Vec<u8>>)
        ensures
            final(self).mtu == old(self).mtu,
            final(self).packets_from_outside == old(self).packets_from_outside,
            (match r {
                Some(f) => old(self).packets_from_inside@.len() > 0 && f == old(self).packets_from_inside@[0] && final(self).packets_from_inside@ == old(self).packets_from_inside@.drop_first(),
                None => old(self).packets_from_inside@.len() == 0 && final(self).packets_from_inside@ == old(self).packets_from_inside@,
            }),
    {
        self.packets_from_inside.pop_front()
    }

    /// Abandon every frame still waiting for the engine and hand back, in
    /// queue order, the release obligations of the foreign-owned frames
    /// among them: the teardown path for injected frames the engine will
    /// never consume.
    pub fn drain_frame_owners(&mut self) -> (r: Vec<ForeignOwner>)
        ensures
            final(self).mtu == old(self).mtu,
            final(self).packets_from_inside == old(self).packets_from_inside,
            final(self).packets_from_outside@ == Seq::<Blob>::empty(),
            r@ == frame_owners(old(self).packets_from_outside@),
    {
        let mut r: Vec<ForeignOwner> = Vec::new();
        while self.packets_from_outside.len() > 0
            invariant
                r@ + frame_owners(self.packets_from_outside@) == frame_owners(
                    old(self).packets_from_outside@,
                ),
                self.mtu == old(self).mtu,
                self.packets_from_inside == old(self).packets_from_inside,
            decreases self.packets_from_outside@.len(),
        {
            let b = self.packets_from_outside.pop_front();
            match b {
                Some(blob) => {
                    match blob.into_owner() {
                        Some(o) => {
                            r.push(o);
                            proof {
                                assert(r@ + frame_owners(self.packets_from_outside@) =~= frame_owners(old(self).packets_from_outside@));
                            }
                        },
                        None => {
                            proof {
                                assert(r@ + frame_owners(self.packets_from_outside@) =~= frame_owners(old(self).packets_from_outside@));
                            }
                        },
                    }
                },
                None => {
                    proof {
                        assert(false);
                    }
                },
            }
        }
        proof {
            assert(r@ =~= frame_owners(old(self).packets_from_outside@));
        }
        r
    }
}

} // verus!
