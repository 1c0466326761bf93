use vstd::prelude::*;
use crate::addr::Endpoint;

verus! {

/// A token standing for a foreign allocation's owner, together with the
/// obligation to release it exactly once. The type has no `Clone` and no
/// `Copy`, and the only way to get the token back out of a buffer consumes
/// the buffer (`Blob::into_owner`), so a release can neither be duplicated
/// nor happen while the buffer's bytes are still reachable. The embedder
/// maps each token to the foreign owner pointer and its release callback,
/// and invokes the callback when it receives the token back.
#[derive(PartialEq, Eq, Structural, Debug)]
pub struct ForeignOwner {
    pub token: u64,
}

/// A byte buffer that may stand for memory owned by a foreign caller.
///
/// `start` is the read cursor: the prefix `data[..start]` has already been
/// consumed (sent into the engine), and only `data[start..]` remains.
pub struct Blob {
    pub data: Vec<u8>,
    pub start: usize,
    pub owner: Option<ForeignOwner>,
}

impl Blob {
    /// The read cursor never runs past the end of the buffer.
    pub open spec fn wf(&self) -> bool {
        self.start <= self.data@.len()
    }

    /// The bytes not yet consumed.
    pub open spec fn remaining(&self) -> Seq<u8> {
        self.data@.skip(self.start as int)
    }

    /// A buffer owned outright by this side: no release obligation.
    pub fn wrap_local(data: Vec<u8>) -> (b: Blob)
        ensures
            b.data == data,
            b.start == 0usize,
            b.owner is None,
            b.wf(),
            b.remaining() == data@,
    {
        let b = Blob { data, start: 0, owner: None };
        proof {
            assert(b.remaining() =~= b.data@);
        }
        b
    }

    /// A buffer wrapping a foreign allocation; the caller supplies the owner
    /// token whose release callback must run exactly once, later.
    pub fn wrap_foreign(data: Vec<u8>, owner: ForeignOwner) -> (b: Blob)
        ensures
            b.data == data,
            b.start == 0usize,
            b.owner == Some(owner),
            b.wf(),
            b.remaining() == data@,
    {
        let b = Blob { data, start: 0, owner: Some(owner) };
        proof {
            assert(b.remaining() =~= b.data@);
        }
        b
    }

    pub fn remaining_len(&self) -> (n: usize)
        requires
            self.wf(),
        ensures
            n == self.remaining().len(),
    {
        self.data.len() - self.start
    }

    /// Advance the read cursor over `n` freshly consumed bytes.
    pub fn advance(&mut self, n: usize)
        requires
            old(self).wf(),
            n <= old(self).remaining().len(),
        ensures
            final(self).data == old(self).data,
            final(self).owner == old(self).owner,
            final(self).start == old(self).start + n,
            final(self).wf(),
            final(self).remaining() == old(self).remaining().skip(n as int),
    {
        let len = self.data.len();
        proof {
            assert(old(self).start + n <= len);
        }
        self.start = self.start + n;
        proof {
            assert(self.remaining() =~= old(self).remaining().skip(n as int));
        }
    }

    /// Surrender the buffer and get its release obligation back, exactly
    /// once: the buffer is consumed, so no further read of its bytes and no
    /// second extraction of the token is possible.
    pub fn into_owner(self) -> (r: Option<ForeignOwner>)
        ensures
            r == self.owner,
    {
        self.owner
    }

    /// Copy the not-yet-consumed bytes into a fresh owned buffer.
    pub fn copy_remaining(&self) -> (v: Vec<u8>)
        requires
            self.wf(),
        ensures
            v@ == self.remaining(),
    {
        let mut v: Vec<u8> = Vec::new();
        let mut i: usize = self.start;
        while i < self.data.len()
            invariant
                self.start <= i <= self.data@.len(),
                v@ == self.data@.subrange(self.start as int, i as int),
            decreases self.data@.len() - i,
        {
            v.push(self.data[i]);
            i = i + 1;
            proof {
                assert(v@ =~= self.data@.subrange(self.start as int, i as int));
            }
        }
        proof {
            assert(v@ =~= self.remaining());
        }
        v
    }
}

/// A buffer directed at a destination: what a caller hands to `socket_send`.
/// The endpoint is required for connectionless socket kinds and ignored for
/// connection-oriented ones.
pub struct Packet {
    pub blob: Blob,
    pub endpoint: Option<Endpoint>,
}

impl Packet {
    pub open spec fn wf(&self) -> bool {
        self.blob.wf()
    }

    /// The application bytes this packet still carries.
    pub open spec fn remaining(&self) -> Seq<u8> {
        self.blob.remaining()
    }
}

} // verus!
