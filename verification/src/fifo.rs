use vstd::prelude::*;
use std::collections::VecDeque;

verus! {

/// An unbounded, insertion-order-preserving queue: values are pushed at the
/// back and popped from the front. This is the packet-queue shape shared by
/// the raw-frame queues of the virtual device and the per-socket
/// application-data queues.
pub struct FifoQueue<T> {
    items: VecDeque<T>,
}

impl<T> View for FifoQueue<T> {
    type V = Seq<T>;

    closed spec fn view(&self) -> Seq<T> {
        self.items@
    }
}

impl<T> FifoQueue<T> {
    pub fn new() -> (q: Self)
        ensures
            q@ == Seq::<T>::empty(),
    {
        FifoQueue { items: VecDeque::new() }
    }

    pub fn len(&self) -> (n: usize)
        ensures
            n == self@.len(),
    {
        self.items.len()
    }

    pub fn is_empty(&self) -> (b: bool)
        ensures
            b <==> self@.len() == 0,
    {
        self.items.len() == 0
    }

    /// Append a value at the back (the producer end).
    pub fn push_back(&mut self, value: T)
        ensures
            final(self)@ == old(self)@.push(value),
    {
        self.items.push_back(value);
    }

    /// Remove and return the front value (the consumer end); `None` exactly
    /// when the queue is empty.
    pub fn pop_front(&mut self) -> (r: Option<T>)
        ensures
            (match r {
                Some(v) => old(self)@.len() > 0 && v == old(self)@[0] && final(self)@ == old(
                    self,
                )@.drop_first(),
                None => old(self)@.len() == 0 && final(self)@ == old(self)@,
            }),
    {
        let r = self.items.pop_front();
        proof {
            if old(self)@.len() > 0 {
                assert(self.items@ =~= old(self)@.drop_first());
            }
        }
        r
    }
}

/// One operation on a FIFO queue: a push of a value at the back, or a pop
/// from the front. `push_back` and `pop_front` above realize exactly these
/// steps on a queue's view.
pub enum QueueOp<T> {
    Push(T),
    Pop,
}

/// The values pushed by `ops`, in order.
pub open spec fn pushed_values<T>(ops: Seq<QueueOp<T>>) -> Seq<T>
    decreases ops.len(),
{
    if ops.len() == 0 {
        Seq::empty()
    } else {
        match ops[0] {
            QueueOp::Push(v) => seq![v] + pushed_values(ops.drop_first()),
            QueueOp::Pop => pushed_values(ops.drop_first()),
        }
    }
}

/// The queue contents after running `ops` on a queue holding `start`.
pub open spec fn queue_after<T>(start: Seq<T>, ops: Seq<QueueOp<T>>) -> Seq<T>
    decreases ops.len(),
{
    if ops.len() == 0 {
        start
    } else {
        match ops[0] {
            QueueOp::Push(v) => queue_after(start.push(v), ops.drop_first()),
            QueueOp::Pop => if start.len() > 0 {
                queue_after(start.drop_first(), ops.drop_first())
            } else {
                queue_after(start, ops.drop_first())
            },
        }
    }
}

/// The values delivered (popped) while running `ops` on a queue holding
/// `start`, in delivery order.
pub open spec fn delivered_after<T>(start: Seq<T>, ops: Seq<QueueOp<T>>) -> Seq<T>
    decreases ops.len(),
{
    if ops.len() == 0 {
        Seq::empty()
    } else {
        match ops[0] {
            QueueOp::Push(v) => delivered_after(start.push(v), ops.drop_first()),
            QueueOp::Pop => if start.len() > 0 {
                seq![start[0]] + delivered_after(start.drop_first(), ops.drop_first())
            } else {
                delivered_after(start, ops.drop_first())
            },
        }
    }
}

/// FIFO delivery: over any sequence of pushes and pops, what was delivered
/// followed by what is left in the queue is exactly the initial contents
/// followed by everything pushed, in order. So the delivered sequence is a
/// prefix of the insertion sequence: every element is delivered at most
/// once, in insertion order, and none is skipped.
pub proof fn lemma_fifo_order<T>(start: Seq<T>, ops: Seq<QueueOp<T>>)
    ensures
        delivered_after(start, ops) + queue_after(start, ops) == start + pushed_values(ops),
        delivered_after(start, ops) == (start + pushed_values(ops)).take(
            delivered_after(start, ops).len() as int,
        ),
    decreases ops.len(),
{
    if ops.len() == 0 {
        assert(delivered_after(start, ops) + queue_after(start, ops) =~= start + pushed_values(
            ops,
        ));
    } else {
        let rest = ops.drop_first();
        match ops[0] {
            QueueOp::Push(v) => {
                lemma_fifo_order(start.push(v), rest);
                assert(delivered_after(start, ops) == delivered_after(start.push(v), rest));
                assert(queue_after(start, ops) == queue_after(start.push(v), rest));
                assert(pushed_values(ops) == seq![v] + pushed_values(rest));
                assert(start.push(v) + pushed_values(rest) =~= start + (seq![v] + pushed_values(
                    rest,
                )));
                assert(start + (seq![v] + pushed_values(rest)) =~= start + pushed_values(ops));
            },
            QueueOp::Pop => {
                if start.len() > 0 {
                    lemma_fifo_order(start.drop_first(), rest);
                    let d = delivered_after(start.drop_first(), rest);
                    let q = queue_after(start.drop_first(), rest);
                    assert(delivered_after(start, ops) == seq![start[0]] + d);
                    assert(queue_after(start, ops) == q);
                    assert(pushed_values(ops) == pushed_values(rest));
                    assert((seq![start[0]] + d) + q =~= seq![start[0]] + (d + q));
                    assert(seq![start[0]] + (start.drop_first() + pushed_values(rest)) =~= start
                        + pushed_values(rest));
                } else {
                    lemma_fifo_order(start, rest);
                    assert(delivered_after(start, ops) == delivered_after(start, rest));
                    assert(queue_after(start, ops) == queue_after(start, rest));
                    assert(pushed_values(ops) == pushed_values(rest));
                }
            },
        }
    }
    let d = delivered_after(start, ops);
    let q = queue_after(start, ops);
    assert(d =~= (d + q).take(d.len() as int));
}

} // verus!
