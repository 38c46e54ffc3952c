//! An unbounded first-in-first-out queue kept as a singly linked chain of
//! nodes with a dummy sentinel at the head.
//!
//! The chain lives in a growable arena: each node sits at a stable index of
//! `nodes`, and a node's `next` field holds the index of its successor. The
//! sentinel — the one node whose payload is absent — is always the node at
//! `head`; `tail` is the last node of the chain. A pop retires the old
//! sentinel onto a free list and promotes the retired node's successor to be
//! the new sentinel; a push links a fresh node (reusing a retired index when
//! one is available) behind `tail`. This is the ownership-checked equivalent
//! of the raw-pointer chain of the classic two-lock queue, with the same
//! link-then-advance protocol at each end.

use vstd::prelude::*;

verus! {

/// One link of the chain. A node whose `value` is absent is the sentinel
/// occupying the head position; every other node of the chain carries one
/// queued value. `next` is the arena index of the successor node, or `None`
/// for the last node.
struct Node<T> {
    value: Option<T>,
    next: Option<usize>,
}

impl<T> Node<T> {
    /// Create a fresh, unlinked node holding `v`.
    /// This is only used internally by the `Queue` functions.
    fn new(v: Option<T>) -> (n: Node<T>)
        ensures
            n.value == v,
            n.next is None,
    {
        Node { value: v, next: None }
    }
}

/// An unbounded first-in-first-out queue of values of type `T`.
///
/// Its view `self@` is the sequence of queued values, oldest first. A queue
/// is created empty; `push` appends at the tail and `pop` removes at the
/// head, so the view behaves as `Seq::push` and `Seq::drop_first`.
pub struct Queue<T> {
    /// Arena of nodes; chain links are indices into this vector.
    nodes: Vec<Node<T>>,
    /// Index of the current sentinel node.
    head: usize,
    /// Index of the last node of the chain.
    tail: usize,
    /// Indices of retired sentinel nodes, available for reuse by `push`.
    free: Vec<usize>,
    /// The chain itself: the indices of the nodes from `head` to `tail`,
    /// in link order.
    chain: Ghost<Seq<usize>>,
}

impl<T> Queue<T> {
    /// Well-formedness of the queue: the ghost `chain` starts at `head`,
    /// ends at `tail`, steps along the `next` links, never repeats an index,
    /// carries an absent payload exactly at the sentinel, and is disjoint
    /// from the free list.
    pub closed spec fn wf(&self) -> bool {
        let ch = self.chain@;
        let ns = self.nodes@;
        let fr = self.free@;
        &&& ch.len() >= 1
        &&& ch[0] == self.head
        &&& ch[ch.len() - 1] == self.tail
        &&& (forall|i: int| 0 <= i < ch.len() ==> #[trigger] ch[i] < ns.len())
        &&& (forall|i: int, j: int| 0 <= i < j < ch.len() ==> ch[i] != ch[j])
        &&& (forall|i: int|
            0 <= i < ch.len() - 1 ==> #[trigger] ns[ch[i] as int].next == Some(ch[i + 1]))
        &&& ns[ch[ch.len() - 1] as int].next is None
        &&& ns[ch[0] as int].value is None
        &&& (forall|i: int| 1 <= i < ch.len() ==> #[trigger] ns[ch[i] as int].value is Some)
        &&& (forall|k: int| 0 <= k < fr.len() ==> #[trigger] fr[k] < ns.len())
        &&& (forall|k: int| 0 <= k < fr.len() ==> !ch.contains(#[trigger] fr[k]))
        &&& (forall|k: int, l: int| 0 <= k < l < fr.len() ==> fr[k] != fr[l])
    }
}

impl<T> View for Queue<T> {
    type V = Seq<T>;

    /// The queued values, oldest first: the payloads of the chain nodes
    /// after the sentinel.
    closed spec fn view(&self) -> Seq<T> {
        Seq::new(
            (self.chain@.len() - 1) as nat,
            |i: int| self.nodes@[self.chain@[i + 1] as int].value->Some_0,
        )
    }
}

impl<T> Queue<T> {
    /// Create a new, empty queue: a single sentinel node with no successor,
    /// referenced by both `head` and `tail`.
    pub fn new() -> (q: Queue<T>)
        ensures
            q.wf(),
            q@ == Seq::<T>::empty(),
    {
        let mut nodes: Vec<Node<T>> = Vec::new();
        nodes.push(Node::new(None));
        let ghost ch: Seq<usize> = seq![0usize];
        let q = Queue {
            nodes,
            head: 0,
            tail: 0,
            free: Vec::new(),
            chain: Ghost(ch),
        };
        q
    }

    /// Push a value onto the tail of the queue.
    ///
    /// A fresh node holding the value is linked behind the current tail and
    /// then becomes the new tail — the producer-side critical section of the
    /// two-lock protocol. The node reuses a retired sentinel slot when one is
    /// available; otherwise the arena grows by one. Always succeeds: the
    /// queue is unbounded.
    pub fn push(&mut self, value: T)
        requires
            old(self).wf(),
        ensures
            final(self).wf(),
            final(self)@ == old(self)@.push(value),
    {
        let idx: usize;
        match self.free.pop() {
            Some(j) => {
                idx = j;
                self.nodes[j] = Node::new(Some(value));
            },
            None => {
                idx = self.nodes.len();
                self.nodes.push(Node::new(Some(value)));
            },
        }
        let t = self.tail;
        self.nodes[t].next = Some(idx);
        self.tail = idx;
        self.chain = Ghost(self.chain@.push(idx));
    }

    /// Pop the oldest value from the head of the queue, or return `None`
    /// when the queue is empty.
    ///
    /// The consumer-side critical section of the two-lock protocol: when the
    /// sentinel has a successor, that successor's payload is taken out, the
    /// old sentinel is retired onto the free list, and the emptied successor
    /// is promoted to be the new sentinel. An empty queue is left exactly as
    /// it was, so repeated pops on a drained queue accumulate nothing.
    pub fn pop(&mut self) -> (r: Option<T>)
        requires
            old(self).wf(),
        ensures
            final(self).wf(),
            old(self)@.len() == 0 ==> r is None && *final(self) == *old(self),
            old(self)@.len() > 0 ==> r == Some(old(self)@[0]) && final(self)@ == old(
                self,
            )@.drop_first(),
    {
        let h = self.head;
        let nxt_opt = self.nodes[h].next;
        match nxt_opt {
            None => None,
            Some(nxt) => {
                let value = self.nodes[nxt].value.take();
                self.free.push(h);
                self.head = nxt;
                self.chain = Ghost(self.chain@.drop_first());
                value
            },
        }
    }

    /// Construct a queue already holding the given values, exactly as if a
    /// new empty queue had received one `push` per value, in order.
    pub fn from_sequence(values: Vec<T>) -> (q: Queue<T>)
        ensures
            q.wf(),
            q@ == values@,
    {
        let ghost all = values@;
        let mut values = values;
        let mut q = Queue::new();
        while values.len() > 0
            invariant
                q.wf(),
                q@ + values@ == all,
            decreases values.len(),
        {
            let value = values.remove(0);
            q.push(value);
        }
        q
    }

    /// Remove every value currently in the queue, oldest first.
    ///
    /// Pops repeatedly until the queue reports empty and returns the popped
    /// values in pop order. The queue stays usable afterwards: this is a
    /// finite drain of the values present now, not a one-shot consumption.
    pub fn drain_sequence(&mut self) -> (r: Vec<T>)
        requires
            old(self).wf(),
        ensures
            final(self).wf(),
            r@ == old(self)@,
            final(self)@ == Seq::<T>::empty(),
    {
        let ghost orig = self@;
        let mut r: Vec<T> = Vec::new();
        loop
            invariant
                self.wf(),
                r@ + self@ == orig,
            ensures
                self.wf(),
                r@ + self@ == orig,
                self@.len() == 0,
            decreases self@.len(),
        {
            match self.pop() {
                None => { break; },
                Some(value) => {
                    r.push(value);
                },
            }
        }
        r
    }
}

/// The queue view reached by pushing each value of `values`, in order, onto
/// a queue whose view is `start`: one application of `push`'s contract per
/// value.
pub open spec fn pushed_all<T>(start: Seq<T>, values: Seq<T>) -> Seq<T>
    decreases values.len(),
{
    if values.len() == 0 {
        start
    } else {
        pushed_all(start.push(values[0]), values.drop_first())
    }
}

/// The values returned by popping a queue whose view is `view` until it
/// reports empty: one application of `pop`'s contract per element.
pub open spec fn popped_all<T>(view: Seq<T>) -> Seq<T>
    decreases view.len(),
{
    if view.len() == 0 {
        Seq::<T>::empty()
    } else {
        seq![view[0]] + popped_all(view.drop_first())
    }
}

/// Pushing a sequence of values one at a time appends it: the view reached
/// is the starting view followed by the pushed values, in push order.
pub proof fn lemma_pushed_all_appends<T>(start: Seq<T>, values: Seq<T>)
    ensures
        pushed_all(start, values) == start + values,
    decreases values.len(),
{
    if values.len() > 0 {
        lemma_pushed_all_appends(start.push(values[0]), values.drop_first());
        assert(start.push(values[0]) + values.drop_first() =~= start + values);
    }
}

/// Round trip: a queue whose view is `values` — as `from_sequence(values)`
/// guarantees of the queue it builds — drains back to exactly `values`,
/// since each pop returns the current first element and drops it from the
/// view.
pub proof fn lemma_bulk_round_trip<T>(values: Seq<T>)
    ensures
        popped_all(values) == values,
    decreases values.len(),
{
    if values.len() > 0 {
        lemma_bulk_round_trip(values.drop_first());
        assert(seq![values[0]] + values.drop_first() =~= values);
    }
}

/// First-in-first-out order: pushing `values` in order onto an empty queue
/// and then popping until empty returns exactly `values`, in the same
/// order.
pub proof fn lemma_fifo_order<T>(values: Seq<T>)
    ensures
        popped_all(pushed_all(Seq::<T>::empty(), values)) == values,
{
    lemma_pushed_all_appends(Seq::<T>::empty(), values);
    assert(Seq::<T>::empty() + values =~= values);
    lemma_bulk_round_trip(values);
}

/// Drain-then-refill: once a queue has drained to an empty view, pushing a
/// single value and popping again returns exactly that value, and pops the
/// queue back to empty — sentinel promotion loses nothing.
pub proof fn lemma_drain_then_refill<T>(drained: Seq<T>, value: T)
    requires
        drained.len() == 0,
    ensures
        pushed_all(drained, seq![value]) == seq![value],
        popped_all(pushed_all(drained, seq![value])) == seq![value],
{
    lemma_pushed_all_appends(drained, seq![value]);
    assert(drained + seq![value] =~= seq![value]);
    lemma_bulk_round_trip(seq![value]);
}

/// No loss, no duplication: when a sequence of pushes and a sequence of
/// pops are serialized — as each end's lock serializes them — the multiset
/// of values popped until empty equals the multiset of values pushed.
pub proof fn lemma_no_loss_no_duplication<T>(values: Seq<T>)
    ensures
        popped_all(pushed_all(Seq::<T>::empty(), values)).to_multiset() == values.to_multiset(),
{
    lemma_fifo_order(values);
}

} // verus!
