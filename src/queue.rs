use vstd::prelude::*;
use crossbeam_queue::ArrayQueue;
use crate::messages::PrioritizedMessage;
use crate::priority::PRIORITY_LEVELS;

verus! {

#[verifier::external_type_specification]
#[verifier::external_body]
#[verifier::reject_recursive_types(T)]
pub struct ExArrayQueue<T>(ArrayQueue<T>);

/// The items held by a bounded FIFO queue, head first.
pub uninterp spec fn fifo_items(q: ArrayQueue<PrioritizedMessage>) -> Seq<PrioritizedMessage>;

/// The number of items a bounded FIFO queue was made to hold.
pub uninterp spec fn fifo_capacity(q: ArrayQueue<PrioritizedMessage>) -> nat;

/// Largest capacity a dispatch queue may be created with: `ArrayQueue`
/// rounds one more than its capacity up to a power of two, which must fit
/// in a `usize`.
pub const MAX_QUEUE_CAPACITY: usize = usize::MAX / 2;

/// Relies on `ArrayQueue::new`: an empty queue with room for `cap` items.
/// It panics on a zero capacity and on one whose successor has no power of
/// two in a `usize`, both of which `requires` leaves out.
#[verifier::external_body]
fn fifo_new(cap: usize) -> (q: ArrayQueue<PrioritizedMessage>)
    requires
        0 < cap <= MAX_QUEUE_CAPACITY,
    ensures
        fifo_items(q) == Seq::<PrioritizedMessage>::empty(),
        fifo_capacity(q) == cap,
{
    ArrayQueue::new(cap)
}

/// Relies on `ArrayQueue::push_mut`: appends at the tail when the queue holds
/// fewer items than its capacity, and otherwise hands the value back.
#[verifier::external_body]
fn fifo_push(q: &mut ArrayQueue<PrioritizedMessage>, m: PrioritizedMessage) -> (r: PushResult)
    ensures
        fifo_capacity(*final(q)) == fifo_capacity(*old(q)),
        fifo_items(*old(q)).len() < fifo_capacity(*old(q)) ==> r is Ok && fifo_items(*final(q))
            == fifo_items(*old(q)).push(m),
        fifo_items(*old(q)).len() >= fifo_capacity(*old(q)) ==> r == PushResult::Err(m)
            && fifo_items(*final(q)) == fifo_items(*old(q)),
{
    q.push_mut(m)
}

/// Relies on `ArrayQueue::pop_mut`: removes and returns the head, or `None`
/// when the queue is empty, in which case nothing is written.
#[verifier::external_body]
fn fifo_pop(q: &mut ArrayQueue<PrioritizedMessage>) -> (r: Option<PrioritizedMessage>)
    ensures
        fifo_capacity(*final(q)) == fifo_capacity(*old(q)),
        fifo_items(*old(q)).len() == 0 ==> r is None && *final(q) == *old(q),
        fifo_items(*old(q)).len() > 0 ==> r == Some(fifo_items(*old(q))[0]) && fifo_items(*final(q))
            == fifo_items(*old(q)).drop_first(),
{
    q.pop_mut()
}

/// What a push hands back: the payload itself when it was refused.
pub type PushResult = Result<(), PrioritizedMessage>;

/// A bounded queue that hands out payloads highest priority first, and in
/// order of arrival within one priority.
///
/// One FIFO lane per priority level holds the payloads; the total held over
/// all lanes never exceeds the queue's capacity.
pub struct PriorityQueue {
    lanes: Vec<ArrayQueue<PrioritizedMessage>>,
    len: usize,
    capacity: usize,
}

/// Whether no payload in `s` is more urgent than a later one.
pub open spec fn non_increasing(s: Seq<PrioritizedMessage>) -> bool {
    forall|i: int, j: int|
        0 <= i < j < s.len() ==> #[trigger] s[i].priority.spec_rank() >= #[trigger] s[j].priority.spec_rank()
}

/// Whether every payload in `s` has priority rank `r`.
pub open spec fn all_at_rank(s: Seq<PrioritizedMessage>, r: nat) -> bool {
    forall|i: int| 0 <= i < s.len() ==> (#[trigger] s[i]).priority.spec_rank() == r
}

/// The payloads of `s` at priority rank `k`, in their order in `s`.
pub open spec fn at_rank(s: Seq<PrioritizedMessage>, k: nat) -> Seq<PrioritizedMessage>
    decreases s.len(),
{
    if s.len() == 0 {
        Seq::empty()
    } else {
        let rest = at_rank(s.drop_last(), k);
        if s.last().priority.spec_rank() == k {
            rest.push(s.last())
        } else {
            rest
        }
    }
}

/// `s` reordered highest priority first, keeping the order of `s` within
/// each priority.
pub open spec fn by_priority(s: Seq<PrioritizedMessage>) -> Seq<PrioritizedMessage> {
    at_rank(s, 4) + at_rank(s, 3) + at_rank(s, 2) + at_rank(s, 1) + at_rank(s, 0)
}

/// Picking a rank distributes over concatenation.
pub proof fn lemma_at_rank_concat(a: Seq<PrioritizedMessage>, b: Seq<PrioritizedMessage>, k: nat)
    ensures
        at_rank(a + b, k) == at_rank(a, k) + at_rank(b, k),
    decreases b.len(),
{
    if b.len() == 0 {
        assert(a + b =~= a);
        assert(at_rank(a, k) + at_rank(b, k) =~= at_rank(a, k));
    } else {
        lemma_at_rank_concat(a, b.drop_last(), k);
        assert((a + b).drop_last() =~= a + b.drop_last());
        assert((a + b).last() == b.last());
        if b.last().priority.spec_rank() == k {
            assert(at_rank(a, k) + at_rank(b, k) =~= (at_rank(a, k) + at_rank(b.drop_last(), k)).push(b.last()));
        }
    }
}

proof fn lemma_at_rank_uniform(s: Seq<PrioritizedMessage>, r: nat, k: nat)
    requires
        all_at_rank(s, r),
    ensures
        at_rank(s, k) == (if k == r { s } else { Seq::<PrioritizedMessage>::empty() }),
    decreases s.len(),
{
    if s.len() == 0 {
        assert(s =~= Seq::<PrioritizedMessage>::empty());
    } else {
        let t = s.drop_last();
        assert forall|i: int| 0 <= i < t.len() implies (#[trigger] t[i]).priority.spec_rank() == r by {
            assert(t[i] == s[i]);
        }
        lemma_at_rank_uniform(t, r, k);
        assert(s.last() == s[s.len() - 1]);
        if k == r {
            assert(t.push(s.last()) =~= s);
        }
    }
}

impl PriorityQueue {
    /// The payloads waiting at priority rank `r`, in order of arrival.
    pub closed spec fn lane(&self, r: int) -> Seq<PrioritizedMessage> {
        fifo_items(self.lanes@[r])
    }

    /// The lanes of rank `r` down to rank 0, concatenated from the top.
    pub closed spec fn lanes_from(&self, r: int) -> Seq<PrioritizedMessage>
        decreases r + 1,
    {
        if r < 0 {
            Seq::empty()
        } else {
            self.lane(r) + self.lanes_from(r - 1)
        }
    }

    /// All waiting payloads in the order `pop` hands them out: highest
    /// priority first, oldest first within a priority.
    pub open spec fn items(&self) -> Seq<PrioritizedMessage> {
        self.lane(4) + self.lane(3) + self.lane(2) + self.lane(1) + self.lane(0)
    }

    proof fn lemma_items(&self)
        ensures
            self.items() == self.lanes_from(4),
    {
        reveal_with_fuel(PriorityQueue::lanes_from, 6);
        assert(self.lanes_from(-1) =~= Seq::<PrioritizedMessage>::empty());
        assert(self.lanes_from(0) =~= self.lane(0));
        assert(self.items() =~= self.lanes_from(4));
    }

    pub closed spec fn spec_capacity(&self) -> nat {
        self.capacity as nat
    }

    pub open spec fn spec_len(&self) -> nat {
        self.items().len()
    }

    pub closed spec fn wf(&self) -> bool {
        &&& self.lanes@.len() == PRIORITY_LEVELS
        &&& 0 < self.capacity <= MAX_QUEUE_CAPACITY
        &&& forall|r: int| 0 <= r < 5 ==> fifo_capacity(#[trigger] self.lanes@[r]) == self.capacity
        &&& forall|r: int| 0 <= r < 5 ==> all_at_rank(#[trigger] self.lane(r), r as nat)
        &&& self.len == self.items().len()
        &&& self.len <= self.capacity
    }

    proof fn lemma_lanes_from_agree(a: &Self, b: &Self, r: int)
        requires
            forall|k: int| 0 <= k <= r ==> #[trigger] a.lane(k) == b.lane(k),
        ensures
            a.lanes_from(r) == b.lanes_from(r),
        decreases r + 1,
    {
        if r >= 0 {
            Self::lemma_lanes_from_agree(a, b, r - 1);
            assert(a.lane(r) == b.lane(r));
        }
    }

    proof fn lemma_skip_empty(&self, r: int)
        requires
            0 <= r <= 4,
            forall|k: int| r < k <= 4 ==> (#[trigger] self.lane(k)).len() == 0,
        ensures
            self.lanes_from(4) == self.lanes_from(r),
        decreases 4 - r,
    {
        if r < 4 {
            self.lemma_skip_empty(r + 1);
            assert(self.lane(r + 1).len() == 0);
            assert(self.lanes_from(r + 1) =~= self.lanes_from(r));
        }
    }

    proof fn lemma_lane_within(&self, k: int, r: int)
        requires
            0 <= k <= r,
        ensures
            self.lane(k).len() <= self.lanes_from(r).len(),
        decreases r,
    {
        if k < r {
            self.lemma_lane_within(k, r - 1);
        }
    }

    proof fn lemma_push_len(a: &Self, b: &Self, j: int, m: PrioritizedMessage, r: int)
        requires
            0 <= j,
            b.lane(j) == a.lane(j).push(m),
            forall|k: int| 0 <= k <= r && k != j ==> #[trigger] b.lane(k) == a.lane(k),
        ensures
            b.lanes_from(r).len() == a.lanes_from(r).len() + (if r >= j { 1int } else { 0int }),
        decreases r + 1,
    {
        if r >= 0 {
            Self::lemma_push_len(a, b, j, m, r - 1);
            if r != j {
                assert(b.lane(r) == a.lane(r));
            }
        }
    }

    proof fn lemma_lanes_from_ordered(&self, r: int)
        requires
            r <= 4,
            forall|k: int| 0 <= k < 5 ==> all_at_rank(#[trigger] self.lane(k), k as nat),
        ensures
            non_increasing(self.lanes_from(r)),
            forall|i: int|
                0 <= i < self.lanes_from(r).len() ==> (#[trigger] self.lanes_from(r)[i]).priority.spec_rank()
                    <= r,
        decreases r + 1,
    {
        if r >= 0 {
            self.lemma_lanes_from_ordered(r - 1);
            let top = self.lane(r);
            let rest = self.lanes_from(r - 1);
            let s = self.lanes_from(r);
            assert(s == top + rest);
            assert(all_at_rank(top, r as nat));
            assert forall|i: int| 0 <= i < s.len() implies (#[trigger] s[i]).priority.spec_rank() <= r by {
                if i < top.len() {
                    assert(s[i] == top[i]);
                } else {
                    assert(s[i] == rest[i - top.len()]);
                }
            }
            assert forall|i: int, j: int| 0 <= i < j < s.len() implies #[trigger] s[i].priority.spec_rank()
                >= #[trigger] s[j].priority.spec_rank() by {
                if j < top.len() {
                    assert(s[i] == top[i]);
                    assert(s[j] == top[j]);
                } else if i < top.len() {
                    assert(s[i] == top[i]);
                    assert(s[j] == rest[j - top.len()]);
                } else {
                    assert(s[i] == rest[i - top.len()]);
                    assert(s[j] == rest[j - top.len()]);
                }
            }
        }
    }

    /// An empty queue that holds at most `capacity` payloads.
    pub fn new(capacity: usize) -> (q: Self)
        requires
            0 < capacity <= MAX_QUEUE_CAPACITY,
        ensures
            q.wf(),
            q.spec_capacity() == capacity,
            q.items() == Seq::<PrioritizedMessage>::empty(),
            forall|k: int| 0 <= k < 5 ==> #[trigger] q.lane(k) == Seq::<PrioritizedMessage>::empty(),
    {
        let mut lanes: Vec<ArrayQueue<PrioritizedMessage>> = Vec::new();
        let mut r: usize = 0;
        while r < PRIORITY_LEVELS
            invariant
                r <= PRIORITY_LEVELS,
                lanes@.len() == r,
                0 < capacity <= MAX_QUEUE_CAPACITY,
                forall|k: int| 0 <= k < r ==> fifo_capacity(#[trigger] lanes@[k]) == capacity,
                forall|k: int|
                    0 <= k < r ==> fifo_items(#[trigger] lanes@[k]) == Seq::<PrioritizedMessage>::empty(),
            decreases PRIORITY_LEVELS - r,
        {
            lanes.push(fifo_new(capacity));
            r = r + 1;
        }
        let q = PriorityQueue { lanes, len: 0, capacity };
        proof {
            assert forall|k: int| 0 <= k < 5 implies #[trigger] q.lane(k) == Seq::<PrioritizedMessage>::empty() by {
                assert(fifo_items(q.lanes@[k]) == Seq::<PrioritizedMessage>::empty());
            }
            q.lemma_skip_empty(0);
            q.lemma_items();
            assert(q.lanes_from(-1) =~= Seq::<PrioritizedMessage>::empty());
            assert(q.lanes_from(0) =~= Seq::<PrioritizedMessage>::empty());
        }
        q
    }

    pub fn capacity(&self) -> (r: usize)
        requires
            self.wf(),
        ensures
            r == self.spec_capacity(),
    {
        self.capacity
    }

    pub fn len(&self) -> (r: usize)
        requires
            self.wf(),
        ensures
            r == self.spec_len(),
    {
        self.len
    }

    pub fn is_empty(&self) -> (r: bool)
        requires
            self.wf(),
        ensures
            r == (self.spec_len() == 0),
    {
        self.len == 0
    }

    /// Queues `m` behind every waiting payload of equal or higher priority.
    /// A full queue refuses `m` and hands it back unchanged; it never blocks.
    pub fn push(&mut self, m: PrioritizedMessage) -> (r: PushResult)
        requires
            old(self).wf(),
        ensures
            final(self).wf(),
            final(self).spec_capacity() == old(self).spec_capacity(),
            old(self).spec_len() < old(self).spec_capacity() ==> {
                &&& r is Ok
                &&& final(self).lane(m.priority.spec_rank() as int) == old(self).lane(
                    m.priority.spec_rank() as int,
                ).push(m)
                &&& forall|k: int|
                    0 <= k < 5 && k != m.priority.spec_rank() ==> #[trigger] final(self).lane(k)
                        == old(self).lane(k)
                &&& final(self).spec_len() == old(self).spec_len() + 1
            },
            old(self).spec_len() >= old(self).spec_capacity() ==> {
                &&& r == PushResult::Err(m)
                &&& *final(self) == *old(self)
            },
    {
        if self.len >= self.capacity {
            return Err(m);
        }
        let rank = m.priority.rank();
        let ghost before = *self;
        let ghost mm = m;
        proof {
            self.lemma_items();
            self.lemma_lane_within(rank as int, 4);
        }
        let res = fifo_push(&mut self.lanes[rank], m);
        self.len = self.len + 1;
        proof {
            assert forall|k: int| 0 <= k < 5 && k != rank implies #[trigger] self.lane(k) == before.lane(k) by {
                assert(self.lanes@[k] == before.lanes@[k]);
            }
            assert(self.lane(rank as int) == before.lane(rank as int).push(mm));
            Self::lemma_push_len(&before, self, rank as int, mm, 4);
            self.lemma_items();
            assert forall|k: int| 0 <= k < 5 implies all_at_rank(#[trigger] self.lane(k), k as nat) by {
                if k != rank {
                    assert(self.lane(k) == before.lane(k));
                } else {
                    assert(all_at_rank(before.lane(k), k as nat));
                    let s = self.lane(k);
                    assert forall|i: int| 0 <= i < s.len() implies (#[trigger] s[i]).priority.spec_rank()
                        == k as nat by {
                        if i < before.lane(k).len() {
                            assert(s[i] == before.lane(k)[i]);
                        }
                    }
                }
            }
            assert forall|k: int| 0 <= k < 5 implies fifo_capacity(#[trigger] self.lanes@[k]) == self.capacity by {
                if k != rank {
                    assert(self.lanes@[k] == before.lanes@[k]);
                }
            }
        }
        match res {
            Ok(()) => Ok(()),
            Err(back) => Err(back),
        }
    }

    /// Removes and returns the first payload of `items()`: the oldest of the
    /// highest priority present. `None` when the queue is empty.
    pub fn pop(&mut self) -> (r: Option<PrioritizedMessage>)
        requires
            old(self).wf(),
        ensures
            final(self).wf(),
            final(self).spec_capacity() == old(self).spec_capacity(),
            old(self).spec_len() == 0 ==> r is None && final(self).items() == old(self).items(),
            old(self).spec_len() > 0 ==> r == Some(old(self).items()[0]) && final(self).items()
                == old(self).items().drop_first(),
    {
        let ghost before = *self;
        proof {
            before.lemma_items();
        }
        let mut rank: usize = PRIORITY_LEVELS;
        while rank > 0
            invariant
                rank <= PRIORITY_LEVELS,
                self.lanes@ == before.lanes@,
                self.len == before.len,
                self.capacity == before.capacity,
                before == *old(self),
                before.wf(),
                forall|k: int| rank <= k < 5 ==> (#[trigger] before.lane(k)).len() == 0,
            decreases rank,
        {
            let r = rank - 1;
            let got = fifo_pop(&mut self.lanes[r]);
            match got {
                Some(m) => {
                    proof {
                        before.lemma_items();
                        before.lemma_skip_empty(r as int);
                        assert(before.items() == before.lane(r as int) + before.lanes_from(r - 1));
                    }
                    self.len = self.len - 1;
                    proof {
                        assert(self.capacity == before.capacity);
                        assert forall|k: int| 0 <= k < 5 && k != r implies #[trigger] self.lane(k) == before.lane(k) by {
                            assert(self.lanes@[k] == before.lanes@[k]);
                        }
                        assert forall|k: int| r < k <= 4 implies (#[trigger] self.lane(k)).len() == 0 by {
                            assert(self.lane(k) == before.lane(k));
                        }
                        self.lemma_skip_empty(r as int);
                        self.lemma_items();
                        Self::lemma_lanes_from_agree(self, &before, r - 1);
                        let top = before.lane(r as int);
                        let rest = before.lanes_from(r - 1);
                        assert(before.items() == top + rest);
                        assert(self.items() == top.drop_first() + rest);
                        assert(self.items() =~= before.items().drop_first());
                        assert(before.items()[0] == top[0]);
                        assert forall|k: int| 0 <= k < 5 implies all_at_rank(#[trigger] self.lane(k), k as nat) by {
                            if k != r {
                                assert(self.lane(k) == before.lane(k));
                            } else {
                                assert(all_at_rank(before.lane(k), k as nat));
                                let s = self.lane(k);
                                assert forall|i: int| 0 <= i < s.len() implies (#[trigger] s[i]).priority.spec_rank()
                                    == k as nat by {
                                    assert(s[i] == before.lane(k)[i + 1]);
                                }
                            }
                        }
                        assert forall|k: int| 0 <= k < 5 implies fifo_capacity(#[trigger] self.lanes@[k]) == self.capacity by {
                            if k != r {
                                assert(self.lanes@[k] == before.lanes@[k]);
                            }
                        }
                        assert(self.len == self.items().len());
                        assert(self.wf());
                    }
                    return Some(m);
                },
                None => {
                    proof {
                        assert(self.lanes@ =~= before.lanes@);
                    }
                },
            }
            rank = r;
        }
        proof {
            before.lemma_skip_empty(0);
            assert(before.lanes_from(-1) =~= Seq::<PrioritizedMessage>::empty());
            assert forall|k: int| 0 <= k <= 4 implies #[trigger] self.lane(k) == before.lane(k) by {
                assert(self.lanes@[k] == before.lanes@[k]);
            }
            Self::lemma_lanes_from_agree(self, &before, 4);
            self.lemma_items();
        }
        None
    }

    /// Removes every waiting payload and returns them in the order `pop`
    /// would have handed them out.
    pub fn drain(&mut self) -> (r: Vec<PrioritizedMessage>)
        requires
            old(self).wf(),
        ensures
            final(self).wf(),
            final(self).spec_capacity() == old(self).spec_capacity(),
            final(self).spec_len() == 0,
            r@ == old(self).items(),
    {
        let ghost start = self.items();
        let mut out: Vec<PrioritizedMessage> = Vec::new();
        while self.len > 0
            invariant
                self.wf(),
                self.spec_capacity() == old(self).spec_capacity(),
                start == out@ + self.items(),
            decreases self.spec_len(),
        {
            let ghost rest = self.items();
            match self.pop() {
                Some(m) => {
                    out.push(m);
                    proof {
                        assert(start =~= out@ + self.items());
                    }
                },
                None => {},
            }
        }
        proof {
            assert(start =~= out@);
        }
        out
    }
}

/// Whatever was pushed, the payloads `pop` hands out, taken in turn until
/// the queue is empty, never rise in priority.
pub proof fn lemma_dispatch_order(q: &PriorityQueue)
    requires
        q.wf(),
    ensures
        non_increasing(q.items()),
{
    q.lemma_lanes_from_ordered(4);
    q.lemma_items();
}

/// Each lane of a queue holds exactly the payloads of its rank among
/// `items()`, in the same order.
pub proof fn lemma_lanes_are_ranks(q: &PriorityQueue)
    requires
        q.wf(),
    ensures
        forall|k: int| 0 <= k < 5 ==> #[trigger] q.lane(k) == at_rank(q.items(), k as nat),
        q.items() == by_priority(q.items()),
{
    assert forall|k: int| 0 <= k < 5 implies #[trigger] q.lane(k) == at_rank(q.items(), k as nat) by {
        let kk = k as nat;
        lemma_at_rank_concat(q.lane(4) + q.lane(3) + q.lane(2) + q.lane(1), q.lane(0), kk);
        lemma_at_rank_concat(q.lane(4) + q.lane(3) + q.lane(2), q.lane(1), kk);
        lemma_at_rank_concat(q.lane(4) + q.lane(3), q.lane(2), kk);
        lemma_at_rank_concat(q.lane(4), q.lane(3), kk);
        lemma_at_rank_uniform(q.lane(0), 0, kk);
        lemma_at_rank_uniform(q.lane(1), 1, kk);
        lemma_at_rank_uniform(q.lane(2), 2, kk);
        lemma_at_rank_uniform(q.lane(3), 3, kk);
        lemma_at_rank_uniform(q.lane(4), 4, kk);
        assert(at_rank(q.items(), kk) =~= q.lane(k));
    }
    assert(q.lane(4) == at_rank(q.items(), 4));
    assert(q.lane(3) == at_rank(q.items(), 3));
    assert(q.lane(2) == at_rank(q.items(), 2));
    assert(q.lane(1) == at_rank(q.items(), 1));
    assert(q.lane(0) == at_rank(q.items(), 0));
}

/// A queue never holds more payloads than its capacity.
pub proof fn lemma_bounded(q: &PriorityQueue)
    requires
        q.wf(),
    ensures
        q.spec_len() <= q.spec_capacity(),
{
}

} // verus!
