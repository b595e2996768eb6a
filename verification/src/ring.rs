//! The bounded ring of tasks that the runtime's threads hand work through:
//! a power-of-two number of cells addressed by free-running counters that
//! wrap round the machine word. Producers reserve a cell, write it and
//! publish it in reservation order; consumers claim a published cell, read
//! it and release it in claim order. Each step is a function of its own, so
//! that steps of different threads may interleave.

use vstd::prelude::*;
use crate::bits::is_pow2;

verus! {

/// Capacity a ring gets when none is asked for.
pub const DEFAULT_RING_CAP: usize = 4096;

/// `base + i` taken round a ring of `cap` cells, for `base, i < cap`.
pub open spec fn wrap_index(cap: int, base: int, i: int) -> int {
    if base + i < cap {
        base + i
    } else {
        base + i - cap
    }
}

/// The distance from `head` to `tail` on the machine word's circle.
pub open spec fn ring_distance(tail: usize, head: usize) -> int {
    if tail >= head {
        tail - head
    } else {
        tail - head + usize::MAX + 1
    }
}

/// A bounded first-in first-out ring.
pub struct RawSyncRing<T> {
    ring_mask: usize,
    slots: Vec<Option<T>>,
    head: usize,
    multi_thread_head: usize,
    writers_tail: usize,
    rt_tail: usize,
    consumed_alone: Ghost<bool>,
}

proof fn lemma_inc_mask(x: usize, mask: usize)
    by (bit_vector)
    requires
        mask & ((mask + 1) as usize) == 0,
    ensures
        (x & mask) < mask ==> ((x + 1) as usize) as int == x + 1 && ((x + 1) as usize) & mask == ((x
            & mask) + 1) as usize,
        (x & mask) == mask ==> ((x + 1) as usize) & mask == 0,
{
}

proof fn lemma_and_le_mask(x: usize, mask: usize)
    by (bit_vector)
    ensures
        x & mask <= mask,
{
}

proof fn lemma_pow2_mask(cap: usize, m: usize)
    by (bit_vector)
    requires
        cap != 0,
        m == (cap - 1) as usize,
        cap & m == 0,
    ensures
        m & ((m + 1) as usize) == 0,
{
}

proof fn lemma_zero_and(mask: usize)
    by (bit_vector)
    ensures
        0usize & mask == 0,
{
}

proof fn lemma_cell(x: usize, head: usize, mask: usize)
    requires
        mask & ((mask + 1) as usize) == 0,
        ring_distance(x, head) <= mask,
    ensures
        (x & mask) as int == wrap_index(mask + 1, (head & mask) as int, ring_distance(x, head)),
    decreases ring_distance(x, head),
{
    lemma_and_le_mask(x, mask);
    lemma_and_le_mask(head, mask);
    if x != head {
        let y: usize = if x > 0 {
            (x - 1) as usize
        } else {
            usize::MAX
        };
        assert(ring_distance(y, head) == ring_distance(x, head) - 1);
        lemma_cell(y, head, mask);
        lemma_and_le_mask(y, mask);
        lemma_inc_mask(y, mask);
        lemma_zero_and(mask);
        if x > 0 {
            assert(((y + 1) as usize) == x);
        } else {
            assert(y & mask == mask);
        }
    }
}

impl<T> RawSyncRing<T> {
    /// Number of cells.
    pub closed spec fn capacity(&self) -> int {
        self.ring_mask + 1
    }

    /// How far counter value `x` is past the release counter.
    pub closed spec fn dist(&self, x: usize) -> int {
        ring_distance(x, self.head)
    }

    spec fn phys(&self, i: int) -> int {
        wrap_index(self.capacity(), (self.head & self.ring_mask) as int, i)
    }

    /// Cells claimed by consumers and not yet released.
    pub closed spec fn claimed_count(&self) -> int {
        if self.consumed_alone@ {
            0
        } else {
            self.dist(self.multi_thread_head)
        }
    }

    /// The ring is consumed through claims (`multithread_consume`) only: no
    /// `consume` has been made, which leaves the claim counter behind.
    pub closed spec fn shared_consumers(&self) -> bool {
        !self.consumed_alone@
    }

    /// Cells published: claimed ones and those waiting for a consumer.
    pub closed spec fn published_count(&self) -> int {
        self.dist(self.rt_tail)
    }

    /// Cells reserved: published ones and those being written.
    pub closed spec fn reserved_count(&self) -> int {
        self.dist(self.writers_tail)
    }

    /// The value in the cell of counter value `x`.
    pub closed spec fn cell(&self, x: usize) -> Option<T> {
        self.slots@[(x & self.ring_mask) as int]
    }

    /// `x` is a reservation not yet published.
    pub closed spec fn is_reserved(&self, x: usize) -> bool {
        self.published_count() <= self.dist(x) < self.reserved_count()
    }

    /// `x` is a claim not yet released.
    pub closed spec fn is_claimed(&self, x: usize) -> bool {
        self.dist(x) < self.claimed_count()
    }

    /// Well-formed: a power-of-two number of cells; the release, claim,
    /// publication and reservation counters in that order, at most the
    /// number of cells apart; and a value in every published, unclaimed
    /// cell.
    pub closed spec fn wf(&self) -> bool {
        &&& self.slots@.len() == self.ring_mask + 1
        &&& self.ring_mask + 1 <= isize::MAX
        &&& self.ring_mask & ((self.ring_mask + 1) as usize) == 0
        &&& 0 <= self.claimed_count() <= self.published_count() <= self.reserved_count()
            <= self.capacity()
        &&& forall|i: int|
            self.claimed_count() <= i < self.published_count() ==> #[trigger] self.slots@[self.phys(
                i,
            )] is Some
    }

    /// Well-formed, with no reservation or claim in progress.
    pub closed spec fn settled(&self) -> bool {
        &&& self.wf()
        &&& self.claimed_count() == 0
        &&& self.published_count() == self.reserved_count()
    }

    /// The counters of a well-formed ring stay in order: released, claimed,
    /// published, reserved, with at most the number of cells between the
    /// first and the last.
    pub proof fn lemma_counters_ordered(&self)
        requires
            self.wf(),
        ensures
            0 <= self.claimed_count() <= self.published_count() <= self.reserved_count()
                <= self.capacity(),
            self@.len() == self.published_count() - self.claimed_count(),
    {
    }

    /// Creates an empty ring of `cap` cells.
    pub fn new(cap: usize) -> (r: Self)
        requires
            cap <= isize::MAX,
            is_pow2(cap),
        ensures
            r.wf(),
            r.settled(),
            r.shared_consumers(),
            r@ == Seq::<T>::empty(),
            r.capacity() == cap,
    {
        let mut slots: Vec<Option<T>> = Vec::with_capacity(cap);
        let mut i: usize = 0;
        while i < cap
            invariant
                i <= cap,
                slots@.len() == i,
            decreases cap - i,
        {
            slots.push(None);
            i = i + 1;
        }
        let r = RawSyncRing {
            ring_mask: cap - 1,
            slots,
            head: 0,
            multi_thread_head: 0,
            writers_tail: 0,
            rt_tail: 0,
            consumed_alone: Ghost(false),
        };
        proof {
            assert((r.ring_mask + 1) as usize == cap);
            lemma_pow2_mask(cap, r.ring_mask);
            assert(r@ =~= Seq::<T>::empty());
        }
        r
    }

    /// Reserves the cell after the last reserved one, or returns `None` when
    /// every cell is reserved (the producer then waits for a consumer).
    pub fn reserve(&mut self) -> (r: Option<usize>)
        requires
            old(self).wf(),
        ensures
            final(self).wf(),
            final(self).shared_consumers() == old(self).shared_consumers(),
            final(self)@ == old(self)@,
            final(self).capacity() == old(self).capacity(),
            final(self).claimed_count() == old(self).claimed_count(),
            final(self).published_count() == old(self).published_count(),
            forall|y: usize| #[trigger] final(self).cell(y) == old(self).cell(y),
            forall|y: usize| #[trigger] final(self).dist(y) == old(self).dist(y),
            (r is None) == (old(self).reserved_count() == old(self).capacity()),
            r is None ==> final(self).reserved_count() == old(self).reserved_count(),
            r matches Some(x) ==> {
                &&& final(self).reserved_count() == old(self).reserved_count() + 1
                &&& final(self).dist(x) == old(self).reserved_count()
                &&& final(self).is_reserved(x)
            },
            forall|x: usize| old(self).is_reserved(x) ==> #[trigger] final(self).is_reserved(x),
            forall|x: usize| old(self).is_claimed(x) ==> #[trigger] final(self).is_claimed(x),
    {
        if self.writers_tail.wrapping_sub(self.head) >= self.ring_mask + 1 {
            return None;
        }
        let ghost old_self = *self;
        let ticket = self.writers_tail;
        proof {
            lemma_inc_mask(self.writers_tail, self.ring_mask);
        }
        self.writers_tail = self.writers_tail.wrapping_add(1);
        proof {
            assert forall|i: int|
                self.claimed_count() <= i < self.published_count() implies #[trigger] self.slots@[self.phys(
                i,
            )] is Some by {
                assert(old_self.slots@[old_self.phys(i)] is Some);
            }
        }
        Some(ticket)
    }

    /// Writes `t` into the cell of reservation `x`. No other reserved or
    /// published cell changes.
    pub fn write(&mut self, x: usize, t: T)
        requires
            old(self).wf(),
            old(self).is_reserved(x),
        ensures
            final(self).wf(),
            final(self).shared_consumers() == old(self).shared_consumers(),
            final(self)@ == old(self)@,
            final(self).capacity() == old(self).capacity(),
            final(self).claimed_count() == old(self).claimed_count(),
            final(self).published_count() == old(self).published_count(),
            final(self).reserved_count() == old(self).reserved_count(),
            final(self).cell(x) == Some(t),
            forall|y: usize| #[trigger] final(self).dist(y) == old(self).dist(y),
            forall|y: usize|
                #![trigger final(self).cell(y)]
                (old(self).is_reserved(y) || old(self).is_claimed(y)) && y != x ==> final(self).cell(
                    y,
                ) == old(self).cell(y),
            forall|y: usize| old(self).is_reserved(y) ==> #[trigger] final(self).is_reserved(y),
            forall|y: usize| old(self).is_claimed(y) ==> #[trigger] final(self).is_claimed(y),
    {
        let ghost old_self = *self;
        let pos = x & self.ring_mask;
        proof {
            lemma_cell(x, self.head, self.ring_mask);
            lemma_and_le_mask(self.head, self.ring_mask);
        }
        self.slots[pos] = Some(t);
        proof {
            assert forall|i: int|
                self.claimed_count() <= i < self.published_count() implies #[trigger] self.slots@[self.phys(
                i,
            )] is Some by {
                assert(old_self.slots@[old_self.phys(i)] is Some);
            }
            assert(self@ =~= old_self@);
            assert forall|y: usize|
                #![trigger self.cell(y)]
                (old_self.is_reserved(y) || old_self.is_claimed(y)) && y != x implies self.cell(y)
                == old_self.cell(y) by {
                lemma_cell(y, self.head, self.ring_mask);
                assert(old_self.dist(y) != old_self.dist(x));
                assert((y & self.ring_mask) != (x & self.ring_mask));
            }
        }
    }

    /// Publishes reservation `x`, whose cell is written, when it is the next
    /// one in reservation order; otherwise returns `false` and changes
    /// nothing (the producer then waits for the earlier ones).
    pub fn publish(&mut self, x: usize) -> (ok: bool)
        requires
            old(self).wf(),
            old(self).is_reserved(x),
            old(self).cell(x) is Some,
        ensures
            final(self).wf(),
            final(self).shared_consumers() == old(self).shared_consumers(),
            final(self).capacity() == old(self).capacity(),
            final(self).claimed_count() == old(self).claimed_count(),
            final(self).reserved_count() == old(self).reserved_count(),
            ok == (old(self).dist(x) == old(self).published_count()),
            !ok ==> *final(self) == *old(self),
            ok ==> final(self)@ == old(self)@.push(old(self).cell(x)->Some_0),
            ok ==> final(self).published_count() == old(self).published_count() + 1,
            forall|y: usize| #[trigger] final(self).dist(y) == old(self).dist(y),
            forall|y: usize|
                #![trigger final(self).is_reserved(y)]
                old(self).is_reserved(y) && y != x ==> final(self).is_reserved(y),
            forall|y: usize| old(self).is_claimed(y) ==> #[trigger] final(self).is_claimed(y),
            forall|y: usize| #[trigger] final(self).cell(y) == old(self).cell(y),
    {
        let ghost old_self = *self;
        if x != self.rt_tail {
            proof {
                if old_self.dist(x) == old_self.published_count() {
                    assert(x == self.rt_tail);
                }
            }
            return false;
        }
        proof {
            lemma_cell(x, self.head, self.ring_mask);
            lemma_inc_mask(self.rt_tail, self.ring_mask);
        }
        self.rt_tail = self.rt_tail.wrapping_add(1);
        proof {
            assert(self.published_count() == old_self.published_count() + 1);
            assert forall|i: int|
                self.claimed_count() <= i < self.published_count() implies #[trigger] self.slots@[self.phys(
                i,
            )] is Some by {
                if i < old_self.published_count() {
                    assert(old_self.slots@[old_self.phys(i)] is Some);
                }
            }
            assert(self@ =~= old_self@.push(old_self.cell(x)->Some_0));
            assert forall|y: usize|
                #![trigger self.is_reserved(y)]
                old_self.is_reserved(y) && y != x implies self.is_reserved(y) by {
                if self.dist(y) == old_self.published_count() {
                    assert(y == x);
                }
            }
        }
        true
    }

    /// Claims the oldest published, unclaimed cell, or returns `None` when
    /// there is none.
    pub fn claim(&mut self) -> (r: Option<usize>)
        requires
            old(self).wf(),
            old(self).shared_consumers(),
        ensures
            final(self).wf(),
            final(self).shared_consumers() == old(self).shared_consumers(),
            final(self).capacity() == old(self).capacity(),
            final(self).published_count() == old(self).published_count(),
            final(self).reserved_count() == old(self).reserved_count(),
            forall|y: usize| #[trigger] final(self).cell(y) == old(self).cell(y),
            forall|y: usize| #[trigger] final(self).dist(y) == old(self).dist(y),
            (r is None) == (old(self)@.len() == 0),
            r is None ==> final(self)@ == old(self)@ && final(self).claimed_count() == old(
                self,
            ).claimed_count(),
            r matches Some(x) ==> {
                &&& final(self)@ == old(self)@.drop_first()
                &&& final(self).claimed_count() == old(self).claimed_count() + 1
                &&& final(self).dist(x) == old(self).claimed_count()
                &&& final(self).is_claimed(x)
                &&& final(self).cell(x) == Some(old(self)@[0])
            },
            forall|y: usize| old(self).is_reserved(y) ==> #[trigger] final(self).is_reserved(y),
            forall|y: usize| old(self).is_claimed(y) ==> #[trigger] final(self).is_claimed(y),
    {
        let ghost old_self = *self;
        if self.multi_thread_head == self.rt_tail {
            return None;
        }
        proof {
            if old_self.claimed_count() == old_self.published_count() {
                assert(self.multi_thread_head == self.rt_tail);
            }
        }
        let x = self.multi_thread_head;
        proof {
            lemma_cell(x, self.head, self.ring_mask);
            lemma_inc_mask(self.multi_thread_head, self.ring_mask);
            assert(old_self.slots@[old_self.phys(old_self.claimed_count())] is Some);
        }
        self.multi_thread_head = self.multi_thread_head.wrapping_add(1);
        proof {
            assert forall|i: int|
                self.claimed_count() <= i < self.published_count() implies #[trigger] self.slots@[self.phys(
                i,
            )] is Some by {
                assert(old_self.slots@[old_self.phys(i)] is Some);
            }
            assert(self@ =~= old_self@.drop_first());
        }
        Some(x)
    }

    /// Takes the value out of the cell of claim `x`.
    pub fn read(&mut self, x: usize) -> (t: T)
        requires
            old(self).wf(),
            old(self).shared_consumers(),
            old(self).is_claimed(x),
            old(self).cell(x) is Some,
        ensures
            final(self).wf(),
            final(self).shared_consumers() == old(self).shared_consumers(),
            final(self)@ == old(self)@,
            final(self).capacity() == old(self).capacity(),
            final(self).claimed_count() == old(self).claimed_count(),
            final(self).published_count() == old(self).published_count(),
            final(self).reserved_count() == old(self).reserved_count(),
            old(self).cell(x) == Some(t),
            final(self).cell(x) is None,
            forall|y: usize| #[trigger] final(self).dist(y) == old(self).dist(y),
            forall|y: usize|
                #![trigger final(self).cell(y)]
                (old(self).is_reserved(y) || old(self).is_claimed(y)) && y != x ==> final(self).cell(
                    y,
                ) == old(self).cell(y),
            forall|y: usize| old(self).is_reserved(y) ==> #[trigger] final(self).is_reserved(y),
            forall|y: usize| old(self).is_claimed(y) ==> #[trigger] final(self).is_claimed(y),
    {
        let ghost old_self = *self;
        let pos = x & self.ring_mask;
        proof {
            lemma_cell(x, self.head, self.ring_mask);
            lemma_and_le_mask(self.head, self.ring_mask);
        }
        let t = self.slots[pos].take().unwrap();
        proof {
            assert forall|i: int|
                self.claimed_count() <= i < self.published_count() implies #[trigger] self.slots@[self.phys(
                i,
            )] is Some by {
                assert(old_self.slots@[old_self.phys(i)] is Some);
            }
            assert(self@ =~= old_self@);
            assert forall|y: usize|
                #![trigger self.cell(y)]
                (old_self.is_reserved(y) || old_self.is_claimed(y)) && y != x implies self.cell(y)
                == old_self.cell(y) by {
                lemma_cell(y, self.head, self.ring_mask);
                assert(old_self.dist(y) != old_self.dist(x));
                assert((y & self.ring_mask) != (x & self.ring_mask));
            }
        }
        t
    }

    /// Releases claim `x` when it is the oldest claim; otherwise returns
    /// `false` and changes nothing (the consumer then waits for the earlier
    /// claims). Releasing frees the cell for producers.
    pub fn release(&mut self, x: usize) -> (ok: bool)
        requires
            old(self).wf(),
            old(self).shared_consumers(),
            old(self).is_claimed(x),
        ensures
            final(self).wf(),
            final(self).shared_consumers() == old(self).shared_consumers(),
            final(self)@ == old(self)@,
            final(self).capacity() == old(self).capacity(),
            ok == (old(self).dist(x) == 0),
            !ok ==> *final(self) == *old(self),
            ok ==> final(self).claimed_count() == old(self).claimed_count() - 1,
            ok ==> final(self).published_count() == old(self).published_count() - 1,
            ok ==> final(self).reserved_count() == old(self).reserved_count() - 1,
            forall|y: usize| old(self).is_reserved(y) ==> #[trigger] final(self).is_reserved(y),
            forall|y: usize|
                #![trigger final(self).is_claimed(y)]
                old(self).is_claimed(y) && y != x ==> final(self).is_claimed(y),
            forall|y: usize| #[trigger] final(self).cell(y) == old(self).cell(y),
    {
        let ghost old_self = *self;
        if x != self.head {
            return false;
        }
        proof {
            lemma_and_le_mask(self.head, self.ring_mask);
            lemma_inc_mask(self.head, self.ring_mask);
            lemma_zero_and(self.ring_mask);
        }
        self.head = self.head.wrapping_add(1);
        proof {
            assert(self.claimed_count() == old_self.claimed_count() - 1);
            assert(self.published_count() == old_self.published_count() - 1);
            assert(self.reserved_count() == old_self.reserved_count() - 1);
            assert forall|i: int|
                self.claimed_count() <= i < self.published_count() implies #[trigger] self.slots@[self.phys(
                i,
            )] is Some by {
                assert(self.phys(i) == old_self.phys(i + 1));
                assert(old_self.slots@[old_self.phys(i + 1)] is Some);
            }
            assert forall|j: int| 0 <= j < self@.len() implies self@[j] == old_self@[j] by {
                assert(self.phys(self.claimed_count() + j) == old_self.phys(old_self.claimed_count() + j));
            }
            assert(self@ =~= old_self@);
            assert forall|y: usize| old_self.is_reserved(y) implies #[trigger] self.is_reserved(y) by {
                assert(self.dist(y) == old_self.dist(y) - 1);
            }
            assert forall|y: usize|
                #![trigger self.is_claimed(y)]
                old_self.is_claimed(y) && y != x implies self.is_claimed(y) by {
                assert(self.dist(y) == old_self.dist(y) - 1);
            }
        }
        true
    }
}

impl<T> RawSyncRing<T> {
    /// Appends `t`: reserves a cell, writes it and publishes it. The ring
    /// must have a free cell (a full ring makes the producer wait for a
    /// consumer).
    pub fn push_back(&mut self, t: T)
        requires
            old(self).settled(),
            old(self)@.len() < old(self).capacity(),
        ensures
            final(self).wf(),
            final(self).settled(),
            final(self).shared_consumers() == old(self).shared_consumers(),
            final(self).capacity() == old(self).capacity(),
            final(self)@ == old(self)@.push(t),
    {
        let r = self.reserve();
        if let Some(x) = r {
            self.write(x, t);
            let ok = self.publish(x);
            proof {
                assert(ok);
            }
        }
    }

    /// Takes the oldest item, or returns `None` when the ring is empty, for
    /// the one thread that consumes this ring: it reads the cell at the
    /// release counter and advances that counter alone. The claim counter
    /// stays where it was, so the ring is no longer fit for `claim`.
    pub fn consume(&mut self) -> (r: Option<T>)
        requires
            old(self).settled(),
        ensures
            final(self).wf(),
            final(self).settled(),
            final(self).capacity() == old(self).capacity(),
            old(self)@.len() == 0 ==> r is None && *final(self) == *old(self),
            old(self)@.len() > 0 ==> {
                &&& r == Some(old(self)@[0])
                &&& final(self)@ == old(self)@.drop_first()
                &&& !final(self).shared_consumers()
            },
    {
        let ghost old_self = *self;
        if self.head == self.rt_tail {
            return None;
        }
        let pos = self.head & self.ring_mask;
        proof {
            lemma_cell(self.head, self.head, self.ring_mask);
            lemma_and_le_mask(self.head, self.ring_mask);
            assert(old_self.slots@[old_self.phys(0)] is Some);
        }
        let t = self.slots[pos].take().unwrap();
        proof {
            lemma_inc_mask(self.head, self.ring_mask);
            lemma_zero_and(self.ring_mask);
        }
        self.head = self.head.wrapping_add(1);
        self.consumed_alone = Ghost(true);
        proof {
            assert(self.published_count() == old_self.published_count() - 1);
            assert(self.reserved_count() == old_self.reserved_count() - 1);
            assert forall|i: int|
                self.claimed_count() <= i < self.published_count() implies #[trigger] self.slots@[self.phys(
                i,
            )] is Some by {
                assert(self.phys(i) == old_self.phys(i + 1));
                assert(old_self.slots@[old_self.phys(i + 1)] is Some);
            }
            assert forall|j: int| 0 <= j < self@.len() implies self@[j] == old_self@[j + 1] by {
                assert(self.phys(j) == old_self.phys(j + 1));
            }
            assert(self@ =~= old_self@.drop_first());
        }
        Some(t)
    }

    /// Takes the oldest item for a worker thread: it claims the oldest
    /// published cell, reads it and releases it, steps that the workers take
    /// concurrently.
    pub fn multithread_consume(&mut self) -> (r: Option<T>)
        requires
            old(self).settled(),
            old(self).shared_consumers(),
        ensures
            final(self).wf(),
            final(self).settled(),
            final(self).shared_consumers(),
            final(self).capacity() == old(self).capacity(),
            old(self)@.len() == 0 ==> r is None && final(self)@ == old(self)@,
            old(self)@.len() > 0 ==> r == Some(old(self)@[0]) && final(self)@ == old(
                self,
            )@.drop_first(),
    {
        match self.claim() {
            None => None,
            Some(x) => {
                let t = self.read(x);
                let ok = self.release(x);
                proof {
                    assert(ok);
                }
                Some(t)
            },
        }
    }

    /// A settled ring is well-formed.
    pub proof fn lemma_settled_wf(&self)
        requires
            self.settled(),
        ensures
            self.wf(),
    {
    }

    /// Number of items queued.
    pub fn len(&self) -> (n: usize)
        requires
            self.settled(),
        ensures
            n == self@.len(),
    {
        self.rt_tail.wrapping_sub(self.head)
    }

    /// Number of cells.
    pub fn cap(&self) -> (n: usize)
        requires
            self.wf(),
        ensures
            n == self.capacity(),
    {
        self.ring_mask + 1
    }
}

impl<T> View for RawSyncRing<T> {
    type V = Seq<T>;

    closed spec fn view(&self) -> Seq<T> {
        Seq::new(
            (self.published_count() - self.claimed_count()) as nat,
            |i: int| self.slots@[self.phys(self.claimed_count() + i)]->Some_0,
        )
    }
}

/// The ring shared by the threads that feed one kind of task.
pub struct SyncRing<T> {
    pub ring: RawSyncRing<T>,
}

impl<T> SyncRing<T> {
    /// Creates an empty ring of `s` cells, or of `DEFAULT_RING_CAP` cells
    /// when `s` is zero.
    pub fn new(s: usize) -> (r: SyncRing<T>)
        requires
            s == 0 || (is_pow2(s) && s <= isize::MAX),
        ensures
            r.ring.wf(),
            r.ring.settled(),
            r.ring.shared_consumers(),
            r.ring@ == Seq::<T>::empty(),
            r.ring.capacity() == (if s == 0 { DEFAULT_RING_CAP } else { s }),
    {
        let cap = if s == 0 {
            DEFAULT_RING_CAP
        } else {
            s
        };
        proof {
            if s == 0 {
                assert(is_pow2(4096usize)) by (bit_vector);
            }
        }
        SyncRing { ring: RawSyncRing::new(cap) }
    }

    /// The ring itself.
    pub fn inner(&self) -> (r: &RawSyncRing<T>)
        ensures
            r == &self.ring,
    {
        &self.ring
    }
}

} // verus!
