//! The slot allocator of the arena: a power-of-two number of slots, each
//! 64 blocks of 64 bytes, with a free-block bitmap, a free-block count and a
//! lock byte per slot. This module decides where a value of a given size and
//! alignment goes and gives its blocks back; the memory itself is handled by
//! the caller.

use vstd::prelude::*;
use vstd::std_specs::bits::{u64_trailing_zeros, axiom_u64_trailing_zeros};
use crate::bits::{BLOCK_SIZE, bit_set, fits_at, find_blocks, is_pow2};

verus! {

/// Number of slots an arena gets when none is asked for.
pub const DEFAULT_ARENA_SLOTS: usize = 64;

/// Bytes in one slot: 64 blocks.
pub const SLOT_SIZE: usize = 4096;

/// Lock, free-block count and free-block bitmap of one slot.
#[derive(Clone, Copy, PartialEq, Eq, Structural, Debug)]
pub struct SlotState {
    pub lock: u8,
    pub cap: u8,
    pub bitmap: u64,
}

/// A fresh slot: unlocked, all 64 blocks free.
pub open spec fn fresh_slot() -> SlotState {
    SlotState { lock: 0, cap: 64, bitmap: 0xffff_ffff_ffff_ffffu64 }
}

/// Number of blocks a value of `size` bytes occupies.
pub open spec fn blocks_for(size: int) -> int {
    (size + BLOCK_SIZE - 1) / BLOCK_SIZE as int
}

/// The bit mask of blocks `pos .. pos + n`.
pub open spec fn run_mask(pos: int, n: int) -> u64 {
    if n >= 64 {
        0xffff_ffff_ffff_ffffu64
    } else {
        (!(0xffff_ffff_ffff_ffffu64 << (n as u64))) << (pos as u64)
    }
}

/// A slot in which a request of `n` blocks at alignment `align` succeeds
/// (a request of all 64 blocks is granted on the free count alone).
pub open spec fn usable(s: SlotState, n: int, align: usize) -> bool {
    &&& s.lock == 0
    &&& s.cap >= n
    &&& (n >= 64 || exists|p: int| fits_at(s.bitmap, n, align, p))
}

/// What a visit that does not allocate leaves of a slot: a slot that was
/// unlocked and counted enough free blocks, but had no fitting run, stays
/// locked.
pub open spec fn after_miss(s: SlotState, n: int) -> SlotState {
    if s.lock == 0 && s.cap >= n {
        SlotState { lock: 1, ..s }
    } else {
        s
    }
}

/// A slot after `n` blocks starting at `pos` were taken from it.
pub open spec fn taken(s: SlotState, pos: int, n: int) -> SlotState {
    SlotState { lock: s.lock, cap: (s.cap - n) as u8, bitmap: s.bitmap & !run_mask(pos, n) }
}

/// A slot after the blocks of `mask` (`n` of them) were given back.
pub open spec fn given_back(s: SlotState, mask: u64, n: u8) -> SlotState {
    SlotState { lock: s.lock, cap: ((s.cap + n) % 256) as u8, bitmap: s.bitmap | mask }
}

/// No slot of `before` could take `n` blocks at `align`, and each was left
/// as a visit that does not allocate leaves it.
pub open spec fn missed_all(before: Seq<SlotState>, after: Seq<SlotState>, n: int, align: usize) -> bool {
    &&& after.len() == before.len()
    &&& forall|j: int|
        0 <= j < before.len() ==> !usable(#[trigger] before[j], n, align) && after[j] == after_miss(
            before[j],
            n,
        )
}

/// Every slot's free count is the number of its free blocks.
pub open spec fn counts_consistent(slots: Seq<SlotState>) -> bool {
    forall|j: int| 0 <= j < slots.len() ==> count_consistent(#[trigger] slots[j])
}

/// The slot in which the search of an arena of `len` slots starts.
pub open spec fn start_slot(len: nat, rand_idx: usize) -> int {
    (rand_idx & ((len - 1) as usize)) as int
}

/// The step (from 1 to `len`) at which the search that starts at `start`
/// first visits slot `j`: it goes upward from `start + 1`, wraps round, and
/// ends at `start`.
pub open spec fn visit_step(len: int, start: int, j: int) -> int {
    if j > start {
        j - start
    } else {
        j - start + len
    }
}

/// The slot visited at step `t` of a search that starts at `start`.
pub open spec fn visit_slot(len: int, start: int, t: int) -> int {
    if start + t < len {
        start + t
    } else if start + t < 2 * len {
        start + t - len
    } else {
        start + t - 2 * len
    }
}

/// Where an allocation lives.
#[derive(Clone, Copy, PartialEq, Eq, Structural, Debug)]
pub enum Location {
    /// In its own heap allocation (too large for a slot, or no slot fitted).
    Heap,
    /// Nowhere: a zero-sized value.
    Dangling,
    /// In slot `slot`, starting at block `block`.
    Block { slot: usize, block: usize },
}

/// What is needed to give an allocation back.
#[derive(Clone, Copy, PartialEq, Eq, Structural, Debug)]
pub struct Metadata {
    pub drop_mask: u64,
    pub n_blocks: u8,
    pub slot: usize,
    pub is_heap: bool,
}

/// An allocation made by the arena: where the value lives, and its metadata.
pub struct ArenaBox {
    pub location: Location,
    pub drop_mask: u64,
    pub n_blocks: u8,
    pub slot: usize,
    pub is_heap: bool,
}

impl ArenaBox {
    /// The metadata of this allocation.
    pub fn metadata(&self) -> (m: Metadata)
        ensures
            m.drop_mask == self.drop_mask,
            m.n_blocks == self.n_blocks,
            m.slot == self.slot,
            m.is_heap == self.is_heap,
    {
        Metadata {
            drop_mask: self.drop_mask,
            n_blocks: self.n_blocks,
            slot: self.slot,
            is_heap: self.is_heap,
        }
    }

    /// Rebuilds an allocation from its location and metadata.
    pub fn from_raw(location: Location, data: Metadata) -> (b: ArenaBox)
        ensures
            b.location == location,
            b.drop_mask == data.drop_mask,
            b.n_blocks == data.n_blocks,
            b.slot == data.slot,
            b.is_heap == data.is_heap,
    {
        ArenaBox {
            location,
            drop_mask: data.drop_mask,
            n_blocks: data.n_blocks,
            slot: data.slot,
            is_heap: data.is_heap,
        }
    }

    fn heap() -> (b: ArenaBox)
        ensures
            b.location == Location::Heap,
            b.drop_mask == 0,
            b.n_blocks == 0,
            b.slot == 0,
            b.is_heap,
    {
        ArenaBox { location: Location::Heap, drop_mask: 0, n_blocks: 0, slot: 0, is_heap: true }
    }
}

/// The slot states of an arena.
pub struct Arena {
    slots: Vec<SlotState>,
    mask: usize,
}

impl View for Arena {
    type V = Seq<SlotState>;

    closed spec fn view(&self) -> Seq<SlotState> {
        self.slots@
    }
}

proof fn lemma_mask_step(x: usize, mask: usize)
    by (bit_vector)
    requires
        mask & ((mask + 1) as usize) == 0,
        x <= mask,
    ensures
        x < mask ==> ((x + 1) as usize) & mask == (x + 1) as usize,
        x == mask ==> ((x + 1) as usize) & mask == 0,
{
}

proof fn lemma_and_comm(x: usize, y: usize)
    by (bit_vector)
    ensures
        x & y == y & x,
{
}

proof fn lemma_low_mask(n: u64)
    by (bit_vector)
    requires
        1 <= n < 64,
    ensures
        (1u64 << n) >= 1,
        ((1u64 << n) - 1u64) as u64 == !(0xffff_ffff_ffff_ffffu64 << n),
{
}

proof fn lemma_and_le(x: usize, mask: usize)
    by (bit_vector)
    ensures
        x & mask <= mask,
{
}

proof fn lemma_run_mask_bits(pos: u64, n: u64, i: u64)
    by (bit_vector)
    requires
        1 <= n < 64,
        pos + n <= 64,
        i < 64,
    ensures
        (((!(0xffff_ffff_ffff_ffffu64 << n)) << pos) >> i) & 1u64 == 1u64 <==> (pos <= i && i < pos
            + n),
{
}

proof fn lemma_full_bits(i: u64)
    by (bit_vector)
    requires
        i < 64,
    ensures
        (0xffff_ffff_ffff_ffffu64 >> i) & 1u64 == 1u64,
{
}

proof fn lemma_andnot_bit(b: u64, m: u64, i: u64)
    by (bit_vector)
    requires
        i < 64,
    ensures
        ((b & !m) >> i) & 1u64 == 1u64 <==> ((b >> i) & 1u64 == 1u64 && !((m >> i) & 1u64
            == 1u64)),
{
}

proof fn lemma_or_bit(b: u64, m: u64, i: u64)
    by (bit_vector)
    requires
        i < 64,
    ensures
        ((b | m) >> i) & 1u64 == 1u64 <==> ((b >> i) & 1u64 == 1u64 || (m >> i) & 1u64 == 1u64),
{
}

proof fn lemma_xor_bit(x: u64, y: u64, i: u64)
    by (bit_vector)
    requires
        i < 64,
    ensures
        ((x ^ y) >> i) & 1u64 == 1u64 <==> ((x >> i) & 1u64 == 1u64) != ((y >> i) & 1u64
            == 1u64),
{
}

proof fn lemma_xor_zero(x: u64, y: u64)
    by (bit_vector)
    requires
        x ^ y == 0,
    ensures
        x == y,
{
}

/// Two words with the same bits are equal.
pub proof fn lemma_bits_ext(x: u64, y: u64)
    requires
        forall|i: int| 0 <= i < 64 ==> (#[trigger] bit_set(x, i) <==> bit_set(y, i)),
    ensures
        x == y,
{
    let z = x ^ y;
    if z != 0 {
        axiom_u64_trailing_zeros(z);
        let t = u64_trailing_zeros(z);
        lemma_xor_bit(x, y, t as u64);
        assert(bit_set(x, t as int) != bit_set(y, t as int));
    }
    lemma_xor_zero(x, y);
}

/// The bits of `run_mask(pos, n)` are exactly blocks `pos .. pos + n`.
pub proof fn lemma_run_mask(pos: int, n: int)
    requires
        1 <= n,
        0 <= pos,
        pos + n <= 64,
    ensures
        forall|i: int| 0 <= i < 64 ==> (#[trigger] bit_set(run_mask(pos, n), i) <==> (pos <= i
            < pos + n)),
{
    assert forall|i: int| 0 <= i < 64 implies (#[trigger] bit_set(run_mask(pos, n), i) <==> (pos
        <= i < pos + n)) by {
        if n >= 64 {
            lemma_full_bits(i as u64);
        } else {
            lemma_run_mask_bits(pos as u64, n as u64, i as u64);
        }
    }
}

impl Arena {
    /// Well-formed: a power-of-two number of slots, `mask` one less than it,
    /// and every lock byte either 0 or 1.
    pub closed spec fn wf(&self) -> bool {
        &&& self.slots@.len() == self.mask + 1
        &&& self.mask < usize::MAX
        &&& self.mask & ((self.mask + 1) as usize) == 0
        &&& forall|j: int| 0 <= j < self.slots@.len() ==> #[trigger] self.slots@[j].lock <= 1
    }

    /// Every well-formed arena has a power-of-two, non-zero number of slots.
    pub proof fn lemma_wf_len(&self)
        requires
            self.wf(),
        ensures
            self@.len() >= 1,
            is_pow2(self@.len() as usize),
            forall|j: int| 0 <= j < self@.len() ==> #[trigger] self@[j].lock <= 1,
    {
        assert(self.mask + 1 == self@.len());
        lemma_and_comm(self.mask, (self.mask + 1) as usize);
    }

    /// Builds the slot states of an arena of `n` slots, or of
    /// `DEFAULT_ARENA_SLOTS` slots when `n` is zero.
    pub fn new(n: usize) -> (a: Arena)
        requires
            n == 0 || is_pow2(n),
            n * SLOT_SIZE <= isize::MAX,
        ensures
            a.wf(),
            a@.len() == (if n == 0 { DEFAULT_ARENA_SLOTS } else { n }),
            forall|j: int| 0 <= j < a@.len() ==> #[trigger] a@[j] == fresh_slot(),
            counts_consistent(a@),
    {
        let size = if n == 0 {
            DEFAULT_ARENA_SLOTS
        } else {
            n
        };
        proof {
            if n == 0 {
                assert(is_pow2(64usize)) by (bit_vector);
            }
        }
        let a = Self::with_slots(size);
        proof {
            lemma_fresh_slot_consistent();
        }
        a
    }

    /// Builds `size` fresh slots; `size` must be a power of two whose slots
    /// fit in the address space.
    pub fn with_slots(size: usize) -> (a: Arena)
        requires
            is_pow2(size),
            size * SLOT_SIZE <= isize::MAX,
        ensures
            a.wf(),
            a@.len() == size,
            forall|j: int| 0 <= j < a@.len() ==> #[trigger] a@[j] == fresh_slot(),
    {
        let mut slots: Vec<SlotState> = Vec::with_capacity(size);
        let mut i: usize = 0;
        while i < size
            invariant
                i <= size,
                slots@.len() == i,
                forall|j: int| 0 <= j < i ==> #[trigger] slots@[j] == fresh_slot(),
            decreases size - i,
        {
            slots.push(SlotState { lock: 0, cap: 64, bitmap: u64::MAX });
            i = i + 1;
        }
        let mask = size - 1;
        proof {
            assert(mask + 1 == size);
            assert((mask + 1) as usize == size);
            lemma_and_comm(mask, size);
        }
        Arena { slots, mask }
    }
}

impl Arena {
    /// Number of slots.
    pub fn slot_count(&self) -> (n: usize)
        ensures
            n == self@.len(),
    {
        self.slots.len()
    }

    /// The state of slot `i`.
    pub fn slot(&self, i: usize) -> (s: SlotState)
        requires
            i < self@.len(),
        ensures
            s == self@[i as int],
    {
        self.slots[i]
    }
}

impl Arena {
    /// Chooses where a value of `size` bytes with alignment `align` goes, and
    /// takes its blocks. Values larger than a slot go to the heap, zero-sized
    /// values nowhere. Otherwise the slots are searched from the one after
    /// `rand_idx & mask`, upward and round, and the first slot that is
    /// unlocked, counts enough free blocks and has a fitting run gets the
    /// value at its lowest fitting block; a slot that counts enough blocks
    /// but has no fitting run is left locked. When no slot fits, the value
    /// goes to the heap.
    pub fn arena_alloc(&mut self, rand_idx: usize, size: usize, align: usize) -> (b: ArenaBox)
        requires
            old(self).wf(),
            is_pow2(align),
            size % align == 0,
            SLOT_SIZE - BLOCK_SIZE < size <= SLOT_SIZE ==> forall|j: int|
                0 <= j < old(self)@.len() ==> !usable(#[trigger] old(self)@[j], 64, align),
        ensures
            final(self).wf(),
            final(self)@.len() == old(self)@.len(),
            forall|j: int|
                0 <= j < old(self)@.len() && count_consistent(#[trigger] old(self)@[j])
                    ==> count_consistent(final(self)@[j]),
            counts_consistent(old(self)@) ==> counts_consistent(final(self)@),
            size > SLOT_SIZE ==> {
                &&& b.location == Location::Heap
                &&& b.is_heap && b.drop_mask == 0 && b.n_blocks == 0
                &&& final(self)@ == old(self)@
            },
            size == 0 ==> {
                &&& b.location == Location::Dangling
                &&& !b.is_heap && b.drop_mask == 0 && b.n_blocks == 0
                &&& final(self)@ == old(self)@
            },
            0 < size <= SLOT_SIZE ==> match b.location {
                Location::Heap => {
                    &&& b.is_heap && b.drop_mask == 0 && b.n_blocks == 0
                    &&& missed_all(old(self)@, final(self)@, blocks_for(size as int), align)
                    &&& forall|j: int, p: int|
                        #![trigger fits_at(old(self)@[j].bitmap, blocks_for(size as int), align, p)]
                        0 <= j < old(self)@.len() && old(self)@[j].lock == 0 && count_consistent(
                            old(self)@[j],
                        ) ==> !fits_at(old(self)@[j].bitmap, blocks_for(size as int), align, p)
                },
                Location::Dangling => false,
                Location::Block { slot, block } => {
                    let n = blocks_for(size as int);
                    let len = old(self)@.len() as int;
                    let start = start_slot(old(self)@.len(), rand_idx);
                    &&& slot < len
                    &&& n < 64
                    &&& usable(old(self)@[slot as int], n, align)
                    &&& fits_at(old(self)@[slot as int].bitmap, n, align, block as int)
                    &&& forall|q: int|
                        0 <= q < block ==> !fits_at(old(self)@[slot as int].bitmap, n, align, q)
                    &&& !b.is_heap && b.slot == slot && b.n_blocks == n
                    &&& b.drop_mask == run_mask(block as int, n)
                    &&& final(self)@[slot as int] == taken(old(self)@[slot as int], block as int, n)
                    &&& forall|j: int|
                        0 <= j < len && #[trigger] visit_step(len, start, j) < visit_step(
                            len,
                            start,
                            slot as int,
                        ) ==> !usable(old(self)@[j], n, align) && final(self)@[j] == after_miss(
                            old(self)@[j],
                            n,
                        )
                    &&& forall|j: int|
                        0 <= j < len && #[trigger] visit_step(len, start, j) > visit_step(
                            len,
                            start,
                            slot as int,
                        ) ==> final(self)@[j] == old(self)@[j]
                },
            },
    {
        if size > SLOT_SIZE {
            return ArenaBox::heap();
        }
        if size == 0 {
            return ArenaBox {
                location: Location::Dangling,
                drop_mask: 0,
                n_blocks: 0,
                slot: 0,
                is_heap: false,
            };
        }
        let n_blocks = ((size + BLOCK_SIZE - 1) / BLOCK_SIZE) as u8;
        proof {
            assert(align > 0);
            assert(size >= align) by (nonlinear_arith)
                requires
                    size % align == 0,
                    size > 0,
                    align > 0,
            ;
        }
        let start_idx = rand_idx & self.mask;
        proof {
            lemma_and_le(rand_idx, self.mask);
            lemma_mask_step(start_idx, self.mask);
        }
        let mut idx = (start_idx + 1) & self.mask;
        let mut loop_count: u8 = 0;
        let ghost old_slots = self.slots@;
        let ghost len = old_slots.len() as int;
        let ghost start = start_idx as int;
        let ghost n = n_blocks as int;
        let ghost mut t: int = 1;
        proof {
            if SLOT_SIZE - BLOCK_SIZE < size {
                assert forall|j: int| 0 <= j < len implies !usable(#[trigger] old_slots[j], 64, align) by {
                    assert(old_slots[j] == old(self)@[j]);
                }
            }
        }
        loop
            invariant_except_break
                loop_count == (if t <= len { 0u8 } else { 1u8 }),
            invariant
                self.wf(),
                self.mask == old(self).mask,
                self.slots@.len() == len,
                len == old(self)@.len(),
                old_slots == old(self)@,
                len == self.mask + 1,
                start == start_idx,
                start == start_slot(old(self)@.len(), rand_idx),
                0 <= start < len,
                1 <= t <= 2 * len,
                idx == visit_slot(len, start, t),
                n == n_blocks,
                n == blocks_for(size as int),
                1 <= n <= 64,
                0 < size <= SLOT_SIZE,
                is_pow2(align),
                align / BLOCK_SIZE >= 64 ==> n == 64,
                SLOT_SIZE - BLOCK_SIZE < size ==> forall|j: int|
                    0 <= j < len ==> !usable(#[trigger] old_slots[j], 64, align),
                forall|j: int|
                    0 <= j < len ==> (#[trigger] visit_step(len, start, j) < t ==> !usable(
                        old_slots[j],
                        n,
                        align,
                    ) && self.slots@[j] == after_miss(old_slots[j], n)) && (visit_step(
                        len,
                        start,
                        j,
                    ) >= t ==> self.slots@[j] == old_slots[j]),
            ensures
                t > len,
            decreases 2 * len - t,
        {
            if idx == start_idx {
                loop_count = loop_count + 1;
                if loop_count == 2 {
                    break;
                }
            }
            let state = self.slots[idx];
            proof {
                assert(visit_step(len, start, idx as int) == t || t > len);
                assert(visit_step(len, start, idx as int) <= len);
            }
            if state.lock != 1 {
                self.slots[idx] = SlotState { lock: 1, cap: state.cap, bitmap: state.bitmap };
                if state.cap < n_blocks {
                    self.slots[idx] = SlotState { lock: 0, cap: state.cap, bitmap: state.bitmap };
                } else {
                    match find_blocks(state.bitmap, n_blocks, align) {
                        Some(pos) => {
                            proof {
                                assert(t <= len);
                                assert(state == old_slots[idx as int]);
                                assert(n < 64);
                                lemma_low_mask(n_blocks as u64);
                            }
                            let mask: u64 = (1u64 << (n_blocks as u64)) - 1 << (pos as u64);
                            self.slots[idx] = SlotState {
                                lock: 0,
                                cap: state.cap - n_blocks,
                                bitmap: state.bitmap & !mask,
                            };
                            proof {
                                assert(t <= len);
                                assert(self.slots@[idx as int] == taken(old_slots[idx as int], pos as int, n));
                                assert forall|j: int| 0 <= j < len && count_consistent(
                                    #[trigger] old_slots[j],
                                ) implies count_consistent(self.slots@[j]) by {
                                    if j == idx {
                                        lemma_taken_keeps_count(old_slots[j], pos as int, n, align);
                                    } else {
                                        if visit_step(len, start, j) < t {
                                            assert(self.slots@[j] == after_miss(old_slots[j], n));
                                        } else {
                                            assert(self.slots@[j] == old_slots[j]);
                                        }
                                    }
                                }
                                if counts_consistent(old_slots) {
                                    assert forall|j: int| 0 <= j < len implies count_consistent(
                                        #[trigger] self.slots@[j],
                                    ) by {
                                        assert(count_consistent(old_slots[j]));
                                        if j == idx {
                                            assert(state == old_slots[j]);
                                            lemma_taken_keeps_count(old_slots[j], pos as int, n, align);
                                        } else {
                                            if visit_step(len, start, j) < t {
                                                assert(self.slots@[j] == after_miss(old_slots[j], n));
                                            } else {
                                                assert(self.slots@[j] == old_slots[j]);
                                            }
                                        }
                                    }
                                }
                            }
                            return ArenaBox {
                                location: Location::Block { slot: idx, block: pos },
                                drop_mask: mask,
                                n_blocks,
                                slot: idx,
                                is_heap: false,
                            };
                        },
                        None => {},
                    }
                }
            }
            proof {
                lemma_mask_step(idx, self.mask);
            }
            idx = (idx + 1) & self.mask;
            proof {
                t = t + 1;
            }
        }
        proof {
            assert forall|j: int| 0 <= j < len implies !usable(#[trigger] old_slots[j], n, align)
                && self.slots@[j] == after_miss(old_slots[j], n) by {
                assert(visit_step(len, start, j) <= len);
            }
            assert forall|j: int| 0 <= j < len && count_consistent(#[trigger] old_slots[j]) implies count_consistent(
                self.slots@[j],
            ) by {
                assert(self.slots@[j] == after_miss(old_slots[j], n));
            }
            assert forall|j: int, p: int|
                #![trigger fits_at(old_slots[j].bitmap, n, align, p)]
                0 <= j < len && old_slots[j].lock == 0 && count_consistent(old_slots[j])
                    implies !fits_at(old_slots[j].bitmap, n, align, p) by {
                if fits_at(old_slots[j].bitmap, n, align, p) {
                    lemma_fitting_slot_is_usable(old_slots[j], n, align, p);
                    assert(!usable(old_slots[j], n, align));
                }
            }
            if counts_consistent(old_slots) {
                assert forall|j: int| 0 <= j < len implies count_consistent(
                    #[trigger] self.slots@[j],
                ) by {
                    assert(count_consistent(old_slots[j]));
                    assert(self.slots@[j] == after_miss(old_slots[j], n));
                }
            }
        }
        ArenaBox::heap()
    }
}

impl ArenaBox {
    /// Gives the blocks of this allocation back to its slot: their bits are
    /// set free again and the slot's free count grows by their number (a
    /// byte that wraps, as the counter it models does). Heap and zero-sized
    /// allocations leave the arena unchanged.
    pub fn release(self, arena: &mut Arena)
        requires
            old(arena).wf(),
            !self.is_heap && self.n_blocks != 0 ==> self.slot < old(arena)@.len(),
        ensures
            final(arena).wf(),
            self.is_heap || self.n_blocks == 0 ==> final(arena)@ == old(arena)@,
            !self.is_heap && self.n_blocks != 0 ==> final(arena)@ == old(arena)@.update(
                self.slot as int,
                given_back(old(arena)@[self.slot as int], self.drop_mask, self.n_blocks),
            ),
            forall|pos: int|
                #![trigger run_mask(pos, self.n_blocks as int)]
                counts_consistent(old(arena)@) && !self.is_heap && 1 <= self.n_blocks <= 64 && 0
                    <= pos && pos + self.n_blocks <= 64 && self.drop_mask == run_mask(
                    pos,
                    self.n_blocks as int,
                ) && (forall|j: int|
                    pos <= j < pos + self.n_blocks ==> !#[trigger] bit_set(
                        old(arena)@[self.slot as int].bitmap,
                        j,
                    )) ==> counts_consistent(final(arena)@),
            forall|pos: int|
                #![trigger run_mask(pos, self.n_blocks as int)]
                count_consistent(old(arena)@[self.slot as int]) && !self.is_heap && 1
                    <= self.n_blocks <= 64 && 0 <= pos && pos + self.n_blocks <= 64
                    && self.drop_mask == run_mask(pos, self.n_blocks as int) && (forall|j: int|
                    pos <= j < pos + self.n_blocks ==> !#[trigger] bit_set(
                        old(arena)@[self.slot as int].bitmap,
                        j,
                    )) ==> count_consistent(final(arena)@[self.slot as int]),
    {
        if self.is_heap {
            return ;
        }
        if self.n_blocks == 0 {
            return ;
        }
        let state = arena.slots[self.slot];
        let ghost old_slots = arena.slots@;
        arena.slots[self.slot] = SlotState {
            lock: state.lock,
            cap: state.cap.wrapping_add(self.n_blocks),
            bitmap: state.bitmap | self.drop_mask,
        };
        proof {
            assert forall|pos: int|
                #![trigger run_mask(pos, self.n_blocks as int)]
                count_consistent(old_slots[self.slot as int]) && 1 <= self.n_blocks <= 64 && 0
                    <= pos && pos + self.n_blocks <= 64 && self.drop_mask == run_mask(
                    pos,
                    self.n_blocks as int,
                ) && (forall|j: int|
                    pos <= j < pos + self.n_blocks ==> !#[trigger] bit_set(
                        old_slots[self.slot as int].bitmap,
                        j,
                    )) implies count_consistent(arena.slots@[self.slot as int]) by {
                lemma_given_back_keeps_count(old_slots[self.slot as int], pos, self.n_blocks as int);
            }
            assert forall|pos: int|
                #![trigger run_mask(pos, self.n_blocks as int)]
                counts_consistent(old_slots) && 1 <= self.n_blocks <= 64 && 0 <= pos && pos
                    + self.n_blocks <= 64 && self.drop_mask == run_mask(pos, self.n_blocks as int)
                    && (forall|j: int|
                    pos <= j < pos + self.n_blocks ==> !#[trigger] bit_set(
                        old_slots[self.slot as int].bitmap,
                        j,
                    )) implies counts_consistent(arena.slots@) by {
                lemma_given_back_keeps_count(old_slots[self.slot as int], pos, self.n_blocks as int);
                assert forall|j: int| 0 <= j < arena.slots@.len() implies count_consistent(
                    #[trigger] arena.slots@[j],
                ) by {
                    if j != self.slot {
                        assert(count_consistent(old_slots[j]));
                    }
                }
            }
        }
    }
}

/// Giving back the blocks just taken from a slot restores the slot.
pub proof fn lemma_release_undoes_alloc(s: SlotState, pos: int, n: int, align: usize)
    requires
        1 <= n <= 64,
        s.cap >= n,
        fits_at(s.bitmap, n, align, pos),
    ensures
        given_back(taken(s, pos, n), run_mask(pos, n), n as u8) == s,
{
    lemma_run_mask(pos, n);
    let t = taken(s, pos, n);
    let b = given_back(t, run_mask(pos, n), n as u8);
    assert forall|i: int| 0 <= i < 64 implies (#[trigger] bit_set(b.bitmap, i) <==> bit_set(
        s.bitmap,
        i,
    )) by {
        lemma_or_bit(t.bitmap, run_mask(pos, n), i as u64);
        lemma_andnot_bit(s.bitmap, run_mask(pos, n), i as u64);
        assert(bit_set(run_mask(pos, n), i) <==> pos <= i < pos + n);
        if pos <= i < pos + n {
            assert(bit_set(s.bitmap, i));
        }
    }
    lemma_bits_ext(b.bitmap, s.bitmap);
}

/// Blocks taken from a slot are free before and not free after; a second
/// allocation from the same slot therefore never overlaps the first.
pub proof fn lemma_allocations_disjoint(
    s: SlotState,
    p1: int,
    n1: int,
    a1: usize,
    p2: int,
    n2: int,
    a2: usize,
)
    requires
        1 <= n1 <= 64,
        1 <= n2 <= 64,
        fits_at(s.bitmap, n1, a1, p1),
        fits_at(taken(s, p1, n1).bitmap, n2, a2, p2),
    ensures
        p1 + n1 <= p2 || p2 + n2 <= p1,
        forall|i: int| p1 <= i < p1 + n1 ==> !#[trigger] bit_set(taken(s, p1, n1).bitmap, i),
{
    lemma_run_mask(p1, n1);
    assert forall|i: int| p1 <= i < p1 + n1 implies !#[trigger] bit_set(
        taken(s, p1, n1).bitmap,
        i,
    ) by {
        lemma_andnot_bit(s.bitmap, run_mask(p1, n1), i as u64);
        assert(bit_set(run_mask(p1, n1), i));
    }
    if !(p1 + n1 <= p2 || p2 + n2 <= p1) {
        let i = if p1 <= p2 { p2 } else { p1 };
        assert(bit_set(taken(s, p1, n1).bitmap, i));
    }
}

/// Number of free blocks among blocks `0 .. k` of `bitmap`.
pub open spec fn free_count(bitmap: u64, k: int) -> int
    decreases k,
{
    if k <= 0 {
        0
    } else {
        free_count(bitmap, k - 1) + if bit_set(bitmap, k - 1) {
            1int
        } else {
            0int
        }
    }
}

/// Number of blocks of `pos .. pos + n` below `k`.
pub open spec fn run_below(pos: int, n: int, k: int) -> int {
    if k <= pos {
        0
    } else if k >= pos + n {
        n
    } else {
        k - pos
    }
}

/// A slot whose free count is the number of its free blocks.
pub open spec fn count_consistent(s: SlotState) -> bool {
    s.cap as int == free_count(s.bitmap, 64)
}

proof fn lemma_free_count_taken(b: u64, pos: int, n: int, k: int)
    requires
        1 <= n <= 64,
        0 <= pos,
        pos + n <= 64,
        0 <= k <= 64,
        forall|j: int| pos <= j < pos + n ==> #[trigger] bit_set(b, j),
    ensures
        free_count(b & !run_mask(pos, n), k) + run_below(pos, n, k) == free_count(b, k),
    decreases k,
{
    if k > 0 {
        lemma_free_count_taken(b, pos, n, k - 1);
        lemma_run_mask(pos, n);
        lemma_andnot_bit(b, run_mask(pos, n), (k - 1) as u64);
        assert(bit_set(run_mask(pos, n), k - 1) <==> pos <= k - 1 < pos + n);
    }
}

proof fn lemma_free_count_given_back(b: u64, pos: int, n: int, k: int)
    requires
        1 <= n <= 64,
        0 <= pos,
        pos + n <= 64,
        0 <= k <= 64,
        forall|j: int| pos <= j < pos + n ==> !#[trigger] bit_set(b, j),
    ensures
        free_count(b | run_mask(pos, n), k) == free_count(b, k) + run_below(pos, n, k),
    decreases k,
{
    if k > 0 {
        lemma_free_count_given_back(b, pos, n, k - 1);
        lemma_run_mask(pos, n);
        lemma_or_bit(b, run_mask(pos, n), (k - 1) as u64);
        assert(bit_set(run_mask(pos, n), k - 1) <==> pos <= k - 1 < pos + n);
    }
}

proof fn lemma_free_count_bounds(b: u64, k: int)
    requires
        0 <= k <= 64,
    ensures
        0 <= free_count(b, k) <= k,
    decreases k,
{
    if k > 0 {
        lemma_free_count_bounds(b, k - 1);
    }
}

proof fn lemma_free_count_full(k: int)
    requires
        0 <= k <= 64,
    ensures
        free_count(0xffff_ffff_ffff_ffffu64, k) == k,
    decreases k,
{
    if k > 0 {
        lemma_free_count_full(k - 1);
        lemma_full_bits((k - 1) as u64);
    }
}

/// A fresh slot counts all 64 of its blocks free.
pub proof fn lemma_fresh_slot_consistent()
    ensures
        count_consistent(fresh_slot()),
{
    lemma_free_count_full(64);
}

/// Taking a fitting run keeps a slot's free count equal to its number of
/// free blocks.
pub proof fn lemma_taken_keeps_count(s: SlotState, pos: int, n: int, align: usize)
    requires
        count_consistent(s),
        1 <= n <= 64,
        s.cap >= n,
        fits_at(s.bitmap, n, align, pos),
    ensures
        count_consistent(taken(s, pos, n)),
{
    lemma_free_count_taken(s.bitmap, pos, n, 64);
}

/// Giving back a run of blocks that are all taken keeps a slot's free count
/// equal to its number of free blocks.
pub proof fn lemma_given_back_keeps_count(s: SlotState, pos: int, n: int)
    requires
        count_consistent(s),
        1 <= n <= 64,
        0 <= pos,
        pos + n <= 64,
        forall|j: int| pos <= j < pos + n ==> !#[trigger] bit_set(s.bitmap, j),
    ensures
        count_consistent(given_back(s, run_mask(pos, n), n as u8)),
{
    lemma_free_count_given_back(s.bitmap, pos, n, 64);
    lemma_free_count_bounds(s.bitmap | run_mask(pos, n), 64);
}

proof fn lemma_free_count_run(b: u64, pos: int, n: int, k: int)
    requires
        1 <= n <= 64,
        0 <= pos,
        pos + n <= 64,
        0 <= k <= 64,
        forall|j: int| pos <= j < pos + n ==> #[trigger] bit_set(b, j),
    ensures
        free_count(b, k) >= run_below(pos, n, k),
    decreases k,
{
    if k > 0 {
        lemma_free_count_run(b, pos, n, k - 1);
        if pos <= k - 1 < pos + n {
            assert(bit_set(b, k - 1));
        }
    }
}

proof fn lemma_free_count_all(b: u64, k: int)
    requires
        0 <= k <= 64,
        free_count(b, k) == k,
    ensures
        forall|j: int| 0 <= j < k ==> #[trigger] bit_set(b, j),
    decreases k,
{
    if k > 0 {
        lemma_free_count_bounds(b, k - 1);
        lemma_free_count_all(b, k - 1);
    }
}

/// With a consistent free count, a slot that has room for `n` blocks at
/// some position counts at least `n` free blocks: checking the count first
/// never passes over a slot that fits.
pub proof fn lemma_count_filter_is_safe(s: SlotState, pos: int, n: int, align: usize)
    requires
        count_consistent(s),
        1 <= n <= 64,
        fits_at(s.bitmap, n, align, pos),
    ensures
        s.cap >= n,
{
    lemma_free_count_run(s.bitmap, pos, n, 64);
}

/// A slot that is unlocked, keeps a consistent free count and has a free,
/// aligned run of `n` blocks can take a request of `n` blocks, also when it
/// counts exactly `n` free blocks.
pub proof fn lemma_fitting_slot_is_usable(s: SlotState, n: int, align: usize, pos: int)
    requires
        s.lock == 0,
        count_consistent(s),
        1 <= n <= 64,
        fits_at(s.bitmap, n, align, pos),
    ensures
        usable(s, n, align),
{
    lemma_count_filter_is_safe(s, pos, n, align);
}

/// With a consistent free count, a slot that counts 64 free blocks is
/// entirely free.
pub proof fn lemma_full_count_means_empty_slot(s: SlotState)
    requires
        count_consistent(s),
        s.cap == 64,
    ensures
        s.bitmap == 0xffff_ffff_ffff_ffffu64,
{
    lemma_free_count_all(s.bitmap, 64);
    assert forall|i: int| 0 <= i < 64 implies (#[trigger] bit_set(s.bitmap, i) <==> bit_set(
        0xffff_ffff_ffff_ffffu64,
        i,
    )) by {
        lemma_full_bits(i as u64);
    }
    lemma_bits_ext(s.bitmap, 0xffff_ffff_ffff_ffffu64);
}

} // verus!
