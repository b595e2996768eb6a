//! Scheduling decisions of the runtime's threads: which idle worker to
//! rouse, how a thread spins before it parks, and how many workers there
//! are and which of them start out idle.

use vstd::prelude::*;
use vstd::std_specs::bits::{axiom_u64_trailing_zeros, axiom_u64_leading_zeros};
use crate::bits::bit_set;

verus! {

/// Most workers a runtime has: one per bit of the idle map.
pub const MAX_WORKERS: usize = 64;

/// The idle map of `count` workers, all idle: bits `0 .. count`.
pub open spec fn all_idle(count: int) -> u64 {
    if count >= 64 {
        0xffff_ffff_ffff_ffffu64
    } else {
        !(0xffff_ffff_ffff_ffffu64 << (count as u64))
    }
}

proof fn lemma_parity(order: u64)
    by (bit_vector)
    ensures
        (order & 1u64 == 0u64) <==> (order % 2 == 0),
{
}

proof fn lemma_nonzero_low_bit(x: u64)
    by (bit_vector)
    requires
        x & 1u64 != 0u64,
    ensures
        x & 1u64 == 1u64,
{
}

proof fn lemma_clear_bit(map: u64, idx: u64, i: u64)
    by (bit_vector)
    requires
        idx < 64,
        i < 64,
    ensures
        ((map & !(1u64 << idx)) >> i) & 1u64 == 1u64 <==> ((map >> i) & 1u64 == 1u64 && i != idx),
{
}

proof fn lemma_low_bits(count: u64, i: u64)
    by (bit_vector)
    requires
        count < 64,
        i < 64,
    ensures
        ((!(0xffff_ffff_ffff_ffffu64 << count)) >> i) & 1u64 == 1u64 <==> i < count,
{
}

proof fn lemma_all_bits(i: u64)
    by (bit_vector)
    requires
        i < 64,
    ensures
        (0xffff_ffff_ffff_ffffu64 >> i) & 1u64 == 1u64,
{
}

/// The bits of `all_idle(count)` are exactly the workers `0 .. count`.
pub proof fn lemma_all_idle(count: int)
    requires
        count >= 0,
    ensures
        forall|i: int| 0 <= i < 64 ==> (#[trigger] bit_set(all_idle(count), i) <==> i < count),
{
    assert forall|i: int| 0 <= i < 64 implies (#[trigger] bit_set(all_idle(count), i) <==> i
        < count) by {
        if count >= 64 {
            lemma_all_bits(i as u64);
        } else {
            lemma_low_bits(count as u64, i as u64);
        }
    }
}

/// Picks the idle worker to rouse for new work and marks it busy: the
/// lowest idle worker when `order` is even, the highest when it is odd, so
/// that successive wake-ups spread over both ends of the map. Returns the
/// worker and the new idle map, or `None` when no worker is idle.
pub fn pick_worker(order: u64, map: u64) -> (r: Option<(usize, u64)>)
    ensures
        map == 0 ==> r is None,
        map != 0 ==> r is Some,
        r matches Some((idx, new_map)) ==> {
            &&& idx < 64
            &&& bit_set(map, idx as int)
            &&& order % 2 == 0 ==> forall|j: int| 0 <= j < idx ==> !#[trigger] bit_set(map, j)
            &&& order % 2 == 1 ==> forall|j: int| idx < j < 64 ==> !#[trigger] bit_set(map, j)
            &&& forall|i: int|
                0 <= i < 64 ==> (#[trigger] bit_set(new_map, i) <==> (bit_set(map, i) && i
                    != idx))
        },
{
    if map == 0 {
        return None;
    }
    proof {
        lemma_parity(order);
    }
    let idx: usize = if (order & 1) == 0 {
        let tz = map.trailing_zeros();
        proof {
            axiom_u64_trailing_zeros(map);
            assert forall|j: int| 0 <= j < tz implies !#[trigger] bit_set(map, j) by {
                assert((map >> (j as u64)) & 1u64 == 0u64);
            }
        }
        tz as usize
    } else {
        let lz = map.leading_zeros();
        proof {
            axiom_u64_leading_zeros(map);
            assert(lz < 64);
            lemma_nonzero_low_bit(map >> ((63 - lz) as u64));
            assert(bit_set(map, 63 - lz));
            assert forall|j: int| 63 - lz < j < 64 implies !#[trigger] bit_set(map, j) by {
                assert((map >> (j as u64)) & 1u64 == 0u64);
            }
        }
        (63 - lz) as usize
    };
    let new_map = map & !(1u64 << (idx as u64));
    proof {
        assert forall|i: int| 0 <= i < 64 implies (#[trigger] bit_set(new_map, i) <==> (bit_set(
            map,
            i,
        ) && i != idx)) by {
            lemma_clear_bit(map, idx as u64, i as u64);
        }
    }
    Some((idx, new_map))
}

/// What an idle worker does on one turn of its loop.
#[derive(Clone, Copy, PartialEq, Eq, Structural, Debug)]
pub enum IdleAction {
    /// Spin once more.
    Spin,
    /// Spin, and set the worker's bit in the idle map.
    SpinAndAdvertise,
    /// Park the thread until some thread rouses it.
    Park,
}

/// A worker's idle turn: five spins, the last of which advertises the
/// worker as idle, then a park; the count starts over after the park.
pub open spec fn worker_idle_spec(count: u8) -> (u8, IdleAction) {
    if count < 5 {
        ((count + 1) as u8, if count == 4 { IdleAction::SpinAndAdvertise } else { IdleAction::Spin })
    } else {
        (0u8, IdleAction::Park)
    }
}

/// One idle turn of a worker with `count` fruitless turns behind it.
pub fn worker_idle_step(count: u8) -> (r: (u8, IdleAction))
    ensures
        r == worker_idle_spec(count),
{
    if count < 5 {
        let action = if count == 4 {
            IdleAction::SpinAndAdvertise
        } else {
            IdleAction::Spin
        };
        (count + 1, action)
    } else {
        (0, IdleAction::Park)
    }
}

/// A worker that finds no work spins four times, advertises itself idle on
/// the fifth turn and parks on the sixth: it never parks unadvertised.
pub proof fn lemma_worker_advertises_before_parking()
    ensures
        worker_idle_spec(0).1 == IdleAction::Spin,
        worker_idle_spec(1).1 == IdleAction::Spin,
        worker_idle_spec(2).1 == IdleAction::Spin,
        worker_idle_spec(3).1 == IdleAction::Spin,
        worker_idle_spec(4) == (5u8, IdleAction::SpinAndAdvertise),
        worker_idle_spec(5) == (0u8, IdleAction::Park),
        forall|c: u8| #[trigger] worker_idle_spec(c).1 == IdleAction::Park ==> c >= 5,
        forall|c: u8| c < 5 ==> #[trigger] worker_idle_spec(c).0 == c + 1,
{
}

/// One idle turn of the thread that runs `block_on`: three spins, then a
/// park on every later turn until it finds work. Returns the new count and
/// whether to park.
pub fn main_idle_step(count: u8) -> (r: (u8, bool))
    ensures
        count < 3 ==> r == ((count + 1) as u8, false),
        count >= 3 ==> r == (count, true),
{
    if count < 3 {
        (count + 1, false)
    } else {
        (count, true)
    }
}

/// The number of workers a runtime starts for `count` requested ones (at
/// most 64), and its idle map with all of them idle.
pub fn worker_plan(count: usize) -> (r: (usize, u64))
    requires
        count != 0,
    ensures
        r.0 == (if count >= MAX_WORKERS { MAX_WORKERS } else { count }),
        r.1 == all_idle(r.0 as int),
{
    if count >= MAX_WORKERS {
        (MAX_WORKERS, u64::MAX)
    } else {
        (count, !(u64::MAX << (count as u64)))
    }
}

/// Calls `num_cpus::get`, the number of logical CPUs available to this
/// process. The contract claims only what that crate documents for every
/// machine: the number is at least 1. Which number comes back depends on the
/// machine and is left unsaid.
#[verifier::external_body]
fn available_cpus() -> (n: usize)
    ensures
        n >= 1,
{
    num_cpus::get()
}

/// The worker set of the executor: one worker per available CPU, at most 64,
/// all idle at the start.
pub struct Executor {
    pub workers: usize,
    pub workers_bitmap: u64,
}

impl Executor {
    /// Plans the executor for the CPUs that the machine reports.
    pub fn new() -> (e: Executor)
        ensures
            1 <= e.workers <= MAX_WORKERS,
            e.workers_bitmap == all_idle(e.workers as int),
    {
        Self::with_cores(available_cpus())
    }

    /// Plans the executor for `cores` CPUs: `min(cores, 64)` workers.
    pub fn with_cores(cores: usize) -> (e: Executor)
        requires
            cores > 0,
        ensures
            e.workers == (if cores > MAX_WORKERS { MAX_WORKERS } else { cores }),
            e.workers_bitmap == all_idle(e.workers as int),
    {
        let mut cores = cores;
        if cores > MAX_WORKERS {
            cores = MAX_WORKERS;
        }
        let (workers, workers_bitmap) = worker_plan(cores);
        Executor { workers, workers_bitmap }
    }
}

} // verus!
