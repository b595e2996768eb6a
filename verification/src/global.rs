//! The runtime's shared state: the two task rings, the arena, the idle map
//! of the workers and its counters, with the decisions that spawning and
//! waking take on them.

use vstd::prelude::*;
use crate::arena::{Arena, SLOT_SIZE, DEFAULT_ARENA_SLOTS, fresh_slot, counts_consistent};
use crate::bits::{bit_set, is_pow2, lemma_zero_bit};
use crate::config::RT;
use crate::ring::{SyncRing, DEFAULT_RING_CAP};
use crate::task::{TaskHeader, TaskKind, fresh_header};
use crate::worker::{pick_worker, all_idle, lemma_all_idle, MAX_WORKERS};

verus! {

/// Which thread to rouse after a task was queued.
#[derive(Clone, Copy, PartialEq, Eq, Structural, Debug)]
pub enum Rouse {
    /// No worker is idle; a spinning one will find the task.
    Nobody,
    /// The thread that runs `block_on`.
    MainThread,
    /// The worker with this index.
    Worker(usize),
}

/// The worker to rouse for idle map `map` and wake-up order `order`, and
/// the idle map after it is roused.
pub open spec fn rouse_spec(order: u64, map: u64, picked: Option<(usize, u64)>) -> bool {
    &&& (map == 0) == (picked is None)
    &&& picked matches Some((idx, new_map)) ==> {
        &&& idx < 64
        &&& bit_set(map, idx as int)
        &&& order % 2 == 0 ==> forall|j: int| 0 <= j < idx ==> !#[trigger] bit_set(map, j)
        &&& order % 2 == 1 ==> forall|j: int| idx < j < 64 ==> !#[trigger] bit_set(map, j)
        &&& forall|i: int|
            0 <= i < 64 ==> (#[trigger] bit_set(new_map, i) <==> (bit_set(map, i) && i != idx))
    }
}

/// The state shared by all threads of a runtime; `T` is the task handle.
pub struct World<T> {
    pub single_thread_ring: SyncRing<T>,
    pub multi_thread_ring: SyncRing<T>,
    pub worker_count: usize,
    pub workers_bitmap: u64,
    pub global_counter_for_alternative_wake: u64,
    pub task_id: u64,
    pub task_counter: u64,
    pub arena: Arena,
}

/// A ring size that a runtime accepts: zero (for the default) or a power of
/// two that fits the address space.
pub open spec fn valid_ring_size(s: usize) -> bool {
    s == 0 || (is_pow2(s) && s <= isize::MAX)
}

/// An arena size that a runtime accepts.
pub open spec fn valid_arena_size(s: usize) -> bool {
    (s == 0 || is_pow2(s)) && s * SLOT_SIZE <= isize::MAX
}

impl<T> World<T> {
    /// Both rings and the arena are well-formed.
    pub open spec fn wf(&self) -> bool {
        &&& self.single_thread_ring.ring.settled()
        &&& self.multi_thread_ring.ring.settled()
        &&& self.multi_thread_ring.ring.shared_consumers()
        &&& self.arena.wf()
    }

    /// Only workers that exist are marked idle.
    pub open spec fn idle_within(&self) -> bool {
        forall|i: int| 0 <= i < 64 && #[trigger] bit_set(self.workers_bitmap, i) ==> i < self.worker_count
    }

    /// The state of a runtime before any task and before its workers are
    /// known: empty rings, a fresh arena, no worker, the wake-up counter at 1
    /// and no task.
    pub fn new(single_ring_s: usize, multi_ring_s: usize, arena_s: usize) -> (w: World<T>)
        requires
            valid_ring_size(single_ring_s),
            valid_ring_size(multi_ring_s),
            valid_arena_size(arena_s),
        ensures
            w.wf(),
            w.idle_within(),
            w.single_thread_ring.ring@ == Seq::<T>::empty(),
            w.multi_thread_ring.ring@ == Seq::<T>::empty(),
            w.single_thread_ring.ring.capacity() == (if single_ring_s == 0 {
                DEFAULT_RING_CAP
            } else {
                single_ring_s
            }),
            w.multi_thread_ring.ring.capacity() == (if multi_ring_s == 0 {
                DEFAULT_RING_CAP
            } else {
                multi_ring_s
            }),
            w.arena@.len() == (if arena_s == 0 { DEFAULT_ARENA_SLOTS } else { arena_s }),
            forall|j: int| 0 <= j < w.arena@.len() ==> #[trigger] w.arena@[j] == fresh_slot(),
            counts_consistent(w.arena@),
            w.worker_count == 0,
            w.workers_bitmap == 0,
            w.global_counter_for_alternative_wake == 1,
            w.task_id == 0,
            w.task_counter == 0,
    {
        let w = World {
            single_thread_ring: SyncRing::new(single_ring_s),
            multi_thread_ring: SyncRing::new(multi_ring_s),
            worker_count: 0,
            workers_bitmap: 0,
            global_counter_for_alternative_wake: 1,
            task_id: 0,
            task_counter: 0,
            arena: Arena::new(arena_s),
        };
        proof {
            assert forall|i: int| 0 <= i < 64 && #[trigger] bit_set(w.workers_bitmap, i) implies i
                < w.worker_count by {
                lemma_zero_bit(i as u64);
            }
        }
        w
    }

    /// The state a runtime planned as `rt` starts with: rings and arena of
    /// the planned sizes, and all of its workers idle.
    pub fn for_runtime(rt: &RT) -> (w: World<T>)
        requires
            valid_ring_size(rt.config.local_task_buffer_size),
            valid_ring_size(rt.config.worker_task_buffer_size),
            valid_arena_size(rt.config.arena_slots),
            1 <= rt.config.worker_count <= MAX_WORKERS,
            rt.workers_bitmap == all_idle(rt.config.worker_count as int),
        ensures
            w.wf(),
            w.idle_within(),
            w.single_thread_ring.ring@ == Seq::<T>::empty(),
            w.multi_thread_ring.ring@ == Seq::<T>::empty(),
            w.single_thread_ring.ring.capacity() == (if rt.config.local_task_buffer_size == 0 {
                DEFAULT_RING_CAP
            } else {
                rt.config.local_task_buffer_size
            }),
            w.multi_thread_ring.ring.capacity() == (if rt.config.worker_task_buffer_size == 0 {
                DEFAULT_RING_CAP
            } else {
                rt.config.worker_task_buffer_size
            }),
            w.arena@.len() == (if rt.config.arena_slots == 0 {
                DEFAULT_ARENA_SLOTS
            } else {
                rt.config.arena_slots
            }),
            forall|j: int| 0 <= j < w.arena@.len() ==> #[trigger] w.arena@[j] == fresh_slot(),
            counts_consistent(w.arena@),
            w.worker_count == rt.config.worker_count,
            w.workers_bitmap == rt.workers_bitmap,
            forall|i: int| 0 <= i < 64 ==> (#[trigger] bit_set(w.workers_bitmap, i) <==> i < w.worker_count),
            w.global_counter_for_alternative_wake == 1,
            w.task_id == 0,
            w.task_counter == 0,
    {
        let mut w = World::new(
            rt.config.local_task_buffer_size,
            rt.config.worker_task_buffer_size,
            rt.config.arena_slots,
        );
        w.worker_count = rt.config.worker_count;
        w.workers_bitmap = rt.workers_bitmap;
        proof {
            lemma_all_idle(rt.config.worker_count as int);
        }
        w
    }

    /// Counts one task less: a task has finished.
    pub fn task_finished(&mut self)
        ensures
            final(self).task_counter == old(self).task_counter.wrapping_sub(1),
            final(self).task_id == old(self).task_id,
            final(self).worker_count == old(self).worker_count,
            final(self).workers_bitmap == old(self).workers_bitmap,
            final(self).global_counter_for_alternative_wake
                == old(self).global_counter_for_alternative_wake,
            final(self).single_thread_ring == old(self).single_thread_ring,
            final(self).multi_thread_ring == old(self).multi_thread_ring,
            final(self).arena == old(self).arena,
    {
        self.task_counter = self.task_counter.wrapping_sub(1);
    }

    /// Makes a new task of kind `kind` from a fresh header carrying the next
    /// task id, and counts it.
    fn new_task<F: FnOnce(TaskHeader) -> T>(&mut self, kind: TaskKind, make: F) -> (t: T)
        requires
            make.requires((fresh_header(old(self).task_id, kind),)),
        ensures
            make.ensures((fresh_header(old(self).task_id, kind),), t),
            final(self).task_id == old(self).task_id.wrapping_add(1),
            final(self).task_counter == old(self).task_counter.wrapping_add(1),
            final(self).worker_count == old(self).worker_count,
            final(self).workers_bitmap == old(self).workers_bitmap,
            final(self).global_counter_for_alternative_wake
                == old(self).global_counter_for_alternative_wake,
            final(self).single_thread_ring == old(self).single_thread_ring,
            final(self).multi_thread_ring == old(self).multi_thread_ring,
            final(self).arena == old(self).arena,
    {
        let id = self.task_id;
        self.task_id = self.task_id.wrapping_add(1);
        self.task_counter = self.task_counter.wrapping_add(1);
        make(TaskHeader::new(id, kind))
    }

    /// Spawns the root task: `make` builds it from a fresh header that
    /// carries the next task id; the task is counted and queued on the ring
    /// of the thread that runs `block_on`.
    pub fn spawn_root_task<F: FnOnce(TaskHeader) -> T>(&mut self, make: F)
        requires
            old(self).wf(),
            old(self).single_thread_ring.ring@.len() < old(self).single_thread_ring.ring.capacity(),
            make.requires((fresh_header(old(self).task_id, TaskKind::Root),)),
        ensures
            final(self).wf(),
            final(self).single_thread_ring.ring@.len() == old(self).single_thread_ring.ring@.len() + 1,
            final(self).single_thread_ring.ring@.drop_last() == old(self).single_thread_ring.ring@,
            make.ensures(
                (fresh_header(old(self).task_id, TaskKind::Root),),
                final(self).single_thread_ring.ring@.last(),
            ),
            final(self).single_thread_ring.ring.capacity()
                == old(self).single_thread_ring.ring.capacity(),
            final(self).task_id == old(self).task_id.wrapping_add(1),
            final(self).task_counter == old(self).task_counter.wrapping_add(1),
            final(self).worker_count == old(self).worker_count,
            final(self).workers_bitmap == old(self).workers_bitmap,
            final(self).global_counter_for_alternative_wake
                == old(self).global_counter_for_alternative_wake,
            final(self).multi_thread_ring == old(self).multi_thread_ring,
            final(self).arena == old(self).arena,
    {
        let t = self.new_task(TaskKind::Root, make);
        self.single_thread_ring.ring.push_back(t);
    }

    /// Spawns a task for the thread that runs `block_on`: built by `make`
    /// from a fresh header carrying the next task id, counted, queued on
    /// that thread's ring, which is then roused.
    pub fn spawn_local<F: FnOnce(TaskHeader) -> T>(&mut self, make: F) -> (r: Rouse)
        requires
            old(self).wf(),
            old(self).single_thread_ring.ring@.len() < old(self).single_thread_ring.ring.capacity(),
            make.requires((fresh_header(old(self).task_id, TaskKind::Local),)),
        ensures
            r == Rouse::MainThread,
            final(self).wf(),
            final(self).single_thread_ring.ring@.len() == old(self).single_thread_ring.ring@.len() + 1,
            final(self).single_thread_ring.ring@.drop_last() == old(self).single_thread_ring.ring@,
            make.ensures(
                (fresh_header(old(self).task_id, TaskKind::Local),),
                final(self).single_thread_ring.ring@.last(),
            ),
            final(self).single_thread_ring.ring.capacity()
                == old(self).single_thread_ring.ring.capacity(),
            final(self).task_id == old(self).task_id.wrapping_add(1),
            final(self).task_counter == old(self).task_counter.wrapping_add(1),
            final(self).worker_count == old(self).worker_count,
            final(self).workers_bitmap == old(self).workers_bitmap,
            final(self).global_counter_for_alternative_wake
                == old(self).global_counter_for_alternative_wake,
            final(self).multi_thread_ring == old(self).multi_thread_ring,
            final(self).arena == old(self).arena,
    {
        let t = self.new_task(TaskKind::Local, make);
        self.single_thread_ring.ring.push_back(t);
        Rouse::MainThread
    }

    /// Spawns a task for the workers: built by `make` from a fresh header
    /// carrying the next task id, counted and queued on the workers' ring.
    /// Then an idle worker is picked to be roused by the parity of `number`
    /// (the wake-up counter as read when the task was made), and marked busy.
    pub fn spawn<F: FnOnce(TaskHeader) -> T>(&mut self, make: F, number: u64) -> (r: Rouse)
        requires
            old(self).wf(),
            old(self).multi_thread_ring.ring@.len() < old(self).multi_thread_ring.ring.capacity(),
            make.requires((fresh_header(old(self).task_id, TaskKind::Shared),)),
        ensures
            final(self).wf(),
            final(self).multi_thread_ring.ring@.len() == old(self).multi_thread_ring.ring@.len() + 1,
            final(self).multi_thread_ring.ring@.drop_last() == old(self).multi_thread_ring.ring@,
            make.ensures(
                (fresh_header(old(self).task_id, TaskKind::Shared),),
                final(self).multi_thread_ring.ring@.last(),
            ),
            final(self).multi_thread_ring.ring.capacity()
                == old(self).multi_thread_ring.ring.capacity(),
            final(self).task_id == old(self).task_id.wrapping_add(1),
            final(self).task_counter == old(self).task_counter.wrapping_add(1),
            final(self).worker_count == old(self).worker_count,
            final(self).global_counter_for_alternative_wake
                == old(self).global_counter_for_alternative_wake,
            final(self).single_thread_ring == old(self).single_thread_ring,
            final(self).arena == old(self).arena,
            r != Rouse::MainThread,
            r == Rouse::Nobody <==> old(self).workers_bitmap == 0,
            r == Rouse::Nobody ==> final(self).workers_bitmap == old(self).workers_bitmap,
            r matches Rouse::Worker(idx) ==> rouse_spec(
                number,
                old(self).workers_bitmap,
                Some((idx, final(self).workers_bitmap)),
            ),
            old(self).idle_within() ==> final(self).idle_within(),
            old(self).idle_within() ==> (r matches Rouse::Worker(idx) ==> idx < old(self).worker_count),
    {
        let t = self.new_task(TaskKind::Shared, make);
        self.multi_thread_ring.ring.push_back(t);
        self.rouse_worker(number)
    }

    /// Picks the idle worker to rouse by the parity of `order` and marks it
    /// busy.
    fn rouse_worker(&mut self, order: u64) -> (r: Rouse)
        ensures
            final(self).single_thread_ring == old(self).single_thread_ring,
            final(self).multi_thread_ring == old(self).multi_thread_ring,
            final(self).arena == old(self).arena,
            final(self).task_id == old(self).task_id,
            final(self).task_counter == old(self).task_counter,
            final(self).worker_count == old(self).worker_count,
            final(self).global_counter_for_alternative_wake
                == old(self).global_counter_for_alternative_wake,
            r != Rouse::MainThread,
            r == Rouse::Nobody <==> old(self).workers_bitmap == 0,
            r == Rouse::Nobody ==> final(self).workers_bitmap == old(self).workers_bitmap,
            r matches Rouse::Worker(idx) ==> rouse_spec(
                order,
                old(self).workers_bitmap,
                Some((idx, final(self).workers_bitmap)),
            ),
            old(self).idle_within() ==> final(self).idle_within(),
            old(self).idle_within() ==> (r matches Rouse::Worker(idx) ==> idx < old(self).worker_count),
    {
        match pick_worker(order, self.workers_bitmap) {
            Some((idx, new_map)) => {
                self.workers_bitmap = new_map;
                Rouse::Worker(idx)
            },
            None => Rouse::Nobody,
        }
    }

    /// Re-queues a woken task of kind `kind` on its ring and says whom to
    /// rouse: for a worker task, an idle worker chosen by the parity of the
    /// wake-up counter, which advances; otherwise the thread that runs
    /// `block_on`.
    pub fn requeue(&mut self, task: T, kind: TaskKind) -> (r: Rouse)
        requires
            old(self).wf(),
            kind == TaskKind::Shared ==> old(self).multi_thread_ring.ring@.len() < old(
                self,
            ).multi_thread_ring.ring.capacity(),
            kind != TaskKind::Shared ==> old(self).single_thread_ring.ring@.len() < old(
                self,
            ).single_thread_ring.ring.capacity(),
        ensures
            final(self).wf(),
            final(self).task_counter == old(self).task_counter,
            final(self).task_id == old(self).task_id,
            final(self).worker_count == old(self).worker_count,
            final(self).arena == old(self).arena,
            final(self).single_thread_ring.ring.capacity()
                == old(self).single_thread_ring.ring.capacity(),
            final(self).multi_thread_ring.ring.capacity()
                == old(self).multi_thread_ring.ring.capacity(),
            old(self).idle_within() ==> final(self).idle_within(),
            old(self).idle_within() ==> (r matches Rouse::Worker(idx) ==> idx < old(self).worker_count),
            kind != TaskKind::Shared ==> {
                &&& r == Rouse::MainThread
                &&& final(self).single_thread_ring.ring@ == old(
                    self,
                ).single_thread_ring.ring@.push(task)
                &&& final(self).multi_thread_ring == old(self).multi_thread_ring
                &&& final(self).workers_bitmap == old(self).workers_bitmap
                &&& final(self).global_counter_for_alternative_wake
                    == old(self).global_counter_for_alternative_wake
            },
            kind == TaskKind::Shared ==> {
                &&& r != Rouse::MainThread
                &&& final(self).multi_thread_ring.ring@ == old(self).multi_thread_ring.ring@.push(
                    task,
                )
                &&& final(self).single_thread_ring == old(self).single_thread_ring
                &&& final(self).global_counter_for_alternative_wake == old(
                    self,
                ).global_counter_for_alternative_wake.wrapping_add(1)
                &&& (r == Rouse::Nobody <==> old(self).workers_bitmap == 0)
                &&& r == Rouse::Nobody ==> final(self).workers_bitmap == old(self).workers_bitmap
                &&& r matches Rouse::Worker(idx) ==> rouse_spec(
                    old(self).global_counter_for_alternative_wake,
                    old(self).workers_bitmap,
                    Some((idx, final(self).workers_bitmap)),
                )
            },
    {
        match kind {
            TaskKind::Shared => {
                self.multi_thread_ring.ring.push_back(task);
                let order = self.global_counter_for_alternative_wake;
                self.global_counter_for_alternative_wake =
                    self.global_counter_for_alternative_wake.wrapping_add(1);
                self.rouse_worker(order)
            },
            _ => {
                self.single_thread_ring.ring.push_back(task);
                Rouse::MainThread
            },
        }
    }

    /// Marks worker `idx` idle again (it is about to park), by or-ing its
    /// flag into the idle map; only a worker of this runtime can do so. The
    /// flag is `1 << idx` computed on a 32-bit signed integer and widened, so
    /// worker 31 sets bits 31 to 63, and a worker from 32 up has no flag.
    pub fn advertise_idle(&mut self, idx: usize)
        requires
            idx < old(self).worker_count,
            idx < 32,
        ensures
            final(self).workers_bitmap == old(self).workers_bitmap | worker_flag(idx),
            forall|i: int|
                0 <= i < 64 ==> (#[trigger] bit_set(final(self).workers_bitmap, i) <==> (bit_set(
                    old(self).workers_bitmap,
                    i,
                ) || i == idx || (idx == 31 && i >= 31))),
            old(self).idle_within() && (idx < 31 || old(self).worker_count >= 64)
                ==> final(self).idle_within(),
            final(self).worker_count == old(self).worker_count,
            final(self).task_counter == old(self).task_counter,
            final(self).task_id == old(self).task_id,
            final(self).global_counter_for_alternative_wake
                == old(self).global_counter_for_alternative_wake,
            final(self).single_thread_ring == old(self).single_thread_ring,
            final(self).multi_thread_ring == old(self).multi_thread_ring,
            final(self).arena == old(self).arena,
    {
        let worker_flag = (1i32 << (idx as i32)) as u64;
        let ghost old_map = self.workers_bitmap;
        proof {
            lemma_worker_flag(idx as u32);
        }
        self.workers_bitmap = self.workers_bitmap | worker_flag;
        proof {
            assert forall|i: int| 0 <= i < 64 implies (#[trigger] bit_set(self.workers_bitmap, i)
                <==> (bit_set(old_map, i) || i == idx || (idx == 31 && i >= 31))) by {
                lemma_set_flag(old_map, idx as u64, i as u64);
            }
        }
    }
}

/// The idle flag of worker `idx` (for `idx < 32`): `1 << idx` on a 32-bit
/// signed integer, widened to 64 bits.
pub open spec fn worker_flag(idx: usize) -> u64 {
    if idx < 31 {
        1u64 << (idx as u64)
    } else {
        0xffff_ffff_8000_0000u64
    }
}

proof fn lemma_worker_flag(idx: u32)
    by (bit_vector)
    requires
        idx < 32,
    ensures
        idx < 31 ==> ((1i32 << idx) as u64) == 1u64 << (idx as u64),
        idx == 31 ==> ((1i32 << idx) as u64) == 0xffff_ffff_8000_0000u64,
{
}

proof fn lemma_set_flag(map: u64, idx: u64, i: u64)
    by (bit_vector)
    requires
        idx < 32,
        i < 64,
    ensures
        idx < 31 ==> (((map | (1u64 << idx)) >> i) & 1u64 == 1u64 <==> ((map >> i) & 1u64 == 1u64
            || i == idx)),
        idx == 31 ==> (((map | 0xffff_ffff_8000_0000u64) >> i) & 1u64 == 1u64 <==> ((map >> i)
            & 1u64 == 1u64 || i >= 31)),
{
}

} // verus!
