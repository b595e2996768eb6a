use grace::arena::SlotState;
use grace::config::GraceBuilder;
use grace::global::{Rouse, World};
use grace::task::{TaskHeader, TaskKind, SCHEDULED};

fn keep(h: TaskHeader) -> TaskHeader {
    h
}

#[test]
fn fresh_world() {
    let w: World<u32> = World::new(0, 4, 1);
    assert_eq!(w.single_thread_ring.inner().cap(), 4096);
    assert_eq!(w.multi_thread_ring.inner().cap(), 4);
    assert_eq!(w.worker_count, 0);
    assert_eq!(w.workers_bitmap, 0);
    assert_eq!(w.global_counter_for_alternative_wake, 1);
    assert_eq!(w.task_id, 0);
    assert_eq!(w.task_counter, 0);
    assert_eq!(w.arena.slot_count(), 1);
    assert_eq!(w.arena.slot(0), SlotState { lock: 0, cap: 64, bitmap: u64::MAX });
}

#[test]
fn world_for_a_built_runtime() {
    let rt = GraceBuilder::new(Some(3)).arena_slots(0).local_task_buffer_size(8).build();
    let w: World<u32> = World::for_runtime(&rt);
    assert_eq!(w.worker_count, 3);
    assert_eq!(w.workers_bitmap, 0b111);
    assert_eq!(w.single_thread_ring.inner().cap(), 8);
    assert_eq!(w.multi_thread_ring.inner().cap(), 4096);
    assert_eq!(w.arena.slot_count(), 64);
    assert_eq!(w.task_counter, 0);
}

#[test]
fn spawned_tasks_carry_successive_ids() {
    let mut w: World<TaskHeader> = World::new(4, 4, 1);
    w.spawn_root_task(keep);
    assert_eq!(w.spawn(keep, 0), Rouse::Nobody);
    assert_eq!(w.spawn_local(keep), Rouse::MainThread);
    assert_eq!(w.task_id, 3);
    assert_eq!(w.task_counter, 3);
    let root = w.single_thread_ring.ring.consume().unwrap();
    assert_eq!(root.id, 0);
    assert_eq!(root.kind, TaskKind::Root);
    assert_eq!(root.state, SCHEDULED);
    assert_eq!(root.ref_counter, 1);
    let local = w.single_thread_ring.ring.consume().unwrap();
    assert_eq!(local.id, 2);
    assert_eq!(local.kind, TaskKind::Local);
    let shared = w.multi_thread_ring.ring.multithread_consume().unwrap();
    assert_eq!(shared.id, 1);
    assert_eq!(shared.kind, TaskKind::Shared);
}

#[test]
fn spawn_rouses_lowest_or_highest_idle_worker() {
    let rt = GraceBuilder::new(Some(3)).worker_task_buffer_size(4).build();
    let mut w: World<u64> = World::for_runtime(&rt);
    w.workers_bitmap = 0b110;
    assert_eq!(w.spawn(|h: TaskHeader| h.id, 0), Rouse::Worker(1));
    assert_eq!(w.workers_bitmap, 0b100);
    w.workers_bitmap = 0b110;
    assert_eq!(w.spawn(|h: TaskHeader| h.id, 1), Rouse::Worker(2));
    assert_eq!(w.workers_bitmap, 0b010);
    assert_eq!(w.task_counter, 2);
    assert_eq!(w.multi_thread_ring.ring.multithread_consume(), Some(0));
    assert_eq!(w.multi_thread_ring.ring.multithread_consume(), Some(1));
}

#[test]
fn requeue_goes_to_the_ring_of_its_kind() {
    let mut w: World<u32> = World::new(2, 2, 1);
    assert_eq!(w.requeue(1, TaskKind::Local), Rouse::MainThread);
    assert_eq!(w.requeue(2, TaskKind::Root), Rouse::MainThread);
    assert_eq!(w.requeue(3, TaskKind::Shared), Rouse::Nobody);
    assert_eq!(w.global_counter_for_alternative_wake, 2);
    w.workers_bitmap = 0b1001;
    // order 2 is even: the lowest idle worker
    assert_eq!(w.requeue(4, TaskKind::Shared), Rouse::Worker(0));
    assert_eq!(w.workers_bitmap, 0b1000);
    assert_eq!(w.single_thread_ring.ring.consume(), Some(1));
    assert_eq!(w.single_thread_ring.ring.consume(), Some(2));
    assert_eq!(w.multi_thread_ring.ring.multithread_consume(), Some(3));
    assert_eq!(w.multi_thread_ring.ring.multithread_consume(), Some(4));
    assert_eq!(w.task_counter, 0);
}

#[test]
fn idle_marks_stay_within_the_workers() {
    let rt = GraceBuilder::new(Some(6)).build();
    let mut w: World<u32> = World::for_runtime(&rt);
    assert_eq!(w.requeue(1, TaskKind::Shared), Rouse::Worker(5));
    assert_eq!(w.requeue(2, TaskKind::Shared), Rouse::Worker(0));
    assert_eq!(w.workers_bitmap, 0b011110);
    w.advertise_idle(5);
    assert_eq!(w.workers_bitmap, 0b111110);
    w.task_finished();
    assert_eq!(w.task_counter, u64::MAX);
}

#[test]
fn worker_thirty_one_marks_the_upper_half() {
    let rt = GraceBuilder::new(Some(40)).build();
    let mut w: World<u32> = World::for_runtime(&rt);
    assert_eq!(w.workers_bitmap, (1u64 << 40) - 1);
    w.workers_bitmap = 0;
    w.advertise_idle(30);
    assert_eq!(w.workers_bitmap, 1u64 << 30);
    w.advertise_idle(31);
    assert_eq!(w.workers_bitmap, 0xffff_ffff_c000_0000);
}
