use grace::config::{
    GraceBuilder, GraceConfig, RT, DEFAULT_LOCAL_TASK_BUFFER_SIZE, DEFAULT_WORKER_STACK_SIZE,
    DEFAULT_WORKER_TASK_BUFFER_SIZE,
};
use grace::arena::DEFAULT_ARENA_SLOTS;

#[test]
fn defaults_follow_available_parallelism() {
    let b = GraceBuilder::new(Some(8));
    assert_eq!(
        b.config(),
        GraceConfig {
            local_task_buffer_size: DEFAULT_LOCAL_TASK_BUFFER_SIZE,
            worker_task_buffer_size: DEFAULT_WORKER_TASK_BUFFER_SIZE,
            arena_slots: DEFAULT_ARENA_SLOTS,
            worker_count: 8,
            worker_stack_size: DEFAULT_WORKER_STACK_SIZE,
        }
    );
}

#[test]
fn four_workers_when_parallelism_is_unknown() {
    assert_eq!(GraceBuilder::new(None).config().worker_count, 4);
}

#[test]
fn setters_change_one_setting_each() {
    let b = GraceBuilder::new(Some(2))
        .local_task_buffer_size(64)
        .worker_task_buffer_size(1024)
        .arena_slots(8)
        .worker_count(3)
        .worker_stack_size(65536);
    let c = b.config();
    assert_eq!(c.local_task_buffer_size, 64);
    assert_eq!(c.worker_task_buffer_size, 1024);
    assert_eq!(c.arena_slots, 8);
    assert_eq!(c.worker_count, 3);
    assert_eq!(c.worker_stack_size, 65536);
}

#[test]
fn build_caps_workers_and_marks_them_idle() {
    let rt = GraceBuilder::new(Some(2)).worker_count(100).build();
    assert_eq!(rt.config.worker_count, 64);
    assert_eq!(rt.workers_bitmap, u64::MAX);
    let rt2 = GraceBuilder::new(Some(5)).build();
    assert_eq!(rt2.config.worker_count, 5);
    assert_eq!(rt2.workers_bitmap, 0b11111);
}

#[test]
fn rt_new_keeps_other_settings() {
    let c = GraceBuilder::new(Some(1)).arena_slots(16).config();
    let rt = RT::new(c);
    assert_eq!(rt.config.arena_slots, 16);
    assert_eq!(rt.config.worker_count, 1);
    assert_eq!(rt.workers_bitmap, 1);
}
