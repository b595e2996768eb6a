use grace::worker::{
    main_idle_step, pick_worker, worker_idle_step, worker_plan, Executor, IdleAction,
};

#[test]
fn no_idle_worker() {
    assert_eq!(pick_worker(0, 0), None);
    assert_eq!(pick_worker(1, 0), None);
}

#[test]
fn even_order_picks_lowest_idle_worker() {
    assert_eq!(pick_worker(0, 0b1010), Some((1, 0b1000)));
    assert_eq!(pick_worker(2, u64::MAX), Some((0, u64::MAX - 1)));
}

#[test]
fn odd_order_picks_highest_idle_worker() {
    assert_eq!(pick_worker(1, 0b1010), Some((3, 0b0010)));
    assert_eq!(pick_worker(7, u64::MAX), Some((63, u64::MAX >> 1)));
}

#[test]
fn single_idle_worker_either_way() {
    assert_eq!(pick_worker(2, 1 << 63), Some((63, 0)));
    assert_eq!(pick_worker(3, 1), Some((0, 0)));
}

#[test]
fn worker_spins_advertises_then_parks() {
    let mut count = 0u8;
    let mut seen = Vec::new();
    for _ in 0..7 {
        let (c, a) = worker_idle_step(count);
        seen.push(a);
        count = c;
    }
    assert_eq!(
        seen,
        vec![
            IdleAction::Spin,
            IdleAction::Spin,
            IdleAction::Spin,
            IdleAction::Spin,
            IdleAction::SpinAndAdvertise,
            IdleAction::Park,
            IdleAction::Spin,
        ]
    );
}

#[test]
fn main_thread_spins_three_times() {
    assert_eq!(main_idle_step(0), (1, false));
    assert_eq!(main_idle_step(2), (3, false));
    assert_eq!(main_idle_step(3), (3, true));
}

#[test]
fn worker_plan_caps_at_sixty_four() {
    assert_eq!(worker_plan(3), (3, 0b111));
    assert_eq!(worker_plan(63), (63, u64::MAX >> 1));
    assert_eq!(worker_plan(64), (64, u64::MAX));
    assert_eq!(worker_plan(100), (64, u64::MAX));
}

#[test]
fn executor_for_given_cores() {
    let e = Executor::with_cores(100);
    assert_eq!(e.workers, 64);
    assert_eq!(e.workers_bitmap, u64::MAX);
    let f = Executor::with_cores(8);
    assert_eq!(f.workers, 8);
    assert_eq!(f.workers_bitmap, 0xFF);
}

#[test]
fn executor_uses_reported_cpus() {
    let e = Executor::new();
    let cpus = num_cpus::get();
    let expected = if cpus > 64 { 64 } else { cpus };
    assert_eq!(e.workers, expected);
    assert!(e.workers >= 1);
}
