use grace::task::{
    pending_transition, wake_transition, DropOutcome, PendingAction, TaskHeader, TaskKind,
    WakeAction, SCHEDULED,
};

#[test]
fn waking_an_idle_task_enqueues_it() {
    assert_eq!(wake_transition(0), (1, WakeAction::Enqueue));
}

#[test]
fn waking_a_scheduled_task_marks_it_notified() {
    assert_eq!(wake_transition(1), (3, WakeAction::AlreadyScheduled));
    assert_eq!(wake_transition(3), (3, WakeAction::AlreadyScheduled));
}

#[test]
fn notified_task_is_polled_again() {
    assert_eq!(pending_transition(3), (1, PendingAction::Repoll));
}

#[test]
fn unnotified_task_goes_idle() {
    assert_eq!(pending_transition(1), (0, PendingAction::Park));
    assert_eq!(pending_transition(0), (0, PendingAction::Park));
}

#[test]
fn wake_during_poll_is_not_lost() {
    let mut h = TaskHeader::new(3, TaskKind::Shared);
    assert_eq!(h.state, SCHEDULED);
    assert_eq!(h.wake(), WakeAction::AlreadyScheduled);
    assert_eq!(h.after_pending(), PendingAction::Repoll);
    assert_eq!(h.after_pending(), PendingAction::Park);
    assert_eq!(h.state, 0);
    assert_eq!(h.wake(), WakeAction::Enqueue);
    assert_eq!(h.wake(), WakeAction::AlreadyScheduled);
}

#[test]
fn last_reference_frees() {
    let mut h = TaskHeader::new(1, TaskKind::Local);
    assert_eq!(h.ref_counter, 1);
    assert!(h.clone_ref());
    assert_eq!(h.ref_counter, 2);
    assert_eq!(h.drop_ref(), DropOutcome::Shared);
    assert_eq!(h.ref_counter, 1);
    assert_eq!(h.drop_ref(), DropOutcome::Free);
    assert_eq!(h.ref_counter, 0);
}

#[test]
fn too_many_references_abort() {
    let mut h = TaskHeader::new(1, TaskKind::Local);
    h.ref_counter = usize::MAX / 2;
    assert!(!h.clone_ref());
    assert_eq!(h.ref_counter, usize::MAX / 2);
    h.ref_counter = usize::MAX / 2 - 1;
    assert!(h.clone_ref());
}

#[test]
fn kind_codes() {
    assert_eq!(TaskKind::Local.code(), 0);
    assert_eq!(TaskKind::Shared.code(), 1);
    assert_eq!(TaskKind::Root.code(), u8::MAX);
}

#[test]
fn consumed_waker_drops_its_reference_when_task_is_scheduled() {
    let mut h = TaskHeader::new(1, TaskKind::Shared);
    assert!(h.clone_ref());
    assert_eq!(h.wake_owned(), (WakeAction::AlreadyScheduled, Some(DropOutcome::Shared)));
    assert_eq!(h.ref_counter, 1);
    assert_eq!(h.state, 3);
    assert_eq!(h.after_pending(), PendingAction::Repoll);
    assert_eq!(h.after_pending(), PendingAction::Park);
    assert!(h.clone_ref());
    assert_eq!(h.wake_owned(), (WakeAction::Enqueue, None));
    assert_eq!(h.ref_counter, 2);
}

#[test]
fn kept_waker_adds_a_reference_for_the_ring() {
    let mut h = TaskHeader::new(1, TaskKind::Shared);
    assert_eq!(h.after_pending(), PendingAction::Park);
    assert_eq!(h.wake_by_ref(), (WakeAction::Enqueue, true));
    assert_eq!(h.ref_counter, 2);
    assert_eq!(h.wake_by_ref(), (WakeAction::AlreadyScheduled, true));
    assert_eq!(h.ref_counter, 2);
}

#[test]
fn wake_by_ref_equals_clone_then_wake() {
    for state in [0u8, 1, 3] {
        let mut a = TaskHeader::new(1, TaskKind::Shared);
        a.state = state;
        a.ref_counter = 2;
        let mut b = TaskHeader::new(1, TaskKind::Shared);
        b.state = state;
        b.ref_counter = 2;
        let (act_a, _) = a.wake_by_ref();
        assert!(b.clone_ref());
        let (act_b, _) = b.wake_owned();
        assert_eq!(act_a, act_b);
        assert_eq!(a.state, b.state);
        assert_eq!(a.ref_counter, b.ref_counter);
    }
}
