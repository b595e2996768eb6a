use grace::oneshot::{InternalOneshot, RecvPoll, MESSAGE_READY, RECEIVER, SENDER, TERMINATED, WAKER_READY};

#[test]
fn fresh_channel_has_both_ends() {
    let c: InternalOneshot<u32, u8> = InternalOneshot::new();
    assert_eq!(c.state(), SENDER | RECEIVER);
    assert!(c.stored_waker().is_none());
}

#[test]
fn sent_message_is_received() {
    let mut c: InternalOneshot<u32, u8> = InternalOneshot::new();
    assert_eq!(c.send(5), None);
    assert_eq!(c.state(), SENDER | RECEIVER | MESSAGE_READY);
    assert!(matches!(c.poll(Some(9), false), RecvPoll::Ready(Ok(5))));
    assert_eq!(c.state(), SENDER | RECEIVER | TERMINATED);
}

#[test]
fn early_poll_stores_waker_and_send_returns_it() {
    let mut c: InternalOneshot<u32, u8> = InternalOneshot::new();
    assert!(matches!(c.poll(Some(9), false), RecvPoll::Pending));
    assert_eq!(c.state(), SENDER | RECEIVER | WAKER_READY);
    assert_eq!(c.stored_waker(), Some(&9));
    assert_eq!(c.send(5), Some(9));
    assert_eq!(c.state(), SENDER | RECEIVER | MESSAGE_READY);
    assert!(matches!(c.poll(Some(1), false), RecvPoll::Ready(Ok(5))));
}

#[test]
fn repoll_keeps_matching_waker_and_replaces_other() {
    let mut c: InternalOneshot<u32, u8> = InternalOneshot::new();
    assert!(matches!(c.poll(Some(9), false), RecvPoll::Pending));
    assert!(matches!(c.poll(Some(2), true), RecvPoll::Pending));
    assert_eq!(c.stored_waker(), Some(&9));
    assert!(matches!(c.poll(Some(3), false), RecvPoll::Pending));
    assert_eq!(c.stored_waker(), Some(&3));
    assert_eq!(c.state(), SENDER | RECEIVER | WAKER_READY);
}

#[test]
fn sender_dropped_without_message_gives_error() {
    let mut c: InternalOneshot<u32, u8> = InternalOneshot::new();
    assert!(!c.drop_sender());
    assert_eq!(c.state(), RECEIVER);
    assert!(matches!(c.poll(Some(1), false), RecvPoll::Ready(Err(()))));
    assert_eq!(c.state(), RECEIVER | TERMINATED);
    assert!(c.drop_receiver());
}

#[test]
fn sender_dropped_while_receiver_waits() {
    let mut c: InternalOneshot<u32, u8> = InternalOneshot::new();
    assert!(matches!(c.poll(Some(4), false), RecvPoll::Pending));
    assert!(!c.drop_sender());
    assert!(matches!(c.poll(Some(4), true), RecvPoll::Ready(Err(()))));
    assert_eq!(c.state(), RECEIVER | TERMINATED);
    assert!(c.stored_waker().is_none());
}

#[test]
fn send_after_receiver_dropped_is_discarded() {
    let mut c: InternalOneshot<u32, u8> = InternalOneshot::new();
    assert!(!c.drop_receiver());
    assert_eq!(c.send(5), None);
    assert_eq!(c.state(), SENDER);
    assert!(c.drop_sender());
}

#[test]
fn fresh_waker_needed_only_when_stored() {
    let mut c: InternalOneshot<u32, u8> = InternalOneshot::new();
    assert!(c.needs_waker(false));
    assert!(matches!(c.poll(Some(9), false), RecvPoll::Pending));
    assert!(!c.needs_waker(true));
    assert!(matches!(c.poll(None, true), RecvPoll::Pending));
    assert_eq!(c.stored_waker(), Some(&9));
    assert_eq!(c.send(5), Some(9));
    assert!(!c.needs_waker(false));
    assert!(matches!(c.poll(None, false), RecvPoll::Ready(Ok(5))));
}
