use grace::ring::{RawSyncRing, SyncRing, DEFAULT_RING_CAP};

#[test]
fn items_come_out_in_order() {
    let mut r: RawSyncRing<u32> = RawSyncRing::new(4);
    r.push_back(1);
    r.push_back(2);
    r.push_back(3);
    assert_eq!(r.len(), 3);
    assert_eq!(r.consume(), Some(1));
    assert_eq!(r.consume(), Some(2));
    assert_eq!(r.consume(), Some(3));
    assert_eq!(r.consume(), None);
}

#[test]
fn empty_ring_gives_none() {
    let mut r: RawSyncRing<u32> = RawSyncRing::new(1);
    assert_eq!(r.len(), 0);
    assert_eq!(r.consume(), None);
    assert_eq!(r.multithread_consume(), None);
}

#[test]
fn ring_fills_to_capacity_and_wraps() {
    let mut r: RawSyncRing<u32> = RawSyncRing::new(4);
    for round in 0..10u32 {
        for i in 0..4u32 {
            r.push_back(round * 10 + i);
        }
        assert_eq!(r.len(), 4);
        for i in 0..4u32 {
            assert_eq!(r.multithread_consume(), Some(round * 10 + i));
        }
        assert_eq!(r.len(), 0);
    }
    assert_eq!(r.cap(), 4);
}

#[test]
fn interleaved_push_and_consume() {
    let mut r: RawSyncRing<String> = RawSyncRing::new(2);
    r.push_back("a".to_string());
    r.push_back("b".to_string());
    assert_eq!(r.consume(), Some("a".to_string()));
    r.push_back("c".to_string());
    assert_eq!(r.consume(), Some("b".to_string()));
    assert_eq!(r.consume(), Some("c".to_string()));
    assert_eq!(r.consume(), None);
}

#[test]
fn sync_ring_default_capacity() {
    let s: SyncRing<u8> = SyncRing::new(0);
    assert_eq!(s.inner().cap(), DEFAULT_RING_CAP);
    let t: SyncRing<u8> = SyncRing::new(16);
    assert_eq!(t.inner().cap(), 16);
    assert_eq!(t.inner().len(), 0);
}

#[test]
fn publication_follows_reservation_order() {
    let mut r: RawSyncRing<u32> = RawSyncRing::new(4);
    let a = r.reserve().unwrap();
    let b = r.reserve().unwrap();
    r.write(b, 20);
    assert!(!r.publish(b));
    assert_eq!(r.claim(), None);
    r.write(a, 10);
    assert!(r.publish(a));
    assert!(r.publish(b));
    let x = r.claim().unwrap();
    let y = r.claim().unwrap();
    assert_eq!(r.claim(), None);
    assert_eq!(r.read(y), 20);
    assert!(!r.release(y));
    assert_eq!(r.read(x), 10);
    assert!(r.release(x));
    assert!(r.release(y));
    assert_eq!(r.len(), 0);
}

#[test]
fn reservation_refused_when_every_cell_is_taken() {
    let mut r: RawSyncRing<u32> = RawSyncRing::new(2);
    let a = r.reserve().unwrap();
    let _b = r.reserve().unwrap();
    assert_eq!(r.reserve(), None);
    r.write(a, 1);
    assert!(r.publish(a));
    let x = r.claim().unwrap();
    assert_eq!(r.read(x), 1);
    assert_eq!(r.reserve(), None);
    assert!(r.release(x));
    assert!(r.reserve().is_some());
}
