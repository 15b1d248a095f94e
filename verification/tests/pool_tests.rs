use kv_client::pool::async_pool::{next_index, pool_size, ConnState, ReplyAction};

#[test]
fn pool_sizes() {
    assert_eq!(pool_size(0), 1);
    assert_eq!(pool_size(1), 1);
    assert_eq!(pool_size(8), 8);
    assert_eq!(pool_size(u16::MAX), u16::MAX);
}

#[test]
fn round_robin_slots() {
    assert_eq!(next_index(0, 3), 1);
    assert_eq!(next_index(1, 3), 2);
    assert_eq!(next_index(2, 3), 0);
    assert_eq!(next_index(0, 1), 0);
    assert_eq!(next_index(u16::MAX - 1, u16::MAX), 0);
    let size = 5u16;
    let mut cur = 0u16;
    for k in 0..23u32 {
        assert_eq!(cur as u32, k % size as u32);
        cur = next_index(cur, size);
    }
}

#[test]
fn waiters_leave_in_order() {
    let mut s: ConnState<u32> = ConnState::new(true);
    assert!(s.is_connected());
    s.enqueue(vec![1, 2]);
    s.enqueue(vec![3]);
    assert_eq!(s.waiting_len(), 3);
    assert_eq!(s.pop_waiter(), Some(1));
    match s.on_reply(false) {
        ReplyAction::Deliver(w) => assert_eq!(w, 2),
        _ => panic!("expected a delivery"),
    }
    assert_eq!(s.close(), vec![3]);
    assert!(!s.is_connected());
    assert_eq!(s.waiting_len(), 0);
    assert_eq!(s.pop_waiter(), None);
}

#[test]
fn failed_reply_and_unexpected_reply() {
    let mut s: ConnState<&str> = ConnState::new(false);
    assert!(!s.is_connected());
    assert!(matches!(s.on_reply(false), ReplyAction::Fail));
    s.set_connected();
    s.enqueue(vec!["a", "b", "c"]);
    match s.on_reply(true) {
        ReplyAction::DeliverAndFail(w) => assert_eq!(w, "a"),
        _ => panic!("expected a failing delivery"),
    }
    assert_eq!(s.close(), vec!["b", "c"]);
    assert!(s.close().is_empty());
}

#[test]
fn replies_go_to_requests_in_order() {
    let mut s: ConnState<u32> = ConnState::new(true);
    s.enqueue(vec![10, 11, 12, 13]);
    for expected in [10u32, 11, 12] {
        match s.on_reply(false) {
            ReplyAction::Deliver(w) => assert_eq!(w, expected),
            _ => panic!("expected a delivery"),
        }
    }
    assert_eq!(s.waiting_len(), 1);
    assert!(s.is_connected());
}
