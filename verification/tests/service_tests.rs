use ros2_client::ids::{Guid, RmwRequestId, Time};
use ros2_client::service::{drain_replies_for, ClientCore, RouteDecision};

fn guid(n: u64) -> Guid {
    Guid { hi: n, lo: n }
}

#[test]
fn request_ids_are_scoped_and_monotone() {
    let mut c = ClientCore::new(guid(7));
    let a = c.send_request();
    let b = c.send_request();
    assert_eq!(a.writer_guid, guid(7));
    assert_eq!(a.seq, 1);
    assert_eq!(b.seq, 2);
    assert_ne!(a, b);
}

#[test]
fn reply_delivered_at_most_once() {
    // the law behind suspended calls: the first reply under an id completes
    // the call, any repeat of the id is discarded
    let mut c = ClientCore::new(guid(1));
    let id = c.begin_async_call();
    assert_eq!(c.route_response(id), RouteDecision::Deliver);
    assert_eq!(c.route_response(id), RouteDecision::Discard);
}

#[test]
fn unknown_reply_is_discarded() {
    let mut c = ClientCore::new(guid(1));
    let _ = c.begin_async_call();
    let foreign = RmwRequestId { writer_guid: guid(9), seq: 4 };
    assert_eq!(c.route_response(foreign), RouteDecision::Discard);
}

#[test]
fn cancelled_call_discards_late_reply() {
    let mut c = ClientCore::new(guid(1));
    let id = c.begin_async_call();
    c.cancel_pending(id);
    assert_eq!(c.route_response(id), RouteDecision::Discard);
}

#[test]
fn two_clients_see_only_their_own_replies() {
    // out-of-order replies to two overlapping requests: each client's drain
    // picks exactly its own
    let mut c1 = ClientCore::new(guid(1));
    let mut c2 = ClientCore::new(guid(2));
    let r1 = c1.send_request();
    let r2 = c2.send_request();
    let queue_for_c1: Vec<(RmwRequestId, &str)> = vec![(r2, "for c2"), (r1, "for c1")];
    let queue_for_c2: Vec<(RmwRequestId, &str)> = vec![(r2, "for c2"), (r1, "for c1")];
    assert_eq!(drain_replies_for(queue_for_c1, r1), Some("for c1"));
    assert_eq!(drain_replies_for(queue_for_c2, r2), Some("for c2"));
}

#[test]
fn drain_returns_first_match_and_none_when_absent() {
    let a = RmwRequestId { writer_guid: guid(1), seq: 1 };
    let b = RmwRequestId { writer_guid: guid(1), seq: 2 };
    let replies: Vec<(RmwRequestId, u32)> = vec![(b, 10), (a, 20), (a, 30)];
    assert_eq!(drain_replies_for(replies, a), Some(20));
    let empty: Vec<(RmwRequestId, u32)> = vec![];
    assert_eq!(drain_replies_for(empty, a), None);
}

#[test]
fn time_order_is_lexicographic() {
    let t1 = Time { sec: 1, nanosec: 500 };
    let t2 = Time { sec: 1, nanosec: 600 };
    let t3 = Time { sec: 2, nanosec: 0 };
    assert!(t1.le(&t1));
    assert!(t1.le(&t2));
    assert!(!t2.le(&t1));
    assert!(t2.le(&t3));
    assert!(Time::zero().is_zero());
    assert!(!t1.is_zero());
}
