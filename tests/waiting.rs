use nvim_wait::channel::{channel_id, Reply};
use nvim_wait::pending::{parse_close, Element, PendingSet, Received};

fn close(id: i64) -> Vec<Element> {
    vec![Element::Int(id as i128)]
}

fn pending_of(ids: &[i64]) -> PendingSet {
    let mut p = PendingSet::new();
    for id in ids {
        p.track(*id);
    }
    p
}

#[test]
fn drains_in_any_order() {
    let mut p = pending_of(&[4, 9, 2]);
    assert_eq!(p.len(), 3);
    assert_eq!(p.receive(&close(9)), Received::Closed(9));
    assert!(!p.is_drained());
    assert_eq!(p.receive(&close(2)), Received::Closed(2));
    assert!(!p.is_drained());
    assert_eq!(p.receive(&close(4)), Received::Closed(4));
    assert!(p.is_drained());
}

#[test]
fn distinct_buffers_make_a_set_of_that_size() {
    let p = pending_of(&[1, 2, 3, 4]);
    assert_eq!(p.len(), 4);
    let q = pending_of(&[5, 5]);
    assert_eq!(q.len(), 1);
}

#[test]
fn unknown_buffer_is_ignored() {
    let mut p = pending_of(&[1]);
    assert_eq!(p.receive(&close(2)), Received::NotPending(2));
    assert_eq!(p.len(), 1);
    assert!(p.contains(1));
    assert!(!p.is_drained());
}

#[test]
fn duplicate_close_is_ignored() {
    let mut p = pending_of(&[1, 2]);
    assert_eq!(p.receive(&close(1)), Received::Closed(1));
    assert_eq!(p.receive(&close(1)), Received::NotPending(1));
    assert_eq!(p.len(), 1);
    assert!(p.contains(2));
}

#[test]
fn malformed_notifications_are_ignored() {
    let mut p = pending_of(&[1]);
    assert_eq!(p.receive(&vec![Element::Other]), Received::Unexpected);
    assert_eq!(p.receive(&vec![Element::Int(1), Element::Int(1)]), Received::Unexpected);
    assert_eq!(p.receive(&Vec::new()), Received::Unexpected);
    assert_eq!(p.receive(&vec![Element::Int(i64::MAX as i128 + 1)]), Received::Unexpected);
    assert_eq!(p.len(), 1);
    assert!(!p.is_drained());
    assert_eq!(p.receive(&close(1)), Received::Closed(1));
    assert!(p.is_drained());
}

#[test]
fn scratch_buffer_alone_ends_the_wait() {
    let mut p = pending_of(&[17]);
    assert_eq!(p.receive(&close(3)), Received::NotPending(3));
    assert!(!p.is_drained());
    assert_eq!(p.receive(&close(17)), Received::Closed(17));
    assert!(p.is_drained());
}

#[test]
fn close_payload_shapes() {
    assert_eq!(parse_close(&close(-5)), Some(-5));
    assert_eq!(parse_close(&vec![Element::Int(i64::MIN as i128)]), Some(i64::MIN));
    assert_eq!(parse_close(&vec![Element::Int(i64::MIN as i128 - 1)]), None);
    assert_eq!(parse_close(&vec![Element::Other]), None);
}

#[test]
fn channel_from_reply() {
    assert_eq!(channel_id(&Reply::Array(vec![Element::Int(5), Element::Other])), Some(5));
    assert_eq!(channel_id(&Reply::Array(vec![Element::Int(u64::MAX as i128)])), Some(u64::MAX));
    assert_eq!(channel_id(&Reply::Array(vec![Element::Int(-1)])), None);
    assert_eq!(channel_id(&Reply::Array(vec![Element::Other, Element::Int(5)])), None);
    assert_eq!(channel_id(&Reply::Array(Vec::new())), None);
    assert_eq!(channel_id(&Reply::Other), None);
}
