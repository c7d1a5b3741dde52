use raft_kv::ids::{LeaderId, LogId, Vote};
use raft_kv::text::{push_decimal, snapshot_id};

#[test]
fn decimal_of_zero_is_one_digit() {
    let mut s = String::new();
    push_decimal(&mut s, 0);
    assert_eq!(s, "0");
}

#[test]
fn decimal_of_numbers() {
    let mut s = String::from("n=");
    push_decimal(&mut s, 1234);
    assert_eq!(s, "n=1234");
    let mut m = String::new();
    push_decimal(&mut m, u64::MAX);
    assert_eq!(m, u64::MAX.to_string());
    let mut t = String::new();
    push_decimal(&mut t, 10);
    assert_eq!(t, "10");
}

#[test]
fn snapshot_id_of_applied_log() {
    let last = LogId::new(LeaderId::new(2, 3), 10);
    assert_eq!(snapshot_id(Some(last), 4), "2-3-10-4");
}

#[test]
fn snapshot_id_without_applied_log() {
    assert_eq!(snapshot_id(None, 1), "--1");
    assert_eq!(snapshot_id(None, 27), "--27");
}

#[test]
fn snapshot_ids_of_distinct_numbers_differ() {
    let a = LogId::new(LeaderId::new(1, 1), 1);
    let b = LogId::new(LeaderId::new(1, 1), 12);
    // "1-1-1-12" against "1-1-12-1": the sequence numbers differ, so do the names.
    assert_ne!(snapshot_id(Some(a), 12), snapshot_id(Some(b), 1));
    assert_ne!(snapshot_id(None, 1), snapshot_id(None, 2));
}

#[test]
fn log_id_order_is_term_then_node_then_index() {
    let a = LogId::new(LeaderId::new(1, 5), 9);
    let b = LogId::new(LeaderId::new(2, 0), 0);
    let c = LogId::new(LeaderId::new(2, 1), 0);
    let d = LogId::new(LeaderId::new(2, 1), 3);
    assert!(a.is_le(&b));
    assert!(!b.is_le(&a));
    assert!(b.is_le(&c));
    assert!(c.is_le(&d));
    assert!(!d.is_le(&c));
    assert!(d.is_le(&d));
}

#[test]
fn votes_record_their_leader() {
    let v = Vote::new(3, 7);
    assert_eq!(v.leader_id, LeaderId::new(3, 7));
    assert!(!v.committed);
    let c = Vote::new_committed(3, 7);
    assert!(c.committed);
}
