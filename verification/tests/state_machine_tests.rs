use raft_kv::entry::{Entry, EntryPayload, Request};
use raft_kv::ids::{LeaderId, LogId};
use raft_kv::kv::KvMap;
use raft_kv::membership::{BasicNode, Membership};
use raft_kv::state_machine::StateMachine;

fn log_id(term: u64, index: u64) -> LogId {
    LogId::new(LeaderId::new(term, 1), index)
}

fn set(index: u64, key: &str, value: &str) -> Entry {
    Entry::new(
        log_id(1, index),
        EntryPayload::Normal(Request::set_value(key.to_string(), value.to_string())),
    )
}

#[test]
fn write_then_read_gives_the_value() {
    let mut sm = StateMachine::new();
    let responses = sm.apply(&[set(1, "foo", "bar")]);
    assert_eq!(responses.len(), 1);
    assert_eq!(responses[0].value, Some("bar".to_string()));
    assert_eq!(sm.read(&"foo".to_string()), "bar");
    assert_eq!(sm.get(&"foo".to_string()), Some("bar".to_string()));
}

#[test]
fn reading_a_missing_key_gives_the_empty_string() {
    let sm = StateMachine::new();
    assert_eq!(sm.read(&"missing".to_string()), "");
    assert_eq!(sm.get(&"missing".to_string()), None);
}

#[test]
fn last_write_of_a_batch_wins() {
    let mut sm = StateMachine::new();
    let responses = sm.apply(&[set(1, "k", "a"), set(2, "other", "x"), set(3, "k", "b")]);
    assert_eq!(responses.len(), 3);
    assert_eq!(sm.read(&"k".to_string()), "b");
    assert_eq!(sm.read(&"other".to_string()), "x");
    assert_eq!(sm.last_applied_log, Some(log_id(1, 3)));
}

#[test]
fn each_entry_is_answered_in_order() {
    let mut sm = StateMachine::new();
    let membership = Membership::new(
        vec![vec![1, 2]],
        vec![(1, BasicNode::new("a:1".to_string())), (2, BasicNode::new("b:2".to_string()))],
    );
    let entries = vec![
        Entry::new(log_id(1, 1), EntryPayload::Blank),
        set(2, "x", "1"),
        Entry::new(log_id(1, 3), EntryPayload::Membership(membership)),
    ];
    let responses = sm.apply(&entries);
    assert_eq!(responses.len(), 3);
    assert_eq!(responses[0].value, None);
    assert_eq!(responses[1].value, Some("1".to_string()));
    assert_eq!(responses[2].value, None);
    assert_eq!(sm.last_applied_log, Some(log_id(1, 3)));
    assert_eq!(sm.last_membership.log_id, Some(log_id(1, 3)));
    assert_eq!(sm.last_membership.membership.configs, vec![vec![1, 2]]);
    assert_eq!(sm.last_membership.membership.nodes.len(), 2);
    assert_eq!(sm.last_membership.membership.nodes[1].1.addr, "b:2");
}

#[test]
fn an_empty_batch_changes_nothing() {
    let mut sm = StateMachine::new();
    sm.apply(&[set(4, "k", "v")]);
    let responses = sm.apply(&[]);
    assert!(responses.is_empty());
    assert_eq!(sm.last_applied_log, Some(log_id(1, 4)));
    assert_eq!(sm.read(&"k".to_string()), "v");
}

#[test]
fn a_blank_entry_only_moves_the_applied_log_id() {
    let mut sm = StateMachine::default();
    let responses = sm.apply(&[Entry::new(log_id(2, 7), EntryPayload::Blank)]);
    assert_eq!(responses[0].value, None);
    assert_eq!(sm.last_applied_log, Some(log_id(2, 7)));
    assert_eq!(sm.last_membership.log_id, None);
    assert!(sm.data.to_pairs().is_empty());
}

#[test]
fn kv_map_insert_overwrites() {
    let mut m = KvMap::new();
    m.insert("a".to_string(), "1".to_string());
    m.insert("b".to_string(), "2".to_string());
    m.insert("a".to_string(), "3".to_string());
    assert_eq!(m.get(&"a".to_string()), Some("3".to_string()));
    assert!(m.contains_key(&"b".to_string()));
    assert!(!m.contains_key(&"c".to_string()));
    let mut pairs = m.to_pairs();
    pairs.sort();
    assert_eq!(pairs, vec![("a".to_string(), "3".to_string()), ("b".to_string(), "2".to_string())]);
}

#[test]
fn kv_map_from_pairs_keeps_the_later_value() {
    let m = KvMap::from_pairs(vec![
        ("a".to_string(), "1".to_string()),
        ("a".to_string(), "2".to_string()),
        ("b".to_string(), "3".to_string()),
    ]);
    assert_eq!(m.get(&"a".to_string()), Some("2".to_string()));
    assert_eq!(m.get(&"b".to_string()), Some("3".to_string()));
    assert_eq!(m.to_pairs().len(), 2);
}

#[test]
fn membership_clone_is_equal() {
    let m = Membership::new(vec![vec![3], vec![3, 4]], vec![(3, BasicNode::new("h:3".to_string()))]);
    let c = m.clone();
    assert_eq!(c.configs, m.configs);
    assert_eq!(c.nodes.len(), 1);
    assert_eq!(c.nodes[0].0, 3);
    assert_eq!(c.nodes[0].1.addr, "h:3");
    let e = Membership::empty();
    assert!(e.configs.is_empty() && e.nodes.is_empty());
}
