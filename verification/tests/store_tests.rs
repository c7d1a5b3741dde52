use raft_kv::entry::{Entry, EntryPayload, Request};
use raft_kv::ids::{LeaderId, LogId, Vote};
use raft_kv::kv::KvMap;
use raft_kv::log::{is_valid_range, IndexBound};
use raft_kv::membership::{BasicNode, Membership, StoredMembership};
use raft_kv::snapshot::SnapshotMeta;
use raft_kv::state_machine::StateMachine;
use raft_kv::store::Store;

fn log_id(term: u64, index: u64) -> LogId {
    LogId::new(LeaderId::new(term, 1), index)
}

fn blank(term: u64, index: u64) -> Entry {
    Entry::new(log_id(term, index), EntryPayload::Blank)
}

fn set(index: u64, key: &str, value: &str) -> Entry {
    Entry::new(
        log_id(1, index),
        EntryPayload::Normal(Request::set_value(key.to_string(), value.to_string())),
    )
}

fn indexes(entries: &[Entry]) -> Vec<u64> {
    entries.iter().map(|e| e.log_id.index).collect()
}

fn filled(n: u64) -> Store {
    let mut s = Store::new();
    s.append_to_log((1..=n).map(|i| blank(1, i)).collect());
    s
}

#[test]
fn new_store_is_empty() {
    let s = Store::default();
    let st = s.get_log_state();
    assert_eq!(st.last_purged_log_id, None);
    assert_eq!(st.last_log_id, None);
    assert_eq!(s.read_vote(), None);
    assert!(s.get_current_snapshot().is_none());
    let (applied, membership) = s.last_applied_state();
    assert_eq!(applied, None);
    assert_eq!(membership.log_id, None);
}

#[test]
fn saved_vote_is_read_back() {
    let mut s = Store::new();
    let v = Vote::new(4, 2);
    s.save_vote(&v);
    assert_eq!(s.read_vote(), Some(v));
    let w = Vote::new_committed(5, 3);
    s.save_vote(&w);
    assert_eq!(s.read_vote(), Some(w));
}

#[test]
fn log_state_names_the_last_entry() {
    let s = filled(3);
    let st = s.get_log_state();
    assert_eq!(st.last_log_id, Some(log_id(1, 3)));
    assert_eq!(st.last_purged_log_id, None);
}

#[test]
fn appending_out_of_order_keeps_entries_sorted() {
    let mut s = Store::new();
    s.append_to_log(vec![blank(1, 5), blank(1, 2), blank(1, 9)]);
    let all = s.try_get_log_entries(IndexBound::Unbounded, IndexBound::Unbounded);
    assert_eq!(indexes(&all), vec![2, 5, 9]);
    assert_eq!(s.get_log_state().last_log_id, Some(log_id(1, 9)));
}

#[test]
fn appending_at_a_used_index_replaces_the_entry() {
    let mut s = filled(3);
    s.append_to_log(vec![blank(2, 2)]);
    let all = s.try_get_log_entries(IndexBound::Unbounded, IndexBound::Unbounded);
    assert_eq!(indexes(&all), vec![1, 2, 3]);
    assert_eq!(all[1].log_id, log_id(2, 2));
    s.append_to_log(vec![blank(3, 3), blank(4, 3)]);
    let last = s.try_get_log_entries(IndexBound::Included(3), IndexBound::Included(3));
    assert_eq!(last.len(), 1);
    assert_eq!(last[0].log_id, log_id(4, 3));
}

#[test]
fn entries_in_a_range() {
    let s = filled(6);
    let r = s.try_get_log_entries(IndexBound::Included(2), IndexBound::Excluded(5));
    assert_eq!(indexes(&r), vec![2, 3, 4]);
    let r = s.try_get_log_entries(IndexBound::Excluded(2), IndexBound::Included(5));
    assert_eq!(indexes(&r), vec![3, 4, 5]);
    let r = s.try_get_log_entries(IndexBound::Included(5), IndexBound::Unbounded);
    assert_eq!(indexes(&r), vec![5, 6]);
    let r = s.try_get_log_entries(IndexBound::Unbounded, IndexBound::Excluded(3));
    assert_eq!(indexes(&r), vec![1, 2]);
    let r = s.try_get_log_entries(IndexBound::Included(4), IndexBound::Excluded(4));
    assert!(r.is_empty());
    let r = s.try_get_log_entries(IndexBound::Included(10), IndexBound::Excluded(20));
    assert!(r.is_empty());
}

#[test]
fn entries_keep_their_payload() {
    let mut s = Store::new();
    s.append_to_log(vec![set(1, "k", "v")]);
    let r = s.try_get_log_entries(IndexBound::Included(1), IndexBound::Included(1));
    match &r[0].payload {
        EntryPayload::Normal(Request::SetValue { key, value }) => {
            assert_eq!(key, "k");
            assert_eq!(value, "v");
        }
        _ => panic!("the entry lost its request"),
    }
}

#[test]
fn deleting_conflicts_removes_the_index_and_above() {
    let mut s = filled(5);
    s.delete_conflict_logs_since(log_id(1, 3));
    let all = s.try_get_log_entries(IndexBound::Unbounded, IndexBound::Unbounded);
    assert_eq!(indexes(&all), vec![1, 2]);
    assert_eq!(s.get_log_state().last_log_id, Some(log_id(1, 2)));
    s.delete_conflict_logs_since(log_id(1, 1));
    assert_eq!(s.get_log_state().last_log_id, None);
}

#[test]
fn purging_removes_the_index_and_below() {
    let mut s = filled(5);
    s.purge_logs_upto(log_id(1, 2));
    let all = s.try_get_log_entries(IndexBound::Unbounded, IndexBound::Unbounded);
    assert_eq!(indexes(&all), vec![3, 4, 5]);
    let st = s.get_log_state();
    assert_eq!(st.last_purged_log_id, Some(log_id(1, 2)));
    assert_eq!(st.last_log_id, Some(log_id(1, 5)));
}

#[test]
fn purging_everything_leaves_the_purged_id_as_last() {
    let mut s = filled(3);
    s.purge_logs_upto(log_id(1, 3));
    let st = s.get_log_state();
    assert_eq!(st.last_purged_log_id, Some(log_id(1, 3)));
    assert_eq!(st.last_log_id, Some(log_id(1, 3)));
    s.purge_logs_upto(log_id(1, 7));
    assert_eq!(s.get_log_state().last_log_id, Some(log_id(1, 7)));
}

#[test]
fn applying_through_the_store() {
    let mut s = Store::new();
    let responses = s.apply_to_state_machine(&[set(1, "foo", "bar"), blank(1, 2)]);
    assert_eq!(responses.len(), 2);
    assert_eq!(responses[0].value, Some("bar".to_string()));
    assert_eq!(responses[1].value, None);
    assert_eq!(s.state_machine.read(&"foo".to_string()), "bar");
    let (applied, _) = s.last_applied_state();
    assert_eq!(applied, Some(log_id(1, 2)));
    assert_eq!(s.get_log_state().last_log_id, None);
}

#[test]
fn built_snapshot_is_current_and_named_by_its_number() {
    let mut s = Store::new();
    s.apply_to_state_machine(&[set(3, "a", "b")]);
    let snap = s.build_snapshot(vec![1, 2, 3]);
    assert_eq!(snap.meta.snapshot_id, "1-1-3-1");
    assert_eq!(snap.meta.last_log_id, Some(log_id(1, 3)));
    assert_eq!(snap.data, vec![1, 2, 3]);
    let current = s.get_current_snapshot().unwrap();
    assert_eq!(current.meta.snapshot_id, "1-1-3-1");
    assert_eq!(current.data, vec![1, 2, 3]);
    let second = s.build_snapshot(vec![4]);
    assert_eq!(second.meta.snapshot_id, "1-1-3-2");
    assert_ne!(second.meta.snapshot_id, snap.meta.snapshot_id);
    assert_eq!(s.get_current_snapshot().unwrap().data, vec![4]);
}

#[test]
fn snapshot_of_an_untouched_state_machine() {
    let mut s = Store::new();
    let snap = s.build_snapshot(Vec::new());
    assert_eq!(snap.meta.snapshot_id, "--1");
    assert_eq!(snap.meta.last_log_id, None);
    assert_eq!(snap.meta.last_membership.log_id, None);
}

fn meta(index: u64, id: &str) -> SnapshotMeta {
    SnapshotMeta {
        last_log_id: Some(log_id(2, index)),
        last_membership: StoredMembership::new(
            Some(log_id(2, 1)),
            Membership::new(vec![vec![1]], vec![(1, BasicNode::new("n:1".to_string()))]),
        ),
        snapshot_id: id.to_string(),
    }
}

#[test]
fn installing_a_readable_snapshot_replaces_the_state_machine() {
    let mut s = Store::new();
    s.apply_to_state_machine(&[set(1, "old", "x")]);
    s.append_to_log(vec![blank(1, 1)]);
    let mut sm = StateMachine::new();
    sm.last_applied_log = Some(log_id(2, 8));
    sm.data = KvMap::from_pairs(vec![("new".to_string(), "y".to_string())]);
    let m = meta(8, "snap-8");
    let r: Result<(), raft_kv::snapshot::SnapshotReadError<String>> =
        s.install_snapshot(&m, vec![9, 9], Ok(sm));
    assert!(r.is_ok());
    assert_eq!(s.state_machine.read(&"new".to_string()), "y");
    assert_eq!(s.state_machine.read(&"old".to_string()), "");
    assert_eq!(s.last_applied_state().0, Some(log_id(2, 8)));
    let current = s.get_current_snapshot().unwrap();
    assert_eq!(current.meta.snapshot_id, "snap-8");
    assert_eq!(current.data, vec![9, 9]);
    assert_eq!(s.get_log_state().last_log_id, Some(log_id(1, 1)));
}

#[test]
fn installing_an_unreadable_snapshot_changes_nothing() {
    let mut s = Store::new();
    s.apply_to_state_machine(&[set(1, "k", "v")]);
    let m = meta(8, "bad");
    let r = s.install_snapshot(&m, vec![0], Err("not a state machine".to_string()));
    let err = r.unwrap_err();
    assert_eq!(err.source, "not a state machine");
    assert_eq!(err.signature.snapshot_id, "bad");
    assert_eq!(err.signature.last_log_id, Some(log_id(2, 8)));
    assert_eq!(err.signature.last_membership_log_id, Some(log_id(2, 1)));
    assert_eq!(s.state_machine.read(&"k".to_string()), "v");
    assert!(s.get_current_snapshot().is_none());
}

#[test]
fn receiving_a_snapshot_starts_from_an_empty_buffer() {
    let s = Store::new();
    assert!(s.begin_receiving_snapshot().is_empty());
}

#[test]
fn valid_ranges() {
    assert!(is_valid_range(IndexBound::Included(3), IndexBound::Excluded(3)));
    assert!(is_valid_range(IndexBound::Excluded(3), IndexBound::Included(3)));
    assert!(!is_valid_range(IndexBound::Excluded(3), IndexBound::Excluded(3)));
    assert!(!is_valid_range(IndexBound::Included(4), IndexBound::Included(3)));
    assert!(is_valid_range(IndexBound::Unbounded, IndexBound::Included(0)));
    assert!(is_valid_range(IndexBound::Included(9), IndexBound::Unbounded));
}

#[test]
fn snapshot_numbers_count_builds() {
    let mut s = Store::new();
    assert_eq!(s.snapshot_idx(), 0);
    s.build_snapshot(Vec::new());
    s.build_snapshot(Vec::new());
    assert_eq!(s.snapshot_idx(), 2);
    assert_eq!(s.get_current_snapshot().unwrap().meta.snapshot_id, "--2");
}
