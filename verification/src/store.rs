//! The storage of a Raft node: the log, the vote, the state machine and the current snapshot.
use vstd::prelude::*;
use crate::entry::{Entry, EntryView, Response, entries_view};
use crate::ids::{LogId, Vote, log_id_le};
use crate::log::{
    IndexBound, RaftLog, in_range, insert_entries, is_max_key, keys_are_indexes, last_entry_id,
    lemma_max_key_exists, range_is_valid, restrict_log,
};
use crate::membership::StoredMembership;
use crate::snapshot::{
    SnapshotMeta, SnapshotMetaView, SnapshotReadError, StoredSnapshot, StoredSnapshotView,
    copy_bytes,
};
use crate::state_machine::{StateMachine, StateMachineView, apply_entries};
use crate::text::{law_snapshot_ids_distinct, snapshot_id, snapshot_id_text};

verus! {

/// Where the log stands: the last purged log id, and the log id of the last entry (the last
/// purged one when no entry is left).
#[derive(Clone, Copy, Debug, PartialEq, Eq, Structural)]
pub struct LogState {
    pub last_purged_log_id: Option<LogId>,
    pub last_log_id: Option<LogId>,
}

/// The value of a [`Store`].
pub struct StoreView {
    pub last_purged_log_id: Option<LogId>,
    pub log: Map<u64, EntryView>,
    pub state_machine: StateMachineView,
    pub vote: Option<Vote>,
    pub snapshot_idx: u64,
    pub current_snapshot: Option<StoredSnapshotView>,
}

impl StoreView {
    /// The store of a node that has done nothing yet.
    pub open spec fn initial() -> StoreView {
        StoreView {
            last_purged_log_id: None,
            log: Map::empty(),
            state_machine: StateMachineView::initial(),
            vote: None,
            snapshot_idx: 0,
            current_snapshot: None,
        }
    }

    /// Where the log stands.
    pub open spec fn log_state(self) -> LogState {
        LogState {
            last_purged_log_id: self.last_purged_log_id,
            last_log_id: match last_entry_id(self.log) {
                Some(id) => Some(id),
                None => self.last_purged_log_id,
            },
        }
    }

    /// The store after `vote` is saved.
    pub open spec fn vote_saved(self, vote: Vote) -> StoreView {
        StoreView { vote: Some(vote), ..self }
    }

    /// The store after `es` are appended, each at its index.
    pub open spec fn appended(self, es: Seq<EntryView>) -> StoreView {
        StoreView { log: insert_entries(self.log, es), ..self }
    }

    /// The store after the entries at the index of `log_id` and above are deleted.
    pub open spec fn conflicts_deleted(self, log_id: LogId) -> StoreView {
        StoreView { log: restrict_log(self.log, |j: u64| j < log_id.index), ..self }
    }

    /// Whether the log may be purged up to `log_id`: it does not precede what was purged.
    pub open spec fn may_purge_upto(self, log_id: LogId) -> bool {
        match self.last_purged_log_id {
            Some(p) => log_id_le(p, log_id),
            None => true,
        }
    }

    /// The store after the log is purged up to `log_id`, inclusive.
    pub open spec fn purged(self, log_id: LogId) -> StoreView {
        StoreView {
            last_purged_log_id: Some(log_id),
            log: restrict_log(self.log, |j: u64| j > log_id.index),
            ..self
        }
    }

    /// The store after `es` are applied to the state machine, and the responses.
    pub open spec fn applied(self, es: Seq<EntryView>) -> (StoreView, Seq<Response>) {
        let (sm, responses) = apply_entries(self.state_machine, es);
        (StoreView { state_machine: sm, ..self }, responses)
    }

    /// The snapshot built next, of the state machine serialized as `data`.
    pub open spec fn next_snapshot(self, data: Seq<u8>) -> StoredSnapshotView {
        let idx = (self.snapshot_idx + 1) as u64;
        StoredSnapshotView {
            meta: SnapshotMetaView {
                last_log_id: self.state_machine.last_applied_log,
                last_membership: self.state_machine.last_membership,
                snapshot_id: snapshot_id_text(self.state_machine.last_applied_log, idx),
            },
            data,
        }
    }

    /// The store after a snapshot of the state machine, serialized as `data`, is built.
    pub open spec fn snapshot_built(self, data: Seq<u8>) -> StoreView {
        StoreView {
            snapshot_idx: (self.snapshot_idx + 1) as u64,
            current_snapshot: Some(self.next_snapshot(data)),
            ..self
        }
    }

    /// The store after the snapshot with metadata `meta` and data `data`, that holds the state
    /// machine `sm`, is installed.
    pub open spec fn snapshot_installed(
        self,
        meta: SnapshotMetaView,
        data: Seq<u8>,
        sm: StateMachineView,
    ) -> StoreView {
        StoreView {
            state_machine: sm,
            current_snapshot: Some(StoredSnapshotView { meta, data }),
            ..self
        }
    }
}

/// A saved vote is read back.
pub proof fn law_read_vote_after_save(s: StoreView, vote: Vote)
    ensures
        s.vote_saved(vote).vote == Some(vote),
{
}

/// When the log holds entries, its state names the entry with the greatest index; when it holds
/// none, it names the last purged log id.
pub proof fn law_log_state_names_last_entry(s: StoreView)
    requires
        s.log.dom().finite(),
    ensures
        s.log_state().last_purged_log_id == s.last_purged_log_id,
        (exists|k: u64| #[trigger] s.log.contains_key(k)) ==> exists|k: u64|
            is_max_key(s.log, k) && s.log_state().last_log_id == Some(s.log[k].log_id),
        (forall|k: u64| !(#[trigger] s.log.contains_key(k))) ==> s.log_state().last_log_id
            == s.last_purged_log_id,
{
    if exists|k: u64| #[trigger] s.log.contains_key(k) {
        lemma_max_key_exists(s.log);
        let k = choose|k: u64| is_max_key(s.log, k);
        assert(is_max_key(s.log, k) && s.log_state().last_log_id == Some(s.log[k].log_id));
    }
}

/// After appending, each appended entry that no later appended entry replaces is stored at its
/// index; an index that no appended entry has keeps what it held.
pub proof fn law_append_stores_entries(s: StoreView, es: Seq<EntryView>)
    ensures
        forall|i: int|
            0 <= i < es.len() && (forall|j: int|
                i < j < es.len() ==> #[trigger] es[j].log_id.index != es[i].log_id.index) ==> {
                &&& s.appended(es).log.contains_key(#[trigger] es[i].log_id.index)
                &&& s.appended(es).log[es[i].log_id.index] == es[i]
            },
        forall|k: u64|
            (forall|i: int| 0 <= i < es.len() ==> #[trigger] es[i].log_id.index != k) ==> (
            #[trigger] s.appended(es).log.contains_key(k) == s.log.contains_key(k) && (
            s.log.contains_key(k) ==> s.appended(es).log[k] == s.log[k])),
    decreases es.len(),
{
    if es.len() > 0 {
        let p = es.drop_last();
        law_append_stores_entries(s, p);
        assert forall|i: int|
            0 <= i < es.len() && (forall|j: int|
                i < j < es.len() ==> #[trigger] es[j].log_id.index != es[i].log_id.index) implies {
            &&& s.appended(es).log.contains_key(#[trigger] es[i].log_id.index)
            &&& s.appended(es).log[es[i].log_id.index] == es[i]
        } by {
            if i < es.len() - 1 {
                assert(es[es.len() - 1].log_id.index != es[i].log_id.index);
                assert(p[i] == es[i]);
                assert forall|j: int| i < j < p.len() implies #[trigger] p[j].log_id.index
                    != p[i].log_id.index by {
                    assert(p[j] == es[j]);
                }
            }
        }
        assert forall|k: u64|
            (forall|i: int| 0 <= i < es.len() ==> #[trigger] es[i].log_id.index != k) implies (
            #[trigger] s.appended(es).log.contains_key(k) == s.log.contains_key(k) && (
            s.log.contains_key(k) ==> s.appended(es).log[k] == s.log[k])) by {
            assert(es[es.len() - 1].log_id.index != k);
            assert forall|i: int| 0 <= i < p.len() implies #[trigger] p[i].log_id.index != k by {
                assert(p[i] == es[i]);
            }
        }
    }
}

/// Deleting the entries since a log id leaves no entry at its index or above, and keeps the
/// entries below it unchanged.
pub proof fn law_delete_conflicts(s: StoreView, log_id: LogId)
    ensures
        forall|k: u64| #[trigger] s.conflicts_deleted(log_id).log.contains_key(k) ==> k
            < log_id.index,
        forall|k: u64|
            k < log_id.index ==> (#[trigger] s.conflicts_deleted(log_id).log.contains_key(k)
                == s.log.contains_key(k) && (s.log.contains_key(k) ==> s.conflicts_deleted(
                log_id,
            ).log[k] == s.log[k])),
        s.conflicts_deleted(log_id).log_state().last_purged_log_id == s.last_purged_log_id,
{
}

/// Purging up to a log id remembers it as the last purged, leaves no entry at its index or
/// below and keeps the entries above; once nothing is left, the log state's last log id is the
/// purged one.
pub proof fn law_purge(s: StoreView, log_id: LogId)
    requires
        s.may_purge_upto(log_id),
    ensures
        s.purged(log_id).log_state().last_purged_log_id == Some(log_id),
        forall|k: u64| #[trigger] s.purged(log_id).log.contains_key(k) ==> k > log_id.index,
        forall|k: u64|
            k > log_id.index ==> (#[trigger] s.purged(log_id).log.contains_key(k)
                == s.log.contains_key(k) && (s.log.contains_key(k) ==> s.purged(log_id).log[k]
                == s.log[k])),
        (forall|k: u64| #[trigger] s.log.contains_key(k) ==> k <= log_id.index) ==> s.purged(
            log_id,
        ).log_state().last_log_id == Some(log_id),
{
    if forall|k: u64| #[trigger] s.log.contains_key(k) ==> k <= log_id.index {
        assert(!exists|k: u64| #[trigger] s.purged(log_id).log.contains_key(k));
    }
}

/// A built snapshot is named by the log id the state machine applied last and the sequence
/// number one above the previous build's.
pub proof fn law_built_snapshot_name(s: StoreView, data: Seq<u8>)
    ensures
        s.next_snapshot(data).meta.snapshot_id == snapshot_id_text(
            s.state_machine.last_applied_log,
            (s.snapshot_idx + 1) as u64,
        ),
        s.next_snapshot(data).meta.last_log_id == s.state_machine.last_applied_log,
{
}

/// A built snapshot becomes the current one: it covers the state machine's last applied log
/// id and membership, holds the data given, and is named by a sequence number one above the
/// previous build's.
pub proof fn law_built_snapshot_is_current(s: StoreView, data: Seq<u8>)
    requires
        s.snapshot_idx < u64::MAX,
    ensures
        s.snapshot_built(data).current_snapshot == Some(s.next_snapshot(data)),
        s.snapshot_built(data).snapshot_idx == s.snapshot_idx + 1,
        s.next_snapshot(data).meta.last_log_id == s.state_machine.last_applied_log,
        s.next_snapshot(data).meta.last_membership == s.state_machine.last_membership,
        s.next_snapshot(data).data == data,
        s.snapshot_built(data).state_machine == s.state_machine,
        s.snapshot_built(data).log == s.log,
{
}

/// Every change of the log keeps each entry stored at the index of its log id.
pub proof fn law_log_keys_stay_indexes(s: StoreView, es: Seq<EntryView>, log_id: LogId)
    requires
        keys_are_indexes(s.log),
    ensures
        keys_are_indexes(s.appended(es).log),
        keys_are_indexes(s.conflicts_deleted(log_id).log),
        keys_are_indexes(s.purged(log_id).log),
        keys_are_indexes(s.applied(es).0.log),
    decreases es.len(),
{
    if es.len() > 0 {
        law_log_keys_stay_indexes(s, es.drop_last(), log_id);
    }
}

/// Two snapshots built one after the other have different names.
pub proof fn law_successive_snapshots_differ(s: StoreView, first: Seq<u8>, second: Seq<u8>)
    requires
        s.snapshot_idx + 1 < u64::MAX,
    ensures
        s.snapshot_built(first).next_snapshot(second).meta.snapshot_id != s.next_snapshot(
            first,
        ).meta.snapshot_id,
{
    let s1 = s.snapshot_built(first);
    law_snapshot_ids_distinct(
        s.state_machine.last_applied_log,
        (s.snapshot_idx + 1) as u64,
        s1.state_machine.last_applied_log,
        (s1.snapshot_idx + 1) as u64,
    );
}

/// After a snapshot is installed, the state machine is the one it holds and the snapshot is
/// the current one; the log and the vote are unchanged.
pub proof fn law_installed_snapshot_is_current(
    s: StoreView,
    meta: SnapshotMetaView,
    data: Seq<u8>,
    sm: StateMachineView,
)
    ensures
        s.snapshot_installed(meta, data, sm).state_machine == sm,
        s.snapshot_installed(meta, data, sm).current_snapshot == Some(
            StoredSnapshotView { meta, data },
        ),
        s.snapshot_installed(meta, data, sm).log == s.log,
        s.snapshot_installed(meta, data, sm).vote == s.vote,
{
}

/// A snapshot built by one store and installed, with the state machine its data holds, into
/// any store makes that state machine the installed store's, and the snapshot its current one.
pub proof fn law_install_built_snapshot(builder: StoreView, data: Seq<u8>, s: StoreView)
    ensures
        ({
            let snapshot = builder.next_snapshot(data);
            let installed = s.snapshot_installed(snapshot.meta, snapshot.data, builder.state_machine);
            &&& installed.state_machine == builder.state_machine
            &&& installed.current_snapshot == Some(snapshot)
        }),
{
}

/// The storage of a node.
#[derive(Debug)]
pub struct Store {
    last_purged_log_id: Option<LogId>,
    log: RaftLog,
    pub state_machine: StateMachine,
    vote: Option<Vote>,
    snapshot_idx: u64,
    current_snapshot: Option<StoredSnapshot>,
}

impl Store {
    pub closed spec fn spec_last_purged_log_id(&self) -> Option<LogId> {
        self.last_purged_log_id
    }

    pub closed spec fn spec_log(&self) -> Map<u64, EntryView> {
        self.log@
    }

    pub closed spec fn spec_state_machine(&self) -> StateMachineView {
        self.state_machine@
    }

    pub closed spec fn spec_vote(&self) -> Option<Vote> {
        self.vote
    }

    pub closed spec fn spec_snapshot_idx(&self) -> u64 {
        self.snapshot_idx
    }

    pub closed spec fn spec_current_snapshot(&self) -> Option<StoredSnapshotView> {
        match self.current_snapshot {
            Some(s) => Some(s@),
            None => None,
        }
    }
}

impl Default for Store {
    fn default() -> (r: Store)
        ensures
            r@ == StoreView::initial(),
    {
        Store::new()
    }
}

impl View for Store {
    type V = StoreView;

    open spec fn view(&self) -> StoreView {
        StoreView {
            last_purged_log_id: self.spec_last_purged_log_id(),
            log: self.spec_log(),
            state_machine: self.spec_state_machine(),
            vote: self.spec_vote(),
            snapshot_idx: self.spec_snapshot_idx(),
            current_snapshot: self.spec_current_snapshot(),
        }
    }
}

impl Store {
    /// The store of a node that has done nothing yet.
    pub fn new() -> (r: Store)
        ensures
            r@ == StoreView::initial(),
    {
        Store {
            last_purged_log_id: None,
            log: RaftLog::new(),
            state_machine: StateMachine::new(),
            vote: None,
            snapshot_idx: 0,
            current_snapshot: None,
        }
    }

    /// The log holds finitely many entries, each stored at the index of its log id.
    pub proof fn lemma_log_valid(&self)
        ensures
            self@.log.dom().finite(),
            keys_are_indexes(self@.log),
    {
        self.log.lemma_finite();
        self.log.lemma_keys_are_indexes();
    }

    /// Where the log stands.
    pub fn get_log_state(&self) -> (r: LogState)
        ensures
            r == self@.log_state(),
    {
        let last = self.log.last_log_id();
        let last = match last {
            None => self.last_purged_log_id,
            Some(value) => Some(value),
        };
        LogState { last_purged_log_id: self.last_purged_log_id, last_log_id: last }
    }

    /// The entries whose index lies in the range from `start` to `end`, in increasing order
    /// of index.
    pub fn try_get_log_entries(&self, start: IndexBound, end: IndexBound) -> (r: Vec<Entry>)
        requires
            range_is_valid(start, end),
        ensures
            forall|i: int, j: int|
                0 <= i < j < r@.len() ==> #[trigger] r@[i].log_id.index < #[trigger] r@[j].log_id.index,
            forall|i: int|
                0 <= i < r@.len() ==> {
                    &&& in_range(#[trigger] r@[i].log_id.index, start, end)
                    &&& self@.log.contains_key(r@[i].log_id.index)
                    &&& self@.log[r@[i].log_id.index] == r@[i]@
                },
            forall|k: u64|
                #[trigger] self@.log.contains_key(k) && in_range(k, start, end) ==> exists|i: int|
                    0 <= i < r@.len() && #[trigger] r@[i].log_id.index == k,
    {
        self.log.entries_in(start, end)
    }

    /// The sequence number of the last snapshot built.
    pub fn snapshot_idx(&self) -> (r: u64)
        ensures
            r == self@.snapshot_idx,
    {
        self.snapshot_idx
    }

    /// Saves the vote of this node.
    pub fn save_vote(&mut self, vote: &Vote)
        ensures
            final(self)@ == old(self)@.vote_saved(*vote),
    {
        self.vote = Some(*vote);
    }

    /// The vote saved last, if any.
    pub fn read_vote(&self) -> (r: Option<Vote>)
        ensures
            r == self@.vote,
    {
        self.vote
    }

    /// Appends entries to the log, each at its index, replacing what is stored there.
    pub fn append_to_log(&mut self, entries: Vec<Entry>)
        ensures
            final(self)@ == old(self)@.appended(entries_view(entries@)),
    {
        self.log.append(entries);
    }

    /// Deletes the entries at the index of `log_id` and above.
    pub fn delete_conflict_logs_since(&mut self, log_id: LogId)
        ensures
            final(self)@ == old(self)@.conflicts_deleted(log_id),
    {
        self.log.truncate_from(log_id.index);
    }

    /// Purges the log up to `log_id`, inclusive, and remembers `log_id` as the last purged.
    pub fn purge_logs_upto(&mut self, log_id: LogId)
        requires
            old(self)@.may_purge_upto(log_id),
        ensures
            final(self)@ == old(self)@.purged(log_id),
    {
        self.last_purged_log_id = Some(log_id);
        self.log.purge_upto(log_id.index);
    }

    /// The last applied log id and the last applied membership.
    pub fn last_applied_state(&self) -> (r: (Option<LogId>, StoredMembership))
        ensures
            r.0 == self@.state_machine.last_applied_log,
            r.1@ == self@.state_machine.last_membership,
    {
        (self.state_machine.last_applied_log, self.state_machine.last_membership.clone())
    }

    /// Applies entries to the state machine, in order, and answers each.
    pub fn apply_to_state_machine(&mut self, entries: &[Entry]) -> (r: Vec<Response>)
        ensures
            (final(self)@, r@) == old(self)@.applied(entries_view(entries@)),
    {
        self.state_machine.apply(entries)
    }

    /// Builds a snapshot of the state machine, serialized as `data`, and keeps it as the current
    /// snapshot.
    pub fn build_snapshot(&mut self, data: Vec<u8>) -> (r: StoredSnapshot)
        requires
            old(self)@.snapshot_idx < u64::MAX,
        ensures
            final(self)@ == old(self)@.snapshot_built(data@),
            r@ == old(self)@.next_snapshot(data@),
            r.meta.snapshot_id@ == snapshot_id_text(
                old(self)@.state_machine.last_applied_log,
                (old(self)@.snapshot_idx + 1) as u64,
            ),
            r.meta.last_log_id == old(self)@.state_machine.last_applied_log,
    {
        let last_applied_log = self.state_machine.last_applied_log;
        let last_membership = self.state_machine.last_membership.clone();
        self.snapshot_idx = self.snapshot_idx + 1;
        let snapshot_index = self.snapshot_idx;
        let meta = SnapshotMeta {
            last_log_id: last_applied_log,
            last_membership,
            snapshot_id: snapshot_id(last_applied_log, snapshot_index),
        };
        let snapshot = StoredSnapshot { meta: meta.clone(), data: copy_bytes(&data) };
        self.current_snapshot = Some(snapshot);
        StoredSnapshot { meta, data }
    }

    /// The buffer that a snapshot being received is written into: empty.
    pub fn begin_receiving_snapshot(&self) -> (r: Vec<u8>)
        ensures
            r@ == Seq::<u8>::empty(),
    {
        Vec::new()
    }

    /// Installs the snapshot with metadata `meta` and data `data`; `parsed` is what reading the
    /// data gave. A snapshot whose data could not be read changes nothing and is refused with
    /// its signature.
    pub fn install_snapshot<E>(
        &mut self,
        meta: &SnapshotMeta,
        data: Vec<u8>,
        parsed: Result<StateMachine, E>,
    ) -> (r: Result<(), SnapshotReadError<E>>)
        ensures
            match parsed {
                Ok(sm) => r is Ok && final(self)@ == old(self)@.snapshot_installed(
                    meta@,
                    data@,
                    sm@,
                ),
                Err(e) => match r {
                    Err(err) => final(self)@ == old(self)@ && err.source == e && (
                    err.signature.last_log_id,
                    err.signature.last_membership_log_id,
                    err.signature.snapshot_id@,
                    ) == meta@.signature(),
                    Ok(_) => false,
                },
            },
    {
        match parsed {
            Ok(sm) => {
                self.state_machine = sm;
                self.current_snapshot = Some(StoredSnapshot { meta: meta.clone(), data });
                Ok(())
            },
            Err(e) => Err(SnapshotReadError { signature: meta.signature(), source: e }),
        }
    }

    /// The current snapshot, if one was built or installed.
    pub fn get_current_snapshot(&self) -> (r: Option<StoredSnapshot>)
        ensures
            match r {
                Some(s) => self@.current_snapshot == Some(s@),
                None => self@.current_snapshot is None,
            },
    {
        match &self.current_snapshot {
            Some(snapshot) => Some(snapshot.clone()),
            None => None,
        }
    }
}

} // verus!
