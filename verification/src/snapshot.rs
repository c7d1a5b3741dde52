//! Snapshots of the state machine and what describes them.
use vstd::prelude::*;
use crate::ids::LogId;
use crate::membership::{StoredMembership, StoredMembershipView};

verus! {

/// What describes a snapshot: the last log entry it includes, the membership applied last, and
/// its name.
#[derive(Debug)]
pub struct SnapshotMeta {
    pub last_log_id: Option<LogId>,
    pub last_membership: StoredMembership,
    pub snapshot_id: String,
}

/// The value of a [`SnapshotMeta`].
pub struct SnapshotMetaView {
    pub last_log_id: Option<LogId>,
    pub last_membership: StoredMembershipView,
    pub snapshot_id: Seq<char>,
}

impl View for SnapshotMeta {
    type V = SnapshotMetaView;

    open spec fn view(&self) -> SnapshotMetaView {
        SnapshotMetaView {
            last_log_id: self.last_log_id,
            last_membership: self.last_membership@,
            snapshot_id: self.snapshot_id@,
        }
    }
}

impl Clone for SnapshotMeta {
    fn clone(&self) -> (r: Self)
        ensures
            r@ == self@,
    {
        SnapshotMeta {
            last_log_id: self.last_log_id,
            last_membership: self.last_membership.clone(),
            snapshot_id: self.snapshot_id.clone(),
        }
    }
}

/// A short description of a snapshot, for naming it in errors.
#[derive(Debug)]
pub struct SnapshotSignature {
    pub last_log_id: Option<LogId>,
    pub last_membership_log_id: Option<LogId>,
    pub snapshot_id: String,
}

impl SnapshotMetaView {
    /// The signature of a snapshot with these metadata: its last log id, the log id of its
    /// membership, and its name.
    pub open spec fn signature(self) -> (Option<LogId>, Option<LogId>, Seq<char>) {
        (self.last_log_id, self.last_membership.log_id, self.snapshot_id)
    }
}

impl SnapshotMeta {
    /// The signature of the snapshot that these metadata describe.
    pub fn signature(&self) -> (r: SnapshotSignature)
        ensures
            (r.last_log_id, r.last_membership_log_id, r.snapshot_id@) == self@.signature(),
    {
        SnapshotSignature {
            last_log_id: self.last_log_id,
            last_membership_log_id: self.last_membership.log_id,
            snapshot_id: self.snapshot_id.clone(),
        }
    }
}

/// A snapshot: its metadata and the serialized state machine.
#[derive(Debug)]
pub struct StoredSnapshot {
    pub meta: SnapshotMeta,
    pub data: Vec<u8>,
}

/// The value of a [`StoredSnapshot`].
pub struct StoredSnapshotView {
    pub meta: SnapshotMetaView,
    pub data: Seq<u8>,
}

impl View for StoredSnapshot {
    type V = StoredSnapshotView;

    open spec fn view(&self) -> StoredSnapshotView {
        StoredSnapshotView { meta: self.meta@, data: self.data@ }
    }
}

/// A copy of `bytes`.
pub fn copy_bytes(bytes: &Vec<u8>) -> (r: Vec<u8>)
    ensures
        r@ == bytes@,
{
    let mut r: Vec<u8> = Vec::with_capacity(bytes.len());
    let mut i: usize = 0;
    while i < bytes.len()
        invariant
            i <= bytes@.len(),
            r@ == bytes@.take(i as int),
        decreases bytes@.len() - i,
    {
        r.push(bytes[i]);
        i = i + 1;
        proof {
            assert(r@ =~= bytes@.take(i as int));
        }
    }
    proof {
        assert(r@ =~= bytes@);
    }
    r
}

impl Clone for StoredSnapshot {
    fn clone(&self) -> (r: Self)
        ensures
            r@ == self@,
    {
        StoredSnapshot { meta: self.meta.clone(), data: copy_bytes(&self.data) }
    }
}

/// The error of installing a snapshot whose data could not be read: the snapshot's signature
/// and the reason the data was refused.
#[derive(Debug)]
pub struct SnapshotReadError<E> {
    pub signature: SnapshotSignature,
    pub source: E,
}

} // verus!
