//! The log of entries, each stored at the index of its log id.
use vstd::prelude::*;
use std::collections::BTreeMap;
use std::ops::Bound;
use crate::entry::{Entry, EntryView, entries_view};
use crate::ids::LogId;

verus! {

/// A bound of a range of log indexes.
#[derive(Clone, Copy, Debug, PartialEq, Eq, Structural)]
pub enum IndexBound {
    Included(u64),
    Excluded(u64),
    Unbounded,
}

/// Whether `k` lies above the start bound `b` of a range.
pub open spec fn above_start(k: u64, b: IndexBound) -> bool {
    match b {
        IndexBound::Included(s) => s <= k,
        IndexBound::Excluded(s) => s < k,
        IndexBound::Unbounded => true,
    }
}

/// Whether `k` lies below the end bound `b` of a range.
pub open spec fn below_end(k: u64, b: IndexBound) -> bool {
    match b {
        IndexBound::Included(e) => k <= e,
        IndexBound::Excluded(e) => k < e,
        IndexBound::Unbounded => true,
    }
}

/// Whether `k` lies in the range from `start` to `end`.
pub open spec fn in_range(k: u64, start: IndexBound, end: IndexBound) -> bool {
    above_start(k, start) && below_end(k, end)
}

/// Whether a range may be asked for: its start does not exceed its end, and a range whose start
/// equals its end does not exclude both.
pub open spec fn range_is_valid(start: IndexBound, end: IndexBound) -> bool {
    match (start, end) {
        (IndexBound::Unbounded, _) => true,
        (_, IndexBound::Unbounded) => true,
        (IndexBound::Excluded(s), IndexBound::Excluded(e)) => s < e,
        (IndexBound::Excluded(s), IndexBound::Included(e)) => s <= e,
        (IndexBound::Included(s), IndexBound::Excluded(e)) => s <= e,
        (IndexBound::Included(s), IndexBound::Included(e)) => s <= e,
    }
}

/// A range may be asked for exactly when its start does not exceed its end and it does not
/// exclude both ends of a single index; an unbounded end never makes it invalid.
pub proof fn law_valid_ranges(s: u64, e: u64)
    ensures
        range_is_valid(IndexBound::Included(s), IndexBound::Included(e)) <==> s <= e,
        range_is_valid(IndexBound::Included(s), IndexBound::Excluded(e)) <==> s <= e,
        range_is_valid(IndexBound::Excluded(s), IndexBound::Included(e)) <==> s <= e,
        range_is_valid(IndexBound::Excluded(s), IndexBound::Excluded(e)) <==> s < e,
        range_is_valid(IndexBound::Included(s), IndexBound::Included(s)),
        range_is_valid(IndexBound::Unbounded, IndexBound::Included(e)),
        range_is_valid(IndexBound::Unbounded, IndexBound::Excluded(e)),
        range_is_valid(IndexBound::Included(s), IndexBound::Unbounded),
        range_is_valid(IndexBound::Excluded(s), IndexBound::Unbounded),
        range_is_valid(IndexBound::Unbounded, IndexBound::Unbounded),
{
}

/// Whether a range may be asked for (see [`range_is_valid`]).
pub fn is_valid_range(start: IndexBound, end: IndexBound) -> (r: bool)
    ensures
        r == range_is_valid(start, end),
{
    match (start, end) {
        (IndexBound::Unbounded, _) => true,
        (_, IndexBound::Unbounded) => true,
        (IndexBound::Excluded(s), IndexBound::Excluded(e)) => s < e,
        (IndexBound::Excluded(s), IndexBound::Included(e)) => s <= e,
        (IndexBound::Included(s), IndexBound::Excluded(e)) => s <= e,
        (IndexBound::Included(s), IndexBound::Included(e)) => s <= e,
    }
}

/// Whether each entry of `m` is stored at the index of its log id.
pub open spec fn keys_are_indexes(m: Map<u64, EntryView>) -> bool {
    forall|k: u64| #[trigger] m.contains_key(k) ==> m[k].log_id.index == k
}

/// Whether the key `k` is the greatest key of `m`.
pub open spec fn is_max_key(m: Map<u64, EntryView>, k: u64) -> bool {
    m.contains_key(k) && forall|j: u64| #[trigger] m.contains_key(j) ==> j <= k
}

/// The log id of the entry with the greatest index, if the log holds any entry.
pub open spec fn last_entry_id(m: Map<u64, EntryView>) -> Option<LogId> {
    if exists|k: u64| #[trigger] m.contains_key(k) {
        Some(m[choose|k: u64| is_max_key(m, k)].log_id)
    } else {
        None
    }
}

/// A finite log that holds an entry has a greatest index.
pub proof fn lemma_max_key_exists(m: Map<u64, EntryView>)
    requires
        m.dom().finite(),
        exists|k: u64| #[trigger] m.contains_key(k),
    ensures
        exists|k: u64| is_max_key(m, k),
    decreases m.dom().len(),
{
    let w = choose|w: u64| #[trigger] m.contains_key(w);
    assert(m.dom().contains(w));
    let k = m.dom().choose();
    let rest = m.remove(k);
    if exists|j: u64| #[trigger] rest.contains_key(j) {
        lemma_max_key_exists(rest);
        let j = choose|j: u64| is_max_key(rest, j);
        if j < k {
            assert(is_max_key(m, k));
        } else {
            assert(is_max_key(m, j));
        }
    } else {
        assert forall|j: u64| #[trigger] m.contains_key(j) implies j <= k by {
            if j != k {
                assert(rest.contains_key(j));
            }
        }
        assert(is_max_key(m, k));
    }
}

/// The log after each entry of `es`, in order, is stored at its index.
pub open spec fn insert_entries(m: Map<u64, EntryView>, es: Seq<EntryView>) -> Map<u64, EntryView>
    decreases es.len(),
{
    if es.len() == 0 {
        m
    } else {
        insert_entries(m, es.drop_last()).insert(es.last().log_id.index, es.last())
    }
}

/// The entries of `m` whose index satisfies `keep`.
pub open spec fn restrict_log(m: Map<u64, EntryView>, keep: spec_fn(u64) -> bool) -> Map<
    u64,
    EntryView,
> {
    Map::new(|k: u64| m.contains_key(k) && keep(k), |k: u64| m[k])
}

/// Whether each entry of `m` is stored under the index of its log id.
spec fn indexed(m: Map<u64, Entry>) -> bool {
    forall|k: u64| #[trigger] m.contains_key(k) ==> m[k].log_id.index == k
}

/// The entries of `m` that are stored under the index of their log id.
spec fn log_map(m: Map<u64, Entry>) -> Map<u64, EntryView> {
    Map::new(|k: u64| m.contains_key(k) && m[k].log_id.index == k, |k: u64| m[k]@)
}

/// The keys of `map` that lie in the range from `start` to `end`, in increasing order, as
/// `BTreeMap::range` visits them.
/// The contract claims what the documentation of `BTreeMap::range` gives: the range yields the
/// entries whose key lies in the range, in ascending order of key, each once; the `requires`
/// leaves out the ranges on which `range` panics.
#[verifier::external_body]
fn btree_range_keys(map: &BTreeMap<u64, Entry>, start: IndexBound, end: IndexBound) -> (r: Vec<
    u64,
>)
    requires
        range_is_valid(start, end),
    ensures
        forall|i: int, j: int| 0 <= i < j < r@.len() ==> #[trigger] r@[i] < #[trigger] r@[j],
        forall|i: int|
            0 <= i < r@.len() ==> map@.contains_key(#[trigger] r@[i]) && in_range(r@[i], start, end),
        forall|k: u64| #[trigger] map@.contains_key(k) && in_range(k, start, end) ==> r@.contains(k),
{
    let lo = match start {
        IndexBound::Included(v) => Bound::Included(v),
        IndexBound::Excluded(v) => Bound::Excluded(v),
        IndexBound::Unbounded => Bound::Unbounded,
    };
    let hi = match end {
        IndexBound::Included(v) => Bound::Included(v),
        IndexBound::Excluded(v) => Bound::Excluded(v),
        IndexBound::Unbounded => Bound::Unbounded,
    };
    map.range((lo, hi)).map(|(k, _)| *k).collect()
}

/// The greatest key of `map`, as `BTreeMap::last_key_value` gives it.
/// The contract claims what its documentation says: the key of the last pair is the greatest key
/// of the map, and there is none when the map is empty.
#[verifier::external_body]
fn btree_last_key(map: &BTreeMap<u64, Entry>) -> (r: Option<u64>)
    ensures
        match r {
            Some(k) => map@.contains_key(k) && forall|j: u64| #[trigger]
                map@.contains_key(j) ==> j <= k,
            None => forall|j: u64| !(#[trigger] map@.contains_key(j)),
        },
{
    map.last_key_value().map(|(k, _)| *k)
}

/// Removes `keys` from `m`.
fn remove_keys(m: &mut BTreeMap<u64, Entry>, keys: &Vec<u64>)
    ensures
        final(m)@ == Map::new(
            |j: u64| old(m)@.contains_key(j) && !keys@.contains(j),
            |j: u64| old(m)@[j],
        ),
{
    let ghost start = m@;
    let mut i: usize = 0;
    while i < keys.len()
        invariant
            i <= keys@.len(),
            m@ == Map::new(
                |j: u64| start.contains_key(j) && !keys@.take(i as int).contains(j),
                |j: u64| start[j],
            ),
        decreases keys@.len() - i,
    {
        let k = keys[i];
        m.remove(&k);
        proof {
            assert(keys@.take(i + 1) =~= keys@.take(i as int).push(k));
            assert forall|j: u64| keys@.take(i + 1).contains(j) == (keys@.take(i as int).contains(j)
                || j == k) by {
                let t = keys@.take(i as int);
                if t.push(k).contains(j) {
                    let x = choose|x: int| 0 <= x < t.push(k).len() && t.push(k)[x] == j;
                    if x < t.len() {
                        assert(t[x] == j);
                    }
                }
                if t.contains(j) {
                    let x = choose|x: int| 0 <= x < t.len() && t[x] == j;
                    assert(t.push(k)[x] == j);
                }
                if j == k {
                    assert(t.push(k)[t.len() as int] == j);
                }
            }
        }
        i = i + 1;
        proof {
            assert(m@ =~= Map::new(
                |j: u64| start.contains_key(j) && !keys@.take(i as int).contains(j),
                |j: u64| start[j],
            ));
        }
    }
    proof {
        assert(keys@.take(keys@.len() as int) =~= keys@);
    }
}

/// The log: entries stored under the index of their log id.
#[derive(Debug)]
pub struct RaftLog {
    entries: BTreeMap<u64, Entry>,
}

impl View for RaftLog {
    type V = Map<u64, EntryView>;

    closed spec fn view(&self) -> Map<u64, EntryView> {
        log_map(self.entries@)
    }
}

impl RaftLog {
    #[verifier::type_invariant]
    spec fn inv(self) -> bool {
        indexed(self.entries@)
    }

    /// The empty log.
    pub fn new() -> (r: RaftLog)
        ensures
            r@ == Map::<u64, EntryView>::empty(),
    {
        let r = RaftLog { entries: BTreeMap::new() };
        proof {
            assert(r@ =~= Map::<u64, EntryView>::empty());
        }
        r
    }

    /// The log holds finitely many entries.
    pub proof fn lemma_finite(&self)
        ensures
            self@.dom().finite(),
    {
        assert(self.entries@.dom().finite());
        vstd::set_lib::lemma_set_subset_finite(self.entries@.dom(), self@.dom());
    }

    /// Each entry is stored at the index of its log id.
    pub proof fn lemma_keys_are_indexes(&self)
        ensures
            keys_are_indexes(self@),
    {
    }

    /// Stores `entry` at its index, replacing the entry stored there.
    pub fn insert(&mut self, entry: Entry)
        ensures
            final(self)@ == old(self)@.insert(entry.log_id.index, entry@),
    {
        proof {
            use_type_invariant(&*self);
        }
        let k = entry.log_id.index;
        let ghost e = entry@;
        let ghost before = self.entries@;
        let mut entries: BTreeMap<u64, Entry> = BTreeMap::new();
        std::mem::swap(&mut entries, &mut self.entries);
        entries.insert(k, entry);
        proof {
            assert(log_map(entries@) =~= log_map(before).insert(k, e));
        }
        self.entries = entries;
    }

    /// Stores each of `entries`, in order, at its index.
    pub fn append(&mut self, entries: Vec<Entry>)
        ensures
            final(self)@ == insert_entries(old(self)@, entries_view(entries@)),
    {
        let ghost es = entries_view(entries@);
        for entry in it: entries
            invariant
                es == entries_view(it.seq()),
                self@ == insert_entries(old(self)@, es.take(it.index() as int)),
        {
            proof {
                assert(es.take(it.index() + 1).drop_last() =~= es.take(it.index() as int));
            }
            self.insert(entry);
        }
        proof {
            assert(es.take(es.len() as int) =~= es);
        }
    }

    /// Removes the entries whose index is `k` or above.
    pub fn truncate_from(&mut self, k: u64)
        ensures
            final(self)@ == restrict_log(old(self)@, |j: u64| j < k),
    {
        proof {
            use_type_invariant(&*self);
        }
        let keys = btree_range_keys(&self.entries, IndexBound::Included(k), IndexBound::Unbounded);
        let ghost before = self.entries@;
        let mut entries: BTreeMap<u64, Entry> = BTreeMap::new();
        std::mem::swap(&mut entries, &mut self.entries);
        remove_keys(&mut entries, &keys);
        proof {
            assert forall|j: u64| before.contains_key(j) implies keys@.contains(j) == (j >= k) by {
                if keys@.contains(j) {
                    let x = choose|x: int| 0 <= x < keys@.len() && keys@[x] == j;
                    assert(in_range(keys@[x], IndexBound::Included(k), IndexBound::Unbounded));
                }
            }
            assert(log_map(entries@) =~= restrict_log(log_map(before), |j: u64| j < k));
        }
        self.entries = entries;
    }

    /// Removes the entries whose index is `k` or below.
    pub fn purge_upto(&mut self, k: u64)
        ensures
            final(self)@ == restrict_log(old(self)@, |j: u64| j > k),
    {
        proof {
            use_type_invariant(&*self);
        }
        let keys = btree_range_keys(&self.entries, IndexBound::Unbounded, IndexBound::Included(k));
        let ghost before = self.entries@;
        let mut entries: BTreeMap<u64, Entry> = BTreeMap::new();
        std::mem::swap(&mut entries, &mut self.entries);
        remove_keys(&mut entries, &keys);
        proof {
            assert forall|j: u64| before.contains_key(j) implies keys@.contains(j) == (j <= k) by {
                if keys@.contains(j) {
                    let x = choose|x: int| 0 <= x < keys@.len() && keys@[x] == j;
                    assert(in_range(keys@[x], IndexBound::Unbounded, IndexBound::Included(k)));
                }
            }
            assert(log_map(entries@) =~= restrict_log(log_map(before), |j: u64| j > k));
        }
        self.entries = entries;
    }

    /// The log id of the entry with the greatest index, if there is an entry.
    pub fn last_log_id(&self) -> (r: Option<LogId>)
        ensures
            r == last_entry_id(self@),
    {
        proof {
            use_type_invariant(self);
        }
        match btree_last_key(&self.entries) {
            None => {
                proof {
                    assert(!exists|j: u64| #[trigger] self@.contains_key(j));
                }
                None
            },
            Some(k) => {
                match self.entries.get(&k) {
                    Some(e) => {
                        proof {
                            let m = self@;
                            assert(is_max_key(m, k));
                            let c = choose|c: u64| is_max_key(m, c);
                            assert(c <= k && k <= c);
                        }
                        Some(e.log_id)
                    },
                    None => None,
                }
            },
        }
    }

    /// The entries whose index lies in the range from `start` to `end`, in increasing order
    /// of index.
    pub fn entries_in(&self, start: IndexBound, end: IndexBound) -> (r: Vec<Entry>)
        requires
            range_is_valid(start, end),
        ensures
            forall|i: int, j: int|
                0 <= i < j < r@.len() ==> #[trigger] r@[i].log_id.index < #[trigger] r@[j].log_id.index,
            forall|i: int|
                0 <= i < r@.len() ==> {
                    &&& in_range(#[trigger] r@[i].log_id.index, start, end)
                    &&& self@.contains_key(r@[i].log_id.index)
                    &&& self@[r@[i].log_id.index] == r@[i]@
                },
            forall|k: u64|
                #[trigger] self@.contains_key(k) && in_range(k, start, end) ==> exists|i: int|
                    0 <= i < r@.len() && #[trigger] r@[i].log_id.index == k,
    {
        proof {
            use_type_invariant(self);
        }
        let keys = btree_range_keys(&self.entries, start, end);
        let mut r: Vec<Entry> = Vec::new();
        let mut i: usize = 0;
        while i < keys.len()
            invariant
                i <= keys@.len(),
                indexed(self.entries@),
                r@.len() == i,
                forall|j: int| 0 <= j < keys@.len() ==> self.entries@.contains_key(#[trigger] keys@[j]),
                forall|j: int| 0 <= j < i ==> #[trigger] r@[j]@ == self.entries@[keys@[j]]@,
                forall|j: int| 0 <= j < i ==> #[trigger] r@[j].log_id.index == keys@[j],
            decreases keys@.len() - i,
        {
            let k = keys[i];
            match self.entries.get(&k) {
                Some(e) => {
                    r.push(e.clone());
                },
                None => {
                    proof {
                        assert(false);
                    }
                },
            }
            i = i + 1;
        }
        proof {
            assert forall|k: u64| #[trigger] self@.contains_key(k) && in_range(k, start, end) implies exists|i: int|
                0 <= i < r@.len() && #[trigger] r@[i].log_id.index == k by {
                assert(keys@.contains(k));
                let x = choose|x: int| 0 <= x < keys@.len() && keys@[x] == k;
                assert(r@[x].log_id.index == k);
            }
        }
        r
    }
}

} // verus!
