//! The state machine that committed log entries are applied to: the key/value data, the last
//! applied log id and the last applied membership.
use vstd::prelude::*;
use crate::entry::{Entry, EntryView, PayloadView, Request, Response, entries_view};
use crate::ids::LogId;
use crate::kv::KvMap;
use crate::membership::{StoredMembership, StoredMembershipView};

verus! {

/// The state machine.
#[derive(Debug)]
pub struct StateMachine {
    pub last_applied_log: Option<LogId>,
    pub last_membership: StoredMembership,
    pub data: KvMap,
}

/// The value of a [`StateMachine`].
pub struct StateMachineView {
    pub last_applied_log: Option<LogId>,
    pub last_membership: StoredMembershipView,
    pub data: Map<Seq<char>, Seq<char>>,
}

impl View for StateMachine {
    type V = StateMachineView;

    open spec fn view(&self) -> StateMachineView {
        StateMachineView {
            last_applied_log: self.last_applied_log,
            last_membership: self.last_membership@,
            data: self.data@,
        }
    }
}

impl StateMachineView {
    /// The state machine to which nothing was applied.
    pub open spec fn initial() -> StateMachineView {
        StateMachineView {
            last_applied_log: None,
            last_membership: StoredMembershipView::empty(),
            data: Map::empty(),
        }
    }
}

impl Default for StateMachine {
    fn default() -> (r: StateMachine)
        ensures
            r@ == StateMachineView::initial(),
    {
        StateMachine::new()
    }
}

/// Applies one entry: the state machine after it, and the response.
pub open spec fn apply_entry(sm: StateMachineView, e: EntryView) -> (StateMachineView, Response) {
    let applied = StateMachineView { last_applied_log: Some(e.log_id), ..sm };
    match e.payload {
        PayloadView::Blank => (applied, Response { value: None }),
        PayloadView::Normal(Request::SetValue { key, value }) => (
            StateMachineView { data: applied.data.insert(key@, value@), ..applied },
            Response { value: Some(value) },
        ),
        PayloadView::Membership(m) => (
            StateMachineView {
                last_membership: StoredMembershipView { log_id: Some(e.log_id), membership: m },
                ..applied
            },
            Response { value: None },
        ),
    }
}

/// Applies entries in order: the state machine after them, and one response per entry.
pub open spec fn apply_entries(sm: StateMachineView, es: Seq<EntryView>) -> (
    StateMachineView,
    Seq<Response>,
)
    decreases es.len(),
{
    if es.len() == 0 {
        (sm, Seq::empty())
    } else {
        let (before, responses) = apply_entries(sm, es.drop_last());
        let (after, response) = apply_entry(before, es.last());
        (after, responses.push(response))
    }
}

/// The value that the last entry of `es` that writes `key` writes, if one does.
pub open spec fn last_written(es: Seq<EntryView>, key: Seq<char>) -> Option<Seq<char>>
    decreases es.len(),
{
    if es.len() == 0 {
        None
    } else {
        match es.last().payload {
            PayloadView::Normal(Request::SetValue { key: k, value }) if k@ == key => Some(value@),
            _ => last_written(es.drop_last(), key),
        }
    }
}

/// The membership stored by the last membership entry of `es`, if there is one.
pub open spec fn last_membership_of(es: Seq<EntryView>) -> Option<StoredMembershipView>
    decreases es.len(),
{
    if es.len() == 0 {
        None
    } else {
        match es.last().payload {
            PayloadView::Membership(m) => Some(
                StoredMembershipView { log_id: Some(es.last().log_id), membership: m },
            ),
            _ => last_membership_of(es.drop_last()),
        }
    }
}

/// The response that applying `e` gives.
pub open spec fn response_of(e: EntryView) -> Response {
    match e.payload {
        PayloadView::Normal(Request::SetValue { key, value }) => Response { value: Some(value) },
        _ => Response { value: None },
    }
}

/// A read after an applied write of a key gives the value written, and the write is
/// answered with that value.
pub proof fn law_read_your_write(sm: StateMachineView, log_id: LogId, key: String, value: String)
    ensures
        ({
            let (after, response) = apply_entry(
                sm,
                EntryView { log_id, payload: PayloadView::Normal(Request::SetValue { key, value }) },
            );
            &&& after.data.contains_key(key@)
            &&& after.data[key@] == value@
            &&& response == (Response { value: Some(value) })
        }),
{
}

/// After a batch of entries is applied, each key holds the value of the last entry of the batch
/// that writes it; a key that no entry writes keeps what it held.
pub proof fn law_last_write_wins(sm: StateMachineView, es: Seq<EntryView>, key: Seq<char>)
    ensures
        ({
            let after = apply_entries(sm, es).0;
            match last_written(es, key) {
                Some(v) => after.data.contains_key(key) && after.data[key] == v,
                None => after.data.contains_key(key) == sm.data.contains_key(key) && (
                sm.data.contains_key(key) ==> after.data[key] == sm.data[key]),
            }
        }),
    decreases es.len(),
{
    if es.len() > 0 {
        law_last_write_wins(sm, es.drop_last(), key);
    }
}

/// Applying a batch answers each entry, in order: a write with the value written, any other
/// entry with no value.
pub proof fn law_one_response_per_entry(sm: StateMachineView, es: Seq<EntryView>)
    ensures
        apply_entries(sm, es).1.len() == es.len(),
        forall|i: int| 0 <= i < es.len() ==> apply_entries(sm, es).1[i] == response_of(es[i]),
    decreases es.len(),
{
    if es.len() > 0 {
        law_one_response_per_entry(sm, es.drop_last());
        let rs = apply_entries(sm, es).1;
        assert forall|i: int| 0 <= i < es.len() implies rs[i] == response_of(es[i]) by {
            if i < es.len() - 1 {
                assert(es.drop_last()[i] == es[i]);
            }
        }
    }
}

/// After a non-empty batch is applied, the last applied log id is that of the batch's last entry,
/// and the last membership is that of the batch's last membership entry, if it has one; an
/// empty batch changes nothing.
pub proof fn law_last_applied(sm: StateMachineView, es: Seq<EntryView>)
    ensures
        es.len() == 0 ==> apply_entries(sm, es).0 == sm,
        es.len() > 0 ==> apply_entries(sm, es).0.last_applied_log == Some(es.last().log_id),
        apply_entries(sm, es).0.last_membership == (match last_membership_of(es) {
            Some(m) => m,
            None => sm.last_membership,
        }),
    decreases es.len(),
{
    if es.len() > 0 {
        law_last_applied(sm, es.drop_last());
    }
}

impl StateMachine {
    /// The state machine to which nothing was applied.
    pub fn new() -> (r: StateMachine)
        ensures
            r@ == StateMachineView::initial(),
    {
        StateMachine {
            last_applied_log: None,
            last_membership: StoredMembership::empty(),
            data: KvMap::new(),
        }
    }

    /// Applies `entries` in order and answers each.
    pub fn apply(&mut self, entries: &[Entry]) -> (responses: Vec<Response>)
        ensures
            (final(self)@, responses@) == apply_entries(old(self)@, entries_view(entries@)),
    {
        let mut responses: Vec<Response> = Vec::with_capacity(entries.len());
        let mut i: usize = 0;
        while i < entries.len()
            invariant
                i <= entries@.len(),
                (self@, responses@) == apply_entries(
                    old(self)@,
                    entries_view(entries@).take(i as int),
                ),
            decreases entries@.len() - i,
        {
            let entry = &entries[i];
            let ghost before = self@;
            proof {
                assert(entries_view(entries@).take(i + 1).drop_last() =~= entries_view(
                    entries@,
                ).take(i as int));
                assert(entries_view(entries@).take(i + 1).last() == entry@);
            }
            self.last_applied_log = Some(entry.log_id);
            match &entry.payload {
                crate::entry::EntryPayload::Blank => {
                    responses.push(Response { value: None });
                },
                crate::entry::EntryPayload::Normal(request) => {
                    match request {
                        Request::SetValue { key, value } => {
                            self.data.insert(key.clone(), value.clone());
                            responses.push(Response { value: Some(value.clone()) });
                        },
                    }
                },
                crate::entry::EntryPayload::Membership(membership) => {
                    self.last_membership = StoredMembership::new(
                        Some(entry.log_id),
                        membership.clone(),
                    );
                    responses.push(Response { value: None });
                },
            }
            proof {
                assert(self@ == apply_entry(before, entry@).0);
            }
            i = i + 1;
        }
        proof {
            assert(entries_view(entries@).take(entries@.len() as int) =~= entries_view(entries@));
        }
        responses
    }

    /// The value of `key`, if it has one.
    pub fn get(&self, key: &String) -> (r: Option<String>)
        ensures
            match r {
                Some(v) => self@.data.contains_key(key@) && v@ == self@.data[key@],
                None => !self@.data.contains_key(key@),
            },
    {
        self.data.get(key)
    }

    /// The value of `key`, or the empty string if it has none.
    pub fn read(&self, key: &String) -> (r: String)
        ensures
            r@ == (if self@.data.contains_key(key@) {
                self@.data[key@]
            } else {
                Seq::<char>::empty()
            }),
    {
        match self.data.get(key) {
            Some(v) => v,
            None => String::new(),
        }
    }
}

} // verus!
