//! Client requests, their responses, and the entries of the replicated log.
use vstd::prelude::*;
use crate::ids::LogId;
use crate::membership::{Membership, MembershipView};

verus! {

/// A write request of a client.
#[derive(Debug)]
pub enum Request {
    /// Sets `key` to `value`.
    SetValue { key: String, value: String },
}

impl Request {
    pub fn set_value(key: String, value: String) -> (r: Request)
        ensures
            r == (Request::SetValue { key, value }),
    {
        Request::SetValue { key, value }
    }
}

impl Clone for Request {
    fn clone(&self) -> (r: Self)
        ensures
            r == *self,
    {
        match self {
            Request::SetValue { key, value } => Request::SetValue { key: key.clone(), value: value.clone() },
        }
    }
}

/// The answer to an applied entry: the value written, if the entry wrote one.
#[derive(Debug)]
pub struct Response {
    pub value: Option<String>,
}

impl Clone for Response {
    fn clone(&self) -> (r: Self)
        ensures
            r == *self,
    {
        match &self.value {
            Some(v) => Response { value: Some(v.clone()) },
            None => Response { value: None },
        }
    }
}

/// What a log entry carries.
#[derive(Debug)]
pub enum EntryPayload {
    /// Nothing: written by a new leader to commit the entries before it.
    Blank,
    /// A client request.
    Normal(Request),
    /// A change of membership.
    Membership(Membership),
}

/// The value of an [`EntryPayload`].
pub enum PayloadView {
    Blank,
    Normal(Request),
    Membership(MembershipView),
}

impl View for EntryPayload {
    type V = PayloadView;

    open spec fn view(&self) -> PayloadView {
        match self {
            EntryPayload::Blank => PayloadView::Blank,
            EntryPayload::Normal(r) => PayloadView::Normal(*r),
            EntryPayload::Membership(m) => PayloadView::Membership(m@),
        }
    }
}

impl Clone for EntryPayload {
    fn clone(&self) -> (r: Self)
        ensures
            r@ == self@,
    {
        match self {
            EntryPayload::Blank => EntryPayload::Blank,
            EntryPayload::Normal(r) => EntryPayload::Normal(r.clone()),
            EntryPayload::Membership(m) => EntryPayload::Membership(m.clone()),
        }
    }
}

/// An entry of the replicated log.
#[derive(Debug)]
pub struct Entry {
    pub log_id: LogId,
    pub payload: EntryPayload,
}

/// The value of an [`Entry`].
pub struct EntryView {
    pub log_id: LogId,
    pub payload: PayloadView,
}

impl View for Entry {
    type V = EntryView;

    open spec fn view(&self) -> EntryView {
        EntryView { log_id: self.log_id, payload: self.payload@ }
    }
}

impl Entry {
    pub fn new(log_id: LogId, payload: EntryPayload) -> (r: Entry)
        ensures
            r.log_id == log_id,
            r@.payload == payload@,
    {
        Entry { log_id, payload }
    }
}

impl Clone for Entry {
    fn clone(&self) -> (r: Self)
        ensures
            r@ == self@,
    {
        Entry { log_id: self.log_id, payload: self.payload.clone() }
    }
}

/// The values of a sequence of entries.
pub open spec fn entries_view(s: Seq<Entry>) -> Seq<EntryView> {
    s.map_values(|e: Entry| e@)
}

} // verus!
