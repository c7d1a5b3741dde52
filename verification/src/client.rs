//! The decisions of a client that sends its requests to the leader of the cluster.
use vstd::prelude::*;
use crate::ids::NodeId;
use crate::network::{rpc_url, rpc_url_text};

verus! {

/// The body of a request that carries nothing.
#[derive(Debug, Clone, Copy, PartialEq, Eq, Structural)]
pub struct Empty {}

/// The node a client takes for the leader, and its address.
#[derive(Debug)]
pub struct Leader {
    pub node_id: NodeId,
    pub addr: String,
}

impl Leader {
    pub fn new(node_id: NodeId, addr: String) -> (r: Leader)
        ensures
            r.node_id == node_id,
            r.addr == addr,
    {
        Leader { node_id, addr }
    }

    /// The URL of the endpoint `uri` of the leader.
    pub fn url(&self, uri: &str) -> (r: String)
        ensures
            r@ == rpc_url_text(self.addr@, uri@),
    {
        rpc_url(self.addr.as_str(), uri)
    }
}

/// How many times a request that the cluster forwards is sent, at most.
pub const SEND_ATTEMPTS: u64 = 3;

/// What to do after a request failed.
#[derive(Debug)]
pub struct RetryStep {
    /// The leader to send to from now on, when the failure named one.
    pub new_leader: Option<Leader>,
    /// Whether to send the request again.
    pub retry: bool,
    /// How many sends are left after this decision.
    pub n_retry: u64,
}

/// The decision after a failure, with `n_retry` sends left: a failure that names the leader (its
/// node and address) makes it the leader and, if a send is left after this one, sends again;
/// any other failure is given up.
pub open spec fn after_error_spec(n_retry: u64, forward_to: Option<(NodeId, String)>) -> RetryStep {
    match forward_to {
        Some((node_id, addr)) => RetryStep {
            new_leader: Some(Leader { node_id, addr }),
            retry: n_retry - 1 > 0,
            n_retry: (n_retry - 1) as u64,
        },
        None => RetryStep { new_leader: None, retry: false, n_retry },
    }
}

/// Decides what follows a failed request while `n_retry` sends are left; `forward_to` is the
/// leader that the failure names, when it names both its node and its address.
pub fn after_error(n_retry: u64, forward_to: Option<(NodeId, String)>) -> (r: RetryStep)
    requires
        n_retry > 0,
    ensures
        r == after_error_spec(n_retry, forward_to),
{
    match forward_to {
        Some((node_id, addr)) => {
            let left = n_retry - 1;
            RetryStep { new_leader: Some(Leader { node_id, addr }), retry: left > 0, n_retry: left }
        },
        None => RetryStep { new_leader: None, retry: false, n_retry },
    }
}

/// A failure that names no leader ends the run, whatever is left: no new leader, no retry, and
/// the count of sends left untouched; a failure that names a leader (node and address) makes
/// it the leader and uses up one send, retrying exactly when another send is left.
pub proof fn law_after_error(n_retry: u64, node_id: NodeId, addr: String)
    requires
        n_retry > 0,
    ensures
        after_error_spec(n_retry, None).new_leader is None,
        !after_error_spec(n_retry, None).retry,
        after_error_spec(n_retry, None).n_retry == n_retry,
        after_error_spec(n_retry, Some((node_id, addr))).new_leader == Some(
            Leader { node_id, addr },
        ),
        after_error_spec(n_retry, Some((node_id, addr))).n_retry == n_retry - 1,
        after_error_spec(n_retry, Some((node_id, addr))).retry <==> n_retry >= 2,
{
}

/// The number of sends of a request, starting with `n_retry` sends left, when the failures
/// that follow each send name the leaders `hints` (a success ends the run as a failure that
/// names none does).
pub open spec fn sends(n_retry: u64, hints: Seq<Option<(NodeId, String)>>) -> nat
    decreases hints.len(),
{
    if hints.len() == 0 || n_retry == 0 {
        1
    } else {
        let step = after_error_spec(n_retry, hints[0]);
        if step.retry {
            1 + sends(step.n_retry, hints.drop_first())
        } else {
            1
        }
    }
}

/// A request whose first send fails with no leader named is sent once.
pub proof fn law_unforwarded_failure_sends_once(n_retry: u64, hints: Seq<Option<(NodeId, String)>>)
    requires
        n_retry > 0,
        hints.len() > 0,
        hints[0] is None,
    ensures
        sends(n_retry, hints) == 1,
{
}

/// A request whose failures all name a leader is sent exactly as many times as it has sends
/// left, when there are enough failures.
pub proof fn law_forwarded_failures_use_all_sends(n_retry: u64, hints: Seq<Option<(NodeId, String)>>)
    requires
        n_retry > 0,
        hints.len() >= n_retry,
        forall|i: int| 0 <= i < hints.len() ==> #[trigger] hints[i] is Some,
    ensures
        sends(n_retry, hints) == n_retry,
    decreases n_retry,
{
    if n_retry > 1 {
        let rest = hints.drop_first();
        assert forall|i: int| 0 <= i < rest.len() implies #[trigger] rest[i] is Some by {
            assert(rest[i] == hints[i + 1]);
        }
        law_forwarded_failures_use_all_sends((n_retry - 1) as u64, rest);
    }
}

/// A request is sent at most as many times as it has sends left: [`SEND_ATTEMPTS`] for a new
/// request.
pub proof fn law_sends_bounded(n_retry: u64, hints: Seq<Option<(NodeId, String)>>)
    requires
        n_retry > 0,
    ensures
        sends(n_retry, hints) <= n_retry,
    decreases hints.len(),
{
    if hints.len() > 0 {
        let step = after_error_spec(n_retry, hints[0]);
        if step.retry {
            law_sends_bounded(step.n_retry, hints.drop_first());
        }
    }
}

} // verus!
