//! Addressing the other nodes of the cluster.
use vstd::prelude::*;
use vstd::string::*;
use crate::ids::NodeId;
use crate::membership::BasicNode;

verus! {

/// The URL of the endpoint `uri` of the node serving at `addr`: `http://{addr}/{uri}`.
pub open spec fn rpc_url_text(addr: Seq<char>, uri: Seq<char>) -> Seq<char> {
    seq!['h', 't', 't', 'p', ':', '/', '/'] + addr + seq!['/'] + uri
}

/// The URL of an endpoint is `http://`, then the address, a slash and the endpoint, whole.
pub proof fn law_rpc_url_parts(addr: Seq<char>, uri: Seq<char>)
    ensures
        rpc_url_text(addr, uri).len() == 8 + addr.len() + uri.len(),
        rpc_url_text(addr, uri).subrange(0, 7) == seq!['h', 't', 't', 'p', ':', '/', '/'],
        rpc_url_text(addr, uri).subrange(7, 7 + addr.len() as int) == addr,
        rpc_url_text(addr, uri)[7 + addr.len() as int] == '/',
        rpc_url_text(addr, uri).subrange(8 + addr.len() as int, 8 + addr.len() as int + uri.len() as int) == uri,
{
    let t = rpc_url_text(addr, uri);
    assert(t.subrange(0, 7) =~= seq!['h', 't', 't', 'p', ':', '/', '/']);
    assert(t.subrange(7, 7 + addr.len() as int) =~= addr);
    assert(t.subrange(8 + addr.len() as int, 8 + addr.len() as int + uri.len() as int) =~= uri);
}

/// Builds the URL of the endpoint `uri` of the node serving at `addr`.
pub fn rpc_url(addr: &str, uri: &str) -> (r: String)
    ensures
        r@ == rpc_url_text(addr@, uri@),
        r@.len() == 8 + addr@.len() + uri@.len(),
        r@.subrange(8 + addr@.len() as int, r@.len() as int) == uri@,
{
    proof {
        law_rpc_url_parts(addr@, uri@);
        reveal_strlit("http://");
        reveal_strlit("/");
    }
    let mut url = String::from_str("http://");
    url.append(addr);
    url.append("/");
    url.append(uri);
    proof {
        assert(url@ =~= rpc_url_text(addr@, uri@));
    }
    url
}

/// The network through which a node reaches the others.
#[derive(Debug)]
pub struct Network {}

/// A connection to one other node.
#[derive(Debug)]
pub struct NetworkConnection {
    pub owner: Network,
    pub target: NodeId,
    pub target_node: BasicNode,
}

impl Network {
    pub fn new() -> (r: Network) {
        Network {}
    }

    /// A connection to the node `target`, known as `node`.
    pub fn new_client(&self, target: NodeId, node: &BasicNode) -> (r: NetworkConnection)
        ensures
            r.target == target,
            r.target_node == *node,
    {
        NetworkConnection { owner: Network {}, target, target_node: node.clone() }
    }

    /// The URL of the endpoint `uri` of the node `target_node`.
    pub fn target_url(&self, target_node: &BasicNode, uri: &str) -> (r: String)
        ensures
            r@ == rpc_url_text(target_node.addr@, uri@),
    {
        rpc_url(target_node.addr.as_str(), uri)
    }
}

impl NetworkConnection {
    /// The URL of the endpoint `uri` of the connected node.
    pub fn url(&self, uri: &str) -> (r: String)
        ensures
            r@ == rpc_url_text(self.target_node.addr@, uri@),
    {
        self.owner.target_url(&self.target_node, uri)
    }
}

} // verus!
