//! The command-line options of a node.
use vstd::prelude::*;

verus! {

/// The options a node starts with: its id and the address its HTTP server listens on.
#[derive(Debug)]
pub struct Options {
    pub id: u64,
    pub http_addr: String,
}

impl Options {
    pub fn new(id: u64, http_addr: String) -> (r: Options)
        ensures
            r.id == id,
            r.http_addr == http_addr,
    {
        Options { id, http_addr }
    }
}

} // verus!
