//! The requests that a server reads, by kind.
use std::collections::HashMap;
use vstd::prelude::*;

verus! {

/// A request: its sender, its receiver and its body.
#[derive(Debug, PartialEq, Eq)]
pub struct Request {
    pub src: String,
    pub dest: String,
    pub body: RequestBody,
}

#[derive(Debug, PartialEq, Eq)]
pub enum RequestBody {
    Init { msg_id: usize, node_id: String, node_ids: Vec<String> },
    Echo { msg_id: usize, echo: String },
    Generate { msg_id: usize },
    Broadcast { msg_id: usize, message: usize },
    Read { msg_id: usize },
    Topology { msg_id: usize, topology: HashMap<String, Vec<String>> },
}

/// The name of a request's kind, as the wire writes it.
pub open spec fn kind_name(body: RequestBody) -> Seq<char> {
    match body {
        RequestBody::Echo { .. } => seq!['e', 'c', 'h', 'o'],
        RequestBody::Init { .. } => seq!['i', 'n', 'i', 't'],
        RequestBody::Generate { .. } => seq!['g', 'e', 'n', 'e', 'r', 'a', 't', 'e'],
        RequestBody::Broadcast { .. } => seq!['b', 'r', 'o', 'a', 'd', 'c', 'a', 's', 't'],
        RequestBody::Read { .. } => seq!['r', 'e', 'a', 'd'],
        RequestBody::Topology { .. } => seq!['t', 'o', 'p', 'o', 'l', 'o', 'g', 'y'],
    }
}

impl RequestBody {
    /// The name of this request's kind.
    pub fn kind(&self) -> (r: String)
        ensures
            r@ == kind_name(*self),
    {
        let name = match self {
            RequestBody::Echo { .. } => "echo",
            RequestBody::Init { .. } => "init",
            RequestBody::Generate { .. } => "generate",
            RequestBody::Broadcast { .. } => "broadcast",
            RequestBody::Read { .. } => "read",
            RequestBody::Topology { .. } => "topology",
        };
        proof {
            reveal_strlit("echo");
            reveal_strlit("init");
            reveal_strlit("generate");
            reveal_strlit("broadcast");
            reveal_strlit("read");
            reveal_strlit("topology");
        }
        let r = name.to_owned();
        assert(r@ =~= kind_name(*self));
        r
    }
}

} // verus!
