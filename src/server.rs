//! The state of a simpler broadcast server, in which "seen nothing yet" is
//! kept apart from "seen the empty set", and the requests it reads.
use std::collections::{HashMap, HashSet};
use vstd::prelude::*;
use crate::ids::NodeId;
use crate::values::{copy_values, difference, extend_values};

verus! {

broadcast use vstd::std_specs::hash::group_hash_axioms;

/// What a server can refuse.
#[derive(Debug, Clone, PartialEq, Eq)]
pub enum Error {
    /// The first request was not `init`.
    Initialisation,
    /// A second `init` came.
    AlreadyInitialised,
    /// A request of the named kind came, which a server never takes.
    InvalidRequest(String),
}

/// A set of values that may not be known yet.
pub open spec fn opt_view(s: Option<HashSet<usize>>) -> Option<Set<usize>> {
    match s {
        Some(v) => Some(v@),
        None => None,
    }
}

/// What to gossip to a neighbour: what is seen and the neighbour is not
/// known to have seen; everything seen where nothing is known of the
/// neighbour; nothing where nothing is seen.
pub open spec fn ids_to_gossip(seen: Option<Set<usize>>, by_neighbour: Option<Set<usize>>) -> Option<Set<usize>> {
    match (seen, by_neighbour) {
        (Some(s), Some(n)) => Some(s.difference(n)),
        (Some(s), None) => Some(s),
        (None, _) => None,
    }
}

/// The values seen after a neighbour reported `reported`.
pub open spec fn seen_after(seen: Option<Set<usize>>, reported: Option<Set<usize>>) -> Option<Set<usize>> {
    match (seen, reported) {
        (_, None) => seen,
        (None, Some(r)) => Some(r),
        (Some(s), Some(r)) => Some(s.union(r)),
    }
}

/// What is known of each neighbour after `neighbour` reported `reported`: a
/// first report makes the map; later, only a neighbour already in the map is
/// updated.
pub open spec fn neighbours_after(
    known: Option<Map<usize, Option<Set<usize>>>>,
    neighbour: usize,
    reported: Option<Set<usize>>,
) -> Option<Map<usize, Option<Set<usize>>>> {
    match (known, reported) {
        (_, None) => known,
        (None, Some(r)) => Some(Map::empty().insert(neighbour, Some(r))),
        (Some(m), Some(r)) => if m.contains_key(neighbour) {
            match m[neighbour] {
                Some(prev) => Some(m.insert(neighbour, Some(prev.union(r)))),
                None => Some(m.insert(neighbour, Some(r))),
            }
        } else {
            known
        },
    }
}

pub fn get_ids_to_gossip(ids_seen: &Option<HashSet<usize>>, ids_seen_by_neighbour: &Option<HashSet<usize>>) -> (r: Option<
    HashSet<usize>,
>)
    ensures
        opt_view(r) == ids_to_gossip(opt_view(*ids_seen), opt_view(*ids_seen_by_neighbour)),
{
    match (ids_seen, ids_seen_by_neighbour) {
        (Some(seen), Some(by_neighbour)) => Some(difference(seen, by_neighbour)),
        (Some(seen), None) => Some(copy_values(seen)),
        (None, _) => None,
    }
}

pub struct Server {
    node_id: NodeId,
    msg_id: usize,
    ids_seen: Option<HashSet<usize>>,
    ids_seen_by_neighbours: Option<HashMap<usize, Option<HashSet<usize>>>>,
}

impl Server {
    pub closed spec fn node_id_spec(&self) -> NodeId {
        self.node_id
    }

    pub closed spec fn msg_id_spec(&self) -> usize {
        self.msg_id
    }

    pub closed spec fn seen(&self) -> Option<Set<usize>> {
        opt_view(self.ids_seen)
    }

    pub closed spec fn neighbours(&self) -> Option<Map<usize, Option<Set<usize>>>> {
        match self.ids_seen_by_neighbours {
            Some(m) => Some(m@.map_values(|v: Option<HashSet<usize>>| opt_view(v))),
            None => None,
        }
    }

    /// A server for node `node_id` that has seen nothing and knows no
    /// neighbour.
    pub fn new(node_id: NodeId) -> (r: Server)
        ensures
            r.node_id_spec() == node_id,
            r.msg_id_spec() == 0,
            r.seen() is None,
            r.neighbours() is None,
    {
        Server { node_id, msg_id: 0, ids_seen: None, ids_seen_by_neighbours: None }
    }

    /// The values seen so far, if any.
    pub fn ids_seen(&self) -> (r: Option<HashSet<usize>>)
        ensures
            opt_view(r) == self.seen(),
    {
        match &self.ids_seen {
            Some(s) => Some(copy_values(s)),
            None => None,
        }
    }

    /// What is known of `neighbour`: `None` where it is not in the map (or
    /// there is no map yet), else what it reported, if anything.
    pub fn known_by(&self, neighbour: usize) -> (r: Option<Option<HashSet<usize>>>)
        ensures
            r is Some <==> (self.neighbours() is Some && self.neighbours()->0.contains_key(neighbour)),
            r matches Some(k) ==> opt_view(k) == self.neighbours()->0[neighbour],
    {
        match &self.ids_seen_by_neighbours {
            None => None,
            Some(m) => match m.get(&neighbour) {
                None => None,
                Some(None) => Some(None),
                Some(Some(s)) => Some(Some(copy_values(s))),
            },
        }
    }

    /// Records that `neighbour` reported having seen `ids_seen_by_neighbour`.
    pub fn update_ids_seen_by_neighbours(&mut self, neighbour: usize, ids_seen_by_neighbour: &Option<HashSet<usize>>)
        ensures
            final(self).neighbours() == neighbours_after(old(self).neighbours(), neighbour, opt_view(*ids_seen_by_neighbour)),
            final(self).seen() == old(self).seen(),
            final(self).node_id_spec() == old(self).node_id_spec(),
            final(self).msg_id_spec() == old(self).msg_id_spec(),
    {
        match ids_seen_by_neighbour {
            None => {},
            Some(reported) => {
                match self.ids_seen_by_neighbours.take() {
                    None => {
                        let mut m: HashMap<usize, Option<HashSet<usize>>> = HashMap::new();
                        m.insert(neighbour, Some(copy_values(reported)));
                        self.ids_seen_by_neighbours = Some(m);
                        assert(self.neighbours()->0 =~= Map::empty().insert(neighbour, Some(reported@)));
                    },
                    Some(mut m) => {
                        let ghost before = m@;
                        match m.remove(&neighbour) {
                            Some(Some(mut prev)) => {
                                extend_values(&mut prev, reported);
                                m.insert(neighbour, Some(prev));
                            },
                            Some(None) => {
                                m.insert(neighbour, Some(copy_values(reported)));
                            },
                            None => {},
                        }
                        self.ids_seen_by_neighbours = Some(m);
                        proof {
                            let old_view = before.map_values(|v: Option<HashSet<usize>>| opt_view(v));
                            assert(self.neighbours()->0 =~= neighbours_after(Some(old_view), neighbour, Some(reported@))->0);
                        }
                    },
                }
            },
        }
    }

    /// Adds what a neighbour reported to the values seen.
    pub fn update_ids_seen(&mut self, ids_seen_by_neighbour: &Option<HashSet<usize>>)
        ensures
            final(self).seen() == seen_after(old(self).seen(), opt_view(*ids_seen_by_neighbour)),
            final(self).neighbours() == old(self).neighbours(),
            final(self).node_id_spec() == old(self).node_id_spec(),
            final(self).msg_id_spec() == old(self).msg_id_spec(),
    {
        match ids_seen_by_neighbour {
            None => {},
            Some(reported) => {
                match &mut self.ids_seen {
                    None => {
                        self.ids_seen = Some(copy_values(reported));
                    },
                    Some(seen) => {
                        extend_values(seen, reported);
                    },
                }
            },
        }
    }
}

} // verus!
