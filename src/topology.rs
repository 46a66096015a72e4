//! Derivation of a node's neighbours from the cluster membership.
//!
//! A set of cluster nodes is held as the set of their indices. The hub
//! (index 0) is linked to every spoke; a spoke is linked to the next spoke in
//! index order, wrapping from the highest index back to index 1, and to the
//! hub.
use std::collections::HashSet;
use vstd::prelude::*;
use crate::ids::NodeId;
use crate::values::{difference, singleton};

verus! {

broadcast use vstd::std_specs::hash::group_hash_axioms;

/// The spoke that follows spoke `index` on the ring of a cluster of
/// `member_count` nodes.
pub open spec fn ring_successor(index: usize, member_count: nat) -> usize {
    if index + 1 >= member_count || index == usize::MAX {
        1
    } else {
        (index + 1) as usize
    }
}

/// The hub members of `members`.
pub open spec fn hubs(members: Set<usize>) -> Set<usize> {
    members.filter(|i: usize| i == 0)
}

/// The neighbours of node `me` in a cluster with the given members.
pub open spec fn neighbours_of(members: Set<usize>, me: usize) -> Set<usize> {
    if me == 0 {
        members.remove(0)
    } else {
        let next = ring_successor(me, members.len());
        let ring = if next != me {
            set![next]
        } else {
            Set::empty()
        };
        ring.union(hubs(members))
    }
}

/// Computes the neighbour set of node `me`. Any topology that the cluster
/// offers is not consulted: the result depends on the membership and the
/// identity alone.
pub fn derive_neighbours(members: &HashSet<usize>, me: NodeId) -> (r: HashSet<usize>)
    ensures
        r@ == neighbours_of(members@, me.index),
{
    if me.is_hub_node() {
        let hub = singleton(0);
        let r = difference(members, &hub);
        assert(r@ =~= members@.remove(0));
        r
    } else {
        let count = members.len();
        let index = me.id_number();
        let next: usize = if count == 0 || index >= count - 1 {
            1
        } else {
            index + 1
        };
        let mut r: HashSet<usize> = HashSet::new();
        if next != index {
            r.insert(next);
        }
        if members.contains(&0) {
            r.insert(0);
        }
        assert(r@ =~= neighbours_of(members@, me.index));
        r
    }
}

/// The neighbour set is a function of the membership and the identity: equal
/// inputs give equal neighbour sets.
pub proof fn derive_is_deterministic(m1: Set<usize>, me1: usize, m2: Set<usize>, me2: usize)
    requires
        m1 == m2,
        me1 == me2,
    ensures
        neighbours_of(m1, me1) == neighbours_of(m2, me2),
{
}

/// A node is never its own neighbour.
pub proof fn no_self_loop(members: Set<usize>, me: usize)
    ensures
        !neighbours_of(members, me).contains(me),
{
}

/// The hub is linked to every member but the hubs; a spoke whose ring
/// successor is another node is linked to that node and to every hub.
pub proof fn fan_out_bound(members: Set<usize>, me: usize)
    requires
        members.finite(),
        me != 0 ==> ring_successor(me, members.len()) != me,
    ensures
        me == 0 ==> neighbours_of(members, me).len() == members.len() - hubs(members).len(),
        me != 0 ==> neighbours_of(members, me).len() == 1 + hubs(members).len(),
{
    if members.contains(0) {
        assert(hubs(members) =~= set![0usize]);
    } else {
        assert(hubs(members) =~= Set::<usize>::empty());
    }
    if me != 0 {
        let next = ring_successor(me, members.len());
        assert(next != 0);
        assert(set![next] =~= Set::<usize>::empty().insert(next));
        assert(set![next].len() == 1);
        assert(!set![next].contains(0));
        if members.contains(0) {
            assert(set![next].union(hubs(members)) =~= set![next].insert(0));
        } else {
            assert(set![next].union(hubs(members)) =~= set![next]);
        }
    }
}

} // verus!
