//! What this node believes each of its neighbours already holds.
use std::collections::{HashMap, HashSet};
use vstd::prelude::*;
use crate::values::{copy_values, difference, extend_values, prefix_values};

verus! {

broadcast use vstd::std_specs::hash::group_hash_axioms;

/// For each neighbour (by index), the values that this node believes the
/// neighbour holds. The set of neighbours is fixed when the value is made;
/// each neighbour's set only grows.
#[derive(Debug)]
pub struct IdsSeenByNeighbours {
    neighbours: HashSet<usize>,
    seen: HashMap<usize, HashSet<usize>>,
}

/// The values that a map of estimates assigns to `neighbour`: none where it
/// has no entry.
pub open spec fn estimate_of(m: Map<usize, Set<usize>>, neighbour: usize) -> Set<usize> {
    if m.contains_key(neighbour) {
        m[neighbour]
    } else {
        Set::empty()
    }
}

/// A map of estimates after `ids` were recorded for `neighbour`; a
/// non-neighbour is ignored.
pub open spec fn recorded(m: Map<usize, Set<usize>>, neighbour: usize, ids: Set<usize>) -> Map<
    usize,
    Set<usize>,
> {
    if m.contains_key(neighbour) {
        m.insert(neighbour, m[neighbour].union(ids))
    } else {
        m
    }
}

impl View for IdsSeenByNeighbours {
    type V = Map<usize, Set<usize>>;

    closed spec fn view(&self) -> Map<usize, Set<usize>> {
        Map::new(|k: usize| self.seen@.contains_key(k), |k: usize| self.seen@[k]@)
    }
}

impl IdsSeenByNeighbours {
    pub closed spec fn wf(&self) -> bool {
        self.neighbours@ == self.seen@.dom()
    }

    /// Starts with an empty estimate for each of `neighbours`.
    pub fn new(neighbours: &HashSet<usize>) -> (r: IdsSeenByNeighbours)
        ensures
            r.wf(),
            r@ == Map::new(|k: usize| neighbours@.contains(k), |k: usize| Set::<usize>::empty()),
    {
        let mut seen: HashMap<usize, HashSet<usize>> = HashMap::new();
        let ghost mut done: Set<usize> = Set::empty();
        for x in it: neighbours.iter()
            invariant
                it.seq().unref().to_set() == neighbours@,
                done == prefix_values(it.seq(), it.index()),
                seen@.dom() == done,
                forall|k: usize| #[trigger] seen@.contains_key(k) ==> seen@[k]@ == Set::<usize>::empty(),
                it.index() == it.seq().len() ==> done == neighbours@,
        {
            proof {
                crate::values::lemma_prefix_step(it.seq(), it.index());
                crate::values::lemma_prefix_whole(it.seq(), neighbours@);
                done = done.insert(*x);
            }
            seen.insert(*x, HashSet::new());
            assert(seen@.dom() =~= done);
        }
        let r = IdsSeenByNeighbours { neighbours: copy_values(neighbours), seen };
        assert(r@ =~= Map::new(|k: usize| neighbours@.contains(k), |k: usize| Set::<usize>::empty()));
        r
    }

    /// Records that `neighbour` holds `ids` as well. Nothing changes for a
    /// node that is not a neighbour.
    pub fn update(&mut self, neighbour: usize, ids: &HashSet<usize>)
        requires
            old(self).wf(),
        ensures
            final(self).wf(),
            final(self)@ == recorded(old(self)@, neighbour, ids@),
    {
        match self.seen.remove(&neighbour) {
            Some(mut known) => {
                extend_values(&mut known, ids);
                self.seen.insert(neighbour, known);
                assert(self.seen@.dom() =~= old(self).seen@.dom());
                assert(self@ =~= recorded(old(self)@, neighbour, ids@));
            },
            None => {
                assert(self.seen@ =~= old(self).seen@);
                assert(self@ =~= old(self)@);
            },
        }
    }

    /// The neighbours, by index.
    pub fn neighbours(&self) -> (r: &HashSet<usize>)
        requires
            self.wf(),
        ensures
            r@ == self@.dom(),
    {
        assert(self@.dom() =~= self.seen@.dom());
        &self.neighbours
    }

    /// The values of `ids_seen` that `neighbour` is not yet known to hold.
    pub fn ids_to_send(&self, ids_seen: &HashSet<usize>, neighbour: usize) -> (r: HashSet<usize>)
        ensures
            r@ == ids_seen@.difference(estimate_of(self@, neighbour)),
    {
        match self.seen.get(&neighbour) {
            Some(known) => difference(ids_seen, known),
            None => {
                let r = copy_values(ids_seen);
                assert(r@ =~= ids_seen@.difference(Set::<usize>::empty()));
                r
            },
        }
    }
}

} // verus!
