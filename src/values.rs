//! Sets of observed values and the set operations that reconciliation needs.
use std::collections::HashSet;
use vstd::prelude::*;

verus! {

broadcast use vstd::std_specs::hash::group_hash_axioms;

/// The values among the first `i` items of `items`.
pub open spec fn prefix_values(items: Seq<&usize>, i: int) -> Set<usize> {
    Set::new(|v: usize| exists|j: int| 0 <= j < i && *items[j] == v)
}

pub proof fn lemma_prefix_step(items: Seq<&usize>, i: int)
    requires
        0 <= i < items.len(),
    ensures
        prefix_values(items, i + 1) == prefix_values(items, i).insert(*items[i]),
{
    assert(prefix_values(items, i + 1) =~= prefix_values(items, i).insert(*items[i]));
}

pub proof fn lemma_prefix_whole(items: Seq<&usize>, s: Set<usize>)
    requires
        items.unref().to_set() == s,
    ensures
        prefix_values(items, items.len() as int) == s,
{
    assert forall|v: usize| prefix_values(items, items.len() as int).contains(v) <==> s.contains(v) by {
        if s.contains(v) {
            assert(items.unref().contains(v));
            let j = choose|j: int| 0 <= j < items.unref().len() && items.unref()[j] == v;
            assert(*items[j] == v);
        }
        if prefix_values(items, items.len() as int).contains(v) {
            let j = choose|j: int| 0 <= j < items.len() && *items[j] == v;
            assert(items.unref()[j] == v);
        }
    }
    assert(prefix_values(items, items.len() as int) =~= s);
}

/// A copy of `s`.
pub fn copy_values(s: &HashSet<usize>) -> (r: HashSet<usize>)
    ensures
        r@ == s@,
{
    let mut r: HashSet<usize> = HashSet::new();
    let ghost mut done: Set<usize> = Set::empty();
    for x in it: s.iter()
        invariant
            it.seq().unref().to_set() == s@,
            done == prefix_values(it.seq(), it.index()),
            r@ == done,
            it.index() == it.seq().len() ==> done == s@,
    {
        proof {
            lemma_prefix_step(it.seq(), it.index());
            done = done.insert(*x);
        }
        r.insert(*x);
        proof {
            lemma_prefix_whole(it.seq(), s@);
        }
    }
    r
}

/// The values of `a` that are not in `b`.
pub fn difference(a: &HashSet<usize>, b: &HashSet<usize>) -> (r: HashSet<usize>)
    ensures
        r@ == a@.difference(b@),
{
    let mut r: HashSet<usize> = HashSet::new();
    let ghost mut done: Set<usize> = Set::empty();
    for x in it: a.iter()
        invariant
            it.seq().unref().to_set() == a@,
            done == prefix_values(it.seq(), it.index()),
            r@ == done.difference(b@),
            it.index() == it.seq().len() ==> done == a@,
    {
        proof {
            lemma_prefix_step(it.seq(), it.index());
            lemma_prefix_whole(it.seq(), a@);
            done = done.insert(*x);
        }
        if !b.contains(x) {
            r.insert(*x);
        }
        assert(r@ =~= done.difference(b@));
    }
    r
}

/// Adds every value of `b` to `a`.
pub fn extend_values(a: &mut HashSet<usize>, b: &HashSet<usize>)
    ensures
        final(a)@ == old(a)@.union(b@),
{
    let ghost start = a@;
    let ghost mut done: Set<usize> = Set::empty();
    for x in it: b.iter()
        invariant
            it.seq().unref().to_set() == b@,
            done == prefix_values(it.seq(), it.index()),
            a@ == start.union(done),
            it.index() == it.seq().len() ==> done == b@,
    {
        proof {
            lemma_prefix_step(it.seq(), it.index());
            lemma_prefix_whole(it.seq(), b@);
            done = done.insert(*x);
        }
        a.insert(*x);
        assert(a@ =~= start.union(done));
    }
}

/// The set that holds `v` alone.
pub fn singleton(v: usize) -> (r: HashSet<usize>)
    ensures
        r@ == set![v],
{
    let mut r: HashSet<usize> = HashSet::new();
    r.insert(v);
    assert(r@ =~= set![v]);
    r
}

} // verus!
