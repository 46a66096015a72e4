//! A grow-only counter: one count per node, merged by taking the larger
//! count of each node.
use vstd::prelude::*;

verus! {

/// The sum of the counts.
pub open spec fn total(s: Seq<u32>) -> int
    decreases s.len(),
{
    if s.len() == 0 {
        0
    } else {
        total(s.drop_last()) + s.last()
    }
}

/// The pointwise maximum of two count vectors, as long as the shorter one.
pub open spec fn pointwise_max(a: Seq<u32>, b: Seq<u32>) -> Seq<u32> {
    let n = if a.len() <= b.len() {
        a.len()
    } else {
        b.len()
    };
    Seq::new(n, |i: int| if a[i] >= b[i] { a[i] } else { b[i] })
}

#[derive(Debug)]
pub struct GrowOnlyCounter {
    counts: Vec<u32>,
}

impl View for GrowOnlyCounter {
    type V = Seq<u32>;

    closed spec fn view(&self) -> Seq<u32> {
        self.counts@
    }
}

impl GrowOnlyCounter {
    /// A counter of `node_count` nodes, each at zero.
    pub fn new(node_count: usize) -> (r: GrowOnlyCounter)
        ensures
            r@ == Seq::new(node_count as nat, |i: int| 0u32),
    {
        let mut counts: Vec<u32> = Vec::new();
        let mut i: usize = 0;
        while i < node_count
            invariant
                i <= node_count,
                counts@ == Seq::new(i as nat, |j: int| 0u32),
            decreases node_count - i,
        {
            counts.push(0);
            i = i + 1;
            assert(counts@ =~= Seq::new(i as nat, |j: int| 0u32));
        }
        GrowOnlyCounter { counts }
    }

    /// Adds `delta` to the count of node `index`; `None`, and no change,
    /// where there is no such node.
    pub fn add_to_count(&mut self, index: usize, delta: u32) -> (r: Option<()>)
        requires
            index < old(self)@.len() ==> old(self)@[index as int] + delta <= u32::MAX,
        ensures
            index < old(self)@.len() ==> r == Some(()) && final(self)@ == old(self)@.update(
                index as int,
                (old(self)@[index as int] + delta) as u32,
            ),
            index >= old(self)@.len() ==> r is None && final(self)@ == old(self)@,
    {
        if index >= self.counts.len() {
            return None;
        }
        let current = self.counts[index];
        self.counts.set(index, current + delta);
        Some(())
    }

    /// The count of each node.
    pub fn counts(&self) -> (r: &Vec<u32>)
        ensures
            r@ == self@,
    {
        &self.counts
    }

    /// A copy of the counts.
    pub fn copy_counts(&self) -> (r: Vec<u32>)
        ensures
            r@ == self@,
    {
        let mut r: Vec<u32> = Vec::new();
        let mut i: usize = 0;
        while i < self.counts.len()
            invariant
                i <= self.counts@.len(),
                r@ == self.counts@.subrange(0, i as int),
            decreases self.counts@.len() - i,
        {
            r.push(self.counts[i]);
            i = i + 1;
            assert(r@ =~= self.counts@.subrange(0, i as int));
        }
        assert(r@ =~= self.counts@);
        r
    }

    /// Whether the sum of the counts fits in a `u32`.
    pub fn fits_in_sum(&self) -> (r: bool)
        ensures
            r == (total(self@) <= u32::MAX),
    {
        let mut sum: u64 = 0;
        let mut i: usize = 0;
        while i < self.counts.len()
            invariant
                i <= self.counts@.len(),
                sum == total(self.counts@.subrange(0, i as int)),
                sum <= u32::MAX,
            decreases self.counts@.len() - i,
        {
            proof {
                assert(self.counts@.subrange(0, i as int + 1).drop_last() =~= self.counts@.subrange(0, i as int));
            }
            sum = sum + self.counts[i] as u64;
            if sum > u32::MAX as u64 {
                proof {
                    lemma_total_prefix_bound(self.counts@, i as int + 1);
                }
                return false;
            }
            i = i + 1;
        }
        assert(self.counts@.subrange(0, i as int) =~= self.counts@);
        true
    }

    /// The value of the counter: the sum of the counts.
    pub fn sum(&self) -> (r: u32)
        requires
            total(self@) <= u32::MAX,
        ensures
            r == total(self@),
    {
        let mut sum: u32 = 0;
        let mut i: usize = 0;
        while i < self.counts.len()
            invariant
                i <= self.counts@.len(),
                sum == total(self.counts@.subrange(0, i as int)),
                total(self.counts@) <= u32::MAX,
            decreases self.counts@.len() - i,
        {
            proof {
                assert(self.counts@.subrange(0, i as int + 1).drop_last() =~= self.counts@.subrange(
                    0,
                    i as int,
                ));
                lemma_total_prefix_bound(self.counts@, i as int + 1);
            }
            sum = sum + self.counts[i];
            i = i + 1;
        }
        assert(self.counts@.subrange(0, i as int) =~= self.counts@);
        sum
    }

    /// Merges another node's counts: each count becomes the larger of the
    /// two.
    pub fn update_counts(&mut self, other_counts: &Vec<u32>)
        ensures
            final(self)@ == pointwise_max(old(self)@, other_counts@),
    {
        let n = if self.counts.len() <= other_counts.len() {
            self.counts.len()
        } else {
            other_counts.len()
        };
        let mut merged: Vec<u32> = Vec::new();
        let mut i: usize = 0;
        while i < n
            invariant
                i <= n,
                n <= self.counts@.len(),
                n <= other_counts@.len(),
                n == pointwise_max(self.counts@, other_counts@).len(),
                merged@ == pointwise_max(self.counts@, other_counts@).subrange(0, i as int),
            decreases n - i,
        {
            let a = self.counts[i];
            let b = other_counts[i];
            merged.push(if a >= b { a } else { b });
            i = i + 1;
            assert(merged@ =~= pointwise_max(self.counts@, other_counts@).subrange(0, i as int));
        }
        assert(merged@ =~= pointwise_max(self.counts@, other_counts@));
        self.counts = merged;
    }
}

/// A prefix of a count vector sums to no more than the whole.
proof fn lemma_total_prefix_bound(s: Seq<u32>, k: int)
    requires
        0 <= k <= s.len(),
    ensures
        total(s.subrange(0, k)) <= total(s),
    decreases s.len() - k,
{
    if k < s.len() {
        lemma_total_prefix_bound(s, k + 1);
        assert(s.subrange(0, k + 1).drop_last() =~= s.subrange(0, k));
    } else {
        assert(s.subrange(0, k) =~= s);
    }
}

} // verus!
