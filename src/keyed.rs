//! Keys of logs, and rows of values by key with each key at most once.
use vstd::prelude::*;

verus! {

/// The name of a log.
#[derive(Debug, Clone, PartialEq, Eq, Hash)]
pub struct LogKey {
    pub key: String,
}

impl LogKey {
    pub fn new(key: &str) -> (r: LogKey)
        ensures
            r.key@ == key@,
    {
        LogKey { key: key.to_owned() }
    }

    /// A copy of this key.
    pub fn copy(&self) -> (r: LogKey)
        ensures
            r.key@ == self.key@,
    {
        LogKey { key: self.key.clone() }
    }
}

/// Some row of `rows` has key `k`.
pub open spec fn has_key<T>(rows: Seq<(LogKey, T)>, k: Seq<char>) -> bool {
    exists|i: int| 0 <= i < rows.len() && #[trigger] rows[i].0.key@ == k
}

/// No key stands in two rows.
pub open spec fn unique_keys<T>(rows: Seq<(LogKey, T)>) -> bool {
    forall|i: int, j: int|
        0 <= i < rows.len() && 0 <= j < rows.len() && i != j ==> #[trigger] rows[i].0.key@
            != #[trigger] rows[j].0.key@
}

/// The value of the row with key `k`.
pub open spec fn row_of<T>(rows: Seq<(LogKey, T)>, k: Seq<char>) -> T {
    rows[choose|i: int| 0 <= i < rows.len() && #[trigger] rows[i].0.key@ == k].1
}

pub proof fn lemma_row_at<T>(rows: Seq<(LogKey, T)>, i: int)
    requires
        unique_keys(rows),
        0 <= i < rows.len(),
    ensures
        has_key(rows, rows[i].0.key@),
        row_of(rows, rows[i].0.key@) == rows[i].1,
{
    let k = rows[i].0.key@;
    assert(has_key(rows, k));
    let j = choose|j: int| 0 <= j < rows.len() && #[trigger] rows[j].0.key@ == k;
    assert(j == i);
}

/// Replacing the value of row `i` changes the value of its key alone.
pub proof fn lemma_row_update<T>(rows: Seq<(LogKey, T)>, i: int, key: LogKey, v: T)
    requires
        unique_keys(rows),
        0 <= i < rows.len(),
        key.key@ == rows[i].0.key@,
    ensures
        unique_keys(rows.update(i, (key, v))),
        forall|k: Seq<char>| has_key(rows.update(i, (key, v)), k) == has_key(rows, k),
        row_of(rows.update(i, (key, v)), key.key@) == v,
        forall|k: Seq<char>|
            k != key.key@ && has_key(rows, k) ==> row_of(rows.update(i, (key, v)), k) == row_of(rows, k),
{
    let new = rows.update(i, (key, v));
    assert forall|k: Seq<char>| has_key(new, k) == has_key(rows, k) by {
        if has_key(rows, k) {
            let j = choose|j: int| 0 <= j < rows.len() && #[trigger] rows[j].0.key@ == k;
            assert(new[j].0.key@ == k);
        }
        if has_key(new, k) {
            let j = choose|j: int| 0 <= j < new.len() && #[trigger] new[j].0.key@ == k;
            assert(rows[j].0.key@ == k);
        }
    }
    lemma_row_at(new, i);
    assert forall|k: Seq<char>| k != key.key@ && has_key(rows, k) implies row_of(new, k) == row_of(rows, k) by {
        let j = choose|j: int| 0 <= j < rows.len() && #[trigger] rows[j].0.key@ == k;
        lemma_row_at(rows, j);
        assert(new[j] == rows[j]);
        lemma_row_at(new, j);
    }
}

/// Adding a row with a new key adds that key alone.
pub proof fn lemma_row_push<T>(rows: Seq<(LogKey, T)>, key: LogKey, v: T)
    requires
        unique_keys(rows),
        !has_key(rows, key.key@),
    ensures
        unique_keys(rows.push((key, v))),
        forall|k: Seq<char>| has_key(rows.push((key, v)), k) == (has_key(rows, k) || k == key.key@),
        row_of(rows.push((key, v)), key.key@) == v,
        forall|k: Seq<char>| has_key(rows, k) ==> row_of(rows.push((key, v)), k) == row_of(rows, k),
{
    let new = rows.push((key, v));
    assert forall|i: int, j: int|
        0 <= i < new.len() && 0 <= j < new.len() && i != j implies #[trigger] new[i].0.key@
            != #[trigger] new[j].0.key@ by {
        if i == rows.len() as int {
            assert(rows[j].0.key@ == new[j].0.key@);
        } else if j == rows.len() as int {
            assert(rows[i].0.key@ == new[i].0.key@);
        }
    }
    assert forall|k: Seq<char>| has_key(new, k) == (has_key(rows, k) || k == key.key@) by {
        if has_key(rows, k) {
            let j = choose|j: int| 0 <= j < rows.len() && #[trigger] rows[j].0.key@ == k;
            assert(new[j].0.key@ == k);
        }
        if k == key.key@ {
            assert(new[rows.len() as int].0.key@ == k);
        }
        if has_key(new, k) && k != key.key@ {
            let j = choose|j: int| 0 <= j < new.len() && #[trigger] new[j].0.key@ == k;
            assert(rows[j].0.key@ == k);
        }
    }
    lemma_row_at(new, rows.len() as int);
    assert forall|k: Seq<char>| has_key(rows, k) implies row_of(new, k) == row_of(rows, k) by {
        let j = choose|j: int| 0 <= j < rows.len() && #[trigger] rows[j].0.key@ == k;
        lemma_row_at(rows, j);
        assert(new[j] == rows[j]);
        lemma_row_at(new, j);
    }
}

pub proof fn lemma_has_key_push<T>(rows: Seq<(LogKey, T)>, row: (LogKey, T), k: Seq<char>)
    ensures
        has_key(rows.push(row), k) == (has_key(rows, k) || row.0.key@ == k),
{
    let new = rows.push(row);
    if has_key(rows, k) {
        let j = choose|j: int| 0 <= j < rows.len() && #[trigger] rows[j].0.key@ == k;
        assert(new[j].0.key@ == k);
    }
    if row.0.key@ == k {
        assert(new[rows.len() as int].0.key@ == k);
    }
    if has_key(new, k) && row.0.key@ != k {
        let j = choose|j: int| 0 <= j < new.len() && #[trigger] new[j].0.key@ == k;
        assert(rows[j].0.key@ == k);
    }
}

/// The position of the row with key `key`, where there is one.
pub fn find_row<T>(rows: &Vec<(LogKey, T)>, key: &LogKey) -> (r: Option<usize>)
    ensures
        r matches Some(i) ==> i < rows@.len() && rows@[i as int].0.key@ == key.key@ && forall|j: int|
            0 <= j < i ==> rows@[j].0.key@ != key.key@,
        r is None ==> !has_key(rows@, key.key@),
{
    let mut i: usize = 0;
    while i < rows.len()
        invariant
            i <= rows@.len(),
            forall|j: int| 0 <= j < i ==> rows@[j].0.key@ != key.key@,
        decreases rows@.len() - i,
    {
        if rows[i].0.key == key.key {
            return Some(i);
        }
        i = i + 1;
    }
    None
}

} // verus!
