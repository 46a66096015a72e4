//! Keyed append-only logs with a committed offset each, and the offset and
//! message tables that requests and replies carry.
use vstd::prelude::*;
use crate::keyed::{
    find_row, has_key, lemma_has_key_push, lemma_row_at, lemma_row_push, lemma_row_update, row_of,
    unique_keys, LogKey,
};
use crate::log_entries::{
    next_offset, skip_below, sorted_by_offset, LogEntries, LogEntry, LogMessage, LogOffset,
};

verus! {

/// One log: its entries and the offset committed in it, if any.
#[derive(Debug, PartialEq, Eq, Hash, Clone)]
pub struct Log {
    entries: LogEntries,
    committed_offset: Option<LogOffset>,
}

impl View for Log {
    type V = (Seq<LogEntry>, Option<LogOffset>);

    closed spec fn view(&self) -> (Seq<LogEntry>, Option<LogOffset>) {
        (self.entries@, self.committed_offset)
    }
}

impl Log {
    pub fn new() -> (r: Log)
        ensures
            r@ == (Seq::<LogEntry>::empty(), None::<LogOffset>),
    {
        Log { entries: LogEntries::new(), committed_offset: None }
    }

    pub fn append_message(&mut self, message: LogMessage) -> (r: LogOffset)
        requires
            next_offset(old(self)@.0) <= usize::MAX,
        ensures
            r.offset == next_offset(old(self)@.0),
            final(self)@ == (old(self)@.0.push(LogEntry { offset: r, message }), old(self)@.1),
    {
        self.entries.append_message(message)
    }

    pub fn append_entries(&mut self, entries: LogEntries)
        ensures
            final(self)@ == (old(self)@.0 + entries@, old(self)@.1),
    {
        self.entries.append_entries(entries)
    }

    pub fn insert_message(&mut self, offset: LogOffset, message: LogMessage)
        ensures
            sorted_by_offset(final(self)@.0),
            final(self)@.0.to_multiset() == old(self)@.0.push(LogEntry { offset, message }).to_multiset(),
            final(self)@.1 == old(self)@.1,
    {
        self.entries.insert_message(offset, message)
    }

    pub fn since_offset(&self, offset: &LogOffset) -> (r: LogEntries)
        ensures
            r@ == skip_below(self@.0, offset.offset),
    {
        self.entries.since_offset(offset)
    }

    pub fn commit_offset(&mut self, offset: Option<LogOffset>)
        ensures
            final(self)@ == (old(self)@.0, offset),
    {
        self.committed_offset = offset;
    }

    pub fn entries(&self) -> (r: &LogEntries)
        ensures
            r@ == self@.0,
    {
        &self.entries
    }

    pub fn committed_offset(&self) -> (r: Option<&LogOffset>)
        ensures
            r == (match self@.1 {
                Some(o) => Some(&o),
                None => None::<&LogOffset>,
            }),
    {
        match &self.committed_offset {
            Some(o) => Some(o),
            None => None,
        }
    }
}

/// An offset, or none, for each of some logs.
#[derive(Debug)]
pub struct Offsets {
    rows: Vec<(LogKey, Option<LogOffset>)>,
}

impl View for Offsets {
    type V = Map<Seq<char>, Option<LogOffset>>;

    closed spec fn view(&self) -> Map<Seq<char>, Option<LogOffset>> {
        Map::new(|k: Seq<char>| has_key(self.rows@, k), |k: Seq<char>| row_of(self.rows@, k))
    }
}

impl Offsets {
    pub closed spec fn wf(&self) -> bool {
        unique_keys(self.rows@)
    }

    pub fn new() -> (r: Offsets)
        ensures
            r.wf(),
            r@ == Map::<Seq<char>, Option<LogOffset>>::empty(),
    {
        let r = Offsets { rows: Vec::new() };
        assert(r@ =~= Map::<Seq<char>, Option<LogOffset>>::empty());
        r
    }

    /// Whether no key stands twice.
    pub fn is_wf(&self) -> (r: bool)
        ensures
            r == self.wf(),
    {
        let mut i: usize = 0;
        while i < self.rows.len()
            invariant
                i <= self.rows@.len(),
                unique_keys(self.rows@.subrange(0, i as int)),
            decreases self.rows@.len() - i,
        {
            let ghost p = self.rows@.subrange(0, i as int);
            let mut j: usize = 0;
            while j < i
                invariant
                    j <= i < self.rows@.len(),
                    forall|m: int| 0 <= m < j ==> self.rows@[m].0.key@ != self.rows@[i as int].0.key@,
                decreases i - j,
            {
                if self.rows[j].0.key == self.rows[i].0.key {
                    assert(!unique_keys(self.rows@)) by {
                        assert(self.rows@[j as int].0.key@ == self.rows@[i as int].0.key@);
                    }
                    return false;
                }
                j = j + 1;
            }
            i = i + 1;
            assert forall|a: int, b: int|
                0 <= a < i && 0 <= b < i && a != b implies #[trigger] self.rows@.subrange(0, i as int)[a].0.key@
                    != #[trigger] self.rows@.subrange(0, i as int)[b].0.key@ by {
                if a < i - 1 && b < i - 1 {
                    assert(p[a] == self.rows@[a]);
                    assert(p[b] == self.rows@[b]);
                }
            }
        }
        assert(self.rows@.subrange(0, i as int) =~= self.rows@);
        true
    }

    /// The rows, each key once.
    pub fn items(&self) -> (r: &Vec<(LogKey, Option<LogOffset>)>)
        requires
            self.wf(),
        ensures
            unique_keys(r@),
            forall|k: Seq<char>| #[trigger] has_key(r@, k) == self@.contains_key(k),
            forall|i: int| 0 <= i < r@.len() ==> self@[#[trigger] r@[i].0.key@] == r@[i].1,
    {
        proof {
            assert forall|i: int| 0 <= i < self.rows@.len() implies self@[#[trigger] self.rows@[i].0.key@]
                == self.rows@[i].1 by {
                lemma_row_at(self.rows@, i);
            }
        }
        &self.rows
    }

    /// Sets the offset of log `key`.
    pub fn insert_offset(&mut self, key: LogKey, offset: Option<LogOffset>)
        requires
            old(self).wf(),
        ensures
            final(self).wf(),
            final(self)@ == old(self)@.insert(key.key@, offset),
    {
        let ghost k = key.key@;
        match find_row(&self.rows, &key) {
            Some(i) => {
                proof {
                    lemma_row_update(self.rows@, i as int, key, offset);
                }
                self.rows.set(i, (key, offset));
            },
            None => {
                proof {
                    lemma_row_push(self.rows@, key, offset);
                }
                self.rows.push((key, offset));
            },
        }
        assert forall|k2: Seq<char>| #[trigger] self@.contains_key(k2) == old(self)@.insert(k, offset).contains_key(k2) by {
            assert(self@.contains_key(k2) == has_key(self.rows@, k2));
            assert(old(self)@.contains_key(k2) == has_key(old(self).rows@, k2));
            if k2 == k {
            } else {
            }
        }
        assert forall|k2: Seq<char>| self@.contains_key(k2) implies #[trigger] self@[k2] == old(self)@.insert(k, offset)[k2] by {
            if k2 == k {
            } else {
                assert(has_key(old(self).rows@, k2));
            }
        }
        assert(self@ =~= old(self)@.insert(k, offset));
    }
}

/// The entries of each of some logs.
#[derive(Debug)]
pub struct Messages {
    rows: Vec<(LogKey, LogEntries)>,
}

impl View for Messages {
    type V = Map<Seq<char>, Seq<LogEntry>>;

    closed spec fn view(&self) -> Map<Seq<char>, Seq<LogEntry>> {
        Map::new(|k: Seq<char>| has_key(self.rows@, k), |k: Seq<char>| row_of(self.rows@, k)@)
    }
}

impl Messages {
    pub closed spec fn wf(&self) -> bool {
        unique_keys(self.rows@)
    }

    pub fn new() -> (r: Messages)
        ensures
            r.wf(),
            r@ == Map::<Seq<char>, Seq<LogEntry>>::empty(),
    {
        let r = Messages { rows: Vec::new() };
        assert(r@ =~= Map::<Seq<char>, Seq<LogEntry>>::empty());
        r
    }

    /// The rows, each key once.
    pub fn items(&self) -> (r: &Vec<(LogKey, LogEntries)>)
        requires
            self.wf(),
        ensures
            unique_keys(r@),
            forall|k: Seq<char>| #[trigger] has_key(r@, k) == self@.contains_key(k),
            forall|i: int| 0 <= i < r@.len() ==> self@[#[trigger] r@[i].0.key@] == r@[i].1@,
    {
        proof {
            assert forall|i: int| 0 <= i < self.rows@.len() implies self@[#[trigger] self.rows@[i].0.key@]
                == self.rows@[i].1@ by {
                lemma_row_at(self.rows@, i);
            }
        }
        &self.rows
    }

    /// Sets the entries of log `key`.
    pub fn insert_entries(&mut self, key: LogKey, entries: LogEntries)
        requires
            old(self).wf(),
        ensures
            final(self).wf(),
            final(self)@ == old(self)@.insert(key.key@, entries@),
    {
        let ghost k = key.key@;
        let ghost v = entries@;
        match find_row(&self.rows, &key) {
            Some(i) => {
                proof {
                    lemma_row_update(self.rows@, i as int, key, entries);
                }
                self.rows.set(i, (key, entries));
            },
            None => {
                proof {
                    lemma_row_push(self.rows@, key, entries);
                }
                self.rows.push((key, entries));
            },
        }
        assert forall|k2: Seq<char>| #[trigger] self@.contains_key(k2) == old(self)@.insert(k, v).contains_key(k2) by {
            assert(self@.contains_key(k2) == has_key(self.rows@, k2));
            assert(old(self)@.contains_key(k2) == has_key(old(self).rows@, k2));
            if k2 == k {
            } else {
            }
        }
        assert forall|k2: Seq<char>| self@.contains_key(k2) implies #[trigger] self@[k2] == old(self)@.insert(k, v)[k2] by {
            if k2 == k {
            } else {
                assert(has_key(old(self).rows@, k2));
            }
        }
        assert(self@ =~= old(self)@.insert(k, v));
    }
}

} // verus!

verus! {

/// The log of key `k`: empty, with nothing committed, where there is none.
pub open spec fn log_at(m: Map<Seq<char>, (Seq<LogEntry>, Option<LogOffset>)>, k: Seq<char>) -> (
    Seq<LogEntry>,
    Option<LogOffset>,
) {
    if m.contains_key(k) {
        m[k]
    } else {
        (Seq::empty(), None)
    }
}

/// The offset committed in log `k`, or 0 where there is no such log or it has
/// none.
pub open spec fn committed_or_zero(m: Map<Seq<char>, (Seq<LogEntry>, Option<LogOffset>)>, k: Seq<char>) -> LogOffset {
    match log_at(m, k).1 {
        Some(o) => o,
        None => LogOffset { offset: 0 },
    }
}

pub open spec fn logs_view(rows: Seq<(LogKey, Log)>) -> Map<Seq<char>, (Seq<LogEntry>, Option<LogOffset>)> {
    Map::new(|k: Seq<char>| has_key(rows, k), |k: Seq<char>| row_of(rows, k)@)
}

proof fn lemma_logs_set(rows: Seq<(LogKey, Log)>, i: int, key: LogKey, log: Log)
    requires
        unique_keys(rows),
        0 <= i < rows.len(),
        key.key@ == rows[i].0.key@,
    ensures
        unique_keys(rows.update(i, (key, log))),
        logs_view(rows.update(i, (key, log))) == logs_view(rows).insert(key.key@, log@),
{
    lemma_row_update(rows, i, key, log);
    lemma_row_at(rows, i);
    let new = rows.update(i, (key, log));
    assert forall|k: Seq<char>| #[trigger] logs_view(new).contains_key(k) == logs_view(rows).insert(key.key@, log@).contains_key(k) by {
        assert(logs_view(new).contains_key(k) == has_key(new, k));
        assert(logs_view(rows).contains_key(k) == has_key(rows, k));
    }
    assert(logs_view(new) =~= logs_view(rows).insert(key.key@, log@));
}

proof fn lemma_logs_push(rows: Seq<(LogKey, Log)>, key: LogKey, log: Log)
    requires
        unique_keys(rows),
        !has_key(rows, key.key@),
    ensures
        unique_keys(rows.push((key, log))),
        logs_view(rows.push((key, log))) == logs_view(rows).insert(key.key@, log@),
{
    lemma_row_push(rows, key, log);
    let new = rows.push((key, log));
    assert forall|k: Seq<char>| #[trigger] logs_view(new).contains_key(k) == logs_view(rows).insert(key.key@, log@).contains_key(k) by {
        assert(logs_view(new).contains_key(k) == has_key(new, k));
        assert(logs_view(rows).contains_key(k) == has_key(rows, k));
    }
    assert(logs_view(new) =~= logs_view(rows).insert(key.key@, log@));
}

/// The logs of a node, by key.
#[derive(Debug)]
pub struct Logs {
    rows: Vec<(LogKey, Log)>,
}

impl View for Logs {
    type V = Map<Seq<char>, (Seq<LogEntry>, Option<LogOffset>)>;

    closed spec fn view(&self) -> Map<Seq<char>, (Seq<LogEntry>, Option<LogOffset>)> {
        logs_view(self.rows@)
    }
}

impl Logs {
    /// Each holds every row of the other, with an equal log under the key.
    pub closed spec fn same_logs(&self, other: &Logs) -> bool {
        rows_within(self.rows@, other.rows@) && rows_within(other.rows@, self.rows@)
    }

    pub closed spec fn wf(&self) -> bool {
        unique_keys(self.rows@)
    }

    /// No logs.
    pub fn new() -> (r: Logs)
        ensures
            r.wf(),
            r@ == Map::<Seq<char>, (Seq<LogEntry>, Option<LogOffset>)>::empty(),
    {
        let r = Logs { rows: Vec::new() };
        assert(r@ =~= Map::<Seq<char>, (Seq<LogEntry>, Option<LogOffset>)>::empty());
        r
    }

    /// Whether one more message fits in log `key`: whether its next offset
    /// is a `usize`.
    pub fn has_room(&self, key: &LogKey) -> (r: bool)
        requires
            self.wf(),
        ensures
            r == (next_offset(log_at(self@, key.key@).0) <= usize::MAX),
    {
        match find_row(&self.rows, key) {
            Some(i) => {
                proof {
                    lemma_row_at(self.rows@, i as int);
                }
                match self.rows[i].1.entries().max_log_entry() {
                    Some(e) => e.offset.offset < usize::MAX,
                    None => true,
                }
            },
            None => true,
        }
    }

    /// Puts `log` in row `i`, whose key is `key`.
    fn put_log(&mut self, i: usize, key: LogKey, log: Log)
        requires
            old(self).wf(),
            i < old(self).rows@.len(),
            key.key@ == old(self).rows@[i as int].0.key@,
        ensures
            final(self).wf(),
            final(self)@ == old(self)@.insert(key.key@, log@),
    {
        proof {
            lemma_logs_set(self.rows@, i as int, key, log);
        }
        self.rows.set(i, (key, log));
    }

    /// Appends `message` to log `key`, which is made if there is none, and
    /// returns its offset: one past the largest offset of that log, or 0.
    pub fn append_message(&mut self, key: &str, message: i64) -> (r: LogOffset)
        requires
            old(self).wf(),
            next_offset(log_at(old(self)@, key@).0) <= usize::MAX,
        ensures
            final(self).wf(),
            r.offset == next_offset(log_at(old(self)@, key@).0),
            final(self)@ == old(self)@.insert(
                key@,
                (
                    log_at(old(self)@, key@).0.push(
                        LogEntry { offset: r, message: LogMessage { message } },
                    ),
                    log_at(old(self)@, key@).1,
                ),
            ),
    {
        let key = LogKey::new(key);
        match find_row(&self.rows, &key) {
            Some(i) => {
                proof {
                    lemma_row_at(self.rows@, i as int);
                }
                let mut log = self.rows[i].1.clone_log();
                let r = log.append_message(LogMessage::new(message));
                self.put_log(i, key, log);
                r
            },
            None => {
                let mut log = Log::new();
                let r = log.append_message(LogMessage::new(message));
                proof {
                    lemma_logs_push(self.rows@, key, log);
                }
                self.rows.push((key, log));
                r
            },
        }
    }
}

impl Logs {
    /// Appends `entries` to log `key`, which is made if there is none.
    pub fn append_entries(&mut self, key: &LogKey, entries: LogEntries)
        requires
            old(self).wf(),
        ensures
            final(self).wf(),
            final(self)@ == old(self)@.insert(
                key.key@,
                (log_at(old(self)@, key.key@).0 + entries@, log_at(old(self)@, key.key@).1),
            ),
    {
        match find_row(&self.rows, key) {
            Some(i) => {
                proof {
                    lemma_row_at(self.rows@, i as int);
                }
                let mut log = self.rows[i].1.clone_log();
                log.append_entries(entries);
                self.put_log(i, key.copy(), log);
            },
            None => {
                let mut log = Log::new();
                log.append_entries(entries);
                let k = key.copy();
                proof {
                    lemma_logs_push(self.rows@, k, log);
                }
                self.rows.push((k, log));
            },
        }
    }

    /// Adds `message` at `offset` to log `key`, which is made if there is
    /// none, and puts that log in order of offset. Always `Some`.
    pub fn insert_message(&mut self, key: &str, offset: usize, message: i64) -> (r: Option<()>)
        requires
            old(self).wf(),
        ensures
            r == Some(()),
            final(self).wf(),
            final(self)@.dom() == old(self)@.dom().insert(key@),
            forall|k: Seq<char>| k != key@ && old(self)@.contains_key(k) ==> #[trigger] final(self)@[k] == old(self)@[k],
            sorted_by_offset(final(self)@[key@].0),
            final(self)@[key@].0.to_multiset() == log_at(old(self)@, key@).0.push(
                LogEntry { offset: LogOffset { offset }, message: LogMessage { message } },
            ).to_multiset(),
            final(self)@[key@].1 == log_at(old(self)@, key@).1,
    {
        let key = LogKey::new(key);
        match find_row(&self.rows, &key) {
            Some(i) => {
                proof {
                    lemma_row_at(self.rows@, i as int);
                }
                let mut log = self.rows[i].1.clone_log();
                log.insert_message(LogOffset::new(offset), LogMessage::new(message));
                self.put_log(i, key, log);
            },
            None => {
                let mut log = Log::new();
                log.insert_message(LogOffset::new(offset), LogMessage::new(message));
                proof {
                    lemma_logs_push(self.rows@, key, log);
                }
                self.rows.push((key, log));
            },
        }
        Some(())
    }

    /// The log of each key.
    pub fn as_messages(&self) -> (r: Messages)
        requires
            self.wf(),
        ensures
            r.wf(),
            r@ == Map::new(|k: Seq<char>| self@.contains_key(k), |k: Seq<char>| self@[k].0),
    {
        let mut messages = Messages::new();
        let mut i: usize = 0;
        while i < self.rows.len()
            invariant
                i <= self.rows@.len(),
                unique_keys(self.rows@),
                messages.wf(),
                messages@ == Map::new(
                    |k: Seq<char>| has_key(self.rows@.subrange(0, i as int), k),
                    |k: Seq<char>| self@[k].0,
                ),
            decreases self.rows@.len() - i,
        {
            let ghost prefix = self.rows@.subrange(0, i as int);
            proof {
                lemma_row_at(self.rows@, i as int);
                assert(self.rows@.subrange(0, i as int + 1) =~= prefix.push(self.rows@[i as int]));
            }
            messages.insert_entries(self.rows[i].0.copy(), self.rows[i].1.entries().copy());
            proof {
                let next = self.rows@.subrange(0, i as int + 1);
                assert forall|k: Seq<char>| #[trigger] messages@.contains_key(k) == has_key(next, k) by {
                    lemma_has_key_push(prefix, self.rows@[i as int], k);
                }
                assert forall|k: Seq<char>| messages@.contains_key(k) implies #[trigger] messages@[k] == self@[k].0 by {
                    if k == self.rows@[i as int].0.key@ {
                        assert(self.rows@[i as int].1@.0 == self.rows@[i as int].1.entries@);
                    }
                }
                assert(messages@ =~= Map::new(
                    |k: Seq<char>| has_key(next, k),
                    |k: Seq<char>| self@[k].0,
                ));
            }
            i = i + 1;
            assert(messages@ =~= Map::new(
                |k: Seq<char>| has_key(self.rows@.subrange(0, i as int), k),
                |k: Seq<char>| self@[k].0,
            ));
        }
        assert(self.rows@.subrange(0, i as int) =~= self.rows@);
        assert(messages@ =~= Map::new(|k: Seq<char>| self@.contains_key(k), |k: Seq<char>| self@[k].0));
        messages
    }

    /// The committed offset of each of `keys`: 0 for a key that has no log,
    /// or whose log has none.
    pub fn list_committed_offsets(&self, keys: &Vec<LogKey>) -> (r: Offsets)
        requires
            self.wf(),
        ensures
            r.wf(),
            r@ == Map::new(
                |k: Seq<char>| exists|j: int| 0 <= j < keys@.len() && #[trigger] keys@[j].key@ == k,
                |k: Seq<char>| Some(committed_or_zero(self@, k)),
            ),
    {
        let mut offsets = Offsets::new();
        let mut i: usize = 0;
        while i < keys.len()
            invariant
                i <= keys@.len(),
                self.wf(),
                offsets.wf(),
                offsets@ == Map::new(
                    |k: Seq<char>| exists|j: int| 0 <= j < i && #[trigger] keys@[j].key@ == k,
                    |k: Seq<char>| Some(committed_or_zero(self@, k)),
                ),
            decreases keys@.len() - i,
        {
            let key = &keys[i];
            let offset = match find_row(&self.rows, key) {
                Some(p) => {
                    proof {
                        lemma_row_at(self.rows@, p as int);
                    }
                    match self.rows[p].1.committed_offset() {
                        Some(o) => *o,
                        None => LogOffset::new(0),
                    }
                },
                None => LogOffset::new(0),
            };
            offsets.insert_offset(key.copy(), Some(offset));
            i = i + 1;
            assert(offsets@ =~= Map::new(
                |k: Seq<char>| exists|j: int| 0 <= j < i && #[trigger] keys@[j].key@ == k,
                |k: Seq<char>| Some(committed_or_zero(self@, k)),
            ));
        }
        offsets
    }
}

/// The keys among the first `i` rows.
proof fn lemma_prefix_keys<T>(rows: Seq<(LogKey, T)>, i: int)
    requires
        unique_keys(rows),
        0 <= i < rows.len(),
    ensures
        !has_key(rows.subrange(0, i), rows[i].0.key@),
        forall|k: Seq<char>| #[trigger] has_key(rows.subrange(0, i + 1), k) == (has_key(rows.subrange(0, i), k) || k == rows[i].0.key@),
{
    let prefix = rows.subrange(0, i);
    if has_key(prefix, rows[i].0.key@) {
        let j = choose|j: int| 0 <= j < prefix.len() && #[trigger] prefix[j].0.key@ == rows[i].0.key@;
        assert(rows[j].0.key@ == rows[i].0.key@);
    }
    assert(rows.subrange(0, i + 1) =~= prefix.push(rows[i]));
    assert forall|k: Seq<char>| #[trigger] has_key(rows.subrange(0, i + 1), k) == (has_key(prefix, k) || k == rows[i].0.key@) by {
        lemma_has_key_push(prefix, rows[i], k);
    }
}

impl Logs {
    /// For each log named in `offsets` with an offset, the entries from the
    /// first one at or past that offset on; nothing is committed in the
    /// result.
    pub fn since_offset(&self, offsets: &Offsets) -> (r: Logs)
        requires
            self.wf(),
            offsets.wf(),
        ensures
            r.wf(),
            r@ == Map::new(
                |k: Seq<char>| offsets@.contains_key(k) && offsets@[k] is Some && self@.contains_key(k),
                |k: Seq<char>| (skip_below(self@[k].0, offsets@[k].unwrap().offset), None::<LogOffset>),
            ),
    {
        let items = offsets.items();
        let mut logs = Logs::new();
        let mut i: usize = 0;
        while i < items.len()
            invariant
                i <= items@.len(),
                self.wf(),
                logs.wf(),
                unique_keys(items@),
                forall|k: Seq<char>| #[trigger] has_key(items@, k) == offsets@.contains_key(k),
                forall|j: int| 0 <= j < items@.len() ==> offsets@[#[trigger] items@[j].0.key@] == items@[j].1,
                logs@ == Map::new(
                    |k: Seq<char>| has_key(items@.subrange(0, i as int), k) && offsets@[k] is Some && self@.contains_key(k),
                    |k: Seq<char>| (skip_below(self@[k].0, offsets@[k].unwrap().offset), None::<LogOffset>),
                ),
            decreases items@.len() - i,
        {
            proof {
                lemma_prefix_keys(items@, i as int);
            }
            let key = &items[i].0;
            let ghost k0 = key.key@;
            if let Some(offset) = &items[i].1 {
                match find_row(&self.rows, key) {
                    Some(p) => {
                        proof {
                            lemma_row_at(self.rows@, p as int);
                        }
                        let since = self.rows[p].1.since_offset(offset);
                        logs.append_entries(key, since);
                        assert(Seq::<LogEntry>::empty() + since@ =~= since@);
                    },
                    None => {},
                }
            }
            i = i + 1;
            assert(logs@ =~= Map::new(
                |k: Seq<char>| has_key(items@.subrange(0, i as int), k) && offsets@[k] is Some && self@.contains_key(k),
                |k: Seq<char>| (skip_below(self@[k].0, offsets@[k].unwrap().offset), None::<LogOffset>),
            ));
        }
        assert(items@.subrange(0, i as int) =~= items@);
        assert(logs@ =~= Map::new(
            |k: Seq<char>| offsets@.contains_key(k) && offsets@[k] is Some && self@.contains_key(k),
            |k: Seq<char>| (skip_below(self@[k].0, offsets@[k].unwrap().offset), None::<LogOffset>),
        ));
        logs
    }

    /// Commits, in each log named in `offsets`, the offset given for it
    /// (which may be none). A key with no log is passed over.
    pub fn commit_offsets(&mut self, offsets: &Offsets)
        requires
            old(self).wf(),
            offsets.wf(),
        ensures
            final(self).wf(),
            final(self)@ == Map::new(
                |k: Seq<char>| old(self)@.contains_key(k),
                |k: Seq<char>| if offsets@.contains_key(k) {
                    (old(self)@[k].0, offsets@[k])
                } else {
                    old(self)@[k]
                },
            ),
    {
        let items = offsets.items();
        let ghost start = self@;
        let mut i: usize = 0;
        while i < items.len()
            invariant
                i <= items@.len(),
                self.wf(),
                unique_keys(items@),
                forall|k: Seq<char>| #[trigger] has_key(items@, k) == offsets@.contains_key(k),
                forall|j: int| 0 <= j < items@.len() ==> offsets@[#[trigger] items@[j].0.key@] == items@[j].1,
                self@ == Map::new(
                    |k: Seq<char>| start.contains_key(k),
                    |k: Seq<char>| if has_key(items@.subrange(0, i as int), k) {
                        (start[k].0, offsets@[k])
                    } else {
                        start[k]
                    },
                ),
            decreases items@.len() - i,
        {
            proof {
                lemma_prefix_keys(items@, i as int);
            }
            let key = &items[i].0;
            let ghost prev = self@;
            let ghost k0 = key.key@;
            match find_row(&self.rows, key) {
                Some(p) => {
                    proof {
                        lemma_row_at(self.rows@, p as int);
                    }
                    let mut log = self.rows[p].1.clone_log();
                    log.commit_offset(items[i].1);
                    self.put_log(p, key.copy(), log);
                    assert(self@ == prev.insert(k0, (prev[k0].0, offsets@[k0])));
                },
                None => {
                    assert(!prev.contains_key(k0));
                },
            }
            proof {
                let next = items@.subrange(0, i as int + 1);
                assert forall|k: Seq<char>| #[trigger] self@.contains_key(k) == start.contains_key(k) by {
                    assert(prev.contains_key(k) == start.contains_key(k));
                }
                assert forall|k: Seq<char>| self@.contains_key(k) implies #[trigger] self@[k] == (if has_key(next, k) {
                    (start[k].0, offsets@[k])
                } else {
                    start[k]
                }) by {
                    assert(prev.contains_key(k));
                }
            }
            i = i + 1;
            assert(self@ =~= Map::new(
                |k: Seq<char>| start.contains_key(k),
                |k: Seq<char>| if has_key(items@.subrange(0, i as int), k) {
                    (start[k].0, offsets@[k])
                } else {
                    start[k]
                },
            ));
        }
        assert(items@.subrange(0, i as int) =~= items@);
        assert(self@ =~= Map::new(
            |k: Seq<char>| start.contains_key(k),
            |k: Seq<char>| if offsets@.contains_key(k) {
                (start[k].0, offsets@[k])
            } else {
                start[k]
            },
        ));
    }
}

/// `row` is matched, in the first row of `b` with its key, by an equal log.
pub open spec fn matched_in(b: Seq<(LogKey, Log)>, row: (LogKey, Log)) -> bool {
    exists|p: int|
        0 <= p < b.len() && #[trigger] b[p].0.key@ == row.0.key@ && (forall|j: int|
            0 <= j < p ==> b[j].0.key@ != row.0.key@) && b[p].1@ == row.1@
}

/// Each row of `a` is matched in `b`.
pub open spec fn rows_within(a: Seq<(LogKey, Log)>, b: Seq<(LogKey, Log)>) -> bool {
    forall|i: int| 0 <= i < a.len() ==> matched_in(b, #[trigger] a[i])
}

impl PartialEq for Logs {
    /// Two sets of logs are equal when they hold the same logs under the same
    /// keys, in whatever order the keys came.
    fn eq(&self, other: &Logs) -> (r: bool) {
        contains_rows(&self.rows, &other.rows) && contains_rows(&other.rows, &self.rows)
    }
}

impl vstd::std_specs::cmp::PartialEqSpecImpl for Logs {
    open spec fn obeys_eq_spec() -> bool {
        true
    }

    open spec fn eq_spec(&self, other: &Logs) -> bool {
        self.same_logs(other)
    }
}

fn contains_rows(a: &Vec<(LogKey, Log)>, b: &Vec<(LogKey, Log)>) -> (r: bool)
    ensures
        r == rows_within(a@, b@),
{
    let mut i: usize = 0;
    while i < a.len()
        invariant
            i <= a@.len(),
            rows_within(a@.subrange(0, i as int), b@),
        decreases a@.len() - i,
    {
        let p = match find_row(b, &a[i].0) {
            Some(p) => p,
            None => {
                assert(!rows_within(a@, b@)) by {
                    if rows_within(a@, b@) {
                        assert(matched_in(b@, a@[i as int]));
                        let q = choose|q: int|
                            0 <= q < b@.len() && #[trigger] b@[q].0.key@ == a@[i as int].0.key@
                                && (forall|j: int| 0 <= j < q ==> b@[j].0.key@ != a@[i as int].0.key@)
                                && b@[q].1@ == a@[i as int].1@;
                        assert(has_key(b@, a@[i as int].0.key@));
                    }
                }
                return false;
            },
        };
        if !b[p].1.same_as(&a[i].1) {
            assert(!rows_within(a@, b@)) by {
                if rows_within(a@, b@) {
                    assert(matched_in(b@, a@[i as int]));
                    let q = choose|q: int|
                        0 <= q < b@.len() && #[trigger] b@[q].0.key@ == a@[i as int].0.key@
                            && (forall|j: int| 0 <= j < q ==> b@[j].0.key@ != a@[i as int].0.key@)
                            && b@[q].1@ == a@[i as int].1@;
                    assert(q == p);
                }
            }
            return false;
        }
        assert forall|k: int| 0 <= k < i + 1 implies matched_in(b@, #[trigger] a@.subrange(0, i as int + 1)[k]) by {
            if k < i {
                assert(a@.subrange(0, i as int + 1)[k] == a@.subrange(0, i as int)[k]);
            } else {
                assert(b@[p as int].0.key@ == a@[i as int].0.key@);
            }
        }
        i = i + 1;
    }
    assert(a@.subrange(0, i as int) =~= a@);
    true
}

/// For well-formed logs, `==` is equality of the logs by key.
pub proof fn same_logs_iff_equal(a: &Logs, b: &Logs)
    requires
        a.wf(),
        b.wf(),
    ensures
        a.same_logs(b) <==> a@ == b@,
{
    if a.same_logs(b) {
        lemma_within_gives_agreement(a.rows@, b.rows@);
        lemma_within_gives_agreement(b.rows@, a.rows@);
        assert(a@ =~= b@);
    }
    if a@ == b@ {
        lemma_agreement_gives_within(a.rows@, b.rows@);
        lemma_agreement_gives_within(b.rows@, a.rows@);
    }
}

proof fn lemma_within_gives_agreement(a: Seq<(LogKey, Log)>, b: Seq<(LogKey, Log)>)
    requires
        unique_keys(a),
        unique_keys(b),
        rows_within(a, b),
    ensures
        forall|k: Seq<char>| #[trigger] logs_view(a).contains_key(k) ==> logs_view(b).contains_key(k)
            && logs_view(b)[k] == logs_view(a)[k],
{
    assert forall|k: Seq<char>| #[trigger] logs_view(a).contains_key(k) implies logs_view(b).contains_key(k)
        && logs_view(b)[k] == logs_view(a)[k] by {
        let i = choose|i: int| 0 <= i < a.len() && #[trigger] a[i].0.key@ == k;
        lemma_row_at(a, i);
        assert(matched_in(b, a[i]));
        let p = choose|p: int|
            0 <= p < b.len() && #[trigger] b[p].0.key@ == a[i].0.key@ && (forall|j: int|
                0 <= j < p ==> b[j].0.key@ != a[i].0.key@) && b[p].1@ == a[i].1@;
        lemma_row_at(b, p);
    }
}

proof fn lemma_agreement_gives_within(a: Seq<(LogKey, Log)>, b: Seq<(LogKey, Log)>)
    requires
        unique_keys(a),
        unique_keys(b),
        logs_view(a) == logs_view(b),
    ensures
        rows_within(a, b),
{
    assert forall|i: int| 0 <= i < a.len() implies matched_in(b, #[trigger] a[i]) by {
        let k = a[i].0.key@;
        lemma_row_at(a, i);
        assert(logs_view(a).contains_key(k));
        assert(logs_view(b).contains_key(k));
        let p = choose|p: int| 0 <= p < b.len() && #[trigger] b[p].0.key@ == k;
        lemma_row_at(b, p);
        assert forall|j: int| 0 <= j < p implies b[j].0.key@ != a[i].0.key@ by {
            if b[j].0.key@ == k {
                assert(b[j].0.key@ == b[p].0.key@);
            }
        }
        assert(logs_view(a)[k] == a[i].1@);
        assert(logs_view(b)[k] == b[p].1@);
        assert(b[p].1@ == a[i].1@);
        assert(b[p].0.key@ == a[i].0.key@);
    }
}

impl Default for Logs {
    fn default() -> (r: Logs)
        ensures
            r.wf(),
            r@ == Map::<Seq<char>, (Seq<LogEntry>, Option<LogOffset>)>::empty(),
    {
        Logs::new()
    }
}

impl Default for Log {
    fn default() -> (r: Log)
        ensures
            r@ == (Seq::<LogEntry>::empty(), None::<LogOffset>),
    {
        Log::new()
    }
}

impl Log {
    /// Whether the two logs hold the same entries in the same order and the
    /// same committed offset.
    pub fn same_as(&self, other: &Log) -> (r: bool)
        ensures
            r == (self@ == other@),
    {
        let a = self.entries.iter();
        let b = other.entries.iter();
        if a.len() != b.len() {
            return false;
        }
        let mut i: usize = 0;
        while i < a.len()
            invariant
                i <= a@.len(),
                a@.len() == b@.len(),
                a@ == self@.0,
                b@ == other@.0,
                forall|j: int| 0 <= j < i ==> a@[j] == b@[j],
            decreases a@.len() - i,
        {
            if a[i] != b[i] {
                return false;
            }
            i = i + 1;
        }
        assert(a@ =~= b@);
        match (self.committed_offset, other.committed_offset) {
            (Some(x), Some(y)) => x == y,
            (None, None) => true,
            _ => false,
        }
    }

    /// A copy of this log.
    pub fn clone_log(&self) -> (r: Log)
        ensures
            r@ == self@,
    {
        Log { entries: self.entries.copy(), committed_offset: self.committed_offset }
    }
}

} // verus!
