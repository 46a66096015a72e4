//! Offsets, messages and the entries of one append-only log.
use vstd::prelude::*;

verus! {

broadcast use vstd::seq_lib::group_to_multiset_ensures;

/// A position in a log.
#[derive(Clone, Copy, Debug, PartialEq, Eq, Hash, Structural)]
pub struct LogOffset {
    pub offset: usize,
}

impl LogOffset {
    pub fn new(offset: usize) -> (r: LogOffset)
        ensures
            r.offset == offset,
    {
        LogOffset { offset }
    }

    /// The offset after this one.
    pub fn increment(&self) -> (r: LogOffset)
        requires
            self.offset < usize::MAX,
        ensures
            r.offset == self.offset + 1,
    {
        LogOffset { offset: self.offset + 1 }
    }
}

/// A message of a log.
#[derive(Clone, Copy, Debug, PartialEq, Eq, Hash, Structural)]
pub struct LogMessage {
    pub message: i64,
}

impl LogMessage {
    pub fn new(message: i64) -> (r: LogMessage)
        ensures
            r.message == message,
    {
        LogMessage { message }
    }
}

/// A message at an offset. Entries are ordered by their offsets.
#[derive(Clone, Copy, Debug, PartialEq, Eq, Hash, Structural)]
pub struct LogEntry {
    pub offset: LogOffset,
    pub message: LogMessage,
}

impl LogEntry {
    pub fn new(offset: LogOffset, message: LogMessage) -> (r: LogEntry)
        ensures
            r.offset == offset,
            r.message == message,
    {
        LogEntry { offset, message }
    }

    /// The offset after this entry's.
    pub fn increment_offset(&self) -> (r: LogOffset)
        requires
            self.offset.offset < usize::MAX,
        ensures
            r.offset == self.offset.offset + 1,
    {
        self.offset.increment()
    }

    pub fn offset(&self) -> (r: &LogOffset)
        ensures
            *r == self.offset,
    {
        &self.offset
    }
}

/// The largest offset among `s`; 0 for no entries.
pub open spec fn max_offset(s: Seq<LogEntry>) -> usize
    decreases s.len(),
{
    if s.len() == 0 {
        0
    } else if s.len() == 1 || max_offset(s.drop_last()) <= s.last().offset.offset {
        s.last().offset.offset
    } else {
        max_offset(s.drop_last())
    }
}

/// The offset at which the next appended message goes.
pub open spec fn next_offset(s: Seq<LogEntry>) -> int {
    if s.len() == 0 {
        0
    } else {
        max_offset(s) + 1
    }
}

/// What is left of `s` once the leading entries below `offset` are skipped.
pub open spec fn skip_below(s: Seq<LogEntry>, offset: usize) -> Seq<LogEntry>
    decreases s.len(),
{
    if s.len() > 0 && s[0].offset.offset < offset {
        skip_below(s.drop_first(), offset)
    } else {
        s
    }
}

/// The entries are in order of offset.
pub open spec fn sorted_by_offset(s: Seq<LogEntry>) -> bool {
    forall|i: int, j: int| 0 <= i < j < s.len() ==> s[i].offset.offset <= s[j].offset.offset
}

/// The entries of one log, in the order in which they were added.
#[derive(Debug, PartialEq, Eq, Hash, Clone)]
pub struct LogEntries {
    entries: Vec<LogEntry>,
}

impl View for LogEntries {
    type V = Seq<LogEntry>;

    closed spec fn view(&self) -> Seq<LogEntry> {
        self.entries@
    }
}

impl Default for LogEntries {
    fn default() -> (r: LogEntries)
        ensures
            r@ == Seq::<LogEntry>::empty(),
    {
        LogEntries::new()
    }
}

impl LogEntries {
    /// A log with no entries.
    pub fn new() -> (r: LogEntries)
        ensures
            r@ == Seq::<LogEntry>::empty(),
    {
        LogEntries { entries: Vec::new() }
    }

    /// The entries, in order.
    pub fn iter(&self) -> (r: &Vec<LogEntry>)
        ensures
            r@ == self@,
    {
        &self.entries
    }

    /// A copy of these entries.
    pub fn copy(&self) -> (r: LogEntries)
        ensures
            r@ == self@,
    {
        let mut entries: Vec<LogEntry> = Vec::new();
        let mut i: usize = 0;
        while i < self.entries.len()
            invariant
                i <= self.entries@.len(),
                entries@ == self.entries@.subrange(0, i as int),
            decreases self.entries@.len() - i,
        {
            entries.push(self.entries[i]);
            i = i + 1;
            assert(entries@ =~= self.entries@.subrange(0, i as int));
        }
        assert(entries@ =~= self.entries@);
        LogEntries { entries }
    }

    /// The entry with the largest offset, the last of them where several
    /// share it; `None` for an empty log.
    pub fn max_log_entry(&self) -> (r: Option<&LogEntry>)
        ensures
            self@.len() == 0 ==> r is None,
            self@.len() > 0 ==> (r matches Some(e) && e.offset.offset == max_offset(self@) && exists|
                i: int,
            |
                0 <= i < self@.len() && self@[i] == *e && forall|j: int|
                    i < j < self@.len() ==> self@[j].offset.offset < e.offset.offset),
    {
        if self.entries.len() == 0 {
            return None;
        }
        let mut best: usize = 0;
        let mut i: usize = 1;
        while i < self.entries.len()
            invariant
                1 <= i <= self.entries@.len(),
                best < i,
                self.entries@[best as int].offset.offset == max_offset(self.entries@.subrange(0, i as int)),
                forall|j: int| best < j < i ==> self.entries@[j].offset.offset < self.entries@[best as int].offset.offset,
            decreases self.entries@.len() - i,
        {
            proof {
                assert(self.entries@.subrange(0, i as int + 1).drop_last() =~= self.entries@.subrange(0, i as int));
            }
            if self.entries[i].offset.offset >= self.entries[best].offset.offset {
                best = i;
            }
            i = i + 1;
        }
        assert(self.entries@.subrange(0, i as int) =~= self.entries@);
        Some(&self.entries[best])
    }

    /// Appends `message` at the offset after the largest one, or at 0 in an
    /// empty log, and returns that offset.
    pub fn append_message(&mut self, message: LogMessage) -> (r: LogOffset)
        requires
            next_offset(old(self)@) <= usize::MAX,
        ensures
            r.offset == next_offset(old(self)@),
            final(self)@ == old(self)@.push(LogEntry { offset: r, message }),
    {
        let log_offset = match self.max_log_entry() {
            None => LogOffset::new(0),
            Some(max_log_entry) => max_log_entry.increment_offset(),
        };
        self.append_entry(LogEntry::new(log_offset, message));
        log_offset
    }

    /// Appends `log_entry` at the end, whatever its offset.
    pub fn append_entry(&mut self, log_entry: LogEntry)
        ensures
            final(self)@ == old(self)@.push(log_entry),
    {
        self.entries.push(log_entry);
    }

    /// Appends the entries of `log_entries` at the end, in their order.
    pub fn append_entries(&mut self, log_entries: LogEntries)
        ensures
            final(self)@ == old(self)@ + log_entries@,
    {
        let mut other = log_entries.entries;
        self.entries.append(&mut other);
    }

    /// Adds a message at a given offset; see `insert_entry`.
    pub fn insert_message(&mut self, offset: LogOffset, message: LogMessage)
        ensures
            sorted_by_offset(final(self)@),
            final(self)@.to_multiset() == old(self)@.push(LogEntry { offset, message }).to_multiset(),
    {
        self.insert_entry(LogEntry::new(offset, message));
    }

    /// Adds `entry` and puts the entries in order of offset. The sort is
    /// stable: entries that share an offset keep their order.
    pub fn insert_entry(&mut self, entry: LogEntry)
        ensures
            sorted_by_offset(final(self)@),
            final(self)@.to_multiset() == old(self)@.push(entry).to_multiset(),
    {
        self.append_entry(entry);
        let ghost all = self.entries@;
        let mut sorted: Vec<LogEntry> = Vec::new();
        let mut i: usize = 0;
        while i < self.entries.len()
            invariant
                self.entries@ == all,
                i <= all.len(),
                sorted_by_offset(sorted@),
                sorted@.to_multiset() == all.subrange(0, i as int).to_multiset(),
            decreases all.len() - i,
        {
            let e = self.entries[i];
            let mut p: usize = sorted.len();
            while p > 0 && sorted[p - 1].offset.offset > e.offset.offset
                invariant
                    p <= sorted@.len(),
                    forall|j: int| p <= j < sorted@.len() ==> sorted@[j].offset.offset > e.offset.offset,
                decreases p,
            {
                p = p - 1;
            }
            let ghost before = sorted@;
            sorted.insert(p, e);
            proof {
                assert(sorted@.remove(p as int) =~= before);
                assert(all.subrange(0, i as int + 1) =~= all.subrange(0, i as int).push(e));
                assert(sorted@.to_multiset() =~= before.to_multiset().insert(e));
                assert forall|a: int, b: int| 0 <= a < b < sorted@.len() implies sorted@[a].offset.offset
                    <= sorted@[b].offset.offset by {
                    if p > 0 && a < p && b == p {
                        assert(before[p as int - 1].offset.offset <= e.offset.offset);
                        assert(before[a].offset.offset <= before[p as int - 1].offset.offset || a == p - 1);
                    }
                }
            }
            i = i + 1;
        }
        assert(all.subrange(0, i as int) =~= all);
        self.entries = sorted;
    }

    /// The entries from the first one whose offset is at least `offset` on.
    pub fn since_offset(&self, offset: &LogOffset) -> (r: LogEntries)
        ensures
            r@ == skip_below(self@, offset.offset),
    {
        let mut i: usize = 0;
        assert(self.entries@.subrange(0, self.entries@.len() as int) =~= self.entries@);
        while i < self.entries.len() && self.entries[i].offset.offset < offset.offset
            invariant
                i <= self.entries@.len(),
                skip_below(self.entries@, offset.offset) == skip_below(
                    self.entries@.subrange(i as int, self.entries@.len() as int),
                    offset.offset,
                ),
            decreases self.entries@.len() - i,
        {
            proof {
                let rest = self.entries@.subrange(i as int, self.entries@.len() as int);
                assert(rest.drop_first() =~= self.entries@.subrange(i as int + 1, self.entries@.len() as int));
            }
            i = i + 1;
        }
        let mut entries: Vec<LogEntry> = Vec::new();
        let start = i;
        while i < self.entries.len()
            invariant
                start <= i <= self.entries@.len(),
                entries@ == self.entries@.subrange(start as int, i as int),
            decreases self.entries@.len() - i,
        {
            entries.push(self.entries[i]);
            i = i + 1;
            assert(entries@ =~= self.entries@.subrange(start as int, i as int));
        }
        LogEntries { entries }
    }
}

} // verus!
