use gossip_glomers::keyed::LogKey;
use gossip_glomers::log_entries::{LogEntries, LogEntry, LogMessage, LogOffset};
use gossip_glomers::logs::{Logs, Offsets};

#[test]
pub fn test_append_and_insert() {
    let mut append_log = Logs::default();

    append_log.append_message("k0", 100);
    append_log.append_message("k0", 200);
    append_log.append_message("k0", 300);

    append_log.append_message("k1", 101);
    append_log.append_message("k1", 201);
    append_log.append_message("k1", 301);

    append_log.append_message("k2", 102);
    append_log.append_message("k2", 202);
    append_log.append_message("k2", 302);

    let mut insert_log = Logs::default();

    insert_log.insert_message("k0", 2, 300);
    insert_log.insert_message("k0", 1, 200);
    insert_log.insert_message("k0", 0, 100);

    insert_log.insert_message("k1", 0, 101);
    insert_log.insert_message("k1", 2, 301);
    insert_log.insert_message("k1", 1, 201);

    insert_log.insert_message("k2", 1, 202);
    insert_log.insert_message("k2", 0, 102);
    insert_log.insert_message("k2", 2, 302);

    assert_eq!(append_log, insert_log);
}

#[test]
fn append_returns_consecutive_offsets_per_key() {
    let mut logs = Logs::default();
    assert_eq!(logs.append_message("a", 10).offset, 0);
    assert_eq!(logs.append_message("a", 11).offset, 1);
    assert_eq!(logs.append_message("b", 12).offset, 0);
    assert_eq!(logs.append_message("a", 13).offset, 2);
}

#[test]
fn logs_compare_equal_whatever_the_key_order() {
    let mut a = Logs::default();
    a.append_message("x", 1);
    a.append_message("y", 2);
    let mut b = Logs::default();
    b.append_message("y", 2);
    b.append_message("x", 1);
    assert_eq!(a, b);
    b.append_message("x", 3);
    assert_ne!(a, b);
}

#[test]
fn since_offset_skips_earlier_entries() {
    let mut logs = Logs::default();
    for m in [5, 6, 7, 8] {
        logs.append_message("k", m);
    }
    logs.append_message("other", 9);
    let mut offsets = Offsets::new();
    offsets.insert_offset(LogKey::new("k"), Some(LogOffset::new(2)));
    offsets.insert_offset(LogKey::new("missing"), Some(LogOffset::new(0)));
    let messages = logs.since_offset(&offsets).as_messages();
    let rows = messages.items();
    assert_eq!(rows.len(), 1);
    assert_eq!(rows[0].0, LogKey::new("k"));
    let got: Vec<(usize, i64)> = rows[0]
        .1
        .iter()
        .iter()
        .map(|e| (e.offset.offset, e.message.message))
        .collect();
    assert_eq!(got, vec![(2, 7), (3, 8)]);
}

#[test]
fn committed_offsets_default_to_zero() {
    let mut logs = Logs::default();
    logs.append_message("k", 1);
    logs.append_message("j", 1);
    let mut offsets = Offsets::new();
    offsets.insert_offset(LogKey::new("k"), Some(LogOffset::new(1)));
    offsets.insert_offset(LogKey::new("none"), Some(LogOffset::new(4)));
    logs.commit_offsets(&offsets);
    let listed = logs.list_committed_offsets(&vec![LogKey::new("k"), LogKey::new("j"), LogKey::new("none")]);
    let rows = listed.items();
    assert_eq!(rows.len(), 3);
    for (key, offset) in rows.iter() {
        let expected = if key.key == "k" { 1 } else { 0 };
        assert_eq!(*offset, Some(LogOffset::new(expected)));
    }
}

#[test]
fn insert_entry_keeps_entries_with_equal_offsets_in_order() {
    let mut entries = LogEntries::default();
    entries.insert_entry(LogEntry::new(LogOffset::new(3), LogMessage::new(30)));
    entries.insert_entry(LogEntry::new(LogOffset::new(1), LogMessage::new(10)));
    entries.insert_entry(LogEntry::new(LogOffset::new(3), LogMessage::new(31)));
    entries.insert_entry(LogEntry::new(LogOffset::new(2), LogMessage::new(20)));
    let got: Vec<i64> = entries.iter().iter().map(|e| e.message.message).collect();
    assert_eq!(got, vec![10, 20, 30, 31]);
    let max = entries.max_log_entry().unwrap();
    assert_eq!(max.message.message, 31);
    assert_eq!(entries.append_message(LogMessage::new(40)).offset, 4);
}

#[test]
fn empty_entries_have_no_maximum() {
    let entries = LogEntries::default();
    assert!(entries.max_log_entry().is_none());
}
