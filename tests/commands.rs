use std::collections::BTreeMap;

use mdbx_shell::command::{dispatch, execute_command, help_text, Command};
use mdbx_shell::commands::{
    create_table, del, empty_table, get, list, list_tables, put, stored_bytes, BackendError,
    CursorItem,
};
use mdbx_shell::text::{push_debug_bytes, push_decimal};

/// An in-memory stand-in for the storage backend: named tables of byte
/// strings in key order, each command one committed transaction.
struct Store {
    tables: BTreeMap<String, BTreeMap<Vec<u8>, Vec<u8>>>,
}

fn not_found() -> BackendError {
    BackendError { message: "MDBX_NOTFOUND: No matching key/data pair found".to_string() }
}

impl Store {
    fn new() -> Store {
        Store { tables: BTreeMap::new() }
    }

    fn create_table(&mut self, t: &str) -> Result<String, BackendError> {
        self.tables.entry(t.to_string()).or_default();
        create_table(t, Ok(()))
    }

    fn put(&mut self, t: &str, k: &str, v: &str) -> Result<String, BackendError> {
        let table = self.tables.get_mut(t).ok_or_else(not_found)?;
        table.insert(stored_bytes(k), stored_bytes(v));
        put(t, k, v, Ok(()))
    }

    fn get(&self, t: &str, k: &str) -> Result<String, BackendError> {
        let table = self.tables.get(t).ok_or_else(not_found)?;
        Ok(get(t, k, Ok(table.get(&stored_bytes(k)).cloned())))
    }

    fn del(&mut self, t: &str, k: &str) -> Result<String, BackendError> {
        let table = self.tables.get_mut(t).ok_or_else(not_found)?;
        let removed = table.remove(&stored_bytes(k)).is_some();
        del(t, k, Ok(removed))
    }

    fn list(&self, t: &str) -> Result<String, BackendError> {
        let table = self.tables.get(t).ok_or_else(not_found)?;
        let mut it = table.iter();
        let mut listing = list(t);
        while listing.wants_more() {
            let item = match it.next() {
                Some((k, v)) => CursorItem::Entry(k.clone(), v.clone()),
                None => CursorItem::End,
            };
            listing.feed(item);
        }
        listing.finish(Ok(()))
    }

    fn list_tables(&self) -> Result<String, BackendError> {
        let mut it = self.tables.keys();
        let mut listing = list_tables();
        while listing.wants_more() {
            let item = match it.next() {
                Some(name) => CursorItem::Entry(name.as_bytes().to_vec(), Vec::new()),
                None => CursorItem::End,
            };
            listing.feed(item);
        }
        listing.finish(Ok(()))
    }

    fn empty_table(&mut self, t: &str) -> Result<String, BackendError> {
        let table = self.tables.get_mut(t).ok_or_else(not_found)?;
        let entries: Vec<(Vec<u8>, Vec<u8>)> =
            table.iter().map(|(k, v)| (k.clone(), v.clone())).collect();
        let mut it = entries.into_iter();
        let mut emptying = empty_table(t);
        while emptying.wants_more() {
            let item = match it.next() {
                Some((k, v)) => CursorItem::Entry(k, v),
                None => CursorItem::End,
            };
            if let Some(key) = emptying.on_item(item) {
                table.remove(&key);
            }
        }
        emptying.finish(Ok(()))
    }
}

fn reply_of(c: Command) -> String {
    match c {
        Command::Reply(s) => s,
        _ => panic!("expected a reply"),
    }
}

fn words(ws: &[&str]) -> Vec<String> {
    ws.iter().map(|w| w.to_string()).collect()
}

fn feed_all(entries: &[(&[u8], &[u8])], tables: bool) -> String {
    let mut listing = if tables { list_tables() } else { list("t") };
    let mut i = 0;
    while listing.wants_more() {
        let item = if i < entries.len() {
            CursorItem::Entry(entries[i].0.to_vec(), entries[i].1.to_vec())
        } else {
            CursorItem::End
        };
        i += 1;
        listing.feed(item);
    }
    listing.finish(Ok(())).ok().unwrap()
}

#[test]
fn test_commands() {
    let mut env = Store::new();

    let result = env.create_table("test_table").ok().unwrap();
    assert_eq!(result, "Table 'test_table' created successfully.");

    let result = env.put("test_table", "key1", "value1").ok().unwrap();
    assert_eq!(result, "Key 'key1' inserted with value 'value1' in table 'test_table'.");

    let result = env.get("test_table", "key1").ok().unwrap();
    assert_eq!(result, "Key 'key1' has value 'value1'.");

    let result = env.del("test_table", "key1").ok().unwrap();
    assert_eq!(result, "Key 'key1' deleted from table 'test_table'.");
    let result = env.get("test_table", "key1").ok().unwrap();
    assert_eq!(result, "Key 'key1' does not exist in table 'test_table'.");

    let result = env.del("test_table", "key1").ok().unwrap();
    assert_eq!(result, "Key 'key1' does not exist in table 'test_table'.");

    let result = env.create_table("another_table").ok().unwrap();
    assert_eq!(result, "Table 'another_table' created successfully.");

    env.put("another_table", "key2", "value2").ok().unwrap();
    let result = env.list_tables().ok().unwrap();
    assert!(result.contains("test_table"));
    assert!(result.contains("another_table"));

    env.put("test_table", "key3", "value3").ok().unwrap();
    env.put("test_table", "key4", "value4").ok().unwrap();
    let result = env.list("test_table").ok().unwrap();
    assert!(result.contains("Key: key3, Value: value3"));
    assert!(result.contains("Key: key4, Value: value4"));

    let result = env.empty_table("test_table").ok().unwrap();
    println!("{}", result);
    assert!(result.contains("Table 'test_table' emptied successfully."));
    let result = env.list("test_table").ok().unwrap();
    assert!(result.contains("Values in table 'test_table':\n"));
}

#[test]
fn get_of_absent_key_reports_missing() {
    let mut env = Store::new();
    env.create_table("t").ok().unwrap();
    assert_eq!(env.get("t", "nope").ok().unwrap(), "Key 'nope' does not exist in table 't'.");
}

#[test]
fn put_overwrites_value() {
    let mut env = Store::new();
    env.create_table("t").ok().unwrap();
    env.put("t", "k", "v1").ok().unwrap();
    assert_eq!(env.get("t", "k").ok().unwrap(), "Key 'k' has value 'v1'.");
    env.put("t", "k", "v2").ok().unwrap();
    assert_eq!(env.get("t", "k").ok().unwrap(), "Key 'k' has value 'v2'.");
    assert_eq!(env.list("t").ok().unwrap(), "Values in table 't':\nKey: k, Value: v2\n");
}

#[test]
fn create_table_twice_keeps_contents() {
    let mut env = Store::new();
    let first = env.create_table("t").ok().unwrap();
    env.put("t", "k", "v").ok().unwrap();
    let second = env.create_table("t").ok().unwrap();
    assert_eq!(first, second);
    assert_eq!(env.get("t", "k").ok().unwrap(), "Key 'k' has value 'v'.");
}

#[test]
fn empty_table_leaves_other_tables() {
    let mut env = Store::new();
    env.create_table("t").ok().unwrap();
    env.create_table("u").ok().unwrap();
    env.put("t", "k1", "v1").ok().unwrap();
    env.put("t", "k2", "v2").ok().unwrap();
    env.put("u", "k3", "v3").ok().unwrap();
    let out = env.empty_table("t").ok().unwrap();
    assert_eq!(
        out,
        "Emptying table 't':\nDeleted key: k1\nDeleted key: k2\nTable 't' emptied successfully.\n"
    );
    assert_eq!(env.list("t").ok().unwrap(), "Values in table 't':\n");
    assert_eq!(env.list("u").ok().unwrap(), "Values in table 'u':\nKey: k3, Value: v3\n");
}

#[test]
fn list_tables_names_both_tables() {
    let mut env = Store::new();
    env.create_table("test_table").ok().unwrap();
    env.create_table("another_table").ok().unwrap();
    let out = env.list_tables().ok().unwrap();
    assert_eq!(out, "Available tables:\n- another_table\n- test_table\n");
}

#[test]
fn list_then_empty_scenario() {
    let mut env = Store::new();
    env.create_table("t").ok().unwrap();
    env.put("t", "k1", "v1").ok().unwrap();
    env.put("t", "k2", "v2").ok().unwrap();
    let out = env.list("t").ok().unwrap();
    assert!(out.contains("Key: k1, Value: v1"));
    assert!(out.contains("Key: k2, Value: v2"));
    env.empty_table("t").ok().unwrap();
    let out = env.list("t").ok().unwrap();
    assert_eq!(out, "Values in table 't':\n");
    assert!(!out.contains("Key:"));
}

#[test]
fn invalid_utf8_value_is_shown_as_bytes() {
    let out = get("t", "k", Ok(Some(vec![102, 255, 0])));
    assert_eq!(out, "Key 'k' has a not valid UTF-8 value '[102, 255, 0]'.");
}

#[test]
fn valid_utf8_value_is_decoded() {
    let out = get("t", "k", Ok(Some("h\u{e9}".as_bytes().to_vec())));
    assert_eq!(out, "Key 'k' has value 'h\u{e9}'.");
}

#[test]
fn get_backend_error_is_rendered() {
    let e = BackendError { message: "MDBX_EIO".to_string() };
    assert_eq!(get("t", "k", Err(e)), "Error: MDBX_EIO.");
}

#[test]
fn write_errors_pass_through() {
    let r = put("t", "k", "v", Err(BackendError { message: "full".to_string() }));
    assert_eq!(r.err().unwrap().message, "full");
    let r = del("t", "k", Err(BackendError { message: "busy".to_string() }));
    assert_eq!(r.err().unwrap().message, "busy");
    let r = create_table("t", Err(BackendError { message: "too many".to_string() }));
    assert_eq!(r.err().unwrap().message, "too many");
}

#[test]
fn listing_is_capped_with_marker() {
    let keys: Vec<Vec<u8>> = (0..12u8).map(|i| vec![b'a' + i]).collect();
    let entries: Vec<(&[u8], &[u8])> = keys.iter().map(|k| (k.as_slice(), b"v".as_slice())).collect();
    let out = feed_all(&entries, false);
    assert_eq!(out.matches("Key: ").count(), 10);
    assert!(out.ends_with("Key: j, Value: v\n... (truncated)\n"));
    let out = feed_all(&entries[..10], false);
    assert_eq!(out.matches("Key: ").count(), 10);
    assert!(!out.contains("truncated"));
}

#[test]
fn table_listing_is_capped_without_marker() {
    let keys: Vec<Vec<u8>> = (0..12u8).map(|i| vec![b'a' + i]).collect();
    let entries: Vec<(&[u8], &[u8])> = keys.iter().map(|k| (k.as_slice(), b"".as_slice())).collect();
    let out = feed_all(&entries, true);
    assert_eq!(out.matches("- ").count(), 10);
    assert!(out.ends_with("- j\n"));
}

#[test]
fn table_listing_shows_non_utf8_names() {
    let out = feed_all(&[(b"ok".as_slice(), b"".as_slice()), (&[0xff, 1], b"".as_slice())], true);
    assert_eq!(out, "Available tables:\n- ok\n- (non-utf8 key): [255, 1]\n");
}

#[test]
fn listing_shows_lossy_text() {
    let out = feed_all(&[(&[0x61, 0xff], &[0x62])], false);
    assert_eq!(out, "Values in table 't':\nKey: a\u{fffd}, Value: b\n");
}

#[test]
fn listing_stops_at_error() {
    let mut listing = list("t");
    listing.feed(CursorItem::Entry(b"a".to_vec(), b"1".to_vec()));
    listing.feed(CursorItem::Failed(BackendError { message: "corrupted".to_string() }));
    assert!(!listing.wants_more());
    let out = listing.finish(Ok(())).ok().unwrap();
    assert_eq!(out, "Values in table 't':\nKey: a, Value: 1\nError iterating values: corrupted\n");

    let mut listing = list_tables();
    listing.feed(CursorItem::Failed(BackendError { message: "io".to_string() }));
    assert_eq!(listing.finish(Ok(())).ok().unwrap(), "Available tables:\nError iterating tables: io\n");
}

#[test]
fn listing_commit_error_is_returned() {
    let mut listing = list("t");
    listing.feed(CursorItem::End);
    let r = listing.finish(Err(BackendError { message: "conflict".to_string() }));
    assert_eq!(r.err().unwrap().message, "conflict");
}

#[test]
fn emptying_hands_out_each_key_and_stops_at_error() {
    let mut emptying = empty_table("t");
    assert_eq!(emptying.on_item(CursorItem::Entry(b"a".to_vec(), b"1".to_vec())), Some(b"a".to_vec()));
    assert!(emptying.wants_more());
    assert_eq!(emptying.on_item(CursorItem::Failed(BackendError { message: "bad".to_string() })), None);
    assert!(!emptying.wants_more());
    let out = emptying.finish(Ok(())).ok().unwrap();
    assert_eq!(
        out,
        "Emptying table 't':\nDeleted key: a\nError iterating table: bad\nTable 't' emptied successfully.\n"
    );
}

#[test]
fn del_reports_both_outcomes() {
    assert_eq!(del("t", "k", Ok(true)).ok().unwrap(), "Key 'k' deleted from table 't'.");
    assert_eq!(del("t", "k", Ok(false)).ok().unwrap(), "Key 'k' does not exist in table 't'.");
}

#[test]
fn dispatch_selects_commands() {
    assert!(matches!(dispatch(&words(&["list", "t"])), Command::List(t) if t == "t"));
    assert!(matches!(dispatch(&words(&["get", "t", "k"])), Command::Get(t, k) if t == "t" && k == "k"));
    assert!(matches!(dispatch(&words(&["put", "t", "k", "v"])),
        Command::Put(t, k, v) if t == "t" && k == "k" && v == "v"));
    assert!(matches!(dispatch(&words(&["del", "t", "k"])), Command::Del(t, k) if t == "t" && k == "k"));
    assert!(matches!(dispatch(&words(&["list_tables"])), Command::ListTables));
    assert!(matches!(dispatch(&words(&["create_table", "t"])), Command::CreateTable(t) if t == "t"));
    assert!(matches!(dispatch(&words(&["empty_table", "t"])), Command::EmptyTable(t) if t == "t"));
}

#[test]
fn dispatch_usage_messages() {
    assert_eq!(reply_of(dispatch(&words(&["list"]))), "Usage: list_values <table>");
    assert_eq!(reply_of(dispatch(&words(&["get", "t"]))), "Usage: get <table> <key>");
    assert_eq!(reply_of(dispatch(&words(&["put", "t", "k"]))), "Usage: put <table> <key> <value>");
    assert_eq!(reply_of(dispatch(&words(&["del", "t", "k", "x"]))), "Usage: del <table> <key>");
    assert_eq!(reply_of(dispatch(&words(&["create_table"]))), "Usage: create_table <table>");
    assert_eq!(reply_of(dispatch(&words(&["empty_table", "a", "b"]))), "Usage: empty_table <table>");
    assert_eq!(reply_of(dispatch(&words(&["list_tables", "extra"]))), "Usage: list_tables");
    assert_eq!(reply_of(dispatch(&words(&["help", "me"]))), "Usage: help");
    assert_eq!(reply_of(dispatch(&words(&["frobnicate"]))), "Unknown command.");
    assert_eq!(reply_of(dispatch(&words(&[]))), "");
}

#[test]
fn help_lists_commands() {
    let h = help_text();
    assert!(h.starts_with("Available commands:\n1. create_table <table>"));
    assert!(h.ends_with("8. help - Displays this help message.\n"));
    assert_eq!(reply_of(dispatch(&words(&["help"]))), h);
}

#[test]
fn execute_command_trims_and_splits() {
    assert_eq!(reply_of(execute_command("")), "");
    assert_eq!(reply_of(execute_command("   \t ")), "");
    assert_eq!(reply_of(execute_command("put t 'unclosed")), "Error parsing input: missing closing quote");
    assert!(matches!(execute_command("  put t 'a b' \"c d\"  "),
        Command::Put(t, k, v) if t == "t" && k == "a b" && v == "c d"));
    assert_eq!(reply_of(execute_command("bogus")), "Unknown command.");
}

#[test]
fn decimal_and_byte_lists() {
    let mut s = String::from("n=");
    push_decimal(&mut s, 0);
    push_decimal(&mut s, 7);
    push_decimal(&mut s, 42);
    push_decimal(&mut s, 255);
    assert_eq!(s, "n=0742255");
    let mut s = String::new();
    push_debug_bytes(&mut s, &vec![0, 9, 10, 99, 100, 255]);
    assert_eq!(s, "[0, 9, 10, 99, 100, 255]");
    let mut s = String::new();
    push_debug_bytes(&mut s, &vec![]);
    assert_eq!(s, "[]");
}

#[test]
fn stored_bytes_are_utf8() {
    assert_eq!(stored_bytes("h\u{e9}"), vec![104, 0xc3, 0xa9]);
}

#[test]
fn unicode_white_space_is_trimmed() {
    assert_eq!(reply_of(execute_command("\u{3000}\u{a0}\u{2003}\n")), "");
    assert!(matches!(execute_command("\u{3000} list_tables\u{a0}"), Command::ListTables));
    assert_eq!(reply_of(execute_command("\u{85}list_tables x")), "Usage: list_tables");
}

#[test]
fn listing_shows_invalid_value_at_any_position() {
    let out = feed_all(
        &[(b"a".as_slice(), b"1".as_slice()), (b"b".as_slice(), b"2".as_slice()), (b"c".as_slice(), &[0xfe, 0x41])],
        false,
    );
    assert_eq!(out, "Values in table 't':\nKey: a, Value: 1\nKey: b, Value: 2\nKey: c, Value: \u{fffd}A\n");
}
