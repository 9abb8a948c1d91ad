//! The operations on the store. Each takes what the backend reported (a
//! lookup, a write, a cursor step, a commit) and says what the shell prints;
//! listings and emptying are small state machines fed one cursor item at a
//! time, which also decide when the cursor is read no further.

use vstd::prelude::*;
use vstd::string::*;
use vstd::utf8::*;
use crate::text::{debug_bytes, lossy, lossy_text, push_debug_bytes, utf8_text};

verus! {

/// A failure reported by the storage backend, with its message.
pub struct BackendError {
    pub message: String,
}

/// One step of a cursor over a table, in key order.
pub enum CursorItem {
    Entry(Vec<u8>, Vec<u8>),
    End,
    Failed(BackendError),
}

/// How many entries a listing shows at most.
pub const DISPLAY_CAP: usize = 10;

pub open spec fn missing_text(table: Seq<char>, key: Seq<char>) -> Seq<char> {
    "Key '"@ + key + "' does not exist in table '"@ + table + "'."@
}

pub open spec fn value_text(key: Seq<char>, v: Seq<u8>) -> Seq<char> {
    if valid_utf8(v) {
        "Key '"@ + key + "' has value '"@ + decode_utf8(v) + "'."@
    } else {
        "Key '"@ + key + "' has a not valid UTF-8 value '"@ + debug_bytes(v) + "'."@
    }
}

/// What `get` prints for each outcome of the lookup.
pub open spec fn get_text(
    table: Seq<char>,
    key: Seq<char>,
    lookup: Result<Option<Vec<u8>>, BackendError>,
) -> Seq<char> {
    match lookup {
        Ok(Some(v)) => value_text(key, v@),
        Ok(None) => missing_text(table, key),
        Err(e) => "Error: "@ + e.message@ + "."@,
    }
}

pub open spec fn put_text(table: Seq<char>, key: Seq<char>, value: Seq<char>) -> Seq<char> {
    "Key '"@ + key + "' inserted with value '"@ + value + "' in table '"@ + table + "'."@
}

pub open spec fn deleted_text(table: Seq<char>, key: Seq<char>) -> Seq<char> {
    "Key '"@ + key + "' deleted from table '"@ + table + "'."@
}

pub open spec fn created_text(table: Seq<char>) -> Seq<char> {
    "Table '"@ + table + "' created successfully."@
}

/// A command's text where the backend succeeded, or the backend's error.
pub open spec fn text_or_error(
    outcome: Result<(), BackendError>,
    text: Seq<char>,
    r: Result<String, BackendError>,
) -> bool {
    match outcome {
        Ok(()) => r matches Ok(s) && s@ == text,
        Err(e) => r == Err::<String, BackendError>(e),
    }
}

/// Renders the outcome of a point lookup of `key` in `table`. Every outcome
/// is rendered, a value that is not UTF-8 included.
pub fn get(table_name: &str, key: &str, lookup: Result<Option<Vec<u8>>, BackendError>) -> (r:
    String)
    ensures
        r@ == get_text(table_name@, key@, lookup),
{
    let ghost l = lookup;
    match lookup {
        Ok(Some(bytes)) => {
            let ghost b = bytes@;
            let mut out = String::from_str("Key '");
            out.append(key);
            match utf8_text(bytes.clone()) {
                Some(value) => {
                    out.append("' has value '");
                    out.append(value.as_str());
                },
                None => {
                    out.append("' has a not valid UTF-8 value '");
                    push_debug_bytes(&mut out, &bytes);
                },
            }
            out.append("'.");
            out
        },
        Ok(None) => {
            let mut out = String::from_str("Key '");
            out.append(key);
            out.append("' does not exist in table '");
            out.append(table_name);
            out.append("'.");
            out
        },
        Err(e) => {
            let mut out = String::from_str("Error: ");
            out.append(e.message.as_str());
            out.append(".");
            out
        },
    }
}

/// Reports an insert of `key` with `value` into `table`, given how the
/// backend's write and commit went.
pub fn put(table_name: &str, key: &str, value: &str, written: Result<(), BackendError>) -> (r:
    Result<String, BackendError>)
    ensures
        text_or_error(written, put_text(table_name@, key@, value@), r),
{
    match written {
        Ok(()) => {
            let mut out = String::from_str("Key '");
            out.append(key);
            out.append("' inserted with value '");
            out.append(value);
            out.append("' in table '");
            out.append(table_name);
            out.append("'.");
            Ok(out)
        },
        Err(e) => Err(e),
    }
}

/// Reports a delete of `key` from `table`: whether the key was there, or the
/// backend's error. A key that was absent is no error.
pub fn del(table_name: &str, key: &str, removed: Result<bool, BackendError>) -> (r: Result<
    String,
    BackendError,
>)
    ensures
        match removed {
            Ok(true) => r matches Ok(s) && s@ == deleted_text(table_name@, key@),
            Ok(false) => r matches Ok(s) && s@ == missing_text(table_name@, key@),
            Err(e) => r == Err::<String, BackendError>(e),
        },
{
    match removed {
        Ok(was_there) => {
            let mut out = String::from_str("Key '");
            out.append(key);
            if was_there {
                out.append("' deleted from table '");
            } else {
                out.append("' does not exist in table '");
            }
            out.append(table_name);
            out.append("'.");
            Ok(out)
        },
        Err(e) => Err(e),
    }
}

/// Reports the creation of `table`. The text is the same whether or not the
/// table existed before.
pub fn create_table(table_name: &str, created: Result<(), BackendError>) -> (r: Result<
    String,
    BackendError,
>)
    ensures
        text_or_error(created, created_text(table_name@), r),
{
    match created {
        Ok(()) => {
            let mut out = String::from_str("Table '");
            out.append(table_name);
            out.append("' created successfully.");
            Ok(out)
        },
        Err(e) => Err(e),
    }
}

/// Whether a listing reads no further after the item at position `i`: at the
/// end of the table, on an error, or once the cap has been reached.
pub open spec fn stops_listing(i: int, item: CursorItem) -> bool {
    item is End || item is Failed || i >= DISPLAY_CAP
}

/// The line that a listing shows for one table entry.
pub open spec fn entry_line(tables: bool, k: Seq<u8>, v: Seq<u8>) -> Seq<char> {
    if tables {
        if valid_utf8(k) {
            "- "@ + decode_utf8(k) + "\n"@
        } else {
            "- (non-utf8 key): "@ + debug_bytes(k) + "\n"@
        }
    } else {
        "Key: "@ + lossy_text(k) + ", Value: "@ + lossy_text(v) + "\n"@
    }
}

/// The text that a listing adds for the item at position `i`. An item past
/// the cap is not shown: a listing of values marks that it was cut short.
pub open spec fn item_line(tables: bool, i: int, item: CursorItem) -> Seq<char> {
    match item {
        CursorItem::End => seq![],
        _ => {
            if i >= DISPLAY_CAP {
                if tables {
                    seq![]
                } else {
                    "... (truncated)\n"@
                }
            } else {
                match item {
                    CursorItem::Entry(k, v) => entry_line(tables, k@, v@),
                    CursorItem::Failed(e) => (if tables {
                        "Error iterating tables: "@
                    } else {
                        "Error iterating values: "@
                    }) + e.message@ + "\n"@,
                    CursorItem::End => seq![],
                }
            }
        },
    }
}

/// The lines of a listing that was fed `items`, in order.
pub open spec fn listing_body(tables: bool, items: Seq<CursorItem>) -> Seq<char>
    decreases items.len(),
{
    if items.len() == 0 {
        seq![]
    } else {
        listing_body(tables, items.drop_last()) + item_line(tables, items.len() - 1, items.last())
    }
}

/// A listing of a table's entries (`list`) or of the table names
/// (`list_tables`) in progress.
pub struct Listing {
    tables: bool,
    heading: String,
    output: String,
    seen: usize,
    stopped: bool,
    fed: Ghost<Seq<CursorItem>>,
}

impl Listing {
    /// The cursor items fed so far.
    pub closed spec fn items(&self) -> Seq<CursorItem> {
        self.fed@
    }

    /// Whether this lists table names rather than a table's entries.
    pub closed spec fn of_tables(&self) -> bool {
        self.tables
    }

    pub closed spec fn heading_text(&self) -> Seq<char> {
        self.heading@
    }

    /// The listing has read its last item.
    pub open spec fn finished(&self) -> bool {
        let s = self.items();
        s.len() > 0 && stops_listing(s.len() - 1, s.last())
    }

    pub closed spec fn wf(&self) -> bool {
        let s = self.fed@;
        &&& self.seen as int == s.len()
        &&& self.stopped == (s.len() > 0 && stops_listing(s.len() - 1, s.last()))
        &&& s.len() <= DISPLAY_CAP + 1
        &&& forall|i: int| 0 <= i < s.len() - 1 ==> !stops_listing(i, #[trigger] s[i])
        &&& self.output@ == self.heading@ + listing_body(self.tables, s)
    }

    /// The text that the listing shows so far.
    pub open spec fn text(&self) -> Seq<char> {
        self.heading_text() + listing_body(self.of_tables(), self.items())
    }

    proof fn lemma_bounded(&self)
        requires
            self.wf(),
            !self.finished(),
        ensures
            self.items().len() <= DISPLAY_CAP,
    {
        let s = self.fed@;
        if s.len() == DISPLAY_CAP + 1 {
            assert(!stops_listing(s.len() - 1, s.last()));
        }
    }

    /// Whether the listing reads another cursor item.
    pub fn wants_more(&self) -> (r: bool)
        requires
            self.wf(),
        ensures
            r == !self.finished(),
            r ==> self.items().len() <= DISPLAY_CAP,
    {
        proof {
            if !self.stopped {
                self.lemma_bounded();
            }
        }
        !self.stopped
    }

    fn start(tables: bool, heading: String) -> (r: Listing)
        ensures
            r.wf(),
            r.items() == Seq::<CursorItem>::empty(),
            r.of_tables() == tables,
            r.heading_text() == heading@,
    {
        let output = heading.clone();
        Listing { tables, heading, output, seen: 0, stopped: false, fed: Ghost(Seq::empty()) }
    }

    /// Takes the next cursor item into the listing.
    pub fn feed(&mut self, item: CursorItem)
        requires
            old(self).wf(),
            !old(self).finished(),
        ensures
            final(self).wf(),
            final(self).items() == old(self).items().push(item),
            final(self).of_tables() == old(self).of_tables(),
            final(self).heading_text() == old(self).heading_text(),
    {
        proof {
            self.lemma_bounded();
        }
        let ghost s0 = self.fed@;
        let ghost i = s0.len() as int;
        let ghost out0 = self.output@;
        self.fed = Ghost(s0.push(item));
        let ghost s1 = self.fed@;
        assert(s1.drop_last() =~= s0);
        assert(s1.last() == item);
        let past_cap = self.seen >= DISPLAY_CAP;
        match item {
            CursorItem::End => {
                self.stopped = true;
            },
            CursorItem::Entry(k, v) => {
                if past_cap {
                    if !self.tables {
                        self.output.append("... (truncated)\n");
                    }
                    self.stopped = true;
                } else if self.tables {
                    match utf8_text(k.clone()) {
                        Some(name) => {
                            self.output.append("- ");
                            self.output.append(name.as_str());
                        },
                        None => {
                            self.output.append("- (non-utf8 key): ");
                            push_debug_bytes(&mut self.output, &k);
                        },
                    }
                    self.output.append("\n");
                } else {
                    let ks = lossy(&k);
                    let vs = lossy(&v);
                    self.output.append("Key: ");
                    self.output.append(ks.as_str());
                    self.output.append(", Value: ");
                    self.output.append(vs.as_str());
                    self.output.append("\n");
                }
            },
            CursorItem::Failed(e) => {
                if past_cap {
                    if !self.tables {
                        self.output.append("... (truncated)\n");
                    }
                } else {
                    if self.tables {
                        self.output.append("Error iterating tables: ");
                    } else {
                        self.output.append("Error iterating values: ");
                    }
                    self.output.append(e.message.as_str());
                    self.output.append("\n");
                }
                self.stopped = true;
            },
        }
        self.seen = self.seen + 1;
        assert(self.output@ =~= out0 + item_line(self.tables, i, item));
        assert(self.output@ =~= self.heading@ + listing_body(self.tables, s1));
        assert forall|j: int| 0 <= j < s1.len() - 1 implies !stops_listing(j, #[trigger] s1[j]) by {
            if j < s0.len() - 1 {
                assert(s1[j] == s0[j]);
            } else {
                assert(s1[j] == s0.last());
            }
        }
    }

    /// The listing's text once the transaction has been committed, or the
    /// commit's error.
    pub fn finish(self, committed: Result<(), BackendError>) -> (r: Result<String, BackendError>)
        requires
            self.wf(),
        ensures
            text_or_error(committed, self.text(), r),
    {
        match committed {
            Ok(()) => Ok(self.output),
            Err(e) => Err(e),
        }
    }
}

/// Starts the listing of the entries of `table_name`, in cursor order.
pub fn list(table_name: &str) -> (r: Listing)
    ensures
        r.wf(),
        r.items() == Seq::<CursorItem>::empty(),
        !r.of_tables(),
        r.heading_text() == "Values in table '"@ + table_name@ + "':\n"@,
{
    let mut heading = String::from_str("Values in table '");
    heading.append(table_name);
    heading.append("':\n");
    Listing::start(false, heading)
}

/// Starts the listing of the table names, read from the root table.
pub fn list_tables() -> (r: Listing)
    ensures
        r.wf(),
        r.items() == Seq::<CursorItem>::empty(),
        r.of_tables(),
        r.heading_text() == "Available tables:\n"@,
{
    Listing::start(true, String::from_str("Available tables:\n"))
}

/// The text that emptying a table adds for one cursor item: each entry's key
/// is deleted and named.
pub open spec fn emptied_line(item: CursorItem) -> Seq<char> {
    match item {
        CursorItem::Entry(k, _) => "Deleted key: "@ + lossy_text(k@) + "\n"@,
        CursorItem::Failed(e) => "Error iterating table: "@ + e.message@ + "\n"@,
        CursorItem::End => seq![],
    }
}

pub open spec fn emptied_body(items: Seq<CursorItem>) -> Seq<char>
    decreases items.len(),
{
    if items.len() == 0 {
        seq![]
    } else {
        emptied_body(items.drop_last()) + emptied_line(items.last())
    }
}

/// The key that emptying hands out for deletion on a cursor item.
pub open spec fn key_to_delete(item: CursorItem) -> Option<Vec<u8>> {
    match item {
        CursorItem::Entry(k, _) => Some(k),
        _ => None,
    }
}

/// The emptying of one table in progress, inside one read-write transaction:
/// every entry that the cursor yields is deleted, up to the end of the table
/// or the first error.
pub struct Emptying {
    name: String,
    output: String,
    stopped: bool,
    fed: Ghost<Seq<CursorItem>>,
}

impl Emptying {
    /// The cursor items fed so far.
    pub closed spec fn items(&self) -> Seq<CursorItem> {
        self.fed@
    }

    pub closed spec fn table(&self) -> Seq<char> {
        self.name@
    }

    pub open spec fn finished(&self) -> bool {
        let s = self.items();
        s.len() > 0 && !(s.last() is Entry)
    }

    pub closed spec fn wf(&self) -> bool {
        let s = self.fed@;
        &&& self.stopped == (s.len() > 0 && !(s.last() is Entry))
        &&& self.output@ == "Emptying table '"@ + self.name@ + "':\n"@ + emptied_body(s)
    }

    /// What the command prints once the transaction has been committed.
    pub open spec fn text(&self) -> Seq<char> {
        "Emptying table '"@ + self.table() + "':\n"@ + emptied_body(self.items()) + "Table '"@
            + self.table() + "' emptied successfully.\n"@
    }

    /// Whether the cursor is read further.
    pub fn wants_more(&self) -> (r: bool)
        requires
            self.wf(),
        ensures
            r == !self.finished(),
    {
        !self.stopped
    }

    /// Takes the next cursor item, and returns the key that the transaction
    /// must now delete, if any.
    pub fn on_item(&mut self, item: CursorItem) -> (r: Option<Vec<u8>>)
        requires
            old(self).wf(),
            !old(self).finished(),
        ensures
            final(self).wf(),
            final(self).items() == old(self).items().push(item),
            final(self).table() == old(self).table(),
            r == key_to_delete(item),
    {
        let ghost s0 = self.fed@;
        let ghost out0 = self.output@;
        self.fed = Ghost(s0.push(item));
        let ghost s1 = self.fed@;
        assert(s1.drop_last() =~= s0);
        let r = match item {
            CursorItem::Entry(k, _) => {
                let ks = lossy(&k);
                self.output.append("Deleted key: ");
                self.output.append(ks.as_str());
                self.output.append("\n");
                Some(k)
            },
            CursorItem::Failed(e) => {
                self.output.append("Error iterating table: ");
                self.output.append(e.message.as_str());
                self.output.append("\n");
                self.stopped = true;
                None
            },
            CursorItem::End => {
                self.stopped = true;
                None
            },
        };
        assert(s1.last() == item);
        assert(self.output@ =~= out0 + emptied_line(item));
        assert(self.output@ =~= "Emptying table '"@ + self.name@ + "':\n"@ + emptied_body(s1));
        r
    }

    /// The command's text once the transaction has been committed, or the
    /// commit's error.
    pub fn finish(self, committed: Result<(), BackendError>) -> (r: Result<String, BackendError>)
        requires
            self.wf(),
        ensures
            text_or_error(committed, self.text(), r),
    {
        match committed {
            Ok(()) => {
                let mut out = self.output;
                out.append("Table '");
                out.append(self.name.as_str());
                out.append("' emptied successfully.\n");
                Ok(out)
            },
            Err(e) => Err(e),
        }
    }
}

/// Starts emptying `table_name`.
pub fn empty_table(table_name: &str) -> (r: Emptying)
    ensures
        r.wf(),
        r.items() == Seq::<CursorItem>::empty(),
        r.table() == table_name@,
{
    let name = String::from_str(table_name);
    let mut output = String::from_str("Emptying table '");
    output.append(table_name);
    output.append("':\n");
    Emptying { name, output, stopped: false, fed: Ghost(Seq::empty()) }
}

/// The bytes that the store holds for a key or a value given as text: its
/// UTF-8 encoding.
pub fn stored_bytes(s: &str) -> (r: Vec<u8>)
    ensures
        r@ == encode_utf8(s@),
{
    s.as_bytes_vec()
}

/// What `put` stores for a value, `get` shows as the value it was given:
/// the stored bytes are valid UTF-8 and decode to the same text.
pub proof fn lemma_get_shows_put_value(table: Seq<char>, key: Seq<char>, value: Seq<char>)
    ensures
        forall|v: Vec<u8>|
            v@ == encode_utf8(value) ==> get_text(table, key, Ok(Some(v)))
                == "Key '"@ + key + "' has value '"@ + value + "'."@,
{
    encode_utf8_valid_utf8(value);
    encode_utf8_decode_utf8(value);
}

/// Deleting a key that is absent reports what `get` reports for it, and
/// differs from the report of a key that was deleted; neither is an error.
pub proof fn lemma_del_reports(table: Seq<char>, key: Seq<char>)
    ensures
        missing_text(table, key) == get_text(table, key, Ok(None)),
        deleted_text(table, key) != missing_text(table, key),
{
    reveal_strlit("Key '");
    reveal_strlit("' deleted from table '");
    reveal_strlit("' does not exist in table '");
    let i: int = key.len() as int + 8;
    let d = deleted_text(table, key);
    let m = missing_text(table, key);
    assert(d[i] == 'e');
    assert(m[i] == 'o');
}

/// Creating a table reports the same text each time it succeeds, whether or
/// not the table existed before: two successful calls on one name agree.
pub proof fn lemma_create_table_same_text(
    table: Seq<char>,
    first: Result<String, BackendError>,
    second: Result<String, BackendError>,
)
    requires
        text_or_error(Ok(()), created_text(table), first),
        text_or_error(Ok(()), created_text(table), second),
    ensures
        first matches Ok(a) && second matches Ok(b) && a@ == b@,
{
}

proof fn lemma_body_extends(tables: bool, items: Seq<CursorItem>, j: int) -> (rest: Seq<char>)
    requires
        0 <= j <= items.len(),
    ensures
        listing_body(tables, items) == listing_body(tables, items.subrange(0, j)) + rest,
    decreases items.len() - j,
{
    if j == items.len() {
        assert(items.subrange(0, j) =~= items);
        assert(listing_body(tables, items) =~= listing_body(tables, items.subrange(0, j))
            + Seq::<char>::empty());
        Seq::<char>::empty()
    } else {
        let later = lemma_body_extends(tables, items, j + 1);
        let p = items.subrange(0, j + 1);
        assert(p.drop_last() =~= items.subrange(0, j));
        assert(p.last() == items[j]);
        let rest = item_line(tables, j, items[j]) + later;
        assert(listing_body(tables, items) =~= listing_body(tables, items.subrange(0, j)) + rest);
        rest
    }
}

/// A listing shows each entry that comes among its first `DISPLAY_CAP`
/// cursor items, wherever it stands: a table's entry with key and value read
/// lossily (bytes that are not UTF-8 included), a table name decoded.
pub proof fn lemma_listing_shows_entry(tables: bool, items: Seq<CursorItem>, i: int)
    requires
        0 <= i < items.len(),
        i < DISPLAY_CAP,
        items[i] is Entry,
    ensures
        exists|before: Seq<char>, after: Seq<char>|
            listing_body(tables, items) == before + entry_line(
                tables,
                items[i]->Entry_0@,
                items[i]->Entry_1@,
            ) + after,
{
    let rest = lemma_body_extends(tables, items, i + 1);
    let p = items.subrange(0, i + 1);
    assert(p.drop_last() =~= items.subrange(0, i));
    assert(p.last() == items[i]);
    let before = listing_body(tables, items.subrange(0, i));
    let line = entry_line(tables, items[i]->Entry_0@, items[i]->Entry_1@);
    assert(listing_body(tables, p) == before + line);
    assert(listing_body(tables, items) =~= before + line + rest);
}

} // verus!
