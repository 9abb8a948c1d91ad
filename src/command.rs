//! From a command line to a request: tokenizing under shell quoting, and
//! dispatch on the first word into a closed set of commands.

use vstd::prelude::*;
use vstd::string::*;

verus! {

/// What a command line asks for, over plain sequences.
pub enum Request {
    /// Text to print at once, with no transaction.
    Reply(Seq<char>),
    List(Seq<char>),
    Get(Seq<char>, Seq<char>),
    Put(Seq<char>, Seq<char>, Seq<char>),
    Del(Seq<char>, Seq<char>),
    ListTables,
    CreateTable(Seq<char>),
    EmptyTable(Seq<char>),
}

/// A parsed command: either text to print at once (empty input, a quoting
/// error, a usage message, help, an unknown command), or one operation on the
/// store with its arguments.
pub enum Command {
    Reply(String),
    List(String),
    Get(String, String),
    Put(String, String, String),
    Del(String, String),
    ListTables,
    CreateTable(String),
    EmptyTable(String),
}

impl View for Command {
    type V = Request;

    open spec fn view(&self) -> Request {
        match self {
            Command::Reply(s) => Request::Reply(s@),
            Command::List(t) => Request::List(t@),
            Command::Get(t, k) => Request::Get(t@, k@),
            Command::Put(t, k, v) => Request::Put(t@, k@, v@),
            Command::Del(t, k) => Request::Del(t@, k@),
            Command::ListTables => Request::ListTables,
            Command::CreateTable(t) => Request::CreateTable(t@),
            Command::EmptyTable(t) => Request::EmptyTable(t@),
        }
    }
}

pub open spec fn words_of(v: Seq<String>) -> Seq<Seq<char>> {
    v.map_values(|w: String| w@)
}

/// The list of commands with their arguments.
pub open spec fn help_spec() -> Seq<char> {
    "Available commands:\n"@
        + "1. create_table <table> - Creates a new table in the database.\n"@
        + "2. put <table> <key> <value> - Inserts a key-value pair into the specified table.\n"@
        + "3. get <table> <key> - Retrieves the value associated with the specified key in the table.\n"@
        + "4. del <table> <key> - Deletes the specified key from the table.\n"@
        + "5. list <table> - Lists all key-value pairs in the specified table.\n"@
        + "6. list_tables - Lists all tables in the database.\n"@
        + "7. empty_table <table> - Clears all key-value pairs from the specified table.\n"@
        + "8. help - Displays this help message.\n"@
}

/// The request that the words of a line make: the first word names the
/// command, and each command checks its number of arguments before anything
/// else.
pub open spec fn request_for(args: Seq<Seq<char>>) -> Request {
    if args.len() == 0 {
        Request::Reply(seq![])
    } else {
        let n = args.len();
        let w = args[0];
        if w == "list"@ {
            if n == 2 {
                Request::List(args[1])
            } else {
                Request::Reply("Usage: list_values <table>"@)
            }
        } else if w == "get"@ {
            if n == 3 {
                Request::Get(args[1], args[2])
            } else {
                Request::Reply("Usage: get <table> <key>"@)
            }
        } else if w == "put"@ {
            if n == 4 {
                Request::Put(args[1], args[2], args[3])
            } else {
                Request::Reply("Usage: put <table> <key> <value>"@)
            }
        } else if w == "del"@ {
            if n == 3 {
                Request::Del(args[1], args[2])
            } else {
                Request::Reply("Usage: del <table> <key>"@)
            }
        } else if w == "list_tables"@ {
            if n == 1 {
                Request::ListTables
            } else {
                Request::Reply("Usage: list_tables"@)
            }
        } else if w == "create_table"@ {
            if n == 2 {
                Request::CreateTable(args[1])
            } else {
                Request::Reply("Usage: create_table <table>"@)
            }
        } else if w == "empty_table"@ {
            if n == 2 {
                Request::EmptyTable(args[1])
            } else {
                Request::Reply("Usage: empty_table <table>"@)
            }
        } else if w == "help"@ {
            if n == 1 {
                Request::Reply(help_spec())
            } else {
                Request::Reply("Usage: help"@)
            }
        } else {
            Request::Reply("Unknown command."@)
        }
    }
}

/// Whether `c` has Unicode's White_Space property.
pub open spec fn is_white_space(c: char) -> bool {
    let u = c as u32;
    (0x9 <= u && u <= 0xd) || u == 0x20 || u == 0x85 || u == 0xa0 || u == 0x1680 || (0x2000 <= u
        && u <= 0x200a) || u == 0x2028 || u == 0x2029 || u == 0x202f || u == 0x205f || u == 0x3000
}

pub open spec fn all_white_space(s: Seq<char>) -> bool {
    forall|i: int| 0 <= i < s.len() ==> is_white_space(#[trigger] s[i])
}

/// `s` without its leading white space.
pub open spec fn trim_start(s: Seq<char>) -> Seq<char>
    decreases s.len(),
{
    if s.len() > 0 && is_white_space(s[0]) {
        trim_start(s.drop_first())
    } else {
        s
    }
}

/// `s` without its trailing white space.
pub open spec fn trim_end(s: Seq<char>) -> Seq<char>
    decreases s.len(),
{
    if s.len() > 0 && is_white_space(s.last()) {
        trim_end(s.drop_last())
    } else {
        s
    }
}

/// `s` without its leading and trailing white space.
pub open spec fn trimmed(s: Seq<char>) -> Seq<char> {
    trim_end(trim_start(s))
}

/// What `shell_words::split` makes of a line: its words, or `None` where a
/// quote is left open.
pub uninterp spec fn shell_split(s: Seq<char>) -> Option<Seq<Seq<char>>>;

#[verifier::external_type_specification]
#[verifier::external_body]
pub struct ExParseError(shell_words::ParseError);

/// Relies on `str::trim`: the line without its leading and trailing
/// characters of Unicode's White_Space property.
#[verifier::external_body]
fn trim(s: &str) -> (r: String)
    ensures
        r@ == trimmed(s@),
{
    s.trim().to_string()
}

/// Relies on `shell_words::split`: the words of a line under shell quoting,
/// or its `ParseError` where a quote is left open; the result depends on the
/// characters alone.
#[verifier::external_body]
fn split_words(s: &str) -> (r: Result<Vec<String>, shell_words::ParseError>)
    ensures
        r is Ok <==> shell_split(s@) is Some,
        s@.len() == 0 ==> (r is Ok && r->Ok_0@.len() == 0),
        r matches Ok(w) ==> shell_split(s@) == Some(words_of(w@)),
{
    shell_words::split(s)
}

/// Relies on the `Display` impl of `shell_words::ParseError`, which writes
/// the fixed text "missing closing quote".
#[verifier::external_body]
fn parse_error_text(e: &shell_words::ParseError) -> (r: String)
    ensures
        r@ == "missing closing quote"@,
{
    e.to_string()
}

fn is_word(w: &String, lit: &str) -> (r: bool)
    ensures
        r == (w@ == lit@),
{
    let l = String::from_str(lit);
    w.eq(&l)
}

fn reply(s: &str) -> (r: Command)
    ensures
        r@ == Request::Reply(s@),
{
    Command::Reply(String::from_str(s))
}

/// The list of commands with their arguments.
pub fn help_text() -> (r: String)
    ensures
        r@ == help_spec(),
{
    let mut out = String::from_str("Available commands:\n");
    out.append("1. create_table <table> - Creates a new table in the database.\n");
    out.append("2. put <table> <key> <value> - Inserts a key-value pair into the specified table.\n");
    out.append("3. get <table> <key> - Retrieves the value associated with the specified key in the table.\n");
    out.append("4. del <table> <key> - Deletes the specified key from the table.\n");
    out.append("5. list <table> - Lists all key-value pairs in the specified table.\n");
    out.append("6. list_tables - Lists all tables in the database.\n");
    out.append("7. empty_table <table> - Clears all key-value pairs from the specified table.\n");
    out.append("8. help - Displays this help message.\n");
    out
}

/// Dispatches the words of a line on its first word.
pub fn dispatch(args: &Vec<String>) -> (r: Command)
    ensures
        r@ == request_for(words_of(args@)),
{
    let ghost ws = words_of(args@);
    if args.len() == 0 {
        return Command::Reply(String::new());
    }
    let n = args.len();
    let w = &args[0];
    assert(ws[0] == w@);
    assert(n >= 2 ==> ws[1] == args[1]@);
    assert(n >= 3 ==> ws[2] == args[2]@);
    assert(n >= 4 ==> ws[3] == args[3]@);
    if is_word(w, "list") {
        if n != 2 {
            reply("Usage: list_values <table>")
        } else {
            Command::List(args[1].clone())
        }
    } else if is_word(w, "get") {
        if n != 3 {
            reply("Usage: get <table> <key>")
        } else {
            Command::Get(args[1].clone(), args[2].clone())
        }
    } else if is_word(w, "put") {
        if n != 4 {
            reply("Usage: put <table> <key> <value>")
        } else {
            Command::Put(args[1].clone(), args[2].clone(), args[3].clone())
        }
    } else if is_word(w, "del") {
        if n != 3 {
            reply("Usage: del <table> <key>")
        } else {
            Command::Del(args[1].clone(), args[2].clone())
        }
    } else if is_word(w, "list_tables") {
        if n != 1 {
            reply("Usage: list_tables")
        } else {
            Command::ListTables
        }
    } else if is_word(w, "create_table") {
        if n != 2 {
            reply("Usage: create_table <table>")
        } else {
            Command::CreateTable(args[1].clone())
        }
    } else if is_word(w, "empty_table") {
        if n != 2 {
            reply("Usage: empty_table <table>")
        } else {
            Command::EmptyTable(args[1].clone())
        }
    } else if is_word(w, "help") {
        if n != 1 {
            reply("Usage: help")
        } else {
            Command::Reply(help_text())
        }
    } else {
        reply("Unknown command.")
    }
}

/// The request that a raw line makes. A line that is empty once trimmed asks
/// for nothing; a quoting error is reported as text; otherwise the words
/// are dispatched.
pub open spec fn line_request(line: Seq<char>) -> Request {
    let t = trimmed(line);
    if t.len() == 0 {
        Request::Reply(seq![])
    } else {
        match shell_split(t) {
            None => Request::Reply("Error parsing input: "@ + "missing closing quote"@),
            Some(ws) => request_for(ws),
        }
    }
}

/// Parses one command line into the command to run.
pub fn execute_command(line: &str) -> (r: Command)
    ensures
        r@ == line_request(line@),
{
    let t = trim(line);
    if t.as_str().is_empty() {
        return Command::Reply(String::new());
    }
    match split_words(t.as_str()) {
        Ok(args) => dispatch(&args),
        Err(e) => {
            let mut out = String::from_str("Error parsing input: ");
            let detail = parse_error_text(&e);
            out.append(detail.as_str());
            Command::Reply(out)
        },
    }
}

proof fn lemma_trim_start_pad(pad: Seq<char>, x: Seq<char>)
    requires
        all_white_space(pad),
    ensures
        trim_start(pad + x) == trim_start(x),
    decreases pad.len(),
{
    if pad.len() == 0 {
        assert(pad + x =~= x);
    } else {
        assert((pad + x)[0] == pad[0]);
        assert((pad + x).drop_first() =~= pad.drop_first() + x);
        lemma_trim_start_pad(pad.drop_first(), x);
    }
}

proof fn lemma_trim_end_pad(x: Seq<char>, pad: Seq<char>)
    requires
        all_white_space(pad),
    ensures
        trim_end(x + pad) == trim_end(x),
    decreases pad.len(),
{
    if pad.len() == 0 {
        assert(x + pad =~= x);
    } else {
        assert((x + pad).last() == pad.last());
        assert((x + pad).drop_last() =~= x + pad.drop_last());
        lemma_trim_end_pad(x, pad.drop_last());
    }
}

proof fn lemma_trim_start_append(t: Seq<char>, p: Seq<char>)
    ensures
        trim_start(t + p) == (if trim_start(t).len() > 0 {
            trim_start(t) + p
        } else {
            trim_start(p)
        }),
    decreases t.len(),
{
    if t.len() == 0 {
        assert(t + p =~= p);
    } else {
        assert((t + p)[0] == t[0]);
        if is_white_space(t[0]) {
            assert((t + p).drop_first() =~= t.drop_first() + p);
            lemma_trim_start_append(t.drop_first(), p);
        }
    }
}

proof fn lemma_trim_start_white(p: Seq<char>)
    requires
        all_white_space(p),
    ensures
        trim_start(p).len() == 0,
    decreases p.len(),
{
    if p.len() > 0 {
        lemma_trim_start_white(p.drop_first());
    }
}

/// White space around a command line changes nothing: the padded line asks
/// for what the bare line asks for.
pub proof fn lemma_padding_ignored(pad1: Seq<char>, line: Seq<char>, pad2: Seq<char>)
    requires
        all_white_space(pad1),
        all_white_space(pad2),
    ensures
        line_request(pad1 + line + pad2) == line_request(line),
{
    assert(pad1 + line + pad2 =~= pad1 + (line + pad2));
    lemma_trim_start_pad(pad1, line + pad2);
    lemma_trim_start_append(line, pad2);
    if trim_start(line).len() > 0 {
        lemma_trim_end_pad(trim_start(line), pad2);
    } else {
        lemma_trim_start_white(pad2);
        assert(trim_start(pad2) =~= trim_start(line));
    }
    assert(trimmed(pad1 + line + pad2) == trimmed(line));
}

} // verus!
