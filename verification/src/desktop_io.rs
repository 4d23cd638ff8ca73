//! Reading chat replies from the applications' own local stores instead of
//! from pixels: where each identity's store lives, which records belong to
//! the identity asked for, and that reads stay inside the store root.
use vstd::prelude::*;

use crate::admin_rows::{lemma_split_char_nonempty, split_char};
use crate::json::{json_parse, parse_json, JsonValue};
use crate::text::{join, join_path, owned, push_str, str_eq, string_from_chars, strs, trim_str, trim};

verus! {

#[derive(Debug, Clone, Copy, PartialEq, Eq, Hash, Structural)]
pub enum ChatIdentity {
    Maestro,
    A,
    B,
}

impl ChatIdentity {
    pub open spec fn name_spec(self) -> Seq<char> {
        match self {
            ChatIdentity::Maestro => "maestro"@,
            ChatIdentity::A => "A"@,
            ChatIdentity::B => "B"@,
        }
    }

    /// The identity's directory name in a store.
    pub fn as_str(&self) -> (r: &'static str)
        ensures
            r@ == self.name_spec(),
    {
        match self {
            ChatIdentity::Maestro => "maestro",
            ChatIdentity::A => "A",
            ChatIdentity::B => "B",
        }
    }

    /// The name as `Debug` prints it.
    pub open spec fn debug_spec(self) -> Seq<char> {
        match self {
            ChatIdentity::Maestro => "Maestro"@,
            ChatIdentity::A => "A"@,
            ChatIdentity::B => "B"@,
        }
    }

    pub fn debug_name(&self) -> (r: &'static str)
        ensures
            r@ == self.debug_spec(),
    {
        match self {
            ChatIdentity::Maestro => "Maestro",
            ChatIdentity::A => "A",
            ChatIdentity::B => "B",
        }
    }
}

#[derive(Debug, Clone, PartialEq, Eq)]
pub struct ChatRecord {
    pub identity: ChatIdentity,
    pub task_id: String,
    pub content: String,
}

#[derive(Debug, Clone, PartialEq, Eq)]
pub enum DesktopIoError {
    /// The path is not inside the store root.
    UnconfinedPath(String),
    Io(String),
    Parse(String),
    Decode(String),
}

/// The store locations under a root directory.
#[derive(Debug, Clone, PartialEq, Eq)]
pub struct StorePaths {
    root: String,
}

impl StorePaths {
    pub closed spec fn root_spec(self) -> Seq<char> {
        self.root@
    }

    pub fn under(root: &str) -> (p: StorePaths)
        ensures
            p.root_spec() == root@,
    {
        StorePaths { root: owned(root) }
    }

    pub fn root(&self) -> (r: &str)
        ensures
            r@ == self.root_spec(),
    {
        self.root.as_str()
    }

    /// The JSON records file of an identity: `<identity>/messages.json`.
    pub fn json_records(&self, identity: ChatIdentity) -> (p: String)
        ensures
            p@ == join_path(join_path(self.root_spec(), identity.name_spec()), "messages.json"@),
    {
        let dir = join(self.root.as_str(), identity.as_str());
        join(dir.as_str(), "messages.json")
    }

    /// The SQLite store of an identity: `<identity>/chat.db`.
    pub fn sqlite_records(&self, identity: ChatIdentity) -> (p: String)
        ensures
            p@ == join_path(join_path(self.root_spec(), identity.name_spec()), "chat.db"@),
    {
        let dir = join(self.root.as_str(), identity.as_str());
        join(dir.as_str(), "chat.db")
    }

    /// The store to read for an identity, given which of its files exist:
    /// the JSON store when present, else the SQLite store, else none. The
    /// path returned is then confined to the root before it is read.
    pub fn store_to_read(&self, identity: ChatIdentity, json_exists: bool, sqlite_exists: bool) -> (r:
        Option<(StoreChoice, String)>)
        ensures
            json_exists ==> (r matches Some((c, p)) && c == StoreChoice::Json && p@ == join_path(
                join_path(self.root_spec(), identity.name_spec()),
                "messages.json"@,
            )),
            !json_exists && sqlite_exists ==> (r matches Some((c, p)) && c == StoreChoice::Sqlite
                && p@ == join_path(join_path(self.root_spec(), identity.name_spec()), "chat.db"@)),
            !json_exists && !sqlite_exists ==> r is None,
    {
        match choose_store(json_exists, sqlite_exists) {
            StoreChoice::Json => Some((StoreChoice::Json, self.json_records(identity))),
            StoreChoice::Sqlite => Some((StoreChoice::Sqlite, self.sqlite_records(identity))),
            StoreChoice::Empty => None,
        }
    }
}

/// Which store a live read uses.
#[derive(Debug, Clone, Copy, PartialEq, Eq, Structural)]
pub enum StoreChoice {
    Json,
    Sqlite,
    Empty,
}

/// JSON records are preferred; the SQLite store is the fallback; with
/// neither there is nothing to read.
pub fn choose_store(json_exists: bool, sqlite_exists: bool) -> (c: StoreChoice)
    ensures
        json_exists ==> c == StoreChoice::Json,
        !json_exists && sqlite_exists ==> c == StoreChoice::Sqlite,
        !json_exists && !sqlite_exists ==> c == StoreChoice::Empty,
{
    if json_exists {
        StoreChoice::Json
    } else if sqlite_exists {
        StoreChoice::Sqlite
    } else {
        StoreChoice::Empty
    }
}

/// Whether `std::path::Path::starts_with` holds of the two paths (a
/// whole-component prefix test).
pub uninterp spec fn path_starts_with(path: Seq<char>, base: Seq<char>) -> bool;

/// Calls `std::path::Path::starts_with`; the contract names its answer.
#[verifier::external_body]
fn path_has_prefix(path: &str, base: &str) -> (b: bool)
    ensures
        b == path_starts_with(path@, base@),
{
    std::path::Path::new(path).starts_with(base)
}

/// Keeps a resolved path only when it lies under the resolved store root;
/// the error names the path as it was asked for.
pub fn confine_resolved(base_abs: &str, candidate_abs: &str, candidate: &str) -> (r: Result<
    String,
    DesktopIoError,
>)
    ensures
        path_starts_with(candidate_abs@, base_abs@) ==> (r matches Ok(p) && p@ == candidate_abs@),
        !path_starts_with(candidate_abs@, base_abs@) ==> (r matches Err(
            DesktopIoError::UnconfinedPath(p),
        ) && p@ == candidate@),
{
    if path_has_prefix(candidate_abs, base_abs) {
        Ok(owned(candidate_abs))
    } else {
        Err(DesktopIoError::UnconfinedPath(owned(candidate)))
    }
}

/// The message for a record of the wrong identity.
pub open spec fn mismatch_message(found: ChatIdentity, wanted: ChatIdentity) -> Seq<char> {
    "record identity "@ + found.debug_spec() + " does not match requested identity "@
        + wanted.debug_spec()
}

/// Keeps a decoded record only when it belongs to the identity asked for.
pub fn check_record_identity(record: ChatRecord, identity: ChatIdentity) -> (r: Result<
    ChatRecord,
    DesktopIoError,
>)
    ensures
        record.identity == identity ==> r == Ok::<ChatRecord, DesktopIoError>(record),
        record.identity != identity ==> (r matches Err(DesktopIoError::Decode(m)) && m@
            == mismatch_message(record.identity, identity)),
{
    if record.identity != identity {
        let mut m: Vec<char> = Vec::new();
        push_str(&mut m, "record identity ");
        push_str(&mut m, record.identity.debug_name());
        push_str(&mut m, " does not match requested identity ");
        push_str(&mut m, identity.debug_name());
        return Err(DesktopIoError::Decode(string_from_chars(&m)));
    }
    Ok(record)
}

/// The first record of another identity, if any.
pub open spec fn first_mismatch(records: Seq<ChatRecord>, identity: ChatIdentity) -> int
    decreases records.len(),
{
    if records.len() == 0 {
        -1
    } else if records[0].identity != identity {
        0
    } else {
        let r = first_mismatch(records.drop_first(), identity);
        if r < 0 {
            -1
        } else {
            r + 1
        }
    }
}

pub proof fn lemma_first_mismatch(records: Seq<ChatRecord>, identity: ChatIdentity)
    ensures
        -1 <= first_mismatch(records, identity) < records.len(),
        first_mismatch(records, identity) >= 0 ==> records[first_mismatch(records, identity)].identity
            != identity,
        forall|j: int|
            0 <= j < records.len() && (first_mismatch(records, identity) == -1 || j < first_mismatch(
                records,
                identity,
            )) ==> (#[trigger] records[j]).identity == identity,
    decreases records.len(),
{
    if records.len() > 0 && records[0].identity == identity {
        lemma_first_mismatch(records.drop_first(), identity);
        assert forall|j: int| 0 < j < records.len() implies records[j] == records.drop_first()[j - 1] by {}
    }
}

/// The records decoded from a JSON store, all of which must belong to the
/// identity asked for: the first that does not is an error.
pub fn check_records_identity(records: Vec<ChatRecord>, identity: ChatIdentity) -> (r: Result<
    Vec<ChatRecord>,
    DesktopIoError,
>)
    ensures
        first_mismatch(records@, identity) == -1 ==> r == Ok::<Vec<ChatRecord>, DesktopIoError>(
            records,
        ),
        first_mismatch(records@, identity) >= 0 ==> (r matches Err(DesktopIoError::Decode(m)) && m@
            == mismatch_message(records@[first_mismatch(records@, identity)].identity, identity)),
{
    proof {
        lemma_first_mismatch(records@, identity);
    }
    let mut i: usize = 0;
    while i < records.len()
        invariant
            i <= records@.len(),
            forall|j: int| 0 <= j < i ==> (#[trigger] records@[j]).identity == identity,
            -1 <= first_mismatch(records@, identity) < records@.len(),
            first_mismatch(records@, identity) >= 0 ==> records@[first_mismatch(
                records@,
                identity,
            )].identity != identity,
            forall|j: int|
                0 <= j < records@.len() && (first_mismatch(records@, identity) == -1 || j
                    < first_mismatch(records@, identity)) ==> (#[trigger] records@[j]).identity
                    == identity,
        decreases records.len() - i,
    {
        if records[i].identity != identity {
            let found = records[i].identity;
            proof {
                let k = first_mismatch(records@, identity);
                if k != i {
                    if k >= 0 && k < i {
                        assert(records@[k].identity == identity);
                    }
                }
            }
            let mut m: Vec<char> = Vec::new();
            push_str(&mut m, "record identity ");
            push_str(&mut m, found.debug_name());
            push_str(&mut m, " does not match requested identity ");
            push_str(&mut m, identity.debug_name());
            return Err(DesktopIoError::Decode(string_from_chars(&m)));
        }
        i = i + 1;
    }
    Ok(records)
}

/// The identity named in an SQLite identity column.
pub open spec fn column_identity(v: Seq<char>) -> Option<ChatIdentity> {
    if v == "maestro"@ {
        Some(ChatIdentity::Maestro)
    } else if v == "A"@ || v == "a"@ {
        Some(ChatIdentity::A)
    } else if v == "B"@ || v == "b"@ {
        Some(ChatIdentity::B)
    } else {
        None
    }
}

fn identity_from_column(v: &str) -> (r: Option<ChatIdentity>)
    ensures
        r == column_identity(v@),
{
    if str_eq(v, "maestro") {
        Some(ChatIdentity::Maestro)
    } else if str_eq(v, "A") || str_eq(v, "a") {
        Some(ChatIdentity::A)
    } else if str_eq(v, "B") || str_eq(v, "b") {
        Some(ChatIdentity::B)
    } else {
        None
    }
}

/// A row of the `chat_messages` table: the identity column when the table
/// has one, the task id and the content.
#[derive(Debug, Clone, PartialEq, Eq)]
pub struct SqliteRow {
    pub identity: Option<String>,
    pub task_id: String,
    pub content: String,
}

/// The outcome of filtering SQLite rows for an identity: rows of other
/// identities are skipped, rows without an identity column are kept, and an
/// identity value that names no identity is an error (the first such row).
pub open spec fn filter_rows_spec(rows: Seq<SqliteRow>, identity: ChatIdentity) -> Result<
    Seq<(Seq<char>, Seq<char>)>,
    Seq<char>,
>
    decreases rows.len(),
{
    if rows.len() == 0 {
        Ok(Seq::empty())
    } else {
        match filter_rows_spec(rows.drop_last(), identity) {
            Err(v) => Err(v),
            Ok(kept) => {
                let row = rows.last();
                match row.identity {
                    None => Ok(kept.push((row.task_id@, row.content@))),
                    Some(col) => match column_identity(col@) {
                        None => Err(col@),
                        Some(id) => if id == identity {
                            Ok(kept.push((row.task_id@, row.content@)))
                        } else {
                            Ok(kept)
                        },
                    },
                }
            },
        }
    }
}

/// The records of `identity` among the rows of an SQLite store.
pub fn filter_sqlite_rows(rows: &Vec<SqliteRow>, identity: ChatIdentity) -> (r: Result<
    Vec<ChatRecord>,
    DesktopIoError,
>)
    ensures
        filter_rows_spec(rows@, identity) matches Ok(kept) ==> (r matches Ok(v) && v@.len()
            == kept.len() && forall|i: int|
            0 <= i < kept.len() ==> (#[trigger] v@[i]).identity == identity && v@[i].task_id@
                == kept[i].0 && v@[i].content@ == kept[i].1),
        filter_rows_spec(rows@, identity) matches Err(col) ==> (r matches Err(
            DesktopIoError::Decode(m),
        ) && m@ == "unknown identity column value: "@ + col),
{
    let mut out: Vec<ChatRecord> = Vec::new();
    let mut i: usize = 0;
    while i < rows.len()
        invariant
            i <= rows@.len(),
            filter_rows_spec(rows@.take(i as int), identity) matches Ok(kept) && out@.len()
                == kept.len() && forall|j: int|
                0 <= j < kept.len() ==> (#[trigger] out@[j]).identity == identity && out@[j].task_id@
                    == kept[j].0 && out@[j].content@ == kept[j].1,
        decreases rows.len() - i,
    {
        assert(rows@.take(i + 1).drop_last() =~= rows@.take(i as int));
        let row = &rows[i];
        let keep = match &row.identity {
            None => true,
            Some(col) => match identity_from_column(col.as_str()) {
                None => {
                    proof {
                        lemma_filter_rows_err_extends(rows@, identity, i + 1);
                    }
                    let mut m: Vec<char> = Vec::new();
                    push_str(&mut m, "unknown identity column value: ");
                    push_str(&mut m, col.as_str());
                    return Err(DesktopIoError::Decode(string_from_chars(&m)));
                },
                Some(id) => id == identity,
            },
        };
        if keep {
            out.push(
                ChatRecord { identity, task_id: row.task_id.clone(), content: row.content.clone() },
            );
        }
        i = i + 1;
    }
    assert(rows@.take(rows@.len() as int) =~= rows@);
    Ok(out)
}

/// An error on a prefix of the rows is the error of all of them.
pub proof fn lemma_filter_rows_err_extends(rows: Seq<SqliteRow>, identity: ChatIdentity, k: int)
    requires
        0 <= k <= rows.len(),
        filter_rows_spec(rows.take(k), identity) is Err,
    ensures
        filter_rows_spec(rows, identity) == filter_rows_spec(rows.take(k), identity),
    decreases rows.len() - k,
{
    if k < rows.len() {
        assert(rows.take(k + 1).drop_last() =~= rows.take(k));
        lemma_filter_rows_err_extends(rows, identity, k + 1);
    } else {
        assert(rows.take(k) =~= rows);
    }
}

/// The conventional store root: under `$XDG_DATA_HOME` when set and not
/// blank, else under `$HOME/.local/share`, else `/tmp/ai-bridge-chat` (the
/// caller reads the environment).
pub open spec fn store_root_spec(xdg: Option<Seq<char>>, home: Option<Seq<char>>) -> Seq<char> {
    if xdg is Some && trim(xdg.unwrap()).len() > 0 {
        join_path(xdg.unwrap(), "ai-bridge-chat"@)
    } else if home is Some && trim(home.unwrap()).len() > 0 {
        join_path(join_path(join_path(home.unwrap(), ".local"@), "share"@), "ai-bridge-chat"@)
    } else {
        "/tmp/ai-bridge-chat"@
    }
}

pub fn default_store_root(xdg: Option<&str>, home: Option<&str>) -> (p: String)
    ensures
        p@ == store_root_spec(
            match xdg {
                Some(v) => Some(v@),
                None => None,
            },
            match home {
                Some(v) => Some(v@),
                None => None,
            },
        ),
{
    if let Some(x) = xdg {
        if trim_str(x).len() > 0 {
            return join(x, "ai-bridge-chat");
        }
    }
    if let Some(h) = home {
        if trim_str(h).len() > 0 {
            let a = join(h, ".local");
            let b = join(a.as_str(), "share");
            return join(b.as_str(), "ai-bridge-chat");
        }
    }
    owned("/tmp/ai-bridge-chat")
}

// ---------------------------------------------------------------------------
// JSON record stores
// ---------------------------------------------------------------------------

/// A line without the `\r` of a `\r\n` ending.
pub open spec fn strip_cr(l: Seq<char>) -> Seq<char> {
    if l.len() > 0 && l.last() == '\r' {
        l.drop_last()
    } else {
        l
    }
}

/// Each line without the `\r` of a `\r\n` ending.
pub open spec fn strip_all(ls: Seq<Seq<char>>) -> Seq<Seq<char>> {
    ls.map_values(|l: Seq<char>| strip_cr(l))
}

/// The lines of a text as `str::lines` gives them: split at `\n`, a `\r`
/// before the `\n` removed, and no empty line after a final `\n`.
pub open spec fn lines_spec(s: Seq<char>) -> Seq<Seq<char>> {
    let p = split_char(s, '\n');
    let ended = strip_all(p.drop_last());
    if p.last().len() == 0 {
        ended
    } else {
        ended.push(p.last())
    }
}

/// The lines of a text.
pub fn text_lines(s: &str) -> (r: Vec<String>)
    ensures
        strs(r) == lines_spec(s@),
{
    let cs = crate::text::chars_of(s);
    let mut done: Vec<String> = Vec::new();
    let mut cur: Vec<char> = Vec::new();
    let mut i: usize = 0;
    proof {
        assert(cs@.take(0) =~= Seq::<char>::empty());
    }
    while i < cs.len()
        invariant
            cs@ == s@,
            i <= cs@.len(),
            split_char(cs@.take(i as int), '\n').len() >= 1,
            strs(done) == strip_all(split_char(cs@.take(i as int), '\n').drop_last()),
            cur@ == split_char(cs@.take(i as int), '\n').last(),
        decreases cs.len() - i,
    {
        let ghost p = split_char(cs@.take(i as int), '\n');
        proof {
            assert(cs@.take(i + 1).drop_last() =~= cs@.take(i as int));
            assert(cs@.take(i + 1).last() == cs@[i as int]);
        }
        if cs[i] == '\n' {
            let ghost line = cur@;
            let ghost before = strs(done);
            let mut l = cur;
            if l.len() > 0 && l[l.len() - 1] == '\r' {
                l.pop();
            }
            assert(l@ == strip_cr(line));
            done.push(string_from_chars(&l));
            cur = Vec::new();
            proof {
                let q = split_char(cs@.take(i + 1), '\n');
                assert(q == p.push(Seq::empty()));
                assert(q.drop_last() =~= p);
                lemma_split_char_nonempty(cs@.take(i as int), '\n');
                assert(strs(done) =~= before.push(strip_cr(line)));
                assert(strip_all(p) =~= strip_all(p.drop_last()).push(strip_cr(p.last())));
            }
        } else {
            cur.push(cs[i]);
            proof {
                let q = split_char(cs@.take(i + 1), '\n');
                assert(q == p.update(p.len() - 1, p.last().push(cs@[i as int])));
                assert(q.drop_last() =~= p.drop_last());
            }
        }
        i = i + 1;
    }
    proof {
        assert(cs@.take(cs@.len() as int) =~= s@);
    }
    let ghost before = strs(done);
    if cur.len() > 0 {
        done.push(string_from_chars(&cur));
        proof {
            assert(strs(done) =~= before.push(cur@));
        }
    }
    done
}

/// The values of every line, while each parses.
pub open spec fn parse_all(lines: Seq<Seq<char>>) -> Option<Seq<JsonValue>>
    decreases lines.len(),
{
    if lines.len() == 0 {
        Some(Seq::empty())
    } else {
        match parse_all(lines.drop_last()) {
            None => None,
            Some(vs) => match json_parse(lines.last()) {
                None => None,
                Some(v) => Some(vs.push(v)),
            },
        }
    }
}

/// The record values a JSON store holds: the items of an array, the value
/// of each line of a string, or the one value the file holds. A file that
/// does not parse is a `Parse` error; a line that does not parse is a
/// `Decode` error.
pub fn json_record_values(raw: &str) -> (r: Result<Vec<JsonValue>, DesktopIoError>)
    ensures
        json_parse(raw@) is None ==> r matches Err(DesktopIoError::Parse(_)),
        json_parse(raw@) matches Some(JsonValue::Array(items)) ==> (r matches Ok(vs) && vs@
            == items@),
        json_parse(raw@) matches Some(JsonValue::Str(text)) ==> match parse_all(
            lines_spec(text@),
        ) {
            Some(vals) => (r matches Ok(vs) && vs@ == vals),
            None => r matches Err(DesktopIoError::Decode(_)),
        },
        json_parse(raw@) matches Some(v) ==> (!(v is Array) && !(v is Str) ==> (r matches Ok(vs)
            && vs@ == seq![v])),
{
    let value = match parse_json(raw) {
        Ok(v) => v,
        Err(m) => {
            return Err(DesktopIoError::Parse(m));
        },
    };
    match value {
        JsonValue::Array(items) => Ok(items),
        JsonValue::Str(text) => {
            let lines = text_lines(text.as_str());
            let ghost ls = strs(lines);
            let mut vals: Vec<JsonValue> = Vec::new();
            let mut i: usize = 0;
            proof {
                assert(ls.take(0) =~= Seq::<Seq<char>>::empty());
            }
            while i < lines.len()
                invariant
                    json_parse(raw@) == Some(JsonValue::Str(text)),
                    ls == strs(lines),
                    ls == lines_spec(text@),
                    i <= ls.len(),
                    parse_all(ls.take(i as int)) == Some(vals@),
                decreases lines.len() - i,
            {
                proof {
                    assert(ls.take(i + 1).drop_last() =~= ls.take(i as int));
                    assert(ls.take(i + 1).last() == lines@[i as int]@);
                }
                match parse_json(lines[i].as_str()) {
                    Ok(v) => vals.push(v),
                    Err(m) => {
                        proof {
                            lemma_parse_all_none_extends(ls, i as int + 1);
                        }
                        return Err(DesktopIoError::Decode(m));
                    },
                }
                i = i + 1;
            }
            proof {
                assert(ls.take(ls.len() as int) =~= ls);
            }
            Ok(vals)
        },
        other => {
            let mut v: Vec<JsonValue> = Vec::new();
            v.push(other);
            Ok(v)
        },
    }
}

proof fn lemma_parse_all_none_extends(ls: Seq<Seq<char>>, k: int)
    requires
        0 <= k <= ls.len(),
        parse_all(ls.take(k)) is None,
    ensures
        parse_all(ls) is None,
    decreases ls.len() - k,
{
    if k < ls.len() {
        assert(ls.take(k + 1).drop_last() =~= ls.take(k));
        lemma_parse_all_none_extends(ls, k + 1);
    } else {
        assert(ls.take(k) =~= ls);
    }
}

} // verus!
