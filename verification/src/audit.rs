//! The append-only audit log of configuration changes: one JSON line per
//! entry, one file per month named `audit-YYYY-MM.jsonl`.
use vstd::prelude::*;

use std::time::{Duration, SystemTime};

use crate::admin_config::audit_dir;
use crate::hand_eye::{extension_of, path_extension};
use crate::text::{
    chars_eq_str, chars_of, decimal, decimal_chars, join, join_path, push_chars, push_str, strs,
    string_from_chars,
};

verus! {

#[derive(Debug, Clone, PartialEq, Eq)]
pub struct AuditEntry {
    pub timestamp: String,
    pub operator: String,
    pub changed_file: String,
    pub action: String,
    pub old_value: String,
    pub new_value: String,
    pub security_lowering: bool,
}

/// `s` padded with leading zeros to at least `width` characters.
pub open spec fn zero_pad(s: Seq<char>, width: nat) -> Seq<char> {
    if s.len() >= width {
        s
    } else {
        Seq::new((width - s.len()) as nat, |i: int| '0') + s
    }
}

/// An integer as `{:0w$}` formats it: the sign counts towards the width.
pub open spec fn padded_int(n: int, width: nat) -> Seq<char> {
    if n >= 0 {
        zero_pad(decimal(n as nat), width)
    } else {
        seq!['-'] + zero_pad(decimal((-n) as nat), if width >= 1 { (width - 1) as nat } else { 0 })
    }
}

/// The log file of a month.
pub open spec fn month_filename_spec(year: int, month: int) -> Seq<char> {
    "audit-"@ + padded_int(year, 4) + "-"@ + padded_int(month, 2) + ".jsonl"@
}

fn push_padded(out: &mut Vec<char>, n: u64, width: usize)
    requires
        width <= 10,
    ensures
        final(out)@ == old(out)@ + zero_pad(decimal(n as nat), width as nat),
{
    let digits = decimal_chars(n);
    let mut k: usize = digits.len();
    let ghost start = out@;
    while k < width
        invariant
            digits@ == decimal(n as nat),
            digits@.len() <= k <= width || (k == digits@.len() && k >= width),
            out@ == start + Seq::new((k - digits@.len()) as nat, |i: int| '0'),
        decreases width - k,
    {
        out.push('0');
        k = k + 1;
        assert(out@ =~= start + Seq::new((k - digits@.len()) as nat, |i: int| '0'));
    }
    push_chars(out, &digits);
    proof {
        if digits@.len() >= width {
            assert(out@ =~= start + decimal(n as nat));
        } else {
            assert(out@ =~= start + (Seq::new((width - digits@.len()) as nat, |i: int| '0') + decimal(
                n as nat,
            )));
        }
    }
}

/// The log file name for a year and month.
pub fn month_filename(year: i32, month: u32) -> (s: String)
    ensures
        s@ == month_filename_spec(year as int, month as int),
{
    let mut out: Vec<char> = Vec::new();
    push_str(&mut out, "audit-");
    if year >= 0 {
        push_padded(&mut out, year as u64, 4);
    } else {
        out.push('-');
        let magnitude: u64 = (-(year as i64)) as u64;
        push_padded(&mut out, magnitude, 3);
    }
    push_str(&mut out, "-");
    push_padded(&mut out, month as u64, 2);
    push_str(&mut out, ".jsonl");
    assert(out@ =~= month_filename_spec(year as int, month as int));
    string_from_chars(&out)
}

/// The calendar year and month (UTC) of a Unix timestamp in whole seconds,
/// as chrono's `DateTime::from_timestamp` and `Datelike` compute them; `None`
/// where the timestamp lies outside the dates chrono represents.
pub uninterp spec fn utc_calendar_month_of(secs: i64) -> Option<(i32, u32)>;

/// Calls `chrono::DateTime::from_timestamp(secs, 0)` and reads the year and
/// month of the result (`Datelike`). The result is named by
/// `utc_calendar_month_of`; of the month the contract claims only what chrono
/// documents: it lies in 1..=12. `from_timestamp` returns `None` rather than
/// panic on an out-of-range timestamp.
#[verifier::external_body]
fn utc_calendar_month(secs: i64) -> (r: Option<(i32, u32)>)
    ensures
        r == utc_calendar_month_of(secs),
        r matches Some(ym) ==> 1 <= ym.1 <= 12,
{
    match chrono::DateTime::from_timestamp(secs, 0) {
        Some(t) => Some((chrono::Datelike::year(&t), chrono::Datelike::month(&t))),
        None => None,
    }
}

/// Calls `SystemTime::duration_since(UNIX_EPOCH)`: the time since the epoch,
/// `None` where the instant lies before it. Nothing is claimed of the value,
/// which comes from the clock.
#[verifier::external_body]
fn since_unix_epoch(t: &SystemTime) -> Option<Duration> {
    t.duration_since(std::time::UNIX_EPOCH).ok()
}

/// Calls `Duration::as_secs`: the whole seconds of a duration. Nothing is
/// claimed of the value.
#[verifier::external_body]
fn whole_seconds(d: &Duration) -> u64 {
    d.as_secs()
}

/// The append-only log in a directory.
#[derive(Debug, Clone, PartialEq, Eq)]
pub struct AuditLog {
    dir: String,
}

impl AuditLog {
    pub closed spec fn dir_spec(self) -> Seq<char> {
        self.dir@
    }

    pub fn new(dir: String) -> (l: AuditLog)
        ensures
            l.dir_spec() == dir@,
    {
        AuditLog { dir }
    }

    /// The log in the `audit` directory of the config root.
    pub fn default_dir(config_root: &str) -> (l: AuditLog)
        ensures
            l.dir_spec() == join_path(config_root@, "audit"@),
    {
        AuditLog { dir: audit_dir(config_root) }
    }

    pub fn dir(&self) -> (d: &str)
        ensures
            d@ == self.dir_spec(),
    {
        self.dir.as_str()
    }

    /// The log file of a given month.
    pub fn file_for(&self, year: i32, month: u32) -> (p: String)
        ensures
            p@ == join_path(self.dir_spec(), month_filename_spec(year as int, month as int)),
    {
        let name = month_filename(year, month);
        join(self.dir.as_str(), name.as_str())
    }

    /// The log file of the month (UTC) that a Unix timestamp in whole seconds
    /// falls in; `None` where the timestamp lies past the dates chrono
    /// represents.
    pub open spec fn month_file_at_spec(self, secs: u64) -> Option<Seq<char>> {
        if secs > i64::MAX as u64 {
            None
        } else {
            match utc_calendar_month_of(secs as i64) {
                Some(ym) => Some(join_path(self.dir_spec(), month_filename_spec(ym.0 as int, ym.1 as int))),
                None => None,
            }
        }
    }

    /// The log file of the month (UTC) of a Unix timestamp in whole seconds.
    pub fn month_file_at(&self, secs: u64) -> (r: Option<String>)
        ensures
            r matches Some(f) ==> self.month_file_at_spec(secs) == Some(f@),
            r is None ==> self.month_file_at_spec(secs) is None,
            r matches Some(f) ==> exists|y: i32, m: u32|
                1 <= m <= 12 && f@ == join_path(self.dir_spec(), month_filename_spec(y as int, m as int)),
    {
        if secs > i64::MAX as u64 {
            return None;
        }
        match utc_calendar_month(secs as i64) {
            Some((y, m)) => Some(self.file_for(y, m)),
            None => None,
        }
    }

    /// The log file of the current month (UTC), by the system clock. `None`
    /// where the clock reads before 1970, or past the dates chrono represents.
    pub fn current_month_file(&self) -> (r: Option<String>)
        ensures
            r matches Some(f) ==> exists|secs: u64| self.month_file_at_spec(secs) == Some(f@),
            r matches Some(f) ==> exists|y: i32, m: u32|
                1 <= m <= 12 && f@ == join_path(self.dir_spec(), month_filename_spec(y as int, m as int)),
    {
        let now = SystemTime::now();
        match since_unix_epoch(&now) {
            Some(d) => {
                let secs = whole_seconds(&d);
                self.month_file_at(secs)
            },
            None => None,
        }
    }
}

/// The lines of a log file that hold entries: trimmed, blank ones skipped.
pub fn entry_lines(raw: &str) -> (r: Vec<String>)
    ensures
        crate::text::strs(r) == crate::admin_rows::items_spec(raw@, '\n'),
{
    crate::admin_rows::split_items(raw, '\n')
}

// ---------------------------------------------------------------------------
// Order of the log files
// ---------------------------------------------------------------------------

/// Strict lexicographic order of character sequences by code point: the
/// order of their UTF-8 bytes, in which file names of one directory sort.
pub open spec fn chars_lt(a: Seq<char>, b: Seq<char>) -> bool
    decreases a.len(),
{
    if a.len() == 0 {
        b.len() > 0
    } else if b.len() == 0 {
        false
    } else if a[0] != b[0] {
        (a[0] as u32) < (b[0] as u32)
    } else {
        chars_lt(a.drop_first(), b.drop_first())
    }
}

/// No name comes after one that it should precede.
pub open spec fn sorted_names(s: Seq<Seq<char>>) -> bool {
    forall|i: int, j: int| 0 <= i < j < s.len() ==> !chars_lt(#[trigger] s[j], #[trigger] s[i])
}

/// Whether a file name is that of a log file: its extension is `jsonl`.
pub open spec fn is_log_name(name: Seq<char>) -> bool {
    path_extension(name) == Some("jsonl"@)
}

/// The log files among the names of a directory's entries, in order.
pub open spec fn log_names(names: Seq<Seq<char>>) -> Seq<Seq<char>>
    decreases names.len(),
{
    if names.len() == 0 {
        names
    } else {
        let rest = log_names(names.drop_last());
        if is_log_name(names.last()) {
            rest.push(names.last())
        } else {
            rest
        }
    }
}

proof fn lemma_lt_asymmetric(a: Seq<char>, b: Seq<char>)
    ensures
        !(chars_lt(a, b) && chars_lt(b, a)),
    decreases a.len(),
{
    if a.len() > 0 && b.len() > 0 && a[0] == b[0] {
        lemma_lt_asymmetric(a.drop_first(), b.drop_first());
    }
}

proof fn lemma_lt_transitive(a: Seq<char>, b: Seq<char>, c: Seq<char>)
    requires
        chars_lt(a, b),
        chars_lt(b, c),
    ensures
        chars_lt(a, c),
    decreases a.len(),
{
    if a.len() > 0 && b.len() > 0 && c.len() > 0 && a[0] == b[0] && b[0] == c[0] {
        lemma_lt_transitive(a.drop_first(), b.drop_first(), c.drop_first());
    }
}

proof fn lemma_lt_skip(a: Seq<char>, b: Seq<char>, i: int)
    requires
        0 <= i <= a.len(),
        i <= b.len(),
        a.take(i) == b.take(i),
    ensures
        chars_lt(a, b) == chars_lt(a.skip(i), b.skip(i)),
    decreases i,
{
    if i > 0 {
        assert(a[0] == a.take(i)[0]);
        assert(b[0] == b.take(i)[0]);
        assert(a.drop_first().take(i - 1) =~= a.take(i).drop_first());
        assert(b.drop_first().take(i - 1) =~= b.take(i).drop_first());
        lemma_lt_skip(a.drop_first(), b.drop_first(), i - 1);
        assert(a.drop_first().skip(i - 1) =~= a.skip(i));
        assert(b.drop_first().skip(i - 1) =~= b.skip(i));
    } else {
        assert(a.skip(0) =~= a);
        assert(b.skip(0) =~= b);
    }
}

/// Whether `a` sorts strictly before `b`.
fn chars_less(a: &[char], b: &[char]) -> (r: bool)
    ensures
        r == chars_lt(a@, b@),
{
    let mut i: usize = 0;
    while i < a.len() && i < b.len() && a[i] == b[i]
        invariant
            i <= a@.len(),
            i <= b@.len(),
            a@.take(i as int) == b@.take(i as int),
        decreases a.len() - i,
    {
        assert(a@.take(i + 1) =~= a@.take(i as int).push(a@[i as int]));
        assert(b@.take(i + 1) =~= b@.take(i as int).push(b@[i as int]));
        i = i + 1;
    }
    proof {
        lemma_lt_skip(a@, b@, i as int);
        let sa = a@.skip(i as int);
        let sb = b@.skip(i as int);
        if i < a@.len() && i < b@.len() {
            assert(sa[0] == a@[i as int]);
            assert(sb[0] == b@[i as int]);
        }
    }
    if i == a.len() {
        i < b.len()
    } else if i == b.len() {
        false
    } else {
        (a[i] as u32) < (b[i] as u32)
    }
}

/// Inserts `x` into sorted `names` after every name it does not precede.
fn insert_sorted(names: &mut Vec<String>, x: String)
    requires
        sorted_names(strs(*old(names))),
    ensures
        sorted_names(strs(*final(names))),
        strs(*final(names)).to_multiset() == strs(*old(names)).to_multiset().insert(x@),
{
    let xc = chars_of(x.as_str());
    let mut j: usize = 0;
    while j < names.len()
        invariant
            j <= names@.len(),
            names@ == old(names)@,
            xc@ == x@,
            forall|k: int| 0 <= k < j ==> !chars_lt(x@, #[trigger] strs(*names)[k]),
        ensures
            j <= names@.len(),
            names@ == old(names)@,
            forall|k: int| 0 <= k < j ==> !chars_lt(x@, #[trigger] strs(*names)[k]),
            j < names@.len() ==> chars_lt(x@, strs(*names)[j as int]),
        decreases names.len() - j,
    {
        let nc = chars_of(names[j].as_str());
        assert(strs(*names)[j as int] == names@[j as int]@);
        if chars_less(&xc, &nc) {
            break;
        }
        j = j + 1;
    }
    let ghost before = strs(*names);
    proof {
        assert(j < before.len() ==> chars_lt(x@, before[j as int]));
    }
    names.insert(j, x);
    proof {
        let after = strs(*names);
        assert(after =~= before.insert(j as int, x@));
        vstd::seq_lib::to_multiset_insert(before, j as int, x@);
        assert forall|p: int, q: int| 0 <= p < q < after.len() implies !chars_lt(
            #[trigger] after[q],
            #[trigger] after[p],
        ) by {
            if q < j {
                assert(after[p] == before[p] && after[q] == before[q]);
            } else if q == j {
                assert(after[p] == before[p]);
            } else if p == j {
                assert(after[q] == before[q - 1]);
                if chars_lt(before[q - 1], x@) {
                    if q - 1 == j {
                        lemma_lt_asymmetric(x@, before[j as int]);
                    } else {
                        lemma_lt_transitive(before[q - 1], x@, before[j as int]);
                    }
                }
            } else if p < j {
                assert(after[p] == before[p] && after[q] == before[q - 1]);
            } else {
                assert(after[p] == before[p - 1] && after[q] == before[q - 1]);
            }
        }
    }
}

/// The order in which the log files of a directory are read: the names of
/// its entries that end in `.jsonl`, sorted.
pub fn log_files_in_order(names: &Vec<String>) -> (r: Vec<String>)
    ensures
        sorted_names(strs(r)),
        strs(r).to_multiset() == log_names(strs(*names)).to_multiset(),
{
    let mut r: Vec<String> = Vec::new();
    let mut i: usize = 0;
    proof {
        assert(strs(*names).take(0) =~= Seq::<Seq<char>>::empty());
        assert(strs(r) =~= Seq::<Seq<char>>::empty());
    }
    while i < names.len()
        invariant
            i <= names@.len(),
            sorted_names(strs(r)),
            strs(r).to_multiset() == log_names(strs(*names).take(i as int)).to_multiset(),
        decreases names.len() - i,
    {
        let ghost prefix = strs(*names).take(i as int);
        proof {
            assert(strs(*names).take(i + 1) =~= prefix.push(names@[i as int]@));
            assert(prefix.push(names@[i as int]@).drop_last() =~= prefix);
        }
        let is_log = match extension_of(names[i].as_str()) {
            Some(e) => {
                let ec = chars_of(e.as_str());
                chars_eq_str(&ec, "jsonl")
            },
            None => false,
        };
        if is_log {
            insert_sorted(&mut r, names[i].clone());
            proof {
                vstd::seq_lib::to_multiset_build(
                    log_names(prefix),
                    names@[i as int]@,
                );
            }
        }
        i = i + 1;
    }
    proof {
        assert(strs(*names).take(names@.len() as int) =~= strs(*names));
    }
    r
}

} // verus!
