//! Message schemas exchanged across the bridge and the shared symbol table
//! that tags every command with its risk class.
use vstd::prelude::*;

use crate::text::{
    chars_eq, chars_of, contains, find_chars, matches_at, occurs_at, push_chars, push_str,
    starts_with, string_from_chars, trim, trim_chars, trim_str, copy_strings, is_ws, lemma_trim_edges,
    lemma_trim_fixed, lemma_trim_after_space,
};

verus! {

#[derive(Debug, Clone, Copy, PartialEq, Eq, Structural)]
pub enum SymbolClassification {
    Delegable,
    Critical,
}

#[derive(Debug, Clone, Copy, PartialEq, Eq, Structural)]
pub enum Symbol {
    OpsAppOpen,
    OpsAppBrowse,
    OpsFileCreate,
    OpsFileEdit,
    OpsFileDeleteRecoverable,
    OpsTermRunLocal,
    OpsInputHid,
    CritIrreversible,
    CritSysSecurity,
    CritSecret,
    CritEgress,
    CritFinancial,
    CritThirdParty,
    CritUnclassified,
}

/// The opening of a symbol tag, `[[AB:`.
pub open spec fn tag_open() -> Seq<char> {
    "[[AB:"@
}

/// The closing of a symbol tag, `]]`.
pub open spec fn tag_close() -> Seq<char> {
    "]]"@
}

/// The number of symbols in the table.
pub const SYMBOL_COUNT: usize = 14;

impl Symbol {
    pub open spec fn literal_spec(self) -> Seq<char> {
        match self {
            Symbol::OpsAppOpen => "OPS.APP.OPEN"@,
            Symbol::OpsAppBrowse => "OPS.APP.BROWSE"@,
            Symbol::OpsFileCreate => "OPS.FILE.CREATE"@,
            Symbol::OpsFileEdit => "OPS.FILE.EDIT"@,
            Symbol::OpsFileDeleteRecoverable => "OPS.FILE.DELETE.RECOVERABLE"@,
            Symbol::OpsTermRunLocal => "OPS.TERM.RUN.LOCAL"@,
            Symbol::OpsInputHid => "OPS.INPUT.HID"@,
            Symbol::CritIrreversible => "CRIT.IRREVERSIBLE"@,
            Symbol::CritSysSecurity => "CRIT.SYS.SECURITY"@,
            Symbol::CritSecret => "CRIT.SECRET"@,
            Symbol::CritEgress => "CRIT.EGRESS"@,
            Symbol::CritFinancial => "CRIT.FINANCIAL"@,
            Symbol::CritThirdParty => "CRIT.THIRD.PARTY"@,
            Symbol::CritUnclassified => "CRIT.UNCLASSIFIED"@,
        }
    }

    pub open spec fn description_spec(self) -> Seq<char> {
        match self {
            Symbol::OpsAppOpen => "Open an application window or first launcher action."@,
            Symbol::OpsAppBrowse =>
                "Browse local or remote application content without destructive effects."@,
            Symbol::OpsFileCreate => "Create a new file or directory in a scoped workspace."@,
            Symbol::OpsFileEdit => "Modify a tracked file or text document in-place."@,
            Symbol::OpsFileDeleteRecoverable =>
                "Delete a recoverable file or temporary artifact in a bounded scope."@,
            Symbol::OpsTermRunLocal => "Run a local terminal command in a constrained user session."@,
            Symbol::OpsInputHid =>
                "Inject a low-level keyboard or pointer event into a desktop session."@,
            Symbol::CritIrreversible =>
                "Delete, wipe, or overwrite data in a way that cannot be easily reversed."@,
            Symbol::CritSysSecurity =>
                "Affect system security, permissions, users, or service control settings."@,
            Symbol::CritSecret => "Handle credentials, secrets, tokens, or private keys."@,
            Symbol::CritEgress =>
                "Move sensitive data outside the local boundary or to an external sink."@,
            Symbol::CritFinancial =>
                "Move money, make payment decisions, or trigger financial-side effects."@,
            Symbol::CritThirdParty =>
                "Trigger external social, messaging, or third-party publication behavior."@,
            Symbol::CritUnclassified =>
                "No recognized symbol matched; this command is treated as critical by default."@,
        }
    }

    /// The `OPS.*` symbols are delegable; every `CRIT.*` symbol is critical.
    pub open spec fn classification_spec(self) -> SymbolClassification {
        match self {
            Symbol::OpsAppOpen | Symbol::OpsAppBrowse | Symbol::OpsFileCreate | Symbol::OpsFileEdit
            | Symbol::OpsFileDeleteRecoverable | Symbol::OpsTermRunLocal | Symbol::OpsInputHid =>
                SymbolClassification::Delegable,
            _ => SymbolClassification::Critical,
        }
    }

    /// The symbol table in its canonical order.
    pub open spec fn all_spec() -> Seq<Symbol> {
        seq![
            Symbol::OpsAppOpen,
            Symbol::OpsAppBrowse,
            Symbol::OpsFileCreate,
            Symbol::OpsFileEdit,
            Symbol::OpsFileDeleteRecoverable,
            Symbol::OpsTermRunLocal,
            Symbol::OpsInputHid,
            Symbol::CritIrreversible,
            Symbol::CritSysSecurity,
            Symbol::CritSecret,
            Symbol::CritEgress,
            Symbol::CritFinancial,
            Symbol::CritThirdParty,
            Symbol::CritUnclassified,
        ]
    }

    /// The first symbol of the table whose literal name is `name`.
    pub open spec fn named(name: Seq<char>) -> Option<Symbol> {
        Self::named_from(name, 0)
    }

    pub open spec fn named_from(name: Seq<char>, i: int) -> Option<Symbol>
        decreases 14 - i,
    {
        if i < 0 || i >= 14 {
            None
        } else if Self::all_spec()[i].literal_spec() == name {
            Some(Self::all_spec()[i])
        } else {
            Self::named_from(name, i + 1)
        }
    }

    /// The tag `[[AB:<NAME>]]` of this symbol.
    pub open spec fn tag_spec(self) -> Seq<char> {
        tag_open() + self.literal_spec() + tag_close()
    }

    /// What `with_tag` produces for a command.
    pub open spec fn with_tag_spec(self, command: Seq<char>) -> Seq<char> {
        let t = trim(command);
        if t.len() == 0 {
            self.tag_spec()
        } else {
            self.tag_spec() + " "@ + t
        }
    }

    pub fn literal_name(&self) -> (r: &'static str)
        ensures
            r@ == self.literal_spec(),
    {
        match self {
            Symbol::OpsAppOpen => "OPS.APP.OPEN",
            Symbol::OpsAppBrowse => "OPS.APP.BROWSE",
            Symbol::OpsFileCreate => "OPS.FILE.CREATE",
            Symbol::OpsFileEdit => "OPS.FILE.EDIT",
            Symbol::OpsFileDeleteRecoverable => "OPS.FILE.DELETE.RECOVERABLE",
            Symbol::OpsTermRunLocal => "OPS.TERM.RUN.LOCAL",
            Symbol::OpsInputHid => "OPS.INPUT.HID",
            Symbol::CritIrreversible => "CRIT.IRREVERSIBLE",
            Symbol::CritSysSecurity => "CRIT.SYS.SECURITY",
            Symbol::CritSecret => "CRIT.SECRET",
            Symbol::CritEgress => "CRIT.EGRESS",
            Symbol::CritFinancial => "CRIT.FINANCIAL",
            Symbol::CritThirdParty => "CRIT.THIRD.PARTY",
            Symbol::CritUnclassified => "CRIT.UNCLASSIFIED",
        }
    }

    pub fn description(&self) -> (r: &'static str)
        ensures
            r@ == self.description_spec(),
    {
        match self {
            Symbol::OpsAppOpen => "Open an application window or first launcher action.",
            Symbol::OpsAppBrowse =>
                "Browse local or remote application content without destructive effects.",
            Symbol::OpsFileCreate => "Create a new file or directory in a scoped workspace.",
            Symbol::OpsFileEdit => "Modify a tracked file or text document in-place.",
            Symbol::OpsFileDeleteRecoverable =>
                "Delete a recoverable file or temporary artifact in a bounded scope.",
            Symbol::OpsTermRunLocal => "Run a local terminal command in a constrained user session.",
            Symbol::OpsInputHid =>
                "Inject a low-level keyboard or pointer event into a desktop session.",
            Symbol::CritIrreversible =>
                "Delete, wipe, or overwrite data in a way that cannot be easily reversed.",
            Symbol::CritSysSecurity =>
                "Affect system security, permissions, users, or service control settings.",
            Symbol::CritSecret => "Handle credentials, secrets, tokens, or private keys.",
            Symbol::CritEgress =>
                "Move sensitive data outside the local boundary or to an external sink.",
            Symbol::CritFinancial =>
                "Move money, make payment decisions, or trigger financial-side effects.",
            Symbol::CritThirdParty =>
                "Trigger external social, messaging, or third-party publication behavior.",
            Symbol::CritUnclassified =>
                "No recognized symbol matched; this command is treated as critical by default.",
        }
    }

    pub fn classification(&self) -> (r: SymbolClassification)
        ensures
            r == self.classification_spec(),
    {
        match self {
            Symbol::OpsAppOpen | Symbol::OpsAppBrowse | Symbol::OpsFileCreate | Symbol::OpsFileEdit
            | Symbol::OpsFileDeleteRecoverable | Symbol::OpsTermRunLocal | Symbol::OpsInputHid =>
                SymbolClassification::Delegable,
            _ => SymbolClassification::Critical,
        }
    }

    /// Every symbol, in table order.
    pub fn all() -> (r: [Symbol; 14])
        ensures
            r@ == Self::all_spec(),
    {
        let r = [
            Symbol::OpsAppOpen,
            Symbol::OpsAppBrowse,
            Symbol::OpsFileCreate,
            Symbol::OpsFileEdit,
            Symbol::OpsFileDeleteRecoverable,
            Symbol::OpsTermRunLocal,
            Symbol::OpsInputHid,
            Symbol::CritIrreversible,
            Symbol::CritSysSecurity,
            Symbol::CritSecret,
            Symbol::CritEgress,
            Symbol::CritFinancial,
            Symbol::CritThirdParty,
            Symbol::CritUnclassified,
        ];
        assert(r@ =~= Self::all_spec());
        r
    }

    /// The symbol whose literal name is `name`.
    pub fn from_literal(name: &str) -> (r: Option<Symbol>)
        ensures
            r == Self::named(name@),
    {
        let n = chars_of(name);
        Self::from_literal_chars(&n)
    }

    pub fn from_literal_chars(name: &[char]) -> (r: Option<Symbol>)
        ensures
            r == Self::named(name@),
    {
        let table = Self::all();
        let mut i: usize = 0;
        while i < 14
            invariant
                i <= 14,
                table@ == Self::all_spec(),
                Self::named(name@) == Self::named_from(name@, i as int),
            decreases 14 - i,
        {
            let s = table[i];
            let lit = chars_of(s.literal_name());
            if chars_eq(&lit, name) {
                return Some(s);
            }
            i = i + 1;
        }
        None
    }

    /// Prefixes a trimmed command with this symbol's tag.
    pub fn with_tag(&self, command: &str) -> (r: String)
        ensures
            r@ == self.with_tag_spec(command@),
    {
        let trimmed = trim_str(command);
        let mut out: Vec<char> = Vec::new();
        push_str(&mut out, "[[AB:");
        push_str(&mut out, self.literal_name());
        push_str(&mut out, "]]");
        if trimmed.len() != 0 {
            push_str(&mut out, " ");
            push_chars(&mut out, &trimmed);
        }
        string_from_chars(&out)
    }

    /// Splits a tagged command into its symbol and the remaining command.
    ///
    /// A command without a well-formed tag naming a known symbol yields
    /// `CritUnclassified` and the command unchanged.
    pub fn extract_from_command(command: &str) -> (r: (Symbol, String))
        ensures
            r.0 == extract_spec(command@).0,
            r.1@ == extract_spec(command@).1,
    {
        let cs = chars_of(command);
        let (sym, rest) = Self::extract_from_chars(&cs);
        (sym, string_from_chars(&rest))
    }

    pub fn extract_from_chars(command: &[char]) -> (r: (Symbol, Vec<char>))
        ensures
            r.0 == extract_spec(command@).0,
            r.1@ == extract_spec(command@).1,
    {
        reveal(extract_spec);
        let t = trim_chars(command);
        let open = chars_of("[[AB:");
        let close = chars_of("]]");
        if !matches_at(&t, &open, 0) {
            return (Symbol::CritUnclassified, copy_chars(command));
        }
        let mut stripped: Vec<char> = Vec::new();
        let mut k: usize = open.len();
        while k < t.len()
            invariant
                open@.len() <= k <= t@.len(),
                stripped@ == t@.subrange(open@.len() as int, k as int),
            decreases t.len() - k,
        {
            stripped.push(t[k]);
            k = k + 1;
            assert(stripped@ =~= t@.subrange(open@.len() as int, k as int));
        }
        assert(stripped@ =~= t@.skip(open@.len() as int));
        match find_chars(&stripped, &close) {
            None => (Symbol::CritUnclassified, copy_chars(command)),
            Some(end) => {
                proof {
                    lemma_first_occurrence(stripped@, close@, end as int);
                }
                let mut head: Vec<char> = Vec::new();
                let mut i: usize = 0;
                while i < end
                    invariant
                        end + close@.len() <= stripped@.len(),
                        i <= end,
                        head@ == stripped@.take(i as int),
                    decreases end - i,
                {
                    head.push(stripped[i]);
                    i = i + 1;
                    assert(head@ =~= stripped@.take(i as int));
                }
                let mut tail: Vec<char> = Vec::new();
                let mut j: usize = end + close.len();
                while j < stripped.len()
                    invariant
                        end + close@.len() <= j <= stripped@.len(),
                        tail@ == stripped@.subrange(end + close@.len(), j as int),
                    decreases stripped.len() - j,
                {
                    tail.push(stripped[j]);
                    j = j + 1;
                    assert(tail@ =~= stripped@.subrange(end + close@.len(), j as int));
                }
                assert(tail@ =~= stripped@.skip(end + close@.len()));
                let name = trim_chars(&head);
                let remaining = trim_chars(&tail);
                match Self::from_literal_chars(&name) {
                    Some(sym) => (sym, remaining),
                    None => (Symbol::CritUnclassified, copy_chars(command)),
                }
            },
        }
    }
}

/// The first index at which `pat` occurs in `s`, when it occurs at all.
pub open spec fn first_occurrence(s: Seq<char>, pat: Seq<char>) -> int {
    choose|i: int| occurs_at(s, pat, i) && forall|j: int| 0 <= j < i ==> !occurs_at(s, pat, j)
}

pub proof fn lemma_first_occurrence(s: Seq<char>, pat: Seq<char>, i: int)
    requires
        occurs_at(s, pat, i),
        forall|j: int| 0 <= j < i ==> !occurs_at(s, pat, j),
    ensures
        first_occurrence(s, pat) == i,
{
    let k = first_occurrence(s, pat);
    assert(occurs_at(s, pat, k) && forall|j: int| 0 <= j < k ==> !occurs_at(s, pat, j));
    if k < i {
        assert(!occurs_at(s, pat, k));
    }
    if i < k {
        assert(!occurs_at(s, pat, i));
    }
}

/// What `Symbol::extract_from_command` returns for a command.
#[verifier::opaque]
pub open spec fn extract_spec(command: Seq<char>) -> (Symbol, Seq<char>) {
    let t = trim(command);
    if !starts_with(t, tag_open()) {
        (Symbol::CritUnclassified, command)
    } else {
        let rest = t.skip(tag_open().len() as int);
        if !contains(rest, tag_close()) {
            (Symbol::CritUnclassified, command)
        } else {
            let end = first_occurrence(rest, tag_close());
            let name = trim(rest.take(end));
            let remaining = trim(rest.skip(end + tag_close().len()));
            match Symbol::named(name) {
                Some(sym) => (sym, remaining),
                None => (Symbol::CritUnclassified, command),
            }
        }
    }
}

/// A copy of a character slice.
pub fn copy_chars(s: &[char]) -> (r: Vec<char>)
    ensures
        r@ == s@,
{
    let mut r: Vec<char> = Vec::new();
    push_chars(&mut r, s);
    assert(r@ =~= s@);
    r
}

#[derive(Debug, Clone, PartialEq, Eq)]
pub struct SubChatOpenRequest {
    pub task_id: String,
    pub prompt: String,
    pub branch: String,
}

#[derive(Debug, Clone, PartialEq, Eq)]
pub struct ContextQuery {
    pub task_id: String,
}

#[derive(Debug, Clone, PartialEq, Eq)]
pub struct ContextResponse {
    pub task_id: String,
    pub include_master_context: bool,
}

#[derive(Debug, Clone, PartialEq, Eq)]
pub struct SubChatResult {
    pub task_id: String,
    pub result: String,
    pub status: String,
    pub call_index: u8,
}

impl SubChatResult {
    /// A field-for-field copy.
    pub fn copy(&self) -> (r: SubChatResult)
        ensures
            r == *self,
    {
        SubChatResult {
            task_id: self.task_id.clone(),
            result: self.result.clone(),
            status: self.status.clone(),
            call_index: self.call_index,
        }
    }
}

#[derive(Debug, Clone, PartialEq, Eq)]
pub struct ExecutionPlan {
    pub task_id: String,
    pub description: String,
    pub commands: Vec<String>,
}

impl View for ExecutionPlan {
    /// Task id, description, and commands.
    type V = (Seq<char>, Seq<char>, Seq<Seq<char>>);

    open spec fn view(&self) -> Self::V {
        (self.task_id@, self.description@, self.command_seqs())
    }
}

impl ExecutionPlan {
    /// The commands of the plan, each as a character sequence.
    pub open spec fn command_seqs(self) -> Seq<Seq<char>> {
        self.commands@.map_values(|c: String| c@)
    }

    /// A field-for-field copy.
    pub fn copy(&self) -> (r: ExecutionPlan)
        ensures
            r@ == self@,
    {
        let r = ExecutionPlan {
            task_id: self.task_id.clone(),
            description: self.description.clone(),
            commands: copy_strings(&self.commands),
        };
        assert(r.command_seqs() =~= self.command_seqs());
        r
    }
}

#[derive(Debug, Clone, PartialEq, Eq)]
pub enum MaestroMessage {
    ExecutionPlan(ExecutionPlan),
    TaskQuery(TaskQuery),
}

#[derive(Debug, Clone, PartialEq, Eq)]
pub struct TaskQuery {
    pub task_id: String,
}

#[derive(Debug, Clone, PartialEq, Eq)]
pub struct TaskSubmitAck {
    pub task_id: String,
}

#[derive(Debug, Clone, PartialEq, Eq)]
pub struct ExecutionOutcome {
    pub stdout: String,
    pub stderr: String,
    pub exit_code: i32,
    pub success: bool,
}

impl ExecutionOutcome {
    /// A field-for-field copy.
    pub fn copy(&self) -> (r: ExecutionOutcome)
        ensures
            r == *self,
    {
        ExecutionOutcome {
            stdout: self.stdout.clone(),
            stderr: self.stderr.clone(),
            exit_code: self.exit_code,
            success: self.success,
        }
    }
}

#[derive(Debug, Clone, Copy, PartialEq, Eq, Structural)]
pub enum TaskStatus {
    Pending,
    DelegableAutoApproved,
    HeldForManualApproval,
    Executed,
    RejectedByOwner,
    ExecutionFailed,
}

#[derive(Debug, Clone, PartialEq, Eq)]
pub struct TaskQueryResult {
    pub task_id: String,
    pub status: TaskStatus,
    pub result: Option<ExecutionOutcome>,
}

#[derive(Debug, Clone, PartialEq, Eq)]
pub struct TaskResolved {
    pub task_id: String,
    pub approved: bool,
}

// ---------------------------------------------------------------------------
// Reading back a tag
// ---------------------------------------------------------------------------

/// The characters a symbol's literal name is made of.
pub open spec fn name_char(c: char) -> bool {
    ('A' <= c && c <= 'Z') || c == '.'
}

/// A non-empty sequence of name characters.
pub open spec fn is_name(s: Seq<char>) -> bool {
    s.len() > 0 && forall|i: int| 0 <= i < s.len() ==> name_char(#[trigger] s[i])
}

proof fn lemma_literal_names()
    ensures
        is_name("OPS.APP.OPEN"@),
        is_name("OPS.APP.BROWSE"@),
        is_name("OPS.FILE.CREATE"@),
        is_name("OPS.FILE.EDIT"@),
        is_name("OPS.FILE.DELETE.RECOVERABLE"@),
        is_name("OPS.TERM.RUN.LOCAL"@),
        is_name("OPS.INPUT.HID"@),
        is_name("CRIT.IRREVERSIBLE"@),
        is_name("CRIT.SYS.SECURITY"@),
        is_name("CRIT.SECRET"@),
        is_name("CRIT.EGRESS"@),
        is_name("CRIT.FINANCIAL"@),
        is_name("CRIT.THIRD.PARTY"@),
        is_name("CRIT.UNCLASSIFIED"@),
{
    assert(is_name("OPS.APP.OPEN"@)) by {
        reveal_strlit("OPS.APP.OPEN");
    }
    assert(is_name("OPS.APP.BROWSE"@)) by {
        reveal_strlit("OPS.APP.BROWSE");
    }
    assert(is_name("OPS.FILE.CREATE"@)) by {
        reveal_strlit("OPS.FILE.CREATE");
    }
    assert(is_name("OPS.FILE.EDIT"@)) by {
        reveal_strlit("OPS.FILE.EDIT");
    }
    assert(is_name("OPS.FILE.DELETE.RECOVERABLE"@)) by {
        reveal_strlit("OPS.FILE.DELETE.RECOVERABLE");
    }
    assert(is_name("OPS.TERM.RUN.LOCAL"@)) by {
        reveal_strlit("OPS.TERM.RUN.LOCAL");
    }
    assert(is_name("OPS.INPUT.HID"@)) by {
        reveal_strlit("OPS.INPUT.HID");
    }
    assert(is_name("CRIT.IRREVERSIBLE"@)) by {
        reveal_strlit("CRIT.IRREVERSIBLE");
    }
    assert(is_name("CRIT.SYS.SECURITY"@)) by {
        reveal_strlit("CRIT.SYS.SECURITY");
    }
    assert(is_name("CRIT.SECRET"@)) by {
        reveal_strlit("CRIT.SECRET");
    }
    assert(is_name("CRIT.EGRESS"@)) by {
        reveal_strlit("CRIT.EGRESS");
    }
    assert(is_name("CRIT.FINANCIAL"@)) by {
        reveal_strlit("CRIT.FINANCIAL");
    }
    assert(is_name("CRIT.THIRD.PARTY"@)) by {
        reveal_strlit("CRIT.THIRD.PARTY");
    }
    assert(is_name("CRIT.UNCLASSIFIED"@)) by {
        reveal_strlit("CRIT.UNCLASSIFIED");
    }
}

proof fn lemma_literal_is_name(sym: Symbol)
    ensures
        is_name(sym.literal_spec()),
{
    lemma_literal_names();
}

proof fn lemma_literal_injective(a: Symbol, b: Symbol)
    ensures
        a.literal_spec() == b.literal_spec() ==> a == b,
{
    reveal_strlit("OPS.APP.OPEN");
    reveal_strlit("OPS.APP.BROWSE");
    reveal_strlit("OPS.FILE.CREATE");
    reveal_strlit("OPS.FILE.EDIT");
    reveal_strlit("OPS.FILE.DELETE.RECOVERABLE");
    reveal_strlit("OPS.TERM.RUN.LOCAL");
    reveal_strlit("OPS.INPUT.HID");
    reveal_strlit("CRIT.IRREVERSIBLE");
    reveal_strlit("CRIT.SYS.SECURITY");
    reveal_strlit("CRIT.SECRET");
    reveal_strlit("CRIT.EGRESS");
    reveal_strlit("CRIT.FINANCIAL");
    reveal_strlit("CRIT.THIRD.PARTY");
    reveal_strlit("CRIT.UNCLASSIFIED");
    if a.literal_spec() == b.literal_spec() {
        let la = a.literal_spec();
        let lb = b.literal_spec();
        assert(la.len() == lb.len());
        assert(la[0] == lb[0]);
        assert(la[4] == lb[4]);
        assert(la[5] == lb[5]);
    }
}

spec fn table_pos(sym: Symbol) -> int {
    match sym {
        Symbol::OpsAppOpen => 0,
        Symbol::OpsAppBrowse => 1,
        Symbol::OpsFileCreate => 2,
        Symbol::OpsFileEdit => 3,
        Symbol::OpsFileDeleteRecoverable => 4,
        Symbol::OpsTermRunLocal => 5,
        Symbol::OpsInputHid => 6,
        Symbol::CritIrreversible => 7,
        Symbol::CritSysSecurity => 8,
        Symbol::CritSecret => 9,
        Symbol::CritEgress => 10,
        Symbol::CritFinancial => 11,
        Symbol::CritThirdParty => 12,
        Symbol::CritUnclassified => 13,
    }
}

proof fn lemma_named_from(sym: Symbol, i: int)
    requires
        0 <= i <= table_pos(sym),
    ensures
        Symbol::named_from(sym.literal_spec(), i) == Some(sym),
    decreases table_pos(sym) - i,
{
    assert(Symbol::all_spec()[table_pos(sym)] == sym);
    if i < table_pos(sym) {
        lemma_literal_injective(Symbol::all_spec()[i], sym);
        lemma_named_from(sym, i + 1);
    }
}

/// What follows the tag in a tagged command.
spec fn tag_tail(t: Seq<char>) -> Seq<char> {
    if t.len() == 0 {
        Seq::empty()
    } else {
        seq![' '] + t
    }
}

proof fn lemma_tagged_is_trimmed(sym: Symbol, command: Seq<char>)
    ensures
        sym.with_tag_spec(command) =~= tag_open() + (sym.literal_spec() + tag_close() + tag_tail(
            trim(command),
        )),
        trim(sym.with_tag_spec(command)) == sym.with_tag_spec(command),
        starts_with(sym.with_tag_spec(command), tag_open()),
{
    reveal_strlit("[[AB:");
    reveal_strlit("]]");
    reveal_strlit(" ");
    let t = trim(command);
    let w = sym.with_tag_spec(command);
    lemma_trim_edges(command);
    assert(w =~= tag_open() + (sym.literal_spec() + tag_close() + tag_tail(t)));
    assert(!is_ws(w[0]));
    assert(!is_ws(w.last())) by {
        if t.len() > 0 {
            assert(w.last() == t.last());
        } else {
            assert(w.last() == ']');
        }
    }
    lemma_trim_fixed(w);
    assert(w.subrange(0, 5) =~= tag_open());
}

proof fn lemma_close_after_name(lit: Seq<char>, tail: Seq<char>)
    requires
        is_name(lit),
    ensures
        contains(lit + tag_close() + tail, tag_close()),
        first_occurrence(lit + tag_close() + tail, tag_close()) == lit.len(),
{
    reveal_strlit("]]");
    let rest = lit + tag_close() + tail;
    let n = lit.len() as int;
    assert(occurs_at(rest, tag_close(), n)) by {
        assert(rest.subrange(n, n + 2) =~= tag_close());
    }
    assert forall|j: int| 0 <= j < n implies !occurs_at(rest, tag_close(), j) by {
        if occurs_at(rest, tag_close(), j) {
            assert(rest.subrange(j, j + 2)[0] == rest[j]);
            assert(rest[j] == lit[j]);
            assert(name_char(lit[j]));
        }
    }
    lemma_first_occurrence(rest, tag_close(), n);
}

/// A command tagged with a symbol by `with_tag` is read back by
/// `extract_from_command` as that symbol and the trimmed command: a plan
/// built from tagged rows is classified by the symbols it was tagged with.
pub proof fn lemma_tag_round_trip(sym: Symbol, command: Seq<char>)
    ensures
        extract_spec(sym.with_tag_spec(command)) == (sym, trim(command)),
{
    let lit = sym.literal_spec();
    let t = trim(command);
    let tail = tag_tail(t);
    let w = sym.with_tag_spec(command);
    let n = lit.len() as int;
    lemma_literal_is_name(sym);
    lemma_tagged_is_trimmed(sym, command);
    let rest = trim(w).skip(tag_open().len() as int);
    assert(rest =~= lit + tag_close() + tail);
    lemma_close_after_name(lit, tail);
    assert(first_occurrence(rest, tag_close()) == n);
    assert(trim(rest.take(n)) == lit) by {
        assert(rest.take(n) =~= lit);
        lemma_trim_fixed(lit);
    }
    assert(Symbol::named(lit) == Some(sym)) by {
        lemma_named_from(sym, 0);
    }
    assert(trim(rest.skip(n + tag_close().len())) == t) by {
        assert(rest.skip(n + tag_close().len()) =~= tail);
        lemma_trim_edges(command);
        lemma_trim_fixed(t);
        if t.len() > 0 {
            lemma_trim_after_space(t);
        }
    }
    reveal(extract_spec);
}

/// Every symbol's literal name reads back as that symbol.
pub proof fn lemma_literal_reads_back(sym: Symbol)
    ensures
        Symbol::named(sym.literal_spec()) == Some(sym),
{
    lemma_named_from(sym, 0);
}

proof fn lemma_named_from_none(name: Seq<char>, i: int)
    requires
        0 <= i,
        forall|s: Symbol| #[trigger] s.literal_spec() != name,
    ensures
        Symbol::named_from(name, i) is None,
    decreases 14 - i,
{
    if i < 14 {
        assert(Symbol::all_spec()[i].literal_spec() != name);
        lemma_named_from_none(name, i + 1);
    }
}

/// A name that is no symbol's literal name names no symbol.
pub proof fn lemma_unknown_name(name: Seq<char>)
    requires
        forall|s: Symbol| #[trigger] s.literal_spec() != name,
    ensures
        Symbol::named(name) is None,
{
    lemma_named_from_none(name, 0);
}

/// A command whose trimmed text does not start with a tag, has no closing
/// `]]`, or names no known symbol, is read as `CritUnclassified` and left
/// as it is.
pub proof fn lemma_untagged_is_unclassified(command: Seq<char>)
    ensures
        ({
            let t = trim(command);
            let rest = t.skip(tag_open().len() as int);
            ||| !starts_with(t, tag_open())
            ||| !contains(rest, tag_close())
            ||| Symbol::named(trim(rest.take(first_occurrence(rest, tag_close())))) is None
        }) ==> extract_spec(command) == (Symbol::CritUnclassified, command),
{
    reveal(extract_spec);
}

/// A symbol is critical exactly when its literal name starts with `CRIT.`.
pub proof fn lemma_critical_iff_crit_prefix(sym: Symbol)
    ensures
        sym.classification_spec() == SymbolClassification::Critical <==> starts_with(
            sym.literal_spec(),
            "CRIT."@,
        ),
{
    reveal_strlit("CRIT.");
    match sym {
        Symbol::OpsAppOpen => {
            reveal_strlit("OPS.APP.OPEN");
            assert("OPS.APP.OPEN"@.subrange(0, 5)[0] == "OPS.APP.OPEN"@[0]);
        },
        Symbol::OpsAppBrowse => {
            reveal_strlit("OPS.APP.BROWSE");
            assert("OPS.APP.BROWSE"@.subrange(0, 5)[0] == "OPS.APP.BROWSE"@[0]);
        },
        Symbol::OpsFileCreate => {
            reveal_strlit("OPS.FILE.CREATE");
            assert("OPS.FILE.CREATE"@.subrange(0, 5)[0] == "OPS.FILE.CREATE"@[0]);
        },
        Symbol::OpsFileEdit => {
            reveal_strlit("OPS.FILE.EDIT");
            assert("OPS.FILE.EDIT"@.subrange(0, 5)[0] == "OPS.FILE.EDIT"@[0]);
        },
        Symbol::OpsFileDeleteRecoverable => {
            reveal_strlit("OPS.FILE.DELETE.RECOVERABLE");
            assert("OPS.FILE.DELETE.RECOVERABLE"@.subrange(0, 5)[0] == "OPS.FILE.DELETE.RECOVERABLE"@[0]);
        },
        Symbol::OpsTermRunLocal => {
            reveal_strlit("OPS.TERM.RUN.LOCAL");
            assert("OPS.TERM.RUN.LOCAL"@.subrange(0, 5)[0] == "OPS.TERM.RUN.LOCAL"@[0]);
        },
        Symbol::OpsInputHid => {
            reveal_strlit("OPS.INPUT.HID");
            assert("OPS.INPUT.HID"@.subrange(0, 5)[0] == "OPS.INPUT.HID"@[0]);
        },
        Symbol::CritIrreversible => {
            reveal_strlit("CRIT.IRREVERSIBLE");
            assert("CRIT.IRREVERSIBLE"@.subrange(0, 5) =~= "CRIT."@);
        },
        Symbol::CritSysSecurity => {
            reveal_strlit("CRIT.SYS.SECURITY");
            assert("CRIT.SYS.SECURITY"@.subrange(0, 5) =~= "CRIT."@);
        },
        Symbol::CritSecret => {
            reveal_strlit("CRIT.SECRET");
            assert("CRIT.SECRET"@.subrange(0, 5) =~= "CRIT."@);
        },
        Symbol::CritEgress => {
            reveal_strlit("CRIT.EGRESS");
            assert("CRIT.EGRESS"@.subrange(0, 5) =~= "CRIT."@);
        },
        Symbol::CritFinancial => {
            reveal_strlit("CRIT.FINANCIAL");
            assert("CRIT.FINANCIAL"@.subrange(0, 5) =~= "CRIT."@);
        },
        Symbol::CritThirdParty => {
            reveal_strlit("CRIT.THIRD.PARTY");
            assert("CRIT.THIRD.PARTY"@.subrange(0, 5) =~= "CRIT."@);
        },
        Symbol::CritUnclassified => {
            reveal_strlit("CRIT.UNCLASSIFIED");
            assert("CRIT.UNCLASSIFIED"@.subrange(0, 5) =~= "CRIT."@);
        },
    }
}

} // verus!
