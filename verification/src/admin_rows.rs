//! The admin panel's editable rows and their conversion to and from the
//! admin configuration: argument lists are edited as comma-separated text,
//! pattern lists one per line.
use vstd::prelude::*;

use crate::admin_config::{
    AdminConfig, AllowlistEntry, BranchConfig, CriteriaPatternSet, PolicySymbolEntry,
    SocketDefinition, SymbolDefinition,
};
use crate::criteria::{
    evaluation_defined, evaluate_criteria_with_config, plan_eval, plan_summary, CriteriaPatterns,
    CriteriaSummary,
};
use crate::protocol::ExecutionPlan;
use crate::text::{chars_of, copy_strings, owned, push_chars, push_str, string_from_chars, strs, trim, trim_chars, trim_str};

verus! {

// ---------------------------------------------------------------------------
// Splitting and joining text
// ---------------------------------------------------------------------------

/// The pieces of `s` between occurrences of `c`, as `str::split` gives them.
pub open spec fn split_char(s: Seq<char>, c: char) -> Seq<Seq<char>>
    decreases s.len(),
{
    if s.len() == 0 {
        seq![Seq::empty()]
    } else {
        let rest = split_char(s.drop_last(), c);
        if s.last() == c {
            rest.push(Seq::empty())
        } else {
            rest.update(rest.len() - 1, rest.last().push(s.last()))
        }
    }
}

pub proof fn lemma_split_char_nonempty(s: Seq<char>, c: char)
    ensures
        split_char(s, c).len() >= 1,
    decreases s.len(),
{
    if s.len() > 0 {
        lemma_split_char_nonempty(s.drop_last(), c);
    }
}

/// The trimmed pieces that are not blank, in order.
pub open spec fn nonblank_trimmed(pieces: Seq<Seq<char>>) -> Seq<Seq<char>>
    decreases pieces.len(),
{
    if pieces.len() == 0 {
        Seq::empty()
    } else {
        let rest = nonblank_trimmed(pieces.drop_last());
        let t = trim(pieces.last());
        if t.len() > 0 {
            rest.push(t)
        } else {
            rest
        }
    }
}

/// The items of a list edited as text: the pieces between separators,
/// trimmed, blank ones dropped. (Splitting lines with `str::lines` instead of
/// at `'\n'` gives the same items: the two differ only in pieces that trim
/// to nothing or in a trailing `'\r'` that trimming removes.)
pub open spec fn items_spec(s: Seq<char>, sep: char) -> Seq<Seq<char>> {
    nonblank_trimmed(split_char(s, sep))
}

/// Splits `s` at `sep` into trimmed, non-blank items.
pub fn split_items(s: &str, sep: char) -> (r: Vec<String>)
    ensures
        strs(r) == items_spec(s@, sep),
{
    let cs = chars_of(s);
    let mut out: Vec<String> = Vec::new();
    let mut cur: Vec<char> = Vec::new();
    let ghost mut done: Seq<Seq<char>> = Seq::empty();
    let mut k: usize = 0;
    assert(cs@.take(0) =~= Seq::<char>::empty());
    assert(split_char(Seq::<char>::empty(), sep) =~= done.push(cur@));
    while k < cs.len()
        invariant
            k <= cs@.len(),
            cs@ == s@,
            split_char(cs@.take(k as int), sep) == done.push(cur@),
            strs(out) == nonblank_trimmed(done),
        decreases cs.len() - k,
    {
        let ch = cs[k];
        assert(cs@.take(k + 1).drop_last() =~= cs@.take(k as int));
        assert(cs@.take(k + 1).last() == ch);
        if ch == sep {
            let t = trim_chars(&cur);
            proof {
                assert(nonblank_trimmed(done.push(cur@)).len() >= 0);
                assert(done.push(cur@).drop_last() =~= done);
            }
            if t.len() > 0 {
                out.push(string_from_chars(&t));
                proof {
                    assert(strs(out) =~= nonblank_trimmed(done).push(t@));
                }
            }
            proof {
                done = done.push(cur@);
            }
            cur = Vec::new();
            proof {
                assert(split_char(cs@.take(k + 1), sep) =~= done.push(cur@));
            }
        } else {
            cur.push(ch);
            proof {
                assert(split_char(cs@.take(k + 1), sep) =~= done.push(cur@));
            }
        }
        k = k + 1;
    }
    assert(cs@.take(cs@.len() as int) =~= cs@);
    let t = trim_chars(&cur);
    proof {
        assert(done.push(cur@).drop_last() =~= done);
    }
    if t.len() > 0 {
        out.push(string_from_chars(&t));
        proof {
            assert(strs(out) =~= nonblank_trimmed(done).push(t@));
        }
    }
    out
}

/// The items joined with `sep` between them.
pub open spec fn join_spec(items: Seq<Seq<char>>, sep: Seq<char>) -> Seq<char>
    decreases items.len(),
{
    if items.len() == 0 {
        Seq::empty()
    } else if items.len() == 1 {
        items[0]
    } else {
        join_spec(items.drop_last(), sep) + sep + items.last()
    }
}

/// Joins the items with `sep` between them, as `[String]::join`.
pub fn join_items(items: &Vec<String>, sep: &str) -> (r: String)
    ensures
        r@ == join_spec(strs(*items), sep@),
{
    let mut out: Vec<char> = Vec::new();
    let mut i: usize = 0;
    while i < items.len()
        invariant
            i <= items@.len(),
            out@ == join_spec(strs(*items).take(i as int), sep@),
        decreases items.len() - i,
    {
        assert(strs(*items).take(i + 1).drop_last() =~= strs(*items).take(i as int));
        if i > 0 {
            push_str(&mut out, sep);
        }
        push_str(&mut out, items[i].as_str());
        proof {
            if i == 0 {
                assert(out@ =~= strs(*items).take(1)[0]);
            } else {
                assert(out@ =~= join_spec(strs(*items).take(i as int), sep@) + sep@ + strs(
                    *items,
                ).take(i + 1).last());
            }
        }
        i = i + 1;
    }
    assert(strs(*items).take(items@.len() as int) =~= strs(*items));
    string_from_chars(&out)
}

// ---------------------------------------------------------------------------
// Rows
// ---------------------------------------------------------------------------

#[derive(Debug, Clone, Copy, PartialEq, Eq, Structural)]
pub enum AdminTab {
    Allowlist,
    Symbols,
    Criteria,
    Sockets,
    Branches,
    AuditLog,
}

/// An executor allowlist entry being edited; arguments as comma-separated
/// text.
#[derive(Debug, Clone, PartialEq, Eq)]
pub struct ExecAllowlistRow {
    pub name: String,
    pub path: String,
    pub allowed: bool,
    pub args: String,
}

impl ExecAllowlistRow {
    pub fn from_binary(entry: &AllowlistEntry) -> (r: ExecAllowlistRow)
        ensures
            r.name@ == entry.name@,
            r.path@ == entry.path@,
            r.allowed == entry.allowed,
            r.args@ == join_spec(strs(entry.args), ", "@),
    {
        ExecAllowlistRow {
            name: entry.name.clone(),
            path: entry.path.clone(),
            allowed: entry.allowed,
            args: join_items(&entry.args, ", "),
        }
    }

    pub fn to_binary(&self) -> (e: AllowlistEntry)
        ensures
            e.name@ == self.name@,
            e.path@ == self.path@,
            e.allowed == self.allowed,
            strs(e.args) == items_spec(self.args@, ','),
    {
        AllowlistEntry {
            name: self.name.clone(),
            path: self.path.clone(),
            allowed: self.allowed,
            args: split_items(self.args.as_str(), ','),
        }
    }
}

#[derive(Debug, Clone, PartialEq, Eq)]
pub struct SymbolPolicyRow {
    pub name: String,
    pub description: String,
    pub classification: String,
    pub auto_approve_seconds: u64,
}

/// A criteria category being edited; one pattern per line.
#[derive(Debug, Clone, PartialEq, Eq)]
pub struct CriteriaRow {
    pub category: String,
    pub patterns_text: String,
}

impl CriteriaRow {
    pub fn from_set(set: &CriteriaPatternSet) -> (r: CriteriaRow)
        ensures
            r.category@ == set.category@,
            r.patterns_text@ == join_spec(strs(set.patterns), "\n"@),
    {
        CriteriaRow { category: set.category.clone(), patterns_text: join_items(&set.patterns, "\n") }
    }

    pub fn to_pattern_set(&self) -> (s: CriteriaPatternSet)
        ensures
            s.category@ == self.category@,
            strs(s.patterns) == items_spec(self.patterns_text@, '\n'),
    {
        CriteriaPatternSet {
            category: self.category.clone(),
            patterns: split_items(self.patterns_text.as_str(), '\n'),
        }
    }
}

#[derive(Debug, Clone, PartialEq, Eq)]
pub struct SocketRow {
    pub name: String,
    pub path: String,
    pub permissions: String,
}

#[derive(Debug, Clone, PartialEq, Eq)]
pub struct BranchRow {
    pub name: String,
    pub sub_chat_limit: usize,
    pub context_enabled: bool,
}

// ---------------------------------------------------------------------------
// Rows to configuration
// ---------------------------------------------------------------------------

pub open spec fn allowlist_from_rows(cfg: Seq<AllowlistEntry>, rows: Seq<ExecAllowlistRow>) -> bool {
    &&& cfg.len() == rows.len()
    &&& forall|i: int|
        0 <= i < rows.len() ==> (#[trigger] cfg[i]).name@ == rows[i].name@ && cfg[i].path@
            == rows[i].path@ && cfg[i].allowed == rows[i].allowed && strs(cfg[i].args) == items_spec(
            rows[i].args@,
            ',',
        )
}

pub open spec fn symbols_from_rows(cfg: Seq<SymbolDefinition>, rows: Seq<SymbolPolicyRow>) -> bool {
    &&& cfg.len() == rows.len()
    &&& forall|i: int|
        0 <= i < rows.len() ==> (#[trigger] cfg[i]).name@ == rows[i].name@ && cfg[i].classification@
            == rows[i].classification@ && cfg[i].description@ == rows[i].description@
}

pub open spec fn policy_from_rows(cfg: Seq<PolicySymbolEntry>, rows: Seq<SymbolPolicyRow>) -> bool {
    &&& cfg.len() == rows.len()
    &&& forall|i: int|
        0 <= i < rows.len() ==> (#[trigger] cfg[i]).symbol@ == rows[i].name@ && cfg[i].classification@
            == rows[i].classification@ && cfg[i].auto_approve_seconds == rows[i].auto_approve_seconds
}

pub open spec fn criteria_from_rows(cfg: Seq<CriteriaPatternSet>, rows: Seq<CriteriaRow>) -> bool {
    &&& cfg.len() == rows.len()
    &&& forall|i: int|
        0 <= i < rows.len() ==> (#[trigger] cfg[i]).category@ == rows[i].category@ && strs(
            cfg[i].patterns,
        ) == items_spec(rows[i].patterns_text@, '\n')
}

pub open spec fn sockets_from_rows(cfg: Seq<SocketDefinition>, rows: Seq<SocketRow>) -> bool {
    &&& cfg.len() == rows.len()
    &&& forall|i: int|
        0 <= i < rows.len() ==> (#[trigger] cfg[i]).name@ == rows[i].name@ && cfg[i].path@
            == rows[i].path@ && cfg[i].permissions@ == rows[i].permissions@
}

pub open spec fn branches_from_rows(cfg: Seq<BranchConfig>, rows: Seq<BranchRow>) -> bool {
    &&& cfg.len() == rows.len()
    &&& forall|i: int|
        0 <= i < rows.len() ==> (#[trigger] cfg[i]).name@ == rows[i].name@ && cfg[i].sub_chat_limit
            == rows[i].sub_chat_limit && cfg[i].context_enabled == rows[i].context_enabled
}

pub fn allowlist_entries(rows: &Vec<ExecAllowlistRow>) -> (r: Vec<AllowlistEntry>)
    ensures
        allowlist_from_rows(r@, rows@),
{
    let mut r: Vec<AllowlistEntry> = Vec::new();
    let mut i: usize = 0;
    while i < rows.len()
        invariant
            i <= rows@.len(),
            allowlist_from_rows(r@, rows@.take(i as int)),
        decreases rows.len() - i,
    {
        r.push(rows[i].to_binary());
        i = i + 1;
    }
    assert(rows@.take(rows@.len() as int) =~= rows@);
    r
}

pub fn symbol_definitions(rows: &Vec<SymbolPolicyRow>) -> (r: Vec<SymbolDefinition>)
    ensures
        symbols_from_rows(r@, rows@),
{
    let mut r: Vec<SymbolDefinition> = Vec::new();
    let mut i: usize = 0;
    while i < rows.len()
        invariant
            i <= rows@.len(),
            symbols_from_rows(r@, rows@.take(i as int)),
        decreases rows.len() - i,
    {
        let row = &rows[i];
        r.push(
            SymbolDefinition {
                name: row.name.clone(),
                classification: row.classification.clone(),
                description: row.description.clone(),
            },
        );
        i = i + 1;
    }
    assert(rows@.take(rows@.len() as int) =~= rows@);
    r
}

pub fn policy_entries(rows: &Vec<SymbolPolicyRow>) -> (r: Vec<PolicySymbolEntry>)
    ensures
        policy_from_rows(r@, rows@),
{
    let mut r: Vec<PolicySymbolEntry> = Vec::new();
    let mut i: usize = 0;
    while i < rows.len()
        invariant
            i <= rows@.len(),
            policy_from_rows(r@, rows@.take(i as int)),
        decreases rows.len() - i,
    {
        let row = &rows[i];
        r.push(
            PolicySymbolEntry {
                symbol: row.name.clone(),
                classification: row.classification.clone(),
                auto_approve_seconds: row.auto_approve_seconds,
            },
        );
        i = i + 1;
    }
    assert(rows@.take(rows@.len() as int) =~= rows@);
    r
}

pub fn criteria_sets(rows: &Vec<CriteriaRow>) -> (r: Vec<CriteriaPatternSet>)
    ensures
        criteria_from_rows(r@, rows@),
{
    let mut r: Vec<CriteriaPatternSet> = Vec::new();
    let mut i: usize = 0;
    while i < rows.len()
        invariant
            i <= rows@.len(),
            criteria_from_rows(r@, rows@.take(i as int)),
        decreases rows.len() - i,
    {
        r.push(rows[i].to_pattern_set());
        i = i + 1;
    }
    assert(rows@.take(rows@.len() as int) =~= rows@);
    r
}

pub fn socket_definitions(rows: &Vec<SocketRow>) -> (r: Vec<SocketDefinition>)
    ensures
        sockets_from_rows(r@, rows@),
{
    let mut r: Vec<SocketDefinition> = Vec::new();
    let mut i: usize = 0;
    while i < rows.len()
        invariant
            i <= rows@.len(),
            sockets_from_rows(r@, rows@.take(i as int)),
        decreases rows.len() - i,
    {
        let row = &rows[i];
        r.push(
            SocketDefinition {
                name: row.name.clone(),
                path: row.path.clone(),
                permissions: row.permissions.clone(),
            },
        );
        i = i + 1;
    }
    assert(rows@.take(rows@.len() as int) =~= rows@);
    r
}

pub fn branch_configs(rows: &Vec<BranchRow>) -> (r: Vec<BranchConfig>)
    ensures
        branches_from_rows(r@, rows@),
{
    let mut r: Vec<BranchConfig> = Vec::new();
    let mut i: usize = 0;
    while i < rows.len()
        invariant
            i <= rows@.len(),
            branches_from_rows(r@, rows@.take(i as int)),
        decreases rows.len() - i,
    {
        let row = &rows[i];
        r.push(
            BranchConfig {
                name: row.name.clone(),
                sub_chat_limit: row.sub_chat_limit,
                context_enabled: row.context_enabled,
            },
        );
        i = i + 1;
    }
    assert(rows@.take(rows@.len() as int) =~= rows@);
    r
}

/// The admin configuration that the rows of every section describe (with
/// no audit entries), as checked before a save.
pub fn build_admin_config_from_rows(
    exec: &Vec<ExecAllowlistRow>,
    sp: &Vec<SymbolPolicyRow>,
    cr: &Vec<CriteriaRow>,
    so: &Vec<SocketRow>,
    br: &Vec<BranchRow>,
) -> (c: AdminConfig)
    ensures
        allowlist_from_rows(c.allowlist@, exec@),
        symbols_from_rows(c.symbols@, sp@),
        policy_from_rows(c.policy@, sp@),
        criteria_from_rows(c.criteria@, cr@),
        sockets_from_rows(c.sockets@, so@),
        branches_from_rows(c.branches@, br@),
        c.audit@.len() == 0,
{
    AdminConfig {
        allowlist: allowlist_entries(exec),
        symbols: symbol_definitions(sp),
        policy: policy_entries(sp),
        criteria: criteria_sets(cr),
        sockets: socket_definitions(so),
        branches: branch_configs(br),
        audit: Vec::new(),
    }
}

/// An admin configuration with only the given sections filled.
fn config_with(
    symbols: Vec<SymbolDefinition>,
    policy: Vec<PolicySymbolEntry>,
    criteria: Vec<CriteriaPatternSet>,
    sockets: Vec<SocketDefinition>,
    branches: Vec<BranchConfig>,
) -> (c: AdminConfig)
    ensures
        c.allowlist@.len() == 0,
        c.symbols == symbols,
        c.policy == policy,
        c.criteria == criteria,
        c.sockets == sockets,
        c.branches == branches,
        c.audit@.len() == 0,
{
    AdminConfig { allowlist: Vec::new(), symbols, policy, criteria, sockets, branches, audit: Vec::new() }
}

/// The configuration saved from the symbol policy rows: a symbol definition
/// and a policy entry per row.
pub fn symbol_policy_config(rows: &Vec<SymbolPolicyRow>) -> (c: AdminConfig)
    ensures
        c.allowlist@.len() == 0,
        symbols_from_rows(c.symbols@, rows@),
        policy_from_rows(c.policy@, rows@),
        c.criteria@.len() == 0,
        c.sockets@.len() == 0,
        c.branches@.len() == 0,
        c.audit@.len() == 0,
{
    config_with(symbol_definitions(rows), policy_entries(rows), Vec::new(), Vec::new(), Vec::new())
}

/// The configuration saved from the criteria rows.
pub fn criteria_config(rows: &Vec<CriteriaRow>) -> (c: AdminConfig)
    ensures
        c.allowlist@.len() == 0,
        c.symbols@.len() == 0,
        c.policy@.len() == 0,
        criteria_from_rows(c.criteria@, rows@),
        c.sockets@.len() == 0,
        c.branches@.len() == 0,
        c.audit@.len() == 0,
{
    config_with(Vec::new(), Vec::new(), criteria_sets(rows), Vec::new(), Vec::new())
}

/// The configuration saved from the socket rows.
pub fn sockets_config(rows: &Vec<SocketRow>) -> (c: AdminConfig)
    ensures
        c.allowlist@.len() == 0,
        c.symbols@.len() == 0,
        c.policy@.len() == 0,
        c.criteria@.len() == 0,
        sockets_from_rows(c.sockets@, rows@),
        c.branches@.len() == 0,
        c.audit@.len() == 0,
{
    config_with(Vec::new(), Vec::new(), Vec::new(), socket_definitions(rows), Vec::new())
}

/// The configuration saved from the branch rows.
pub fn branches_config(rows: &Vec<BranchRow>) -> (c: AdminConfig)
    ensures
        c.allowlist@.len() == 0,
        c.symbols@.len() == 0,
        c.policy@.len() == 0,
        c.criteria@.len() == 0,
        c.sockets@.len() == 0,
        branches_from_rows(c.branches@, rows@),
        c.audit@.len() == 0,
{
    config_with(Vec::new(), Vec::new(), Vec::new(), Vec::new(), branch_configs(rows))
}

// ---------------------------------------------------------------------------
// Configuration to rows
// ---------------------------------------------------------------------------

/// The position of the first symbol definition named `name`, or -1.
pub open spec fn symbol_index(symbols: Seq<SymbolDefinition>, name: Seq<char>) -> int
    decreases symbols.len(),
{
    if symbols.len() == 0 {
        -1
    } else if symbols[0].name@ == name {
        0
    } else {
        let r = symbol_index(symbols.drop_first(), name);
        if r < 0 {
            -1
        } else {
            r + 1
        }
    }
}

pub proof fn lemma_symbol_index(symbols: Seq<SymbolDefinition>, name: Seq<char>)
    ensures
        -1 <= symbol_index(symbols, name) < symbols.len(),
        symbol_index(symbols, name) >= 0 ==> symbols[symbol_index(symbols, name)].name@ == name,
        forall|j: int|
            0 <= j < symbols.len() && (symbol_index(symbols, name) == -1 || j < symbol_index(
                symbols,
                name,
            )) ==> (#[trigger] symbols[j]).name@ != name,
    decreases symbols.len(),
{
    if symbols.len() > 0 && symbols[0].name@ != name {
        lemma_symbol_index(symbols.drop_first(), name);
        assert forall|j: int| 0 < j < symbols.len() implies symbols[j] == symbols.drop_first()[j - 1] by {}
    }
}

/// The description shown for a policy entry: that of the first symbol
/// definition with its name, or empty.
pub open spec fn description_for(symbols: Seq<SymbolDefinition>, name: Seq<char>) -> Seq<char> {
    let k = symbol_index(symbols, name);
    if k >= 0 {
        symbols[k].description@
    } else {
        Seq::empty()
    }
}

fn description_of(symbols: &Vec<SymbolDefinition>, name: &str) -> (d: String)
    ensures
        d@ == description_for(symbols@, name@),
{
    proof {
        lemma_symbol_index(symbols@, name@);
    }
    let mut i: usize = 0;
    while i < symbols.len()
        invariant
            i <= symbols@.len(),
            forall|j: int| 0 <= j < i ==> (#[trigger] symbols@[j]).name@ != name@,
            -1 <= symbol_index(symbols@, name@) < symbols@.len(),
            symbol_index(symbols@, name@) >= 0 ==> symbols@[symbol_index(symbols@, name@)].name@
                == name@,
            forall|j: int|
                0 <= j < symbols@.len() && (symbol_index(symbols@, name@) == -1 || j < symbol_index(
                    symbols@,
                    name@,
                )) ==> (#[trigger] symbols@[j]).name@ != name@,
        decreases symbols.len() - i,
    {
        if crate::text::str_eq(symbols[i].name.as_str(), name) {
            proof {
                let k = symbol_index(symbols@, name@);
                if k >= 0 && k < i {
                    assert(symbols@[k].name@ != name@);
                }
            }
            return symbols[i].description.clone();
        }
        i = i + 1;
    }
    String::new()
}

/// The symbol policy rows of a configuration: one per policy entry, with
/// the description of its symbol.
pub fn symbol_policy_rows(config: &AdminConfig) -> (r: Vec<SymbolPolicyRow>)
    ensures
        r@.len() == config.policy@.len(),
        forall|i: int|
            0 <= i < r@.len() ==> (#[trigger] r@[i]).name@ == config.policy@[i].symbol@
                && r@[i].classification@ == config.policy@[i].classification@
                && r@[i].auto_approve_seconds == config.policy@[i].auto_approve_seconds
                && r@[i].description@ == description_for(config.symbols@, config.policy@[i].symbol@),
{
    let mut r: Vec<SymbolPolicyRow> = Vec::new();
    let mut i: usize = 0;
    while i < config.policy.len()
        invariant
            i <= config.policy@.len(),
            r@.len() == i,
            forall|j: int|
                0 <= j < i ==> (#[trigger] r@[j]).name@ == config.policy@[j].symbol@
                    && r@[j].classification@ == config.policy@[j].classification@
                    && r@[j].auto_approve_seconds == config.policy@[j].auto_approve_seconds
                    && r@[j].description@ == description_for(config.symbols@, config.policy@[j].symbol@),
        decreases config.policy.len() - i,
    {
        let p = &config.policy[i];
        r.push(
            SymbolPolicyRow {
                name: p.symbol.clone(),
                description: description_of(&config.symbols, p.symbol.as_str()),
                classification: p.classification.clone(),
                auto_approve_seconds: p.auto_approve_seconds,
            },
        );
        i = i + 1;
    }
    r
}

/// The criteria rows of a configuration: one per pattern set.
pub fn criteria_rows(config: &AdminConfig) -> (r: Vec<CriteriaRow>)
    ensures
        r@.len() == config.criteria@.len(),
        forall|i: int|
            0 <= i < r@.len() ==> (#[trigger] r@[i]).category@ == config.criteria@[i].category@
                && r@[i].patterns_text@ == join_spec(strs(config.criteria@[i].patterns), "\n"@),
{
    let mut r: Vec<CriteriaRow> = Vec::new();
    let mut i: usize = 0;
    while i < config.criteria.len()
        invariant
            i <= config.criteria@.len(),
            r@.len() == i,
            forall|j: int|
                0 <= j < i ==> (#[trigger] r@[j]).category@ == config.criteria@[j].category@
                    && r@[j].patterns_text@ == join_spec(strs(config.criteria@[j].patterns), "\n"@),
        decreases config.criteria.len() - i,
    {
        r.push(CriteriaRow::from_set(&config.criteria[i]));
        i = i + 1;
    }
    r
}

// ---------------------------------------------------------------------------
// Live test of a command
// ---------------------------------------------------------------------------

/// The one-command plan used to test a command against edited criteria.
pub open spec fn test_plan_commands(command: Seq<char>) -> Seq<Seq<char>> {
    seq![command]
}

/// The criteria configuration the edited rows describe.
pub open spec fn rows_patterns(rows: Seq<CriteriaRow>, sets: Seq<CriteriaPatternSet>) -> bool {
    criteria_from_rows(sets, rows)
}

fn test_plan(command: &str) -> (p: ExecutionPlan)
    ensures
        p.command_seqs() == test_plan_commands(command@),
        p.task_id@ == "test"@,
        p.description@ == "UI live test"@,
{
    let mut commands: Vec<String> = Vec::new();
    commands.push(owned(command));
    let p = ExecutionPlan { task_id: owned("test"), description: owned("UI live test"), commands };
    assert(p.command_seqs() =~= test_plan_commands(command@));
    p
}

/// Evaluates a test command against the criteria rows (the shipped defaults
/// with the edited categories replaced); `None` for a blank command. Every
/// pattern the scan reaches must compile.
pub fn run_test_command(rows: &Vec<CriteriaRow>, command: &str) -> (r: Option<CriteriaSummary>)
    requires
        trim(command@).len() > 0 ==> forall|sets: Seq<CriteriaPatternSet>|
            #![trigger criteria_from_rows(sets, rows@)]
            criteria_from_rows(sets, rows@) ==> plan_eval(
                test_plan_commands(command@),
                crate::admin_config::apply_sets(crate::criteria::default_patterns_spec(), sets),
            ) is Some,
    ensures
        trim(command@).len() == 0 ==> r is None,
        trim(command@).len() > 0 ==> (r matches Some(s) && exists|sets: Seq<CriteriaPatternSet>|
            #![trigger criteria_from_rows(sets, rows@)]
            criteria_from_rows(sets, rows@) && s@ == plan_summary(
                test_plan_commands(command@),
                crate::admin_config::apply_sets(crate::criteria::default_patterns_spec(), sets),
            )),
{
    if trim_str(command).len() == 0 {
        return None;
    }
    let config = criteria_config(rows);
    let cc = config.to_criteria_config();
    let plan = test_plan(command);
    assert(criteria_from_rows(config.criteria@, rows@));
    Some(evaluate_criteria_with_config(&plan, &cc))
}

/// Evaluates a test command when that evaluation is defined: `Some(r)` with
/// `r` as `run_test_command` gives it, `None` when a pattern the scan reaches
/// does not compile.
pub fn try_run_test_command(rows: &Vec<CriteriaRow>, command: &str) -> (r: Option<Option<CriteriaSummary>>)
    ensures
        trim(command@).len() == 0 ==> r == Some(None::<CriteriaSummary>),
        r matches Some(inner) ==> (inner is None <==> trim(command@).len() == 0),
        trim(command@).len() > 0 ==> (r is None <==> exists|sets: Seq<CriteriaPatternSet>|
            #![trigger criteria_from_rows(sets, rows@)]
            criteria_from_rows(sets, rows@) && plan_eval(
                test_plan_commands(command@),
                crate::admin_config::apply_sets(crate::criteria::default_patterns_spec(), sets),
            ) is None),
        r matches Some(Some(s)) ==> exists|sets: Seq<CriteriaPatternSet>|
            #![trigger criteria_from_rows(sets, rows@)]
            criteria_from_rows(sets, rows@) && s@ == plan_summary(
                test_plan_commands(command@),
                crate::admin_config::apply_sets(crate::criteria::default_patterns_spec(), sets),
            ),
{
    if trim_str(command).len() == 0 {
        return Some(None);
    }
    let config = criteria_config(rows);
    let cc = config.to_criteria_config();
    let plan = test_plan(command);
    proof {
        lemma_rows_determine_sets(rows@);
    }
    if evaluation_defined(&plan, &cc) {
        Some(run_test_command(rows, command))
    } else {
        None
    }
}

/// Rows determine the pattern sets they describe, up to what the criteria
/// evaluation reads.
pub proof fn lemma_rows_determine_sets(rows: Seq<CriteriaRow>)
    ensures
        forall|a: Seq<CriteriaPatternSet>, b: Seq<CriteriaPatternSet>|
            #![trigger criteria_from_rows(a, rows), criteria_from_rows(b, rows)]
            criteria_from_rows(a, rows) && criteria_from_rows(b, rows) ==> crate::admin_config::apply_sets(
                crate::criteria::default_patterns_spec(),
                a,
            ) == crate::admin_config::apply_sets(crate::criteria::default_patterns_spec(), b),
{
    assert forall|a: Seq<CriteriaPatternSet>, b: Seq<CriteriaPatternSet>|
        #![trigger criteria_from_rows(a, rows), criteria_from_rows(b, rows)]
        criteria_from_rows(a, rows) && criteria_from_rows(b, rows) implies crate::admin_config::apply_sets(
            crate::criteria::default_patterns_spec(),
            a,
        ) == crate::admin_config::apply_sets(crate::criteria::default_patterns_spec(), b) by {
        lemma_same_sets_apply(crate::criteria::default_patterns_spec(), a, b);
    }
}

proof fn lemma_same_sets_apply(cfg: CriteriaPatterns, a: Seq<CriteriaPatternSet>, b: Seq<CriteriaPatternSet>)
    requires
        a.len() == b.len(),
        forall|i: int|
            0 <= i < a.len() ==> (#[trigger] a[i]).category@ == b[i].category@ && strs(a[i].patterns)
                == strs(b[i].patterns),
    ensures
        crate::admin_config::apply_sets(cfg, a) == crate::admin_config::apply_sets(cfg, b),
    decreases a.len(),
{
    if a.len() > 0 {
        lemma_same_sets_apply(cfg, a.drop_last(), b.drop_last());
        assert(a.last().category@ == b.last().category@);
    }
}

} // verus!
