//! The admin panel's state: the rows of each configuration section being
//! edited, which sections have unsaved edits, the confirmation asked for a
//! change that lowers the security posture, and the audit entries of the
//! saves made. Reading and writing files is left to the caller: it hands
//! in what it read and writes what a save returns.
use vstd::prelude::*;

use crate::admin_config::{AdminConfig, AllowlistEntry};
use crate::admin_rows::{
    allowlist_from_rows, branches_config, branches_from_rows, criteria_config, criteria_from_rows,
    criteria_rows, join_spec, policy_from_rows, sockets_config, sockets_from_rows, symbol_policy_config,
    symbol_policy_rows, symbols_from_rows, allowlist_entries, description_for, try_run_test_command,
    test_plan_commands, AdminTab, BranchRow, CriteriaRow, ExecAllowlistRow, SocketRow, SymbolPolicyRow,
};
use crate::audit::AuditEntry;
use crate::criteria::{plan_summary, CriteriaSummary};
use crate::messages::validation_message;
use crate::text::{chars_of, owned, push_str, starts_with, starts_with_str, string_from_chars, strs, trim};

verus! {

/// A configuration section that can be saved.
#[derive(Debug, Clone, Copy, PartialEq, Eq, Structural)]
pub enum SaveTarget {
    ExecAllowlist,
    SymbolPolicy,
    Criteria,
    Sockets,
    Branches,
}

/// A save held back until the owner confirms it.
#[derive(Debug, Clone, PartialEq, Eq)]
pub struct ConfirmDialog {
    pub message: String,
    pub action: SaveTarget,
}

/// The admin panel.
#[derive(Debug, Clone)]
pub struct AdminPanel {
    pub active_tab: AdminTab,
    pub config_root: String,
    pub exec_allowlist: Vec<ExecAllowlistRow>,
    pub exec_allowlist_dirty: bool,
    pub symbol_policy: Vec<SymbolPolicyRow>,
    pub symbol_policy_dirty: bool,
    pub criteria: Vec<CriteriaRow>,
    pub criteria_dirty: bool,
    pub test_command: String,
    pub test_result: Option<CriteriaSummary>,
    pub sockets: Vec<SocketRow>,
    pub sockets_dirty: bool,
    pub branches: Vec<BranchRow>,
    pub branches_dirty: bool,
    pub audit_entries: Vec<AuditEntry>,
    pub status_message: String,
    pub confirm_dialog: Option<ConfirmDialog>,
    /// The section whose security-lowering change the owner confirmed and
    /// that has not been recorded as saved yet.
    pub confirmed_lowering: Option<SaveTarget>,
}

/// What was read from disk for each section; `None` where the file could
/// not be read or parsed.
pub struct LoadedSections {
    pub exec_allowlist: Option<Vec<AllowlistEntry>>,
    pub symbol_policy: Option<AdminConfig>,
    pub criteria: Option<AdminConfig>,
    pub sockets: Option<AdminConfig>,
    pub branches: Option<AdminConfig>,
    pub audit: Vec<AuditEntry>,
}

// ---------------------------------------------------------------------------
// Texts
// ---------------------------------------------------------------------------

/// The file each section is saved to, under the configuration root.
pub open spec fn section_file(t: SaveTarget) -> Seq<char> {
    match t {
        SaveTarget::ExecAllowlist => "executor_allowlist.toml"@,
        SaveTarget::SymbolPolicy => "symbol_policy.toml"@,
        SaveTarget::Criteria => "criteria.toml"@,
        SaveTarget::Sockets => "sockets.toml"@,
        SaveTarget::Branches => "branches.toml"@,
    }
}

/// The audit action recorded for a save of each section.
pub open spec fn save_action(t: SaveTarget) -> Seq<char> {
    match t {
        SaveTarget::ExecAllowlist => "allowlist.save"@,
        SaveTarget::SymbolPolicy => "symbol_policy.save"@,
        SaveTarget::Criteria => "criteria.save"@,
        SaveTarget::Sockets => "sockets.save"@,
        SaveTarget::Branches => "branches.save"@,
    }
}

/// The status shown after a section was saved.
pub open spec fn saved_message(t: SaveTarget) -> Seq<char> {
    match t {
        SaveTarget::ExecAllowlist => "Executor allowlist saved."@,
        SaveTarget::SymbolPolicy => "Symbol policy saved. Daemon restart required."@,
        SaveTarget::Criteria => "Criteria patterns saved. Daemon restart required."@,
        SaveTarget::Sockets => "Sockets config saved. Daemon restart required."@,
        SaveTarget::Branches => "Branch config saved. Daemon restart required."@,
    }
}

/// The question asked before a save that lowers the security posture.
pub open spec fn dialog_message(t: SaveTarget) -> Seq<char> {
    if t is Sockets {
        "This change removes a socket definition, which may reduce the monitored attack surface. Proceed?"@
    } else {
        "This change lowers the security posture (e.g. reclassifying a critical symbol or enabling auto-approval for critical symbols). Are you sure you want to proceed? This will be recorded in the audit log."@
    }
}

pub fn section_file_name(t: SaveTarget) -> (s: &'static str)
    ensures
        s@ == section_file(t),
{
    match t {
        SaveTarget::ExecAllowlist => "executor_allowlist.toml",
        SaveTarget::SymbolPolicy => "symbol_policy.toml",
        SaveTarget::Criteria => "criteria.toml",
        SaveTarget::Sockets => "sockets.toml",
        SaveTarget::Branches => "branches.toml",
    }
}

fn save_action_text(t: SaveTarget) -> (s: &'static str)
    ensures
        s@ == save_action(t),
{
    match t {
        SaveTarget::ExecAllowlist => "allowlist.save",
        SaveTarget::SymbolPolicy => "symbol_policy.save",
        SaveTarget::Criteria => "criteria.save",
        SaveTarget::Sockets => "sockets.save",
        SaveTarget::Branches => "branches.save",
    }
}

fn saved_message_text(t: SaveTarget) -> (s: &'static str)
    ensures
        s@ == saved_message(t),
{
    match t {
        SaveTarget::ExecAllowlist => "Executor allowlist saved.",
        SaveTarget::SymbolPolicy => "Symbol policy saved. Daemon restart required.",
        SaveTarget::Criteria => "Criteria patterns saved. Daemon restart required.",
        SaveTarget::Sockets => "Sockets config saved. Daemon restart required.",
        SaveTarget::Branches => "Branch config saved. Daemon restart required.",
    }
}

fn dialog_message_text(t: SaveTarget) -> (s: &'static str)
    ensures
        s@ == dialog_message(t),
{
    if let SaveTarget::Sockets = t {
        "This change removes a socket definition, which may reduce the monitored attack surface. Proceed?"
    } else {
        "This change lowers the security posture (e.g. reclassifying a critical symbol or enabling auto-approval for critical symbols). Are you sure you want to proceed? This will be recorded in the audit log."
    }
}

/// `prefix` followed by `s`, as a new string.
fn prefixed(prefix: &str, s: &str) -> (r: String)
    ensures
        r@ == prefix@ + s@,
{
    let mut out: Vec<char> = Vec::new();
    push_str(&mut out, prefix);
    push_str(&mut out, s);
    string_from_chars(&out)
}

/// `prefix`, `s` and `suffix` in a row, as a new string.
fn framed(prefix: &str, s: &str, suffix: &str) -> (r: String)
    ensures
        r@ == prefix@ + s@ + suffix@,
{
    let mut out: Vec<char> = Vec::new();
    push_str(&mut out, prefix);
    push_str(&mut out, s);
    push_str(&mut out, suffix);
    string_from_chars(&out)
}

// ---------------------------------------------------------------------------
// Rows read from configuration
// ---------------------------------------------------------------------------

/// The allowlist rows shown for the entries of a file.
pub open spec fn exec_rows_of(rows: Seq<ExecAllowlistRow>, entries: Seq<AllowlistEntry>) -> bool {
    &&& rows.len() == entries.len()
    &&& forall|i: int|
        0 <= i < rows.len() ==> (#[trigger] rows[i]).name@ == entries[i].name@ && rows[i].path@
            == entries[i].path@ && rows[i].allowed == entries[i].allowed && rows[i].args@ == join_spec(
            strs(entries[i].args),
            ", "@,
        )
}

/// The symbol policy rows shown for a configuration.
pub open spec fn symbol_rows_of(rows: Seq<SymbolPolicyRow>, c: AdminConfig) -> bool {
    &&& rows.len() == c.policy@.len()
    &&& forall|i: int|
        0 <= i < rows.len() ==> (#[trigger] rows[i]).name@ == c.policy@[i].symbol@
            && rows[i].classification@ == c.policy@[i].classification@ && rows[i].auto_approve_seconds
            == c.policy@[i].auto_approve_seconds && rows[i].description@ == description_for(
            c.symbols@,
            c.policy@[i].symbol@,
        )
}

/// The criteria rows shown for a configuration.
pub open spec fn criteria_rows_of(rows: Seq<CriteriaRow>, c: AdminConfig) -> bool {
    &&& rows.len() == c.criteria@.len()
    &&& forall|i: int|
        0 <= i < rows.len() ==> (#[trigger] rows[i]).category@ == c.criteria@[i].category@
            && rows[i].patterns_text@ == join_spec(strs(c.criteria@[i].patterns), "\n"@)
}

/// The socket rows shown for a configuration.
pub open spec fn socket_rows_of(rows: Seq<SocketRow>, c: AdminConfig) -> bool {
    &&& rows.len() == c.sockets@.len()
    &&& forall|i: int|
        0 <= i < rows.len() ==> (#[trigger] rows[i]).name@ == c.sockets@[i].name@ && rows[i].path@
            == c.sockets@[i].path@ && rows[i].permissions@ == c.sockets@[i].permissions@
}

/// The branch rows shown for a configuration.
pub open spec fn branch_rows_of(rows: Seq<BranchRow>, c: AdminConfig) -> bool {
    &&& rows.len() == c.branches@.len()
    &&& forall|i: int|
        0 <= i < rows.len() ==> (#[trigger] rows[i]).name@ == c.branches@[i].name@
            && rows[i].sub_chat_limit == c.branches@[i].sub_chat_limit && rows[i].context_enabled
            == c.branches@[i].context_enabled
}

fn exec_rows(entries: &Vec<AllowlistEntry>) -> (r: Vec<ExecAllowlistRow>)
    ensures
        exec_rows_of(r@, entries@),
{
    let mut r: Vec<ExecAllowlistRow> = Vec::new();
    let mut i: usize = 0;
    while i < entries.len()
        invariant
            i <= entries@.len(),
            r@.len() == i,
            forall|j: int|
                0 <= j < i ==> (#[trigger] r@[j]).name@ == entries@[j].name@ && r@[j].path@
                    == entries@[j].path@ && r@[j].allowed == entries@[j].allowed && r@[j].args@
                    == join_spec(strs(entries@[j].args), ", "@),
        decreases entries.len() - i,
    {
        r.push(ExecAllowlistRow::from_binary(&entries[i]));
        i = i + 1;
    }
    r
}

fn socket_rows(c: &AdminConfig) -> (r: Vec<SocketRow>)
    ensures
        socket_rows_of(r@, *c),
{
    let mut r: Vec<SocketRow> = Vec::new();
    let mut i: usize = 0;
    while i < c.sockets.len()
        invariant
            i <= c.sockets@.len(),
            r@.len() == i,
            forall|j: int|
                0 <= j < i ==> (#[trigger] r@[j]).name@ == c.sockets@[j].name@ && r@[j].path@
                    == c.sockets@[j].path@ && r@[j].permissions@ == c.sockets@[j].permissions@,
        decreases c.sockets.len() - i,
    {
        let s = &c.sockets[i];
        r.push(SocketRow { name: s.name.clone(), path: s.path.clone(), permissions: s.permissions.clone() });
        i = i + 1;
    }
    r
}

fn branch_rows(c: &AdminConfig) -> (r: Vec<BranchRow>)
    ensures
        branch_rows_of(r@, *c),
{
    let mut r: Vec<BranchRow> = Vec::new();
    let mut i: usize = 0;
    while i < c.branches.len()
        invariant
            i <= c.branches@.len(),
            r@.len() == i,
            forall|j: int|
                0 <= j < i ==> (#[trigger] r@[j]).name@ == c.branches@[j].name@ && r@[j].sub_chat_limit
                    == c.branches@[j].sub_chat_limit && r@[j].context_enabled
                    == c.branches@[j].context_enabled,
        decreases c.branches.len() - i,
    {
        let b = &c.branches[i];
        r.push(
            BranchRow {
                name: b.name.clone(),
                sub_chat_limit: b.sub_chat_limit,
                context_enabled: b.context_enabled,
            },
        );
        i = i + 1;
    }
    r
}

// ---------------------------------------------------------------------------
// The panel
// ---------------------------------------------------------------------------

/// Whether a symbol row is for a critical symbol, as the panel tells them
/// apart: by the `CRIT` prefix of its name.
pub open spec fn critical_row(name: Seq<char>) -> bool {
    starts_with(name, "CRIT"@)
}

/// The validation error that stops a save of section `t` with content `c`:
/// every section is checked against the validation rules before it is
/// written.
pub open spec fn save_check(t: SaveTarget, c: AdminConfig) -> Option<crate::admin_config::PolicyValidationError> {
    c.validation_error()
}

impl AdminPanel {
    /// Whether section `t` has edits not saved yet.
    pub open spec fn dirty(self, t: SaveTarget) -> bool {
        match t {
            SaveTarget::ExecAllowlist => self.exec_allowlist_dirty,
            SaveTarget::SymbolPolicy => self.symbol_policy_dirty,
            SaveTarget::Criteria => self.criteria_dirty,
            SaveTarget::Sockets => self.sockets_dirty,
            SaveTarget::Branches => self.branches_dirty,
        }
    }

    /// Whether the save button of section `t` can be pressed.
    pub open spec fn can_save(self, t: SaveTarget) -> bool {
        self.dirty(t) && self.confirm_dialog is None
    }

    /// `c` is what a save of section `t` writes: the rows of that section,
    /// every other section empty.
    pub open spec fn section_matches(self, t: SaveTarget, c: AdminConfig) -> bool {
        &&& c.audit@.len() == 0
        &&& (t is ExecAllowlist ==> allowlist_from_rows(c.allowlist@, self.exec_allowlist@))
        &&& (!(t is ExecAllowlist) ==> c.allowlist@.len() == 0)
        &&& (t is SymbolPolicy ==> symbols_from_rows(c.symbols@, self.symbol_policy@) && policy_from_rows(
            c.policy@,
            self.symbol_policy@,
        ))
        &&& (!(t is SymbolPolicy) ==> c.symbols@.len() == 0 && c.policy@.len() == 0)
        &&& (t is Criteria ==> criteria_from_rows(c.criteria@, self.criteria@))
        &&& (!(t is Criteria) ==> c.criteria@.len() == 0)
        &&& (t is Sockets ==> sockets_from_rows(c.sockets@, self.sockets@))
        &&& (!(t is Sockets) ==> c.sockets@.len() == 0)
        &&& (t is Branches ==> branches_from_rows(c.branches@, self.branches@))
        &&& (!(t is Branches) ==> c.branches@.len() == 0)
    }

    /// A panel for the configuration under `config_root`, with nothing loaded.
    pub fn new(config_root: String) -> (p: AdminPanel)
        ensures
            p.active_tab == AdminTab::Allowlist,
            p.config_root == config_root,
            p.exec_allowlist@.len() == 0 && !p.exec_allowlist_dirty,
            p.symbol_policy@.len() == 0 && !p.symbol_policy_dirty,
            p.criteria@.len() == 0 && !p.criteria_dirty,
            p.test_command@.len() == 0 && p.test_result is None,
            p.sockets@.len() == 0 && !p.sockets_dirty,
            p.branches@.len() == 0 && !p.branches_dirty,
            p.audit_entries@.len() == 0,
            p.status_message@.len() == 0,
            p.confirm_dialog is None,
            p.confirmed_lowering is None,
    {
        AdminPanel {
            active_tab: AdminTab::Allowlist,
            config_root,
            exec_allowlist: Vec::new(),
            exec_allowlist_dirty: false,
            symbol_policy: Vec::new(),
            symbol_policy_dirty: false,
            criteria: Vec::new(),
            criteria_dirty: false,
            test_command: String::new(),
            test_result: None,
            sockets: Vec::new(),
            sockets_dirty: false,
            branches: Vec::new(),
            branches_dirty: false,
            audit_entries: Vec::new(),
            status_message: String::new(),
            confirm_dialog: None,
            confirmed_lowering: None,
        }
    }

    // -----------------------------------------------------------------------
    // Loading
    // -----------------------------------------------------------------------

    /// Shows the allowlist entries read from disk (none where the file could
    /// not be read); the section has no unsaved edits afterwards.
    pub fn load_exec_allowlist(&mut self, entries: Option<&Vec<AllowlistEntry>>)
        ensures
            *final(self) == (AdminPanel {
                exec_allowlist: final(self).exec_allowlist,
                exec_allowlist_dirty: false,
                ..*old(self)
            }),
            entries matches Some(e) ==> exec_rows_of(final(self).exec_allowlist@, e@),
            entries is None ==> final(self).exec_allowlist@.len() == 0,
    {
        self.exec_allowlist = match entries {
            Some(e) => exec_rows(e),
            None => Vec::new(),
        };
        self.exec_allowlist_dirty = false;
    }

    /// Shows the symbol policy of the configuration read from disk.
    pub fn load_symbol_policy(&mut self, config: Option<&AdminConfig>)
        ensures
            *final(self) == (AdminPanel {
                symbol_policy: final(self).symbol_policy,
                symbol_policy_dirty: false,
                ..*old(self)
            }),
            config matches Some(c) ==> symbol_rows_of(final(self).symbol_policy@, *c),
            config is None ==> final(self).symbol_policy@.len() == 0,
    {
        self.symbol_policy = match config {
            Some(c) => symbol_policy_rows(c),
            None => Vec::new(),
        };
        self.symbol_policy_dirty = false;
    }

    /// Shows the criteria patterns of the configuration read from disk.
    pub fn load_criteria(&mut self, config: Option<&AdminConfig>)
        ensures
            *final(self) == (AdminPanel {
                criteria: final(self).criteria,
                criteria_dirty: false,
                ..*old(self)
            }),
            config matches Some(c) ==> criteria_rows_of(final(self).criteria@, *c),
            config is None ==> final(self).criteria@.len() == 0,
    {
        self.criteria = match config {
            Some(c) => criteria_rows(c),
            None => Vec::new(),
        };
        self.criteria_dirty = false;
    }

    /// Shows the socket definitions of the configuration read from disk.
    pub fn load_sockets(&mut self, config: Option<&AdminConfig>)
        ensures
            *final(self) == (AdminPanel {
                sockets: final(self).sockets,
                sockets_dirty: false,
                ..*old(self)
            }),
            config matches Some(c) ==> socket_rows_of(final(self).sockets@, *c),
            config is None ==> final(self).sockets@.len() == 0,
    {
        self.sockets = match config {
            Some(c) => socket_rows(c),
            None => Vec::new(),
        };
        self.sockets_dirty = false;
    }

    /// Shows the branch settings of the configuration read from disk.
    pub fn load_branches(&mut self, config: Option<&AdminConfig>)
        ensures
            *final(self) == (AdminPanel {
                branches: final(self).branches,
                branches_dirty: false,
                ..*old(self)
            }),
            config matches Some(c) ==> branch_rows_of(final(self).branches@, *c),
            config is None ==> final(self).branches@.len() == 0,
    {
        self.branches = match config {
            Some(c) => branch_rows(c),
            None => Vec::new(),
        };
        self.branches_dirty = false;
    }

    /// Shows the audit entries read from disk.
    pub fn load_audit(&mut self, entries: Vec<AuditEntry>)
        ensures
            *final(self) == (AdminPanel { audit_entries: entries, ..*old(self) }),
    {
        self.audit_entries = entries;
    }

    /// Loads every section from what was read from disk.
    pub fn load_all(&mut self, loaded: LoadedSections)
        ensures
            *final(self) == (AdminPanel {
                exec_allowlist: final(self).exec_allowlist,
                exec_allowlist_dirty: false,
                symbol_policy: final(self).symbol_policy,
                symbol_policy_dirty: false,
                criteria: final(self).criteria,
                criteria_dirty: false,
                sockets: final(self).sockets,
                sockets_dirty: false,
                branches: final(self).branches,
                branches_dirty: false,
                audit_entries: loaded.audit,
                ..*old(self)
            }),
            loaded.exec_allowlist matches Some(e) ==> exec_rows_of(final(self).exec_allowlist@, e@),
            loaded.exec_allowlist is None ==> final(self).exec_allowlist@.len() == 0,
            loaded.symbol_policy matches Some(c) ==> symbol_rows_of(final(self).symbol_policy@, c),
            loaded.symbol_policy is None ==> final(self).symbol_policy@.len() == 0,
            loaded.criteria matches Some(c) ==> criteria_rows_of(final(self).criteria@, c),
            loaded.criteria is None ==> final(self).criteria@.len() == 0,
            loaded.sockets matches Some(c) ==> socket_rows_of(final(self).sockets@, c),
            loaded.sockets is None ==> final(self).sockets@.len() == 0,
            loaded.branches matches Some(c) ==> branch_rows_of(final(self).branches@, c),
            loaded.branches is None ==> final(self).branches@.len() == 0,
    {
        self.load_exec_allowlist(loaded.exec_allowlist.as_ref());
        self.load_symbol_policy(loaded.symbol_policy.as_ref());
        self.load_criteria(loaded.criteria.as_ref());
        self.load_sockets(loaded.sockets.as_ref());
        self.load_branches(loaded.branches.as_ref());
        self.load_audit(loaded.audit);
    }

    // -----------------------------------------------------------------------
    // Editing
    // -----------------------------------------------------------------------

    /// Switches to another tab.
    pub fn select_tab(&mut self, tab: AdminTab)
        ensures
            *final(self) == (AdminPanel { active_tab: tab, ..*old(self) }),
    {
        self.active_tab = tab;
    }

    /// Clears the status line.
    pub fn dismiss_status(&mut self)
        ensures
            *final(self) == (AdminPanel { status_message: final(self).status_message, ..*old(self) }),
            final(self).status_message@.len() == 0,
    {
        self.status_message = String::new();
    }

    /// Replaces an allowlist row with its edited value.
    pub fn edit_exec_entry(&mut self, index: usize, row: ExecAllowlistRow)
        requires
            index < old(self).exec_allowlist@.len(),
        ensures
            *final(self) == (AdminPanel {
                exec_allowlist: final(self).exec_allowlist,
                exec_allowlist_dirty: true,
                ..*old(self)
            }),
            final(self).exec_allowlist@ == old(self).exec_allowlist@.update(index as int, row),
    {
        self.exec_allowlist.set(index, row);
        self.exec_allowlist_dirty = true;
    }

    /// Adds an allowlist row for a new binary, allowed, with no path or
    /// arguments.
    pub fn add_exec_entry(&mut self)
        ensures
            *final(self) == (AdminPanel {
                exec_allowlist: final(self).exec_allowlist,
                exec_allowlist_dirty: true,
                ..*old(self)
            }),
            final(self).exec_allowlist@.len() == old(self).exec_allowlist@.len() + 1,
            final(self).exec_allowlist@.drop_last() == old(self).exec_allowlist@,
            final(self).exec_allowlist@.last().name@ == "new_binary"@,
            final(self).exec_allowlist@.last().path@.len() == 0,
            final(self).exec_allowlist@.last().allowed,
            final(self).exec_allowlist@.last().args@.len() == 0,
    {
        self.exec_allowlist.push(
            ExecAllowlistRow { name: owned("new_binary"), path: String::new(), allowed: true, args: String::new() },
        );
        self.exec_allowlist_dirty = true;
    }

    /// Removes an allowlist row.
    pub fn remove_exec_entry(&mut self, index: usize)
        requires
            index < old(self).exec_allowlist@.len(),
        ensures
            *final(self) == (AdminPanel {
                exec_allowlist: final(self).exec_allowlist,
                exec_allowlist_dirty: true,
                ..*old(self)
            }),
            final(self).exec_allowlist@ == old(self).exec_allowlist@.remove(index as int),
    {
        self.exec_allowlist.remove(index);
        self.exec_allowlist_dirty = true;
    }

    /// Picks the classification of a symbol row. Picking delegable for a
    /// critical symbol leaves a warning that the save will be refused. The
    /// section is not marked as edited by this choice alone.
    pub fn select_classification(&mut self, index: usize, delegable: bool)
        requires
            index < old(self).symbol_policy@.len(),
        ensures
            *final(self) == (AdminPanel {
                symbol_policy: final(self).symbol_policy,
                status_message: final(self).status_message,
                ..*old(self)
            }),
            final(self).symbol_policy@.len() == old(self).symbol_policy@.len(),
            forall|j: int|
                0 <= j < old(self).symbol_policy@.len() && j != index ==> final(self).symbol_policy@[j]
                    == old(self).symbol_policy@[j],
            final(self).symbol_policy@[index as int] == (SymbolPolicyRow {
                classification: final(self).symbol_policy@[index as int].classification,
                ..old(self).symbol_policy@[index as int]
            }),
            final(self).symbol_policy@[index as int].classification@ == (if delegable {
                "delegable"@
            } else {
                "critical"@
            }),
            (delegable && critical_row(old(self).symbol_policy@[index as int].name@))
                ==> final(self).status_message@ == "WARNING: attempting to reclassify "@
                + old(self).symbol_policy@[index as int].name@
                + " (critical) as delegable \u{2014} will be rejected on save."@,
            !(delegable && critical_row(old(self).symbol_policy@[index as int].name@))
                ==> final(self).status_message == old(self).status_message,
    {
        let old_row = &self.symbol_policy[index];
        let row = SymbolPolicyRow {
            name: old_row.name.clone(),
            description: old_row.description.clone(),
            classification: if delegable { owned("delegable") } else { owned("critical") },
            auto_approve_seconds: old_row.auto_approve_seconds,
        };
        let name = chars_of(row.name.as_str());
        if delegable && starts_with_str(&name, "CRIT") {
            self.status_message = framed(
                "WARNING: attempting to reclassify ",
                row.name.as_str(),
                " (critical) as delegable \u{2014} will be rejected on save.",
            );
        }
        self.symbol_policy.set(index, row);
    }

    /// Sets the auto-approval delay of a symbol row, at most an hour. The
    /// delay of a critical symbol cannot be edited: its row stays as it is.
    pub fn set_auto_approve_seconds(&mut self, index: usize, seconds: u64)
        requires
            index < old(self).symbol_policy@.len(),
        ensures
            critical_row(old(self).symbol_policy@[index as int].name@) ==> *final(self) == *old(self),
            !critical_row(old(self).symbol_policy@[index as int].name@) ==> {
                &&& *final(self) == (AdminPanel {
                    symbol_policy: final(self).symbol_policy,
                    symbol_policy_dirty: true,
                    ..*old(self)
                })
                &&& final(self).symbol_policy@ == old(self).symbol_policy@.update(
                    index as int,
                    (SymbolPolicyRow {
                        auto_approve_seconds: if seconds > 3600 { 3600 } else { seconds },
                        ..old(self).symbol_policy@[index as int]
                    }),
                )
            },
    {
        let name = chars_of(self.symbol_policy[index].name.as_str());
        if starts_with_str(&name, "CRIT") {
            return;
        }
        let old_row = &self.symbol_policy[index];
        let row = SymbolPolicyRow {
            name: old_row.name.clone(),
            description: old_row.description.clone(),
            classification: old_row.classification.clone(),
            auto_approve_seconds: if seconds > 3600 { 3600 } else { seconds },
        };
        self.symbol_policy.set(index, row);
        self.symbol_policy_dirty = true;
    }

    /// The symbol vocabulary is fixed: asking to remove a symbol only
    /// explains so.
    pub fn request_symbol_removal(&mut self, index: usize)
        requires
            index < old(self).symbol_policy@.len(),
        ensures
            *final(self) == (AdminPanel { status_message: final(self).status_message, ..*old(self) }),
            final(self).status_message@ == "Cannot remove symbol "@ + old(self).symbol_policy@[index as int].name@
                + " from the config \u{2014} symbol vocabulary is fixed in code."@,
    {
        self.status_message = framed(
            "Cannot remove symbol ",
            self.symbol_policy[index].name.as_str(),
            " from the config \u{2014} symbol vocabulary is fixed in code.",
        );
    }

    /// Replaces the pattern text of a criteria category.
    pub fn edit_criteria_patterns(&mut self, index: usize, patterns_text: String)
        requires
            index < old(self).criteria@.len(),
        ensures
            *final(self) == (AdminPanel {
                criteria: final(self).criteria,
                criteria_dirty: true,
                ..*old(self)
            }),
            final(self).criteria@ == old(self).criteria@.update(
                index as int,
                (CriteriaRow { patterns_text, ..old(self).criteria@[index as int] }),
            ),
    {
        let row = CriteriaRow { category: self.criteria[index].category.clone(), patterns_text };
        self.criteria.set(index, row);
        self.criteria_dirty = true;
    }

    /// Adds an empty category named `new_category`.
    pub fn add_category(&mut self)
        ensures
            *final(self) == (AdminPanel {
                criteria: final(self).criteria,
                criteria_dirty: true,
                ..*old(self)
            }),
            final(self).criteria@.len() == old(self).criteria@.len() + 1,
            final(self).criteria@.drop_last() == old(self).criteria@,
            final(self).criteria@.last().category@ == "new_category"@,
            final(self).criteria@.last().patterns_text@.len() == 0,
    {
        self.criteria.push(CriteriaRow { category: owned("new_category"), patterns_text: String::new() });
        self.criteria_dirty = true;
    }

    /// Removes a criteria category.
    pub fn remove_category(&mut self, index: usize)
        requires
            index < old(self).criteria@.len(),
        ensures
            *final(self) == (AdminPanel {
                criteria: final(self).criteria,
                criteria_dirty: true,
                ..*old(self)
            }),
            final(self).criteria@ == old(self).criteria@.remove(index as int),
    {
        self.criteria.remove(index);
        self.criteria_dirty = true;
    }

    /// Sets the command tried against the edited criteria.
    pub fn set_test_command(&mut self, command: String)
        ensures
            *final(self) == (AdminPanel { test_command: command, ..*old(self) }),
    {
        self.test_command = command;
    }

    /// Tries the test command against the edited criteria: no result for a
    /// blank command, else the summary of a one-command plan. Returns false,
    /// and changes nothing, where a pattern the evaluation reaches does not
    /// compile.
    pub fn evaluate_test_command(&mut self) -> (done: bool)
        ensures
            done ==> *final(self) == (AdminPanel { test_result: final(self).test_result, ..*old(self) }),
            !done ==> *final(self) == *old(self),
            done && trim(old(self).test_command@).len() == 0 ==> final(self).test_result is None,
            done && trim(old(self).test_command@).len() > 0 ==> (final(self).test_result matches Some(s)
                && exists|sets: Seq<crate::admin_config::CriteriaPatternSet>|
                #![trigger criteria_from_rows(sets, old(self).criteria@)]
                criteria_from_rows(sets, old(self).criteria@) && s@ == plan_summary(
                    test_plan_commands(old(self).test_command@),
                    crate::admin_config::apply_sets(crate::criteria::default_patterns_spec(), sets),
                )),
            !done <==> (trim(old(self).test_command@).len() > 0 && exists|
                sets: Seq<crate::admin_config::CriteriaPatternSet>,
            |
                #![trigger criteria_from_rows(sets, old(self).criteria@)]
                criteria_from_rows(sets, old(self).criteria@) && crate::criteria::plan_eval(
                    test_plan_commands(old(self).test_command@),
                    crate::admin_config::apply_sets(crate::criteria::default_patterns_spec(), sets),
                ) is None),
    {
        match try_run_test_command(&self.criteria, self.test_command.as_str()) {
            Some(r) => {
                self.test_result = r;
                true
            },
            None => false,
        }
    }

    /// Replaces the path and permissions of a socket row.
    pub fn edit_socket(&mut self, index: usize, path: String, permissions: String)
        requires
            index < old(self).sockets@.len(),
        ensures
            *final(self) == (AdminPanel {
                sockets: final(self).sockets,
                sockets_dirty: true,
                ..*old(self)
            }),
            final(self).sockets@ == old(self).sockets@.update(
                index as int,
                (SocketRow { path, permissions, ..old(self).sockets@[index as int] }),
            ),
    {
        let row = SocketRow { name: self.sockets[index].name.clone(), path, permissions };
        self.sockets.set(index, row);
        self.sockets_dirty = true;
    }

    /// Adds a socket named `new_socket` at `new_socket.sock`, mode `0600`.
    pub fn add_socket(&mut self)
        ensures
            *final(self) == (AdminPanel {
                sockets: final(self).sockets,
                sockets_dirty: true,
                ..*old(self)
            }),
            final(self).sockets@.len() == old(self).sockets@.len() + 1,
            final(self).sockets@.drop_last() == old(self).sockets@,
            final(self).sockets@.last().name@ == "new_socket"@,
            final(self).sockets@.last().path@ == "new_socket.sock"@,
            final(self).sockets@.last().permissions@ == "0600"@,
    {
        self.sockets.push(
            SocketRow { name: owned("new_socket"), path: owned("new_socket.sock"), permissions: owned("0600") },
        );
        self.sockets_dirty = true;
    }

    /// Removes a socket row.
    pub fn remove_socket(&mut self, index: usize)
        requires
            index < old(self).sockets@.len(),
        ensures
            *final(self) == (AdminPanel {
                sockets: final(self).sockets,
                sockets_dirty: true,
                ..*old(self)
            }),
            final(self).sockets@ == old(self).sockets@.remove(index as int),
    {
        self.sockets.remove(index);
        self.sockets_dirty = true;
    }

    /// Sets the sub-chat limit of a branch, kept between 1 and 10.
    pub fn set_sub_chat_limit(&mut self, index: usize, limit: usize)
        requires
            index < old(self).branches@.len(),
        ensures
            *final(self) == (AdminPanel {
                branches: final(self).branches,
                branches_dirty: true,
                ..*old(self)
            }),
            final(self).branches@ == old(self).branches@.update(
                index as int,
                (BranchRow {
                    sub_chat_limit: if limit < 1 {
                        1
                    } else if limit > 10 {
                        10
                    } else {
                        limit
                    },
                    ..old(self).branches@[index as int]
                }),
            ),
    {
        let row = BranchRow {
            name: self.branches[index].name.clone(),
            sub_chat_limit: if limit < 1 {
                1
            } else if limit > 10 {
                10
            } else {
                limit
            },
            context_enabled: self.branches[index].context_enabled,
        };
        self.branches.set(index, row);
        self.branches_dirty = true;
    }

    /// Turns context merging of a branch on or off.
    pub fn set_context_enabled(&mut self, index: usize, enabled: bool)
        requires
            index < old(self).branches@.len(),
        ensures
            *final(self) == (AdminPanel {
                branches: final(self).branches,
                branches_dirty: true,
                ..*old(self)
            }),
            final(self).branches@ == old(self).branches@.update(
                index as int,
                (BranchRow { context_enabled: enabled, ..old(self).branches@[index as int] }),
            ),
    {
        let row = BranchRow {
            name: self.branches[index].name.clone(),
            sub_chat_limit: self.branches[index].sub_chat_limit,
            context_enabled: enabled,
        };
        self.branches.set(index, row);
        self.branches_dirty = true;
    }


    // -----------------------------------------------------------------------
    // Saving
    // -----------------------------------------------------------------------

    /// The configuration a save of section `t` writes.
    pub fn section_config(&self, t: SaveTarget) -> (c: AdminConfig)
        ensures
            self.section_matches(t, c),
    {
        match t {
            SaveTarget::ExecAllowlist => AdminConfig {
                allowlist: allowlist_entries(&self.exec_allowlist),
                symbols: Vec::new(),
                policy: Vec::new(),
                criteria: Vec::new(),
                sockets: Vec::new(),
                branches: Vec::new(),
                audit: Vec::new(),
            },
            SaveTarget::SymbolPolicy => symbol_policy_config(&self.symbol_policy),
            SaveTarget::Criteria => criteria_config(&self.criteria),
            SaveTarget::Sockets => sockets_config(&self.sockets),
            SaveTarget::Branches => branches_config(&self.branches),
        }
    }

    /// Checks `c`, the content of section `t`, before it is written: where
    /// `c` breaks a rule, the status says why and nothing is returned; else
    /// `c` is returned to be written.
    fn check_for_save(&mut self, t: SaveTarget, c: AdminConfig) -> (r: Option<AdminConfig>)
        ensures
            save_check(t, c) is None ==> r == Some(c) && *final(self) == *old(self),
            save_check(t, c) matches Some(e) ==> r is None && *final(self) == (AdminPanel {
                status_message: final(self).status_message,
                ..*old(self)
            }) && final(self).status_message@ == "Validation failed: "@ + validation_message(e),
    {
        match c.validate() {
            Ok(()) => Some(c),
            Err(e) => {
                let m = e.message();
                self.status_message = prefixed("Validation failed: ", m.as_str());
                None
            },
        }
    }

    /// Starts the save of section `t`: returns the configuration to write,
    /// or nothing where validation refuses it (the status says why).
    pub fn prepare_save(&mut self, t: SaveTarget) -> (r: Option<AdminConfig>)
        ensures
            exists|c: AdminConfig|
                #![trigger old(self).section_matches(t, c)]
                old(self).section_matches(t, c) && (save_check(t, c) is None ==> r == Some(c)
                    && *final(self) == *old(self)) && (save_check(t, c) matches Some(e) ==> r is None
                    && *final(self) == (AdminPanel {
                    status_message: final(self).status_message,
                    ..*old(self)
                }) && final(self).status_message@ == "Validation failed: "@ + validation_message(e)),
    {
        let c = self.section_config(t);
        let ghost g = c;
        let r = self.check_for_save(t, c);
        assert(old(self).section_matches(t, g));
        r
    }

    /// The save button of section `t` was pressed; `previous` is the
    /// configuration of that section as the file on disk holds it, where it
    /// could be read. Nothing happens unless the section has unsaved edits
    /// and no confirmation is pending. A symbol policy that breaks a rule is
    /// refused (the status says why). A symbol policy or socket list that
    /// lowers the security posture against `previous` asks for confirmation
    /// instead of saving. Otherwise the save starts as `prepare_save` does,
    /// and what to write is returned.
    pub fn click_save(&mut self, t: SaveTarget, previous: Option<&AdminConfig>) -> (r: Option<AdminConfig>)
        ensures
            !old(self).can_save(t) ==> r is None && *final(self) == *old(self),
            old(self).can_save(t) ==> exists|c: AdminConfig|
                #![trigger old(self).section_matches(t, c)]
                old(self).section_matches(t, c) && {
                    let refused = t is SymbolPolicy && c.validation_error() is Some;
                    let lowering = (t is SymbolPolicy || t is Sockets) && (previous matches Some(p)
                        && c.lowers_security(*p));
                    &&& refused ==> r is None && *final(self) == (AdminPanel {
                        status_message: final(self).status_message,
                        ..*old(self)
                    }) && final(self).status_message@ == "Validation failed: "@ + validation_message(
                        c.validation_error()->0,
                    )
                    &&& !refused && lowering ==> r is None && *final(self) == (AdminPanel {
                        confirm_dialog: final(self).confirm_dialog,
                        ..*old(self)
                    }) && (final(self).confirm_dialog matches Some(d) && d.action == t && d.message@
                        == dialog_message(t))
                    &&& !refused && !lowering && save_check(t, c) is None ==> r == Some(c)
                        && *final(self) == *old(self)
                    &&& !refused && !lowering && save_check(t, c) is Some ==> r is None
                        && *final(self) == (AdminPanel {
                        status_message: final(self).status_message,
                        ..*old(self)
                    }) && final(self).status_message@ == "Validation failed: "@ + validation_message(
                        save_check(t, c)->0,
                    )
                },
    {
        let dirty = match t {
            SaveTarget::ExecAllowlist => self.exec_allowlist_dirty,
            SaveTarget::SymbolPolicy => self.symbol_policy_dirty,
            SaveTarget::Criteria => self.criteria_dirty,
            SaveTarget::Sockets => self.sockets_dirty,
            SaveTarget::Branches => self.branches_dirty,
        };
        if !dirty || self.confirm_dialog.is_some() {
            return None;
        }
        let c = self.section_config(t);
        let ghost g = c;
        proof {
            assert(old(self).section_matches(t, g));
        }
        let guarded = match t {
            SaveTarget::SymbolPolicy | SaveTarget::Sockets => true,
            _ => false,
        };
        if let SaveTarget::SymbolPolicy = t {
            if c.validate().is_err() {
                return self.check_for_save(t, c);
            }
        }
        if guarded {
            if let Some(p) = previous {
                if c.is_security_lowering_change(p) {
                    self.confirm_dialog = Some(
                        ConfirmDialog { message: owned(dialog_message_text(t)), action: t },
                    );
                    return None;
                }
            }
        }
        self.check_for_save(t, c)
    }

    /// The owner confirmed the pending change: the confirmation closes and
    /// the save it held back starts as `prepare_save` does. Returns the
    /// section and what to write, or nothing where no confirmation was
    /// pending or validation refuses the change.
    pub fn confirm_change(&mut self) -> (r: Option<(SaveTarget, AdminConfig)>)
        ensures
            old(self).confirm_dialog is None ==> r is None && *final(self) == *old(self),
            old(self).confirm_dialog matches Some(d) ==> exists|c: AdminConfig|
                #![trigger old(self).section_matches(d.action, c)]
                old(self).section_matches(d.action, c) && final(self).confirm_dialog is None && (save_check(
                    d.action,
                    c,
                ) is None ==> r == Some((d.action, c)) && *final(self) == (AdminPanel {
                    confirm_dialog: None,
                    confirmed_lowering: Some(d.action),
                    ..*old(self)
                })) && (save_check(d.action, c) matches Some(e) ==> r is None && *final(self) == (
                AdminPanel {
                    confirm_dialog: None,
                    status_message: final(self).status_message,
                    ..*old(self)
                }) && final(self).status_message@ == "Validation failed: "@ + validation_message(e)),
    {
        let t = match &self.confirm_dialog {
            Some(d) => d.action,
            None => {
                return None;
            },
        };
        self.confirm_dialog = None;
        let c = self.section_config(t);
        let ghost g = c;
        proof {
            assert(old(self).section_matches(t, g));
        }
        match self.check_for_save(t, c) {
            Some(c) => {
                self.confirmed_lowering = Some(t);
                Some((t, c))
            },
            None => None,
        }
    }

    /// The owner cancelled the pending change.
    pub fn cancel_change(&mut self)
        ensures
            *final(self) == (AdminPanel {
                confirm_dialog: None,
                status_message: final(self).status_message,
                ..*old(self)
            }),
            final(self).status_message@ == "Change cancelled."@,
    {
        self.confirm_dialog = None;
        self.status_message = owned("Change cancelled.");
    }

    /// Turning the configuration into text failed.
    pub fn report_serialize_error(&mut self, error: &str)
        ensures
            *final(self) == (AdminPanel { status_message: final(self).status_message, ..*old(self) }),
            final(self).status_message@ == "Serialize error: "@ + error@,
    {
        self.status_message = prefixed("Serialize error: ", error);
    }

    /// Writing the file failed.
    pub fn report_write_error(&mut self, error: &str)
        ensures
            *final(self) == (AdminPanel { status_message: final(self).status_message, ..*old(self) }),
            final(self).status_message@ == "Save failed: "@ + error@,
    {
        self.status_message = prefixed("Save failed: ", error);
    }

    /// The audit entry of a save of section `t`, flagged when the change
    /// lowers the security posture.
    pub fn save_entry(
        t: SaveTarget,
        timestamp: String,
        operator: String,
        old_value: String,
        new_value: String,
        security_lowering: bool,
    ) -> (e: AuditEntry)
        ensures
            e.timestamp == timestamp,
            e.operator == operator,
            e.changed_file@ == section_file(t),
            e.action@ == save_action(t),
            e.old_value == old_value,
            e.new_value == new_value,
            e.security_lowering == security_lowering,
    {
        AuditEntry {
            timestamp,
            operator,
            changed_file: owned(section_file_name(t)),
            action: owned(save_action_text(t)),
            old_value,
            new_value,
            security_lowering,
        }
    }

    /// Section `t` was written: it has no unsaved edits, the status says so,
    /// and the save is recorded in the audit entries with the file's text
    /// before and after, flagged as security-lowering when it was the change
    /// the owner confirmed as such.
    pub fn complete_save(
        &mut self,
        t: SaveTarget,
        timestamp: String,
        operator: String,
        old_value: String,
        new_value: String,
    )
        ensures
            !final(self).dirty(t),
            forall|u: SaveTarget| u != t ==> final(self).dirty(u) == old(self).dirty(u),
            final(self).status_message@ == saved_message(t),
            final(self).audit_entries@.len() == old(self).audit_entries@.len() + 1,
            final(self).audit_entries@.drop_last() == old(self).audit_entries@,
            ({
                let e = final(self).audit_entries@.last();
                &&& e.timestamp == timestamp && e.operator == operator
                &&& e.old_value == old_value && e.new_value == new_value
                &&& e.changed_file@ == section_file(t) && e.action@ == save_action(t)
                &&& e.security_lowering == (old(self).confirmed_lowering == Some(t))
            }),
            final(self).confirmed_lowering is None,
            *final(self) == (AdminPanel {
                exec_allowlist_dirty: final(self).exec_allowlist_dirty,
                symbol_policy_dirty: final(self).symbol_policy_dirty,
                criteria_dirty: final(self).criteria_dirty,
                sockets_dirty: final(self).sockets_dirty,
                branches_dirty: final(self).branches_dirty,
                audit_entries: final(self).audit_entries,
                status_message: final(self).status_message,
                confirmed_lowering: None,
                ..*old(self)
            }),
    {
        match t {
            SaveTarget::ExecAllowlist => self.exec_allowlist_dirty = false,
            SaveTarget::SymbolPolicy => self.symbol_policy_dirty = false,
            SaveTarget::Criteria => self.criteria_dirty = false,
            SaveTarget::Sockets => self.sockets_dirty = false,
            SaveTarget::Branches => self.branches_dirty = false,
        }
        self.status_message = owned(saved_message_text(t));
        let lowering = match self.confirmed_lowering {
            Some(c) => c == t,
            None => false,
        };
        self.confirmed_lowering = None;
        self.audit_entries.push(
            AdminPanel::save_entry(t, timestamp, operator, old_value, new_value, lowering),
        );
    }

}

} // verus!
