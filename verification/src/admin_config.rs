//! The operator-editable configuration (allowlist, symbol policy, criteria
//! patterns, sockets, branches) and the validation that guards the security
//! boundary against unsafe edits.
use vstd::prelude::*;

use crate::criteria::{default_patterns_spec, CriteriaConfig, CriteriaPatterns};
use crate::pattern::{compile, regex_compiles};
use crate::text::{
    all_digits, chars_of, copy_strings, is_ascii_digit, join, join_path, owned, str_eq, strs,
};

verus! {

// ---------------------------------------------------------------------------
// Core config structs
// ---------------------------------------------------------------------------

#[derive(Debug, Clone, PartialEq)]
pub struct AllowlistEntry {
    pub name: String,
    pub path: String,
    pub allowed: bool,
    pub args: Vec<String>,
}

#[derive(Debug, Clone, PartialEq)]
pub struct SymbolDefinition {
    pub name: String,
    pub classification: String,
    pub description: String,
}

#[derive(Debug, Clone, PartialEq)]
pub struct PolicySymbolEntry {
    pub symbol: String,
    pub classification: String,
    pub auto_approve_seconds: u64,
}

#[derive(Debug, Clone, PartialEq)]
pub struct CriteriaPatternSet {
    pub category: String,
    pub patterns: Vec<String>,
}

#[derive(Debug, Clone, PartialEq)]
pub struct SocketDefinition {
    pub name: String,
    pub path: String,
    pub permissions: String,
}

#[derive(Debug, Clone, PartialEq)]
pub struct BranchConfig {
    pub name: String,
    pub sub_chat_limit: usize,
    pub context_enabled: bool,
}

#[derive(Debug, Clone, PartialEq)]
pub struct AdminAuditEntry {
    pub timestamp: String,
    pub action: String,
    pub summary: String,
    pub old_value: String,
    pub new_value: String,
}

#[derive(Debug, Clone, Default, PartialEq)]
pub struct AdminConfig {
    pub allowlist: Vec<AllowlistEntry>,
    pub symbols: Vec<SymbolDefinition>,
    pub policy: Vec<PolicySymbolEntry>,
    pub criteria: Vec<CriteriaPatternSet>,
    pub sockets: Vec<SocketDefinition>,
    pub branches: Vec<BranchConfig>,
    pub audit: Vec<AdminAuditEntry>,
}

// ---------------------------------------------------------------------------
// Validation
// ---------------------------------------------------------------------------

#[derive(Debug, Clone, PartialEq, Eq)]
pub enum PolicyValidationError {
    UnsafeAllowlistValue { name: String },
    CriticalSymbolReclassified { symbol: String },
    CriticalSymbolAutoApprove { symbol: String, seconds: u64 },
    DuplicateAllowlistEntry { name: String },
    InvalidCriteriaRegex { category: String, error: String },
    InvalidSocketPermissions { name: String, permissions: String },
    DuplicateSocket { name: String },
}

/// The known critical symbols, which the configuration can never make
/// delegable nor let auto-approve.
pub open spec fn critical_symbol_names() -> Seq<Seq<char>> {
    seq![
        "CRIT.IRREVERSIBLE"@,
        "CRIT.SYS.SECURITY"@,
        "CRIT.SECRET"@,
        "CRIT.EGRESS"@,
        "CRIT.FINANCIAL"@,
        "CRIT.THIRD.PARTY"@,
        "CRIT.UNCLASSIFIED"@,
    ]
}

pub open spec fn is_critical_name(s: Seq<char>) -> bool {
    critical_symbol_names().contains(s)
}

/// Whether `name` is one of the known critical symbols.
pub fn is_critical_symbol(name: &str) -> (b: bool)
    ensures
        b == is_critical_name(name@),
{
    let names: [&str; 7] = [
        "CRIT.IRREVERSIBLE",
        "CRIT.SYS.SECURITY",
        "CRIT.SECRET",
        "CRIT.EGRESS",
        "CRIT.FINANCIAL",
        "CRIT.THIRD.PARTY",
        "CRIT.UNCLASSIFIED",
    ];
    let ghost views = names@.map_values(|s: &str| s@);
    assert(views =~= critical_symbol_names());
    let mut i: usize = 0;
    while i < 7
        invariant
            i <= 7,
            views == names@.map_values(|s: &str| s@),
            views == critical_symbol_names(),
            forall|j: int| 0 <= j < i ==> views[j] != name@,
        decreases 7 - i,
    {
        if str_eq(name, names[i]) {
            assert(views[i as int] == name@);
            return true;
        }
        i = i + 1;
    }
    assert forall|j: int| 0 <= j < views.len() implies views[j] != name@ by {}
    false
}

/// The issue, if any, of allowlist entry `i` given the entries before it:
/// a wildcard path comes first, then a repeated name.
pub open spec fn allowlist_issue(entries: Seq<AllowlistEntry>, i: int) -> Option<
    PolicyValidationError,
> {
    if entries[i].path@ == "*"@ {
        Some(PolicyValidationError::UnsafeAllowlistValue { name: entries[i].name })
    } else if exists|j: int| 0 <= j < i && entries[j].name@ == entries[i].name@ {
        Some(PolicyValidationError::DuplicateAllowlistEntry { name: entries[i].name })
    } else {
        None
    }
}

/// The issue, if any, of policy entry `p`.
pub open spec fn policy_issue(p: PolicySymbolEntry) -> Option<PolicyValidationError> {
    if is_critical_name(p.symbol@) && p.classification@ == "delegable"@ {
        Some(PolicyValidationError::CriticalSymbolReclassified { symbol: p.symbol })
    } else if is_critical_name(p.symbol@) && p.auto_approve_seconds > 0 {
        Some(
            PolicyValidationError::CriticalSymbolAutoApprove {
                symbol: p.symbol,
                seconds: p.auto_approve_seconds,
            },
        )
    } else {
        None
    }
}

/// An octal digit, `0` to `7`.
pub open spec fn is_octal_digit(c: char) -> bool {
    '0' <= c && c <= '7'
}

/// Socket permissions are a four-character octal string such as `0600`: a
/// leading `0` and three octal digits.
pub open spec fn valid_permissions(p: Seq<char>) -> bool {
    p.len() == 4 && p[0] == '0' && is_octal_digit(p[1]) && is_octal_digit(p[2]) && is_octal_digit(p[3])
}

/// The issue, if any, of socket `i` given the sockets before it.
pub open spec fn socket_issue(sockets: Seq<SocketDefinition>, i: int) -> Option<
    PolicyValidationError,
> {
    if !valid_permissions(sockets[i].permissions@) {
        Some(
            PolicyValidationError::InvalidSocketPermissions {
                name: sockets[i].name,
                permissions: sockets[i].permissions,
            },
        )
    } else if exists|j: int| 0 <= j < i && sockets[j].name@ == sockets[i].name@ {
        Some(PolicyValidationError::DuplicateSocket { name: sockets[i].name })
    } else {
        None
    }
}

/// The issue, if any, of criteria set `s`: its first pattern that does not
/// compile.
pub open spec fn criteria_set_issue(s: CriteriaPatternSet) -> Option<PolicyValidationError> {
    first_issue(
        |k: int|
            if !regex_compiles(s.patterns@[k]@) {
                Some(
                    PolicyValidationError::InvalidCriteriaRegex {
                        category: s.category,
                        error: s.patterns@[k],
                    },
                )
            } else {
                None
            },
        s.patterns@.len() as int,
    )
}

/// The issue of the first position below `n` that has one.
pub open spec fn first_issue(
    issue: spec_fn(int) -> Option<PolicyValidationError>,
    n: int,
) -> Option<PolicyValidationError>
    decreases n,
{
    if n <= 0 {
        None
    } else {
        match first_issue(issue, n - 1) {
            Some(e) => Some(e),
            None => issue(n - 1),
        }
    }
}

impl AdminConfig {
    pub open spec fn allowlist_error(self) -> Option<PolicyValidationError> {
        first_issue(|i: int| allowlist_issue(self.allowlist@, i), self.allowlist@.len() as int)
    }

    pub open spec fn policy_error(self) -> Option<PolicyValidationError> {
        first_issue(|i: int| policy_issue(self.policy@[i]), self.policy@.len() as int)
    }

    pub open spec fn criteria_error(self) -> Option<PolicyValidationError> {
        first_issue(|i: int| criteria_set_issue(self.criteria@[i]), self.criteria@.len() as int)
    }

    pub open spec fn socket_error(self) -> Option<PolicyValidationError> {
        first_issue(|i: int| socket_issue(self.sockets@, i), self.sockets@.len() as int)
    }

    /// The first error of the whole configuration, checked in the order
    /// allowlist, symbol policy, criteria, sockets.
    pub open spec fn validation_error(self) -> Option<PolicyValidationError> {
        match self.allowlist_error() {
            Some(e) => Some(e),
            None => match self.policy_error() {
                Some(e) => Some(e),
                None => match self.criteria_error() {
                    Some(e) => Some(e),
                    None => self.socket_error(),
                },
            },
        }
    }
}

pub open spec fn result_of(e: Option<PolicyValidationError>) -> Result<(), PolicyValidationError> {
    match e {
        Some(e) => Err(e),
        None => Ok(()),
    }
}

fn name_seen(entries: &Vec<AllowlistEntry>, i: usize) -> (b: bool)
    requires
        i < entries@.len(),
    ensures
        b == exists|j: int| 0 <= j < i && entries@[j].name@ == entries@[i as int].name@,
{
    let mut j: usize = 0;
    while j < i
        invariant
            i < entries@.len(),
            j <= i,
            forall|k: int| 0 <= k < j ==> entries@[k].name@ != entries@[i as int].name@,
        decreases i - j,
    {
        if str_eq(entries[j].name.as_str(), entries[i].name.as_str()) {
            return true;
        }
        j = j + 1;
    }
    false
}

fn socket_seen(sockets: &Vec<SocketDefinition>, i: usize) -> (b: bool)
    requires
        i < sockets@.len(),
    ensures
        b == exists|j: int| 0 <= j < i && sockets@[j].name@ == sockets@[i as int].name@,
{
    let mut j: usize = 0;
    while j < i
        invariant
            i < sockets@.len(),
            j <= i,
            forall|k: int| 0 <= k < j ==> sockets@[k].name@ != sockets@[i as int].name@,
        decreases i - j,
    {
        if str_eq(sockets[j].name.as_str(), sockets[i].name.as_str()) {
            return true;
        }
        j = j + 1;
    }
    false
}

/// Whether socket permissions are a four-character octal string.
pub fn permissions_valid(p: &str) -> (b: bool)
    ensures
        b == valid_permissions(p@),
{
    let cs = chars_of(p);
    cs.len() == 4 && cs[0] == '0' && ('0' <= cs[1] && cs[1] <= '7') && ('0' <= cs[2] && cs[2]
        <= '7') && ('0' <= cs[3] && cs[3] <= '7')
}

/// Once an issue has been found below `m`, it stays the first below any `n >= m`.
pub proof fn lemma_first_issue_stable(
    issue: spec_fn(int) -> Option<PolicyValidationError>,
    m: int,
    n: int,
)
    requires
        0 <= m <= n,
        first_issue(issue, m) is Some,
    ensures
        first_issue(issue, n) == first_issue(issue, m),
    decreases n - m,
{
    if n > m {
        lemma_first_issue_stable(issue, m, n - 1);
    }
}

pub proof fn lemma_first_issue_step(
    issue: spec_fn(int) -> Option<PolicyValidationError>,
    n: int,
)
    requires
        n >= 0,
        first_issue(issue, n) is None,
    ensures
        forall|k: int| 0 <= k < n ==> (#[trigger] issue(k)) is None,
    decreases n,
{
    if n > 0 {
        lemma_first_issue_step(issue, n - 1);
    }
}

impl AdminConfig {
    /// Validates the whole configuration; returns the first error found.
    pub fn validate(&self) -> (r: Result<(), PolicyValidationError>)
        ensures
            r == result_of(self.validation_error()),
    {
        self.validate_allowlist()?;
        self.validate_symbols_and_policy()?;
        self.validate_criteria()?;
        self.validate_sockets()?;
        Ok(())
    }

    pub fn validate_allowlist(&self) -> (r: Result<(), PolicyValidationError>)
        ensures
            r == result_of(self.allowlist_error()),
    {
        let ghost issue = |i: int| allowlist_issue(self.allowlist@, i);
        let mut i: usize = 0;
        while i < self.allowlist.len()
            invariant
                i <= self.allowlist@.len(),
                issue == (|i: int| allowlist_issue(self.allowlist@, i)),
                first_issue(issue, i as int) is None,
            decreases self.allowlist.len() - i,
        {
            let entry = &self.allowlist[i];
            if str_eq(entry.path.as_str(), "*") {
                assert(first_issue(issue, i + 1) == issue(i as int));
                proof {
                    lemma_first_issue_stable(issue, i + 1, self.allowlist@.len() as int);
                }
                return Err(PolicyValidationError::UnsafeAllowlistValue { name: entry.name.clone() });
            }
            if name_seen(&self.allowlist, i) {
                assert(first_issue(issue, i + 1) == issue(i as int));
                proof {
                    lemma_first_issue_stable(issue, i + 1, self.allowlist@.len() as int);
                }
                return Err(
                    PolicyValidationError::DuplicateAllowlistEntry { name: entry.name.clone() },
                );
            }
            assert(first_issue(issue, i + 1) == issue(i as int));
            i = i + 1;
        }
        Ok(())
    }

    pub fn validate_symbols_and_policy(&self) -> (r: Result<(), PolicyValidationError>)
        ensures
            r == result_of(self.policy_error()),
    {
        let ghost issue = |i: int| policy_issue(self.policy@[i]);
        let mut i: usize = 0;
        while i < self.policy.len()
            invariant
                i <= self.policy@.len(),
                issue == (|i: int| policy_issue(self.policy@[i])),
                first_issue(issue, i as int) is None,
            decreases self.policy.len() - i,
        {
            let entry = &self.policy[i];
            let critical = is_critical_symbol(entry.symbol.as_str());
            assert(first_issue(issue, i + 1) == issue(i as int));
            if critical && str_eq(entry.classification.as_str(), "delegable") {
                proof {
                    lemma_first_issue_stable(issue, i + 1, self.policy@.len() as int);
                }
                return Err(
                    PolicyValidationError::CriticalSymbolReclassified {
                        symbol: entry.symbol.clone(),
                    },
                );
            }
            if critical && entry.auto_approve_seconds > 0 {
                proof {
                    lemma_first_issue_stable(issue, i + 1, self.policy@.len() as int);
                }
                return Err(
                    PolicyValidationError::CriticalSymbolAutoApprove {
                        symbol: entry.symbol.clone(),
                        seconds: entry.auto_approve_seconds,
                    },
                );
            }
            i = i + 1;
        }
        Ok(())
    }

    fn validate_pattern_set(set: &CriteriaPatternSet) -> (r: Result<(), PolicyValidationError>)
        ensures
            r == result_of(criteria_set_issue(*set)),
    {
        let ghost issue = |k: int|
            if !regex_compiles(set.patterns@[k]@) {
                Some(
                    PolicyValidationError::InvalidCriteriaRegex {
                        category: set.category,
                        error: set.patterns@[k],
                    },
                )
            } else {
                None
            };
        let mut k: usize = 0;
        while k < set.patterns.len()
            invariant
                k <= set.patterns@.len(),
                issue == (|k: int|
                    if !regex_compiles(set.patterns@[k]@) {
                        Some(
                            PolicyValidationError::InvalidCriteriaRegex {
                                category: set.category,
                                error: set.patterns@[k],
                            },
                        )
                    } else {
                        None
                    }),
                first_issue(issue, k as int) is None,
            decreases set.patterns.len() - k,
        {
            assert(first_issue(issue, k + 1) == issue(k as int));
            if compile(set.patterns[k].as_str()).is_none() {
                proof {
                    lemma_first_issue_stable(issue, k + 1, set.patterns@.len() as int);
                }
                return Err(
                    PolicyValidationError::InvalidCriteriaRegex {
                        category: set.category.clone(),
                        error: set.patterns[k].clone(),
                    },
                );
            }
            k = k + 1;
        }
        Ok(())
    }

    pub fn validate_criteria(&self) -> (r: Result<(), PolicyValidationError>)
        ensures
            r == result_of(self.criteria_error()),
    {
        let ghost issue = |i: int| criteria_set_issue(self.criteria@[i]);
        let mut i: usize = 0;
        while i < self.criteria.len()
            invariant
                i <= self.criteria@.len(),
                issue == (|i: int| criteria_set_issue(self.criteria@[i])),
                first_issue(issue, i as int) is None,
            decreases self.criteria.len() - i,
        {
            assert(first_issue(issue, i + 1) == issue(i as int));
            let r = Self::validate_pattern_set(&self.criteria[i]);
            if r.is_err() {
                proof {
                    lemma_first_issue_stable(issue, i + 1, self.criteria@.len() as int);
                }
                return r;
            }
            i = i + 1;
        }
        Ok(())
    }

    pub fn validate_sockets(&self) -> (r: Result<(), PolicyValidationError>)
        ensures
            r == result_of(self.socket_error()),
    {
        let ghost issue = |i: int| socket_issue(self.sockets@, i);
        let mut i: usize = 0;
        while i < self.sockets.len()
            invariant
                i <= self.sockets@.len(),
                issue == (|i: int| socket_issue(self.sockets@, i)),
                first_issue(issue, i as int) is None,
            decreases self.sockets.len() - i,
        {
            let sock = &self.sockets[i];
            assert(first_issue(issue, i + 1) == issue(i as int));
            if !permissions_valid(sock.permissions.as_str()) {
                proof {
                    lemma_first_issue_stable(issue, i + 1, self.sockets@.len() as int);
                }
                return Err(
                    PolicyValidationError::InvalidSocketPermissions {
                        name: sock.name.clone(),
                        permissions: sock.permissions.clone(),
                    },
                );
            }
            if socket_seen(&self.sockets, i) {
                proof {
                    lemma_first_issue_stable(issue, i + 1, self.sockets@.len() as int);
                }
                return Err(PolicyValidationError::DuplicateSocket { name: sock.name.clone() });
            }
            i = i + 1;
        }
        Ok(())
    }
}

// ---------------------------------------------------------------------------
// Security-lowering detection
// ---------------------------------------------------------------------------

/// The index of the first policy entry at or after `k` for `symbol`.
pub open spec fn find_policy_from(prev: Seq<PolicySymbolEntry>, symbol: Seq<char>, k: int) -> Option<
    int,
>
    decreases prev.len() - k,
{
    if k < 0 || k >= prev.len() {
        None
    } else if prev[k].symbol@ == symbol {
        Some(k)
    } else {
        find_policy_from(prev, symbol, k + 1)
    }
}

/// A wildcard allowlist entry whose name the previous allowlist lacks.
pub open spec fn adds_wildcard(cur: Seq<AllowlistEntry>, prev: Seq<AllowlistEntry>) -> bool {
    exists|i: int|
        0 <= i < cur.len() && (#[trigger] cur[i]).path@ == "*"@ && !(exists|j: int|
            0 <= j < prev.len() && prev[j].name@ == cur[i].name@)
}

/// Policy entry `p` lowers security against the first previous entry for its
/// symbol: critical becomes delegable, or a critical symbol gains a positive
/// auto-approval window where it had none.
pub open spec fn policy_lowered(p: PolicySymbolEntry, prev: Seq<PolicySymbolEntry>) -> bool {
    match find_policy_from(prev, p.symbol@, 0) {
        Some(k) => (prev[k].classification@ == "critical"@ && p.classification@ == "delegable"@)
            || (is_critical_name(p.symbol@) && prev[k].auto_approve_seconds == 0
            && p.auto_approve_seconds > 0),
        None => false,
    }
}

impl AdminConfig {
    /// The change from `previous` to `self` lowers the security posture.
    pub open spec fn lowers_security(self, previous: AdminConfig) -> bool {
        ||| adds_wildcard(self.allowlist@, previous.allowlist@)
        ||| exists|i: int|
            0 <= i < self.policy@.len() && policy_lowered(
                #[trigger] self.policy@[i],
                previous.policy@,
            )
        ||| removes_socket(self.sockets@, previous.sockets@)
    }
}

/// Some socket of `sockets` is named `name`.
pub open spec fn has_socket_name(sockets: Seq<SocketDefinition>, name: Seq<char>) -> bool {
    exists|j: int| 0 <= j < sockets.len() && (#[trigger] sockets[j]).name@ == name
}

/// A socket of `prev` has no definition of the same name in `cur`.
pub open spec fn removes_socket(cur: Seq<SocketDefinition>, prev: Seq<SocketDefinition>) -> bool {
    exists|i: int| 0 <= i < prev.len() && !has_socket_name(cur, (#[trigger] prev[i]).name@)
}

fn has_socket_named(sockets: &Vec<SocketDefinition>, name: &str) -> (b: bool)
    ensures
        b == has_socket_name(sockets@, name@),
{
    let mut j: usize = 0;
    while j < sockets.len()
        invariant
            j <= sockets@.len(),
            forall|k: int| 0 <= k < j ==> sockets@[k].name@ != name@,
        decreases sockets.len() - j,
    {
        if str_eq(sockets[j].name.as_str(), name) {
            assert(sockets@[j as int].name@ == name@);
            return true;
        }
        j = j + 1;
    }
    false
}

fn has_entry_named(entries: &Vec<AllowlistEntry>, name: &str) -> (b: bool)
    ensures
        b == exists|j: int| 0 <= j < entries@.len() && entries@[j].name@ == name@,
{
    let mut j: usize = 0;
    while j < entries.len()
        invariant
            j <= entries@.len(),
            forall|k: int| 0 <= k < j ==> entries@[k].name@ != name@,
        decreases entries.len() - j,
    {
        if str_eq(entries[j].name.as_str(), name) {
            return true;
        }
        j = j + 1;
    }
    false
}

fn find_policy(prev: &Vec<PolicySymbolEntry>, symbol: &str) -> (r: Option<usize>)
    ensures
        r matches Some(k) ==> k < prev@.len() && find_policy_from(prev@, symbol@, 0) == Some(
            k as int,
        ),
        r is None ==> find_policy_from(prev@, symbol@, 0) is None,
{
    let mut k: usize = 0;
    while k < prev.len()
        invariant
            k <= prev@.len(),
            find_policy_from(prev@, symbol@, 0) == find_policy_from(prev@, symbol@, k as int),
        decreases prev.len() - k,
    {
        if str_eq(prev[k].symbol.as_str(), symbol) {
            return Some(k);
        }
        k = k + 1;
    }
    None
}

impl AdminConfig {
    /// Whether the change from `previous` to `self` lowers the security
    /// posture: a new wildcard allowlist entry, a critical symbol reclassified
    /// as delegable, auto-approval enabled for a critical symbol, or a socket
    /// whose name no longer appears.
    pub fn is_security_lowering_change(&self, previous: &AdminConfig) -> (b: bool)
        ensures
            b == self.lowers_security(*previous),
    {
        let mut i: usize = 0;
        while i < self.allowlist.len()
            invariant
                i <= self.allowlist@.len(),
                forall|k: int|
                    0 <= k < i ==> !((#[trigger] self.allowlist@[k]).path@ == "*"@ && !(exists|j: int|
                        0 <= j < previous.allowlist@.len() && previous.allowlist@[j].name@
                            == self.allowlist@[k].name@)),
            decreases self.allowlist.len() - i,
        {
            let entry = &self.allowlist[i];
            if str_eq(entry.path.as_str(), "*") && !has_entry_named(
                &previous.allowlist,
                entry.name.as_str(),
            ) {
                assert(adds_wildcard(self.allowlist@, previous.allowlist@)) by {
                    let _ = self.allowlist@[i as int];
                }
                return true;
            }
            i = i + 1;
        }
        let mut p: usize = 0;
        while p < self.policy.len()
            invariant
                p <= self.policy@.len(),
                !adds_wildcard(self.allowlist@, previous.allowlist@),
                forall|k: int|
                    0 <= k < p ==> !policy_lowered(#[trigger] self.policy@[k], previous.policy@),
            decreases self.policy.len() - p,
        {
            let policy = &self.policy[p];
            match find_policy(&previous.policy, policy.symbol.as_str()) {
                Some(k) => {
                    let prev = &previous.policy[k];
                    if str_eq(prev.classification.as_str(), "critical") && str_eq(
                        policy.classification.as_str(),
                        "delegable",
                    ) {
                        assert(policy_lowered(self.policy@[p as int], previous.policy@));
                        return true;
                    }
                    if is_critical_symbol(policy.symbol.as_str()) && prev.auto_approve_seconds == 0
                        && policy.auto_approve_seconds > 0 {
                        assert(policy_lowered(self.policy@[p as int], previous.policy@));
                        return true;
                    }
                },
                None => {},
            }
            p = p + 1;
        }
        let mut q: usize = 0;
        while q < previous.sockets.len()
            invariant
                q <= previous.sockets@.len(),
                !adds_wildcard(self.allowlist@, previous.allowlist@),
                !(exists|i: int|
                    0 <= i < self.policy@.len() && policy_lowered(
                        #[trigger] self.policy@[i],
                        previous.policy@,
                    )),
                forall|i: int|
                    0 <= i < q ==> has_socket_name(self.sockets@, (#[trigger] previous.sockets@[i]).name@),
            decreases previous.sockets.len() - q,
        {
            if !has_socket_named(&self.sockets, previous.sockets[q].name.as_str()) {
                assert(!has_socket_name(self.sockets@, previous.sockets@[q as int].name@));
                return true;
            }
            q = q + 1;
        }
        assert(!removes_socket(self.sockets@, previous.sockets@));
        false
    }
}

/// Applying a change to itself never lowers security, as long as no symbol
/// has two policy entries.
pub proof fn lemma_no_change_never_lowers_security(c: AdminConfig)
    requires
        forall|i: int, j: int|
            0 <= i < j < c.policy@.len() ==> c.policy@[i].symbol@ != c.policy@[j].symbol@,
    ensures
        !c.lowers_security(c),
{
    reveal_strlit("critical");
    reveal_strlit("delegable");
    assert("critical"@ != "delegable"@) by {
        assert("critical"@[0] != "delegable"@[0]);
    }
    assert(!adds_wildcard(c.allowlist@, c.allowlist@)) by {
        assert forall|i: int| 0 <= i < c.allowlist@.len() implies !((#[trigger] c.allowlist@[i]).path@
            == "*"@ && !(exists|j: int|
            0 <= j < c.allowlist@.len() && c.allowlist@[j].name@ == c.allowlist@[i].name@)) by {
            assert(c.allowlist@[i].name@ == c.allowlist@[i].name@);
        }
    }
    assert forall|i: int| 0 <= i < c.policy@.len() implies !policy_lowered(
        #[trigger] c.policy@[i],
        c.policy@,
    ) by {
        lemma_find_policy_unique(c.policy@, i, 0);
    }
    assert forall|i: int| 0 <= i < c.sockets@.len() implies has_socket_name(
        c.sockets@,
        (#[trigger] c.sockets@[i]).name@,
    ) by {
        assert(c.sockets@[i].name@ == c.sockets@[i].name@);
    }
}

/// `find_policy_from` finds the first entry for a symbol at or after `m`.
proof fn lemma_find_policy_first(prev: Seq<PolicySymbolEntry>, symbol: Seq<char>, m: int, k: int)
    requires
        0 <= m <= k < prev.len(),
        prev[k].symbol@ == symbol,
        forall|j: int| m <= j < k ==> prev[j].symbol@ != symbol,
    ensures
        find_policy_from(prev, symbol, m) == Some(k),
    decreases k - m,
{
    if m < k {
        lemma_find_policy_first(prev, symbol, m + 1, k);
    }
}

/// Reclassifying a symbol from critical to delegable lowers security,
/// whatever the symbol is called: the entry is compared with the first
/// previous entry for the same symbol.
pub proof fn lemma_critical_to_delegable_lowers_security(
    c: AdminConfig,
    previous: AdminConfig,
    i: int,
    k: int,
)
    requires
        0 <= i < c.policy@.len(),
        0 <= k < previous.policy@.len(),
        previous.policy@[k].symbol@ == c.policy@[i].symbol@,
        forall|j: int| 0 <= j < k ==> previous.policy@[j].symbol@ != c.policy@[i].symbol@,
        previous.policy@[k].classification@ == "critical"@,
        c.policy@[i].classification@ == "delegable"@,
    ensures
        c.lowers_security(previous),
{
    lemma_find_policy_first(previous.policy@, c.policy@[i].symbol@, 0, k);
    assert(policy_lowered(c.policy@[i], previous.policy@));
}

/// Giving one of the built-in critical symbols a positive auto-approval
/// window where its first previous entry had none lowers security.
pub proof fn lemma_critical_auto_approval_lowers_security(
    c: AdminConfig,
    previous: AdminConfig,
    i: int,
    k: int,
)
    requires
        0 <= i < c.policy@.len(),
        0 <= k < previous.policy@.len(),
        previous.policy@[k].symbol@ == c.policy@[i].symbol@,
        forall|j: int| 0 <= j < k ==> previous.policy@[j].symbol@ != c.policy@[i].symbol@,
        is_critical_name(c.policy@[i].symbol@),
        previous.policy@[k].auto_approve_seconds == 0,
        c.policy@[i].auto_approve_seconds > 0,
    ensures
        c.lowers_security(previous),
{
    lemma_find_policy_first(previous.policy@, c.policy@[i].symbol@, 0, k);
    assert(policy_lowered(c.policy@[i], previous.policy@));
}

/// A new allowlist entry with the wildcard path, under a name the previous
/// allowlist did not have, lowers security.
pub proof fn lemma_new_wildcard_lowers_security(c: AdminConfig, previous: AdminConfig, i: int)
    requires
        0 <= i < c.allowlist@.len(),
        c.allowlist@[i].path@ == "*"@,
        forall|j: int| 0 <= j < previous.allowlist@.len() ==> previous.allowlist@[j].name@ != c.allowlist@[i].name@,
    ensures
        c.lowers_security(previous),
{
    assert(adds_wildcard(c.allowlist@, previous.allowlist@)) by {
        let _ = c.allowlist@[i];
    }
}

/// A socket whose name no longer appears among the sockets lowers security.
pub proof fn lemma_dropped_socket_lowers_security(c: AdminConfig, previous: AdminConfig, i: int)
    requires
        0 <= i < previous.sockets@.len(),
        forall|j: int| 0 <= j < c.sockets@.len() ==> c.sockets@[j].name@ != previous.sockets@[i].name@,
    ensures
        c.lowers_security(previous),
{
    assert(!has_socket_name(c.sockets@, previous.sockets@[i].name@));
}

proof fn lemma_find_policy_unique(ps: Seq<PolicySymbolEntry>, i: int, k: int)
    requires
        0 <= k <= i < ps.len(),
        forall|a: int, b: int| 0 <= a < b < ps.len() ==> ps[a].symbol@ != ps[b].symbol@,
    ensures
        find_policy_from(ps, ps[i].symbol@, k) == Some(i),
    decreases i - k,
{
    if k < i {
        assert(ps[k].symbol@ != ps[i].symbol@);
        lemma_find_policy_unique(ps, i, k + 1);
    }
}

// ---------------------------------------------------------------------------
// Criteria configuration
// ---------------------------------------------------------------------------

/// The pattern lists after one criteria set replaces the list of its
/// category; sets of unknown categories change nothing.
pub open spec fn apply_set(cfg: CriteriaPatterns, set: CriteriaPatternSet) -> CriteriaPatterns {
    let c = set.category@;
    let p = strs(set.patterns);
    if c == "irreversibility"@ {
        CriteriaPatterns { irreversibility: p, ..cfg }
    } else if c == "system_security"@ {
        CriteriaPatterns { system_security: p, ..cfg }
    } else if c == "secrets"@ || c == "credentials_secrets"@ {
        CriteriaPatterns { credentials_secrets: p, ..cfg }
    } else if c == "exfiltration"@ || c == "data_exfiltration"@ {
        CriteriaPatterns { data_exfiltration: p, ..cfg }
    } else if c == "financial"@ {
        CriteriaPatterns { financial: p, ..cfg }
    } else if c == "third_party"@ {
        CriteriaPatterns { third_party: p, ..cfg }
    } else {
        cfg
    }
}

/// The pattern lists after applying every set in order.
pub open spec fn apply_sets(cfg: CriteriaPatterns, sets: Seq<CriteriaPatternSet>) -> CriteriaPatterns
    decreases sets.len(),
{
    if sets.len() == 0 {
        cfg
    } else {
        apply_set(apply_sets(cfg, sets.drop_last()), sets.last())
    }
}

/// The six default criteria sets, in the order the seeding writes them.
pub open spec fn seeded_sets(sets: Seq<CriteriaPatternSet>) -> bool {
    let d = default_patterns_spec();
    &&& sets.len() == 6
    &&& sets[0].category@ == "irreversibility"@ && strs(sets[0].patterns) == d.irreversibility
    &&& sets[1].category@ == "system_security"@ && strs(sets[1].patterns) == d.system_security
    &&& sets[2].category@ == "secrets"@ && strs(sets[2].patterns) == d.credentials_secrets
    &&& sets[3].category@ == "exfiltration"@ && strs(sets[3].patterns) == d.data_exfiltration
    &&& sets[4].category@ == "financial"@ && strs(sets[4].patterns) == d.financial
    &&& sets[5].category@ == "third_party"@ && strs(sets[5].patterns) == d.third_party
}

impl AdminConfig {
    /// The criteria configuration this admin config describes: the shipped
    /// defaults, with each present category replaced by its set (later sets
    /// win).
    pub fn to_criteria_config(&self) -> (c: CriteriaConfig)
        ensures
            c@ == apply_sets(default_patterns_spec(), self.criteria@),
    {
        let mut config = CriteriaConfig::default_patterns();
        let mut i: usize = 0;
        assert(self.criteria@.take(0) =~= Seq::<CriteriaPatternSet>::empty());
        while i < self.criteria.len()
            invariant
                i <= self.criteria@.len(),
                config@ == apply_sets(default_patterns_spec(), self.criteria@.take(i as int)),
            decreases self.criteria.len() - i,
        {
            let set = &self.criteria[i];
            assert(self.criteria@.take(i + 1).drop_last() =~= self.criteria@.take(i as int));
            assert(self.criteria@.take(i + 1).last() == *set);
            let c = set.category.as_str();
            if str_eq(c, "irreversibility") {
                config.irreversibility = copy_strings(&set.patterns);
            } else if str_eq(c, "system_security") {
                config.system_security = copy_strings(&set.patterns);
            } else if str_eq(c, "secrets") || str_eq(c, "credentials_secrets") {
                config.credentials_secrets = copy_strings(&set.patterns);
            } else if str_eq(c, "exfiltration") || str_eq(c, "data_exfiltration") {
                config.data_exfiltration = copy_strings(&set.patterns);
            } else if str_eq(c, "financial") {
                config.financial = copy_strings(&set.patterns);
            } else if str_eq(c, "third_party") {
                config.third_party = copy_strings(&set.patterns);
            }
            i = i + 1;
        }
        assert(self.criteria@.take(self.criteria@.len() as int) =~= self.criteria@);
        config
    }

    /// Seeds the criteria list with the shipped default patterns if it is empty.
    pub fn seed_default_criteria(&mut self)
        ensures
            old(self).criteria@.len() == 0 ==> seeded_sets(final(self).criteria@),
            old(self).criteria@.len() != 0 ==> final(self).criteria@ == old(self).criteria@,
            final(self).allowlist == old(self).allowlist,
            final(self).symbols == old(self).symbols,
            final(self).policy == old(self).policy,
            final(self).sockets == old(self).sockets,
            final(self).branches == old(self).branches,
            final(self).audit == old(self).audit,
    {
        if self.criteria.len() == 0 {
            let defaults = CriteriaConfig::default_patterns();
            self.criteria.push(
                CriteriaPatternSet {
                    category: owned("irreversibility"),
                    patterns: defaults.irreversibility,
                },
            );
            self.criteria.push(
                CriteriaPatternSet {
                    category: owned("system_security"),
                    patterns: defaults.system_security,
                },
            );
            self.criteria.push(
                CriteriaPatternSet {
                    category: owned("secrets"),
                    patterns: defaults.credentials_secrets,
                },
            );
            self.criteria.push(
                CriteriaPatternSet {
                    category: owned("exfiltration"),
                    patterns: defaults.data_exfiltration,
                },
            );
            self.criteria.push(
                CriteriaPatternSet { category: owned("financial"), patterns: defaults.financial },
            );
            self.criteria.push(
                CriteriaPatternSet { category: owned("third_party"), patterns: defaults.third_party },
            );
        }
    }
}

proof fn lemma_apply_sets_step(cfg: CriteriaPatterns, sets: Seq<CriteriaPatternSet>, k: int)
    requires
        0 <= k < sets.len(),
    ensures
        apply_sets(cfg, sets.take(k + 1)) == apply_set(apply_sets(cfg, sets.take(k)), sets[k]),
{
    assert(sets.take(k + 1).drop_last() =~= sets.take(k));
}

/// Seeding the default criteria and converting them back yields exactly the
/// shipped default patterns.
pub proof fn lemma_seeded_criteria_reproduce_defaults(sets: Seq<CriteriaPatternSet>)
    requires
        seeded_sets(sets),
    ensures
        apply_sets(default_patterns_spec(), sets) == default_patterns_spec(),
{
    reveal_strlit("irreversibility");
    reveal_strlit("system_security");
    reveal_strlit("secrets");
    reveal_strlit("credentials_secrets");
    reveal_strlit("exfiltration");
    reveal_strlit("data_exfiltration");
    reveal_strlit("financial");
    reveal_strlit("third_party");
    let d = default_patterns_spec();
    assert("system_security"@ != "irreversibility"@) by {
        assert("system_security"@[0] != "irreversibility"@[0]);
    }
    assert("secrets"@ != "irreversibility"@) by {
        assert("secrets"@.len() != "irreversibility"@.len());
    }
    assert("secrets"@ != "system_security"@) by {
        assert("secrets"@.len() != "system_security"@.len());
    }
    assert("credentials_secrets"@ != "irreversibility"@) by {
        assert("credentials_secrets"@.len() != "irreversibility"@.len());
    }
    assert("credentials_secrets"@ != "system_security"@) by {
        assert("credentials_secrets"@.len() != "system_security"@.len());
    }
    assert("credentials_secrets"@ != "secrets"@) by {
        assert("credentials_secrets"@.len() != "secrets"@.len());
    }
    assert("exfiltration"@ != "irreversibility"@) by {
        assert("exfiltration"@.len() != "irreversibility"@.len());
    }
    assert("exfiltration"@ != "system_security"@) by {
        assert("exfiltration"@.len() != "system_security"@.len());
    }
    assert("exfiltration"@ != "secrets"@) by {
        assert("exfiltration"@.len() != "secrets"@.len());
    }
    assert("exfiltration"@ != "credentials_secrets"@) by {
        assert("exfiltration"@.len() != "credentials_secrets"@.len());
    }
    assert("data_exfiltration"@ != "irreversibility"@) by {
        assert("data_exfiltration"@.len() != "irreversibility"@.len());
    }
    assert("data_exfiltration"@ != "system_security"@) by {
        assert("data_exfiltration"@.len() != "system_security"@.len());
    }
    assert("data_exfiltration"@ != "secrets"@) by {
        assert("data_exfiltration"@.len() != "secrets"@.len());
    }
    assert("data_exfiltration"@ != "credentials_secrets"@) by {
        assert("data_exfiltration"@.len() != "credentials_secrets"@.len());
    }
    assert("data_exfiltration"@ != "exfiltration"@) by {
        assert("data_exfiltration"@.len() != "exfiltration"@.len());
    }
    assert("financial"@ != "irreversibility"@) by {
        assert("financial"@.len() != "irreversibility"@.len());
    }
    assert("financial"@ != "system_security"@) by {
        assert("financial"@.len() != "system_security"@.len());
    }
    assert("financial"@ != "secrets"@) by {
        assert("financial"@.len() != "secrets"@.len());
    }
    assert("financial"@ != "credentials_secrets"@) by {
        assert("financial"@.len() != "credentials_secrets"@.len());
    }
    assert("financial"@ != "exfiltration"@) by {
        assert("financial"@.len() != "exfiltration"@.len());
    }
    assert("financial"@ != "data_exfiltration"@) by {
        assert("financial"@.len() != "data_exfiltration"@.len());
    }
    assert("third_party"@ != "irreversibility"@) by {
        assert("third_party"@.len() != "irreversibility"@.len());
    }
    assert("third_party"@ != "system_security"@) by {
        assert("third_party"@.len() != "system_security"@.len());
    }
    assert("third_party"@ != "secrets"@) by {
        assert("third_party"@.len() != "secrets"@.len());
    }
    assert("third_party"@ != "credentials_secrets"@) by {
        assert("third_party"@.len() != "credentials_secrets"@.len());
    }
    assert("third_party"@ != "exfiltration"@) by {
        assert("third_party"@.len() != "exfiltration"@.len());
    }
    assert("third_party"@ != "data_exfiltration"@) by {
        assert("third_party"@.len() != "data_exfiltration"@.len());
    }
    assert("third_party"@ != "financial"@) by {
        assert("third_party"@.len() != "financial"@.len());
    }
    assert(sets.take(0) =~= Seq::<CriteriaPatternSet>::empty());
    assert(apply_set(d, sets[0]) =~= d);
    assert(apply_set(d, sets[1]) =~= d);
    assert(apply_set(d, sets[2]) =~= d);
    assert(apply_set(d, sets[3]) =~= d);
    assert(apply_set(d, sets[4]) =~= d);
    assert(apply_set(d, sets[5]) =~= d);
    lemma_apply_sets_step(d, sets, 0);
    lemma_apply_sets_step(d, sets, 1);
    lemma_apply_sets_step(d, sets, 2);
    lemma_apply_sets_step(d, sets, 3);
    lemma_apply_sets_step(d, sets, 4);
    lemma_apply_sets_step(d, sets, 5);
    assert(sets.take(6) =~= sets);
}

/// A configuration that validates never reclassifies a critical symbol as
/// delegable and never lets one auto-approve.
pub proof fn lemma_valid_config_keeps_critical_symbols_critical(c: AdminConfig)
    requires
        c.validation_error() is None,
    ensures
        forall|i: int|
            0 <= i < c.policy@.len() && is_critical_name((#[trigger] c.policy@[i]).symbol@) ==> c.policy@[i].classification@
                != "delegable"@ && c.policy@[i].auto_approve_seconds == 0,
{
    lemma_first_issue_step(|i: int| policy_issue(c.policy@[i]), c.policy@.len() as int);
    assert forall|i: int|
        0 <= i < c.policy@.len() && is_critical_name(
            (#[trigger] c.policy@[i]).symbol@,
        ) implies c.policy@[i].classification@ != "delegable"@ && c.policy@[i].auto_approve_seconds
        == 0 by {
        let issue = |i: int| policy_issue(c.policy@[i]);
        assert(issue(i) is None);
    }
}

/// No position below `n` has an issue exactly when none is found below `n`.
pub proof fn lemma_first_issue_none(issue: spec_fn(int) -> Option<PolicyValidationError>, n: int)
    requires
        n >= 0,
    ensures
        first_issue(issue, n) is None <==> forall|k: int| 0 <= k < n ==> (#[trigger] issue(k)) is None,
    decreases n,
{
    if n > 0 {
        lemma_first_issue_none(issue, n - 1);
    }
}

impl AdminConfig {
    /// Every safety rule of the configuration holds: no allowlist entry has
    /// the wildcard path and no two share a name; no critical symbol is
    /// classified delegable or given an auto-approve delay; every criteria
    /// pattern compiles; every socket has octal permissions (`0` and three
    /// digits `0`-`7`) and no two sockets share a name.
    pub open spec fn rules_hold(self) -> bool {
        &&& forall|i: int| 0 <= i < self.allowlist@.len() ==> (#[trigger] self.allowlist@[i]).path@ != "*"@
        &&& forall|i: int, j: int|
            0 <= i < j < self.allowlist@.len() ==> (#[trigger] self.allowlist@[i]).name@
                != (#[trigger] self.allowlist@[j]).name@
        &&& forall|i: int|
            0 <= i < self.policy@.len() && is_critical_name((#[trigger] self.policy@[i]).symbol@)
                ==> self.policy@[i].classification@ != "delegable"@ && self.policy@[i].auto_approve_seconds == 0
        &&& forall|i: int, k: int|
            0 <= i < self.criteria@.len() && 0 <= k < (#[trigger] self.criteria@[i]).patterns@.len()
                ==> regex_compiles(#[trigger] self.criteria@[i].patterns@[k]@)
        &&& forall|i: int|
            0 <= i < self.sockets@.len() ==> valid_permissions((#[trigger] self.sockets@[i]).permissions@)
        &&& forall|i: int, j: int|
            0 <= i < j < self.sockets@.len() ==> (#[trigger] self.sockets@[i]).name@
                != (#[trigger] self.sockets@[j]).name@
    }
}

/// A configuration validates if and only if every safety rule holds.
pub proof fn lemma_validation_iff_rules(c: AdminConfig)
    ensures
        c.validation_error() is None <==> c.rules_hold(),
{
    let al = |i: int| allowlist_issue(c.allowlist@, i);
    let po = |i: int| policy_issue(c.policy@[i]);
    let cr = |i: int| criteria_set_issue(c.criteria@[i]);
    let so = |i: int| socket_issue(c.sockets@, i);
    lemma_first_issue_none(al, c.allowlist@.len() as int);
    lemma_first_issue_none(po, c.policy@.len() as int);
    lemma_first_issue_none(cr, c.criteria@.len() as int);
    lemma_first_issue_none(so, c.sockets@.len() as int);
    assert forall|i: int| 0 <= i < c.criteria@.len() implies ((#[trigger] cr(i)) is None <==> forall|k: int|
        0 <= k < c.criteria@[i].patterns@.len() ==> regex_compiles(
            #[trigger] c.criteria@[i].patterns@[k]@,
        )) by {
        let s = c.criteria@[i];
        let f = |k: int|
            if !regex_compiles(s.patterns@[k]@) {
                Some(
                    PolicyValidationError::InvalidCriteriaRegex {
                        category: s.category,
                        error: s.patterns@[k],
                    },
                )
            } else {
                None
            };
        lemma_first_issue_none(f, s.patterns@.len() as int);
        assert(cr(i) == first_issue(f, s.patterns@.len() as int));
        if cr(i) is None {
            assert forall|k: int| 0 <= k < s.patterns@.len() implies regex_compiles(
                #[trigger] s.patterns@[k]@,
            ) by {
                assert(f(k) is None);
            }
        }
    }
    if c.validation_error() is None {
        assert forall|i: int, j: int| 0 <= i < j < c.allowlist@.len() implies (#[trigger] c.allowlist@[i]).name@
            != (#[trigger] c.allowlist@[j]).name@ by {
            assert(al(j) is None);
        }
        assert forall|i: int| 0 <= i < c.allowlist@.len() implies (#[trigger] c.allowlist@[i]).path@ != "*"@ by {
            assert(al(i) is None);
        }
        assert forall|i: int|
            0 <= i < c.policy@.len() && is_critical_name((#[trigger] c.policy@[i]).symbol@)
            implies c.policy@[i].classification@ != "delegable"@ && c.policy@[i].auto_approve_seconds == 0 by {
            assert(po(i) is None);
        }
        assert forall|i: int, k: int|
            0 <= i < c.criteria@.len() && 0 <= k < (#[trigger] c.criteria@[i]).patterns@.len()
            implies regex_compiles(#[trigger] c.criteria@[i].patterns@[k]@) by {
            assert(cr(i) is None);
        }
        assert forall|i: int| 0 <= i < c.sockets@.len() implies valid_permissions(
            (#[trigger] c.sockets@[i]).permissions@,
        ) by {
            assert(so(i) is None);
        }
        assert forall|i: int, j: int| 0 <= i < j < c.sockets@.len() implies (#[trigger] c.sockets@[i]).name@
            != (#[trigger] c.sockets@[j]).name@ by {
            assert(so(j) is None);
        }
    }
    if c.rules_hold() {
        assert forall|k: int| 0 <= k < c.allowlist@.len() implies (#[trigger] al(k)) is None by {
            assert(c.allowlist@[k].path@ != "*"@);
            assert(!exists|j: int| 0 <= j < k && c.allowlist@[j].name@ == c.allowlist@[k].name@) by {
                assert forall|j: int| 0 <= j < k implies c.allowlist@[j].name@ != c.allowlist@[k].name@ by {
                    assert(c.allowlist@[j].name@ != c.allowlist@[k].name@);
                }
            }
        }
        assert forall|k: int| 0 <= k < c.policy@.len() implies (#[trigger] po(k)) is None by {
            assert(is_critical_name(c.policy@[k].symbol@) ==> c.policy@[k].classification@ != "delegable"@);
        }
        assert forall|k: int| 0 <= k < c.criteria@.len() implies (#[trigger] cr(k)) is None by {
            assert(forall|m: int|
                0 <= m < c.criteria@[k].patterns@.len() ==> regex_compiles(
                    #[trigger] c.criteria@[k].patterns@[m]@,
                ));
        }
        assert forall|k: int| 0 <= k < c.sockets@.len() implies (#[trigger] so(k)) is None by {
            assert(valid_permissions(c.sockets@[k].permissions@));
            assert(!exists|j: int| 0 <= j < k && c.sockets@[j].name@ == c.sockets@[k].name@) by {
                assert forall|j: int| 0 <= j < k implies c.sockets@[j].name@ != c.sockets@[k].name@ by {
                    assert(c.sockets@[j].name@ != c.sockets@[k].name@);
                }
            }
        }
    }
}

// ---------------------------------------------------------------------------
// Config paths and dry runs
// ---------------------------------------------------------------------------

/// The audit log directory under the config root.
pub fn audit_dir(config_root: &str) -> (p: String)
    ensures
        p@ == join_path(config_root@, "audit"@),
{
    join(config_root, "audit")
}

/// The path of a named config file under the config root.
pub fn config_file(config_root: &str, name: &str) -> (p: String)
    ensures
        p@ == join_path(config_root@, name@),
{
    join(config_root, name)
}

/// Validates a configuration loaded in a dry-run pass; a load failure is
/// reported as an invalid criteria entry of category `file`.
pub fn dry_run_validate(loaded: Result<AdminConfig, String>) -> (r: Result<
    AdminConfig,
    PolicyValidationError,
>)
    ensures
        match loaded {
            Err(msg) => r == Err::<AdminConfig, PolicyValidationError>(
                PolicyValidationError::InvalidCriteriaRegex {
                    category: r->Err_0->category,
                    error: msg,
                },
            ) && r->Err_0->category@ == "file"@,
            Ok(c) => match c.validation_error() {
                Some(e) => r == Err::<AdminConfig, PolicyValidationError>(e),
                None => r == Ok::<AdminConfig, PolicyValidationError>(c),
            },
        },
{
    match loaded {
        Err(msg) => Err(
            PolicyValidationError::InvalidCriteriaRegex { category: owned("file"), error: msg },
        ),
        Ok(config) => {
            match config.validate() {
                Err(e) => Err(e),
                Ok(()) => Ok(config),
            }
        },
    }
}

} // verus!
