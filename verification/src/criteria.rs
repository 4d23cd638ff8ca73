//! Criteria evaluation: the six risk criteria scanned over each command of an
//! execution plan, combined with the symbol tag carried by the command.
use vstd::prelude::*;

use crate::pattern::{compile, is_match, regex_compiles, regex_is_match};
use crate::protocol::{extract_spec, tag_open, ExecutionPlan, Symbol, SymbolClassification};
use crate::text::{
    strs, chars_of, contains, contains_chars, contains_str, lower, lower_chars, owned, starts_with,
    starts_with_str, string_from_chars, trim, trim_chars, trim_start, trim_start_chars,
};

verus! {

/// The text-scan pattern lists used in criteria evaluation. The first list
/// holds plain markers; the other five hold regular expressions.
#[derive(Debug, Clone, Default, PartialEq)]
pub struct CriteriaConfig {
    pub irreversibility: Vec<String>,
    pub system_security: Vec<String>,
    pub credentials_secrets: Vec<String>,
    pub data_exfiltration: Vec<String>,
    pub financial: Vec<String>,
    pub third_party: Vec<String>,
}

/// The pattern lists of a `CriteriaConfig`, as character sequences.
pub ghost struct CriteriaPatterns {
    pub irreversibility: Seq<Seq<char>>,
    pub system_security: Seq<Seq<char>>,
    pub credentials_secrets: Seq<Seq<char>>,
    pub data_exfiltration: Seq<Seq<char>>,
    pub financial: Seq<Seq<char>>,
    pub third_party: Seq<Seq<char>>,
}

impl View for CriteriaConfig {
    type V = CriteriaPatterns;

    open spec fn view(&self) -> CriteriaPatterns {
        CriteriaPatterns {
            irreversibility: strs(self.irreversibility),
            system_security: strs(self.system_security),
            credentials_secrets: strs(self.credentials_secrets),
            data_exfiltration: strs(self.data_exfiltration),
            financial: strs(self.financial),
            third_party: strs(self.third_party),
        }
    }
}

/// The shipped default patterns.
pub open spec fn default_patterns_spec() -> CriteriaPatterns {
    CriteriaPatterns {
        irreversibility: seq![
            "permanent delete"@,
            "overwrite backup"@,
            "overwrite backups"@,
            "delete backup"@,
            "delete backups"@,
            "rm -rf /"@,
            "rm -rf --no-preserve-root /"@,
            "sudo rm -rf /"@,
            "rm -rf /var/backups"@,
            "rm -rf /home"@,
            "rm -rf /tmp"@,
            "rm -rf /usr"@,
            "rm -rf /etc"@,
            "dd if=/dev/zero"@,
            "dd if = /dev/zero"@,
            "wipefs"@,
            "mkfs"@,
        ],
        system_security: seq![
            "sudoers"@,
            "/etc/sudoers"@,
            "iptables"@,
            "ufw"@,
            "firewall"@,
            "chmod\\s+\\d+\\s+.*(/etc|/usr|/bin|/sbin|/opt)"@,
            "chown\\s+.*(root|sudo)"@,
            "useradd|usermod|passwd"@,
            "systemctl\\s+(stop|disable|restart)"@,
        ],
        credentials_secrets: seq![
            "password"@,
            "passwd"@,
            "ssh\\s+-i"@,
            "id_rsa"@,
            "api[_ -]?token"@,
            "authorization: bearer"@,
            "secret"@,
            "private[_ -]?key"@,
            "aws secret access key"@,
        ],
        data_exfiltration: seq![
            "curl\\s+.*(\\|\\s*sh|--upload|--data|--form)"@,
            "scp\\s+"@,
            "rsync\\s+.*(ssh|remote)"@,
            "git\\s+push"@,
            "mail\\s+-s"@,
            "sendmail"@,
            "email.*(send|attach)"@,
            "upload.*(file|archive|logs)"@,
        ],
        financial: seq![
            "transfer.*money"@,
            "bank"@,
            "wire transfer"@,
            "paypal"@,
            "stripe"@,
            "invoice"@,
            "charge"@,
            "payment"@,
            "currency"@,
        ],
        third_party: seq![
            "post\\s+.*(tweet|message|announcement|comment)"@,
            "twitter"@,
            "x\\.com"@,
            "discord"@,
            "slack"@,
            "linkedin"@,
            "facebook"@,
            "reddit"@,
            "telegram"@,
        ],
    }
}

/// Appends an owned copy of each literal to `v`.
fn push_all(v: &mut Vec<String>, items: &[&str])
    ensures
        strs(*final(v)) == strs(*old(v)) + items@.map_values(|s: &str| s@),
{
    let mut i: usize = 0;
    while i < items.len()
        invariant
            i <= items@.len(),
            strs(*v) == strs(*old(v)) + items@.take(i as int).map_values(|s: &str| s@),
        decreases items.len() - i,
    {
        let ghost prev = strs(*v);
        let o = owned(items[i]);
        v.push(o);
        assert(strs(*v) =~= prev.push(items@[i as int]@));
        assert(items@.take(i + 1).map_values(|s: &str| s@) =~= items@.take(i as int).map_values(
            |s: &str| s@,
        ).push(items@[i as int]@));
        i = i + 1;
    }
    assert(items@.take(items@.len() as int) =~= items@);
}

/// A list of owned strings holding the given literals.
fn owned_list(items: &[&str]) -> (v: Vec<String>)
    ensures
        strs(v) == items@.map_values(|s: &str| s@),
{
    let mut v: Vec<String> = Vec::new();
    push_all(&mut v, items);
    assert(strs(v) =~= items@.map_values(|s: &str| s@));
    v
}

impl CriteriaConfig {
    /// The shipped default patterns.
    pub fn default_patterns() -> (c: CriteriaConfig)
        ensures
            c@ == default_patterns_spec(),
    {
        let irreversibility = owned_list(
            &[
                "permanent delete",
                "overwrite backup",
                "overwrite backups",
                "delete backup",
                "delete backups",
                "rm -rf /",
                "rm -rf --no-preserve-root /",
                "sudo rm -rf /",
                "rm -rf /var/backups",
                "rm -rf /home",
                "rm -rf /tmp",
                "rm -rf /usr",
                "rm -rf /etc",
                "dd if=/dev/zero",
                "dd if = /dev/zero",
                "wipefs",
                "mkfs",
            ],
        );
        let system_security = owned_list(
            &[
                "sudoers",
                "/etc/sudoers",
                "iptables",
                "ufw",
                "firewall",
                "chmod\\s+\\d+\\s+.*(/etc|/usr|/bin|/sbin|/opt)",
                "chown\\s+.*(root|sudo)",
                "useradd|usermod|passwd",
                "systemctl\\s+(stop|disable|restart)",
            ],
        );
        let credentials_secrets = owned_list(
            &[
                "password",
                "passwd",
                "ssh\\s+-i",
                "id_rsa",
                "api[_ -]?token",
                "authorization: bearer",
                "secret",
                "private[_ -]?key",
                "aws secret access key",
            ],
        );
        let data_exfiltration = owned_list(
            &[
                "curl\\s+.*(\\|\\s*sh|--upload|--data|--form)",
                "scp\\s+",
                "rsync\\s+.*(ssh|remote)",
                "git\\s+push",
                "mail\\s+-s",
                "sendmail",
                "email.*(send|attach)",
                "upload.*(file|archive|logs)",
            ],
        );
        let financial = owned_list(
            &[
                "transfer.*money",
                "bank",
                "wire transfer",
                "paypal",
                "stripe",
                "invoice",
                "charge",
                "payment",
                "currency",
            ],
        );
        let third_party = owned_list(
            &[
                "post\\s+.*(tweet|message|announcement|comment)",
                "twitter",
                "x\\.com",
                "discord",
                "slack",
                "linkedin",
                "facebook",
                "reddit",
                "telegram",
            ],
        );
        let c = CriteriaConfig {
            irreversibility,
            system_security,
            credentials_secrets,
            data_exfiltration,
            financial,
            third_party,
        };
        assert(c@.irreversibility =~= default_patterns_spec().irreversibility);
        assert(c@.system_security =~= default_patterns_spec().system_security);
        assert(c@.credentials_secrets =~= default_patterns_spec().credentials_secrets);
        assert(c@.data_exfiltration =~= default_patterns_spec().data_exfiltration);
        assert(c@.financial =~= default_patterns_spec().financial);
        assert(c@.third_party =~= default_patterns_spec().third_party);
        c
    }
}

#[derive(Debug, Clone, Copy, PartialEq, Eq, Structural)]
pub enum Criterion {
    Irreversibility,
    SystemSecurity,
    CredentialsSecrets,
    DataExfiltration,
    Financial,
    ThirdPartyImpact,
}

impl Criterion {
    pub open spec fn label_spec(self) -> Seq<char> {
        match self {
            Criterion::Irreversibility => "Irreversibility"@,
            Criterion::SystemSecurity => "SystemSecurity"@,
            Criterion::CredentialsSecrets => "CredentialsSecrets"@,
            Criterion::DataExfiltration => "DataExfiltration"@,
            Criterion::Financial => "Financial"@,
            Criterion::ThirdPartyImpact => "ThirdPartyImpact"@,
        }
    }

    /// A human-readable label for this criterion.
    pub fn label(&self) -> (r: &'static str)
        ensures
            r@ == self.label_spec(),
    {
        match self {
            Criterion::Irreversibility => "Irreversibility",
            Criterion::SystemSecurity => "SystemSecurity",
            Criterion::CredentialsSecrets => "CredentialsSecrets",
            Criterion::DataExfiltration => "DataExfiltration",
            Criterion::Financial => "Financial",
            Criterion::ThirdPartyImpact => "ThirdPartyImpact",
        }
    }
}

#[derive(Debug, Clone, Copy, PartialEq, Eq, Structural)]
pub enum EvaluationStatus {
    Delegable,
    NonDelegable,
}

#[derive(Debug, Clone, PartialEq, Eq)]
pub struct CriteriaSummary {
    pub triggered: Vec<Criterion>,
    pub status: EvaluationStatus,
}

impl CriteriaSummary {
    pub fn is_delegable(&self) -> (b: bool)
        ensures
            b == (self.status == EvaluationStatus::Delegable),
    {
        self.status == EvaluationStatus::Delegable
    }

    pub fn is_non_delegable(&self) -> (b: bool)
        ensures
            b == (self.status == EvaluationStatus::NonDelegable),
    {
        self.status == EvaluationStatus::NonDelegable
    }
}

// ---------------------------------------------------------------------------
// Specification of the text scan
// ---------------------------------------------------------------------------

/// Scanning `patterns` in order against `text`, stopping at the first match:
/// `Some(hit)` when every pattern tried compiles, `None` when one does not.
pub open spec fn regex_scan(patterns: Seq<Seq<char>>, text: Seq<char>) -> Option<bool>
    decreases patterns.len(),
{
    if patterns.len() == 0 {
        Some(false)
    } else if !regex_compiles(patterns[0]) {
        None
    } else if regex_is_match(patterns[0], text) {
        Some(true)
    } else {
        regex_scan(patterns.drop_first(), text)
    }
}

/// Some marker of the list occurs in `text`.
pub open spec fn marker_hit(markers: Seq<Seq<char>>, text: Seq<char>) -> bool {
    exists|i: int| 0 <= i < markers.len() && contains(text, #[trigger] markers[i])
}

/// The built-in destructive-command heuristics: `rm -rf` on backups or
/// system trees, and `dd` from `/dev/zero` onto a disk.
pub open spec fn destructive_compound(t: Seq<char>) -> bool {
    ||| contains(t, "rm -rf"@) && (contains(t, "backup"@) || contains(t, "/var"@) || contains(
        t,
        "/home"@,
    ) || contains(t, "/tmp"@) || contains(t, "/etc"@) || contains(t, "/usr"@))
    ||| contains(t, "dd"@) && contains(t, "/dev/zero"@) && (contains(t, "of="@) || contains(
        t,
        "disk"@,
    ) || contains(t, "sd"@) || contains(t, "nvme"@))
}

pub open spec fn if_hit(c: Criterion, hit: bool) -> Seq<Criterion> {
    if hit {
        seq![c]
    } else {
        seq![]
    }
}

/// The criteria triggered by the text of one command, in criterion order, or
/// `None` when a pattern that the scan reaches does not compile.
#[verifier::opaque]
pub open spec fn text_eval(command: Seq<char>, cfg: CriteriaPatterns) -> Option<Seq<Criterion>> {
    let t = lower(trim(command));
    let irr = marker_hit(cfg.irreversibility, t) || destructive_compound(t);
    match (
        regex_scan(cfg.system_security, t),
        regex_scan(cfg.credentials_secrets, t),
        regex_scan(cfg.data_exfiltration, t),
        regex_scan(cfg.financial, t),
        regex_scan(cfg.third_party, t),
    ) {
        (Some(a), Some(b), Some(c), Some(d), Some(e)) => Some(
            if_hit(Criterion::Irreversibility, irr) + if_hit(Criterion::SystemSecurity, a)
                + if_hit(Criterion::CredentialsSecrets, b) + if_hit(Criterion::DataExfiltration, c)
                + if_hit(Criterion::Financial, d) + if_hit(Criterion::ThirdPartyImpact, e),
        ),
        _ => None,
    }
}

/// The status of a list of triggered criteria: delegable exactly when empty.
pub open spec fn status_of(triggered: Seq<Criterion>) -> EvaluationStatus {
    if triggered.len() == 0 {
        EvaluationStatus::Delegable
    } else {
        EvaluationStatus::NonDelegable
    }
}

// ---------------------------------------------------------------------------
// Specification of plan evaluation
// ---------------------------------------------------------------------------

/// A command carries a valid tag: it starts, after leading whitespace, with
/// `[[AB:` and names a known symbol other than `CRIT.UNCLASSIFIED`.
pub open spec fn has_valid_tag(command: Seq<char>) -> bool {
    starts_with(trim_start(command), tag_open()) && extract_spec(command).0
        != Symbol::CritUnclassified
}

/// `acc` extended with the criteria of `new` that it does not hold yet.
pub open spec fn merge_new(acc: Seq<Criterion>, new: Seq<Criterion>) -> Seq<Criterion>
    decreases new.len(),
{
    if new.len() == 0 {
        acc
    } else {
        let m = merge_new(acc, new.drop_last());
        if m.contains(new.last()) {
            m
        } else {
            m.push(new.last())
        }
    }
}

/// One command's contribution to the running evaluation `(triggered, held)`.
pub open spec fn step_eval(
    acc: (Seq<Criterion>, bool),
    command: Seq<char>,
    cfg: CriteriaPatterns,
) -> Option<(Seq<Criterion>, bool)> {
    let (sym, remaining) = extract_spec(command);
    match text_eval(remaining, cfg) {
        None => None,
        Some(tt) => if !has_valid_tag(command) {
            Some((acc.0, true))
        } else {
            Some(
                (
                    merge_new(acc.0, tt),
                    acc.1 || sym.classification_spec() == SymbolClassification::Critical || tt.len()
                        > 0,
                ),
            )
        },
    }
}

/// The evaluation of a list of commands: the triggered criteria (without
/// repeats, in first-seen order) and whether the plan is held as
/// non-delegable; `None` when a scan reaches a pattern that does not compile.
pub open spec fn plan_eval(commands: Seq<Seq<char>>, cfg: CriteriaPatterns) -> Option<
    (Seq<Criterion>, bool),
>
    decreases commands.len(),
{
    if commands.len() == 0 {
        Some((seq![], false))
    } else {
        match plan_eval(commands.drop_last(), cfg) {
            None => None,
            Some(acc) => step_eval(acc, commands.last(), cfg),
        }
    }
}

/// The summary that evaluating `commands` yields, when the evaluation is
/// defined.
pub open spec fn plan_summary(commands: Seq<Seq<char>>, cfg: CriteriaPatterns) -> (
    Seq<Criterion>,
    EvaluationStatus,
) {
    let r = plan_eval(commands, cfg).unwrap();
    (
        r.0,
        if r.1 {
            EvaluationStatus::NonDelegable
        } else {
            EvaluationStatus::Delegable
        },
    )
}

impl View for CriteriaSummary {
    type V = (Seq<Criterion>, EvaluationStatus);

    open spec fn view(&self) -> (Seq<Criterion>, EvaluationStatus) {
        (self.triggered@, self.status)
    }
}

// ---------------------------------------------------------------------------
// Execution
// ---------------------------------------------------------------------------

/// Scans `patterns` in order against `text`, stopping at the first match.
fn scan_patterns(patterns: &Vec<String>, text: &str) -> (r: Option<bool>)
    ensures
        r == regex_scan(strs(*patterns), text@),
{
    let ghost ps = strs(*patterns);
    let mut i: usize = 0;
    assert(ps.skip(0) =~= ps);
    while i < patterns.len()
        invariant
            i <= patterns@.len(),
            ps == strs(*patterns),
            regex_scan(ps, text@) == regex_scan(ps.skip(i as int), text@),
        decreases patterns.len() - i,
    {
        assert(ps.skip(i as int)[0] == ps[i as int]);
        assert(ps.skip(i as int).drop_first() =~= ps.skip(i + 1));
        match compile(patterns[i].as_str()) {
            None => {
                return None;
            },
            Some(c) => {
                if is_match(&c, text) {
                    return Some(true);
                }
            },
        }
        i = i + 1;
    }
    assert(ps.skip(i as int).len() == 0);
    Some(false)
}

/// Whether some marker of the list occurs in `text`.
fn any_marker(markers: &Vec<String>, text: &[char]) -> (b: bool)
    ensures
        b == marker_hit(strs(*markers), text@),
{
    let mut i: usize = 0;
    while i < markers.len()
        invariant
            i <= markers@.len(),
            forall|j: int| 0 <= j < i ==> !contains(text@, #[trigger] strs(*markers)[j]),
        decreases markers.len() - i,
    {
        let m = chars_of(markers[i].as_str());
        if contains_chars(text, &m) {
            assert(contains(text@, strs(*markers)[i as int]));
            return true;
        }
        i = i + 1;
    }
    false
}

fn destructive(t: &[char]) -> (b: bool)
    ensures
        b == destructive_compound(t@),
{
    (contains_str(t, "rm -rf") && (contains_str(t, "backup") || contains_str(t, "/var")
        || contains_str(t, "/home") || contains_str(t, "/tmp") || contains_str(t, "/etc")
        || contains_str(t, "/usr"))) || (contains_str(t, "dd") && contains_str(t, "/dev/zero") && (
    contains_str(t, "of=") || contains_str(t, "disk") || contains_str(t, "sd") || contains_str(
        t,
        "nvme",
    )))
}

fn push_if(v: &mut Vec<Criterion>, c: Criterion, hit: bool)
    ensures
        final(v)@ == old(v)@ + if_hit(c, hit),
{
    if hit {
        v.push(c);
    }
    assert(v@ =~= old(v)@ + if_hit(c, hit));
}

/// Scans the text of one command against the six criteria. `None` when a
/// regular expression that the scan reaches does not compile.
pub fn evaluate_text_command(command: &[char], config: &CriteriaConfig) -> (r: Option<
    CriteriaSummary,
>)
    ensures
        r is None <==> text_eval(command@, config@) is None,
        r matches Some(s) ==> s.triggered@ == text_eval(command@, config@).unwrap()
            && s.status == status_of(s.triggered@),
{
    let trimmed = trim_chars(command);
    let lowered = lower_chars(&trimmed);
    let text = string_from_chars(&lowered);
    let irr = any_marker(&config.irreversibility, &lowered) || destructive(&lowered);
    let a = scan_patterns(&config.system_security, text.as_str());
    let b = scan_patterns(&config.credentials_secrets, text.as_str());
    let c = scan_patterns(&config.data_exfiltration, text.as_str());
    let d = scan_patterns(&config.financial, text.as_str());
    let e = scan_patterns(&config.third_party, text.as_str());
    match (a, b, c, d, e) {
        (Some(a), Some(b), Some(c), Some(d), Some(e)) => {
            let mut triggered: Vec<Criterion> = Vec::new();
            push_if(&mut triggered, Criterion::Irreversibility, irr);
            push_if(&mut triggered, Criterion::SystemSecurity, a);
            push_if(&mut triggered, Criterion::CredentialsSecrets, b);
            push_if(&mut triggered, Criterion::DataExfiltration, c);
            push_if(&mut triggered, Criterion::Financial, d);
            push_if(&mut triggered, Criterion::ThirdPartyImpact, e);
            reveal(text_eval);
            assert(triggered@ =~= text_eval(command@, config@).unwrap());
            let status = if triggered.len() == 0 {
                EvaluationStatus::Delegable
            } else {
                EvaluationStatus::NonDelegable
            };
            Some(CriteriaSummary { triggered, status })
        },
        _ => {
            reveal(text_eval);
            None
        },
    }
}

fn contains_criterion(v: &Vec<Criterion>, c: Criterion) -> (b: bool)
    ensures
        b == v@.contains(c),
{
    let mut i: usize = 0;
    while i < v.len()
        invariant
            i <= v@.len(),
            forall|j: int| 0 <= j < i ==> v@[j] != c,
        decreases v.len() - i,
    {
        if v[i] == c {
            return true;
        }
        i = i + 1;
    }
    false
}

/// Adds to `acc` the criteria of `new` that it does not hold yet.
fn merge_into(acc: &mut Vec<Criterion>, new: &Vec<Criterion>)
    ensures
        final(acc)@ == merge_new(old(acc)@, new@),
{
    let mut j: usize = 0;
    assert(new@.take(0) =~= Seq::<Criterion>::empty());
    while j < new.len()
        invariant
            j <= new@.len(),
            acc@ == merge_new(old(acc)@, new@.take(j as int)),
        decreases new.len() - j,
    {
        let c = new[j];
        assert(new@.take(j + 1).drop_last() =~= new@.take(j as int));
        if !contains_criterion(acc, c) {
            acc.push(c);
        }
        j = j + 1;
    }
    assert(new@.take(new@.len() as int) =~= new@);
}

/// Evaluates every command of `commands`; `None` when a scan reaches a
/// pattern that does not compile.
fn evaluate_commands(commands: &Vec<String>, config: &CriteriaConfig) -> (r: Option<
    CriteriaSummary,
>)
    ensures
        r is None <==> plan_eval(strs(*commands), config@) is None,
        r matches Some(s) ==> s@ == plan_summary(strs(*commands), config@),
{
    let ghost cmds = strs(*commands);
    let mut triggered: Vec<Criterion> = Vec::new();
    let mut held = false;
    let mut i: usize = 0;
    assert(cmds.take(0) =~= Seq::<Seq<char>>::empty());
    while i < commands.len()
        invariant
            i <= commands@.len(),
            cmds == strs(*commands),
            plan_eval(cmds.take(i as int), config@) == Some((triggered@, held)),
        decreases commands.len() - i,
    {
        assert(cmds.take(i + 1).drop_last() =~= cmds.take(i as int));
        assert(cmds.take(i + 1).last() == cmds[i as int]);
        let command = chars_of(commands[i].as_str());
        let (symbol, remaining) = Symbol::extract_from_chars(&command);
        let text_summary = match evaluate_text_command(&remaining, config) {
            None => {
                assert(plan_eval(cmds.take(i + 1), config@) is None);
                proof {
                    lemma_plan_eval_none_extends(cmds, config@, i + 1);
                }
                assert(cmds.take(cmds.len() as int) =~= cmds);
                return None;
            },
            Some(s) => s,
        };
        let lead = trim_start_chars(&command);
        let valid = starts_with_str(&lead, "[[AB:") && symbol != Symbol::CritUnclassified;
        if !valid {
            held = true;
        } else {
            if symbol.classification() == SymbolClassification::Critical
                || text_summary.status == EvaluationStatus::NonDelegable {
                held = true;
            }
            merge_into(&mut triggered, &text_summary.triggered);
        }
        i = i + 1;
    }
    assert(cmds.take(cmds.len() as int) =~= cmds);
    let status = if held {
        EvaluationStatus::NonDelegable
    } else {
        EvaluationStatus::Delegable
    };
    Some(CriteriaSummary { triggered, status })
}

/// Once the evaluation of a prefix fails, so does that of every longer prefix.
pub proof fn lemma_plan_eval_none_extends(cmds: Seq<Seq<char>>, cfg: CriteriaPatterns, k: int)
    requires
        0 <= k <= cmds.len(),
        plan_eval(cmds.take(k), cfg) is None,
    ensures
        plan_eval(cmds, cfg) is None,
    decreases cmds.len() - k,
{
    if k < cmds.len() {
        assert(cmds.take(k + 1).drop_last() =~= cmds.take(k));
        lemma_plan_eval_none_extends(cmds, cfg, k + 1);
    } else {
        assert(cmds.take(k) =~= cmds);
    }
}

/// Whether evaluating `plan` against `config` stays clear of patterns that do
/// not compile, so that `evaluate_criteria_with_config` may be called.
pub fn evaluation_defined(plan: &ExecutionPlan, config: &CriteriaConfig) -> (b: bool)
    ensures
        b == (plan_eval(plan.command_seqs(), config@) is Some),
{
    evaluate_commands(&plan.commands, config).is_some()
}

/// Evaluates an execution plan against the provided criteria configuration.
///
/// A command without a valid symbol tag always makes the plan non-delegable;
/// the text scan of a tagged command is a second, independent layer.
pub fn evaluate_criteria_with_config(plan: &ExecutionPlan, config: &CriteriaConfig) -> (r:
    CriteriaSummary)
    requires
        plan_eval(plan.command_seqs(), config@) is Some,
    ensures
        r@ == plan_summary(plan.command_seqs(), config@),
{
    match evaluate_commands(&plan.commands, config) {
        Some(s) => s,
        None => {
            assert(false);
            CriteriaSummary { triggered: Vec::new(), status: EvaluationStatus::NonDelegable }
        },
    }
}

/// Evaluates `plan` against `config` when no pattern that the scan reaches
/// fails to compile; `None` otherwise.
pub fn try_evaluate_criteria_with_config(plan: &ExecutionPlan, config: &CriteriaConfig) -> (r:
    Option<CriteriaSummary>)
    ensures
        r is None <==> plan_eval(plan.command_seqs(), config@) is None,
        r matches Some(s) ==> s@ == plan_summary(plan.command_seqs(), config@),
{
    if evaluation_defined(plan, config) {
        Some(evaluate_criteria_with_config(plan, config))
    } else {
        None
    }
}

/// Evaluates an execution plan against the shipped default patterns.
pub fn evaluate_criteria(plan: &ExecutionPlan) -> (r: CriteriaSummary)
    requires
        plan_eval(plan.command_seqs(), default_patterns_spec()) is Some,
    ensures
        r@ == plan_summary(plan.command_seqs(), default_patterns_spec()),
{
    evaluate_criteria_with_config(plan, &CriteriaConfig::default_patterns())
}

/// Evaluates `plan` against the default patterns when that evaluation is
/// defined; `None` otherwise.
pub fn try_evaluate_criteria(plan: &ExecutionPlan) -> (r: Option<CriteriaSummary>)
    ensures
        r is None <==> plan_eval(plan.command_seqs(), default_patterns_spec()) is None,
        r matches Some(s) ==> s@ == plan_summary(plan.command_seqs(), default_patterns_spec()),
{
    let config = CriteriaConfig::default_patterns();
    if evaluation_defined(plan, &config) {
        Some(evaluate_criteria(plan))
    } else {
        None
    }
}

} // verus!

verus! {

// ---------------------------------------------------------------------------
// Laws
// ---------------------------------------------------------------------------

/// A command that may be delegated: it carries a valid tag naming a delegable
/// symbol, and the text after the tag triggers no criterion.
pub open spec fn command_clean(command: Seq<char>, cfg: CriteriaPatterns) -> bool {
    &&& has_valid_tag(command)
    &&& extract_spec(command).0.classification_spec() == SymbolClassification::Delegable
    &&& text_eval(extract_spec(command).1, cfg) == Some(Seq::<Criterion>::empty())
}

pub proof fn lemma_merge_new_empty(acc: Seq<Criterion>, new: Seq<Criterion>)
    ensures
        merge_new(acc, new).len() == 0 ==> acc.len() == 0 && new.len() == 0,
        merge_new(acc, new).len() >= acc.len(),
    decreases new.len(),
{
    if new.len() > 0 {
        lemma_merge_new_empty(acc, new.drop_last());
        let m = merge_new(acc, new.drop_last());
        if m.contains(new.last()) {
            assert(m.len() > 0);
        }
    }
}

/// A plan is delegable exactly when every one of its commands is clean: a
/// valid tag naming a delegable symbol, and no criterion triggered by its text.
/// In particular a single untagged or critical command holds the whole plan.
pub proof fn lemma_delegable_iff_all_commands_clean(
    commands: Seq<Seq<char>>,
    cfg: CriteriaPatterns,
)
    requires
        plan_eval(commands, cfg) is Some,
    ensures
        plan_summary(commands, cfg).1 == EvaluationStatus::Delegable <==> forall|i: int|
            0 <= i < commands.len() ==> command_clean(#[trigger] commands[i], cfg),
    decreases commands.len(),
{
    if commands.len() > 0 {
        let prefix = commands.drop_last();
        lemma_delegable_iff_all_commands_clean(prefix, cfg);
        let last = commands.last();
        let acc = plan_eval(prefix, cfg).unwrap();
        let tt = text_eval(extract_spec(last).1, cfg).unwrap();
        assert(forall|i: int| 0 <= i < prefix.len() ==> prefix[i] == commands[i]);
        if plan_summary(commands, cfg).1 == EvaluationStatus::Delegable {
            assert(command_clean(last, cfg)) by {
                assert(tt =~= Seq::<Criterion>::empty());
            }
            assert forall|i: int| 0 <= i < commands.len() implies command_clean(
                #[trigger] commands[i],
                cfg,
            ) by {
                if i < prefix.len() {
                    assert(command_clean(prefix[i], cfg));
                }
            }
        } else {
            if !command_clean(last, cfg) {
                assert(!command_clean(commands[commands.len() - 1], cfg));
            } else {
                let i = choose|i: int| 0 <= i < prefix.len() && !command_clean(prefix[i], cfg);
                assert(!command_clean(commands[i], cfg));
            }
        }
    }
}

/// Any criterion hit makes the plan non-delegable.
pub proof fn lemma_triggered_implies_non_delegable(
    commands: Seq<Seq<char>>,
    cfg: CriteriaPatterns,
)
    requires
        plan_eval(commands, cfg) is Some,
        plan_summary(commands, cfg).0.len() > 0,
    ensures
        plan_summary(commands, cfg).1 == EvaluationStatus::NonDelegable,
    decreases commands.len(),
{
    let prefix = commands.drop_last();
    let acc = plan_eval(prefix, cfg).unwrap();
    let last = commands.last();
    let tt = text_eval(extract_spec(last).1, cfg).unwrap();
    if has_valid_tag(last) {
        lemma_merge_new_empty(acc.0, tt);
        if acc.0.len() > 0 {
            lemma_triggered_implies_non_delegable(prefix, cfg);
        }
    } else {
        lemma_triggered_implies_non_delegable(prefix, cfg);
    }
}

/// Every regular-expression pattern of the lists compiles.
pub open spec fn patterns_compile(cfg: CriteriaPatterns) -> bool {
    &&& forall|i: int| 0 <= i < cfg.system_security.len() ==> regex_compiles(#[trigger] cfg.system_security[i])
    &&& forall|i: int|
        0 <= i < cfg.credentials_secrets.len() ==> regex_compiles(#[trigger] cfg.credentials_secrets[i])
    &&& forall|i: int|
        0 <= i < cfg.data_exfiltration.len() ==> regex_compiles(#[trigger] cfg.data_exfiltration[i])
    &&& forall|i: int| 0 <= i < cfg.financial.len() ==> regex_compiles(#[trigger] cfg.financial[i])
    &&& forall|i: int| 0 <= i < cfg.third_party.len() ==> regex_compiles(#[trigger] cfg.third_party[i])
}

proof fn lemma_scan_defined(patterns: Seq<Seq<char>>, text: Seq<char>)
    requires
        forall|i: int| 0 <= i < patterns.len() ==> regex_compiles(#[trigger] patterns[i]),
    ensures
        regex_scan(patterns, text) is Some,
    decreases patterns.len(),
{
    if patterns.len() > 0 {
        assert(regex_compiles(patterns[0]));
        assert forall|i: int| 0 <= i < patterns.drop_first().len() implies regex_compiles(
            #[trigger] patterns.drop_first()[i],
        ) by {
            assert(patterns.drop_first()[i] == patterns[i + 1]);
        }
        lemma_scan_defined(patterns.drop_first(), text);
    }
}

/// When every pattern compiles, every plan can be evaluated: the policy
/// decision is then defined for any plan.
pub proof fn lemma_compiling_patterns_define_evaluation(commands: Seq<Seq<char>>, cfg: CriteriaPatterns)
    requires
        patterns_compile(cfg),
    ensures
        plan_eval(commands, cfg) is Some,
    decreases commands.len(),
{
    if commands.len() > 0 {
        lemma_compiling_patterns_define_evaluation(commands.drop_last(), cfg);
        let t = lower(trim(extract_spec(commands.last()).1));
        lemma_scan_defined(cfg.system_security, t);
        lemma_scan_defined(cfg.credentials_secrets, t);
        lemma_scan_defined(cfg.data_exfiltration, t);
        lemma_scan_defined(cfg.financial, t);
        lemma_scan_defined(cfg.third_party, t);
        reveal(text_eval);
    }
}

/// Criterion `c` is triggered by the text of `command`, which carries a
/// valid tag.
pub open spec fn command_triggers(command: Seq<char>, cfg: CriteriaPatterns, c: Criterion) -> bool {
    &&& has_valid_tag(command)
    &&& text_eval(extract_spec(command).1, cfg) matches Some(tt) && tt.contains(c)
}

proof fn lemma_merge_new_union(acc: Seq<Criterion>, new: Seq<Criterion>)
    requires
        acc.no_duplicates(),
    ensures
        merge_new(acc, new).no_duplicates(),
        forall|c: Criterion|
            #[trigger] merge_new(acc, new).contains(c) <==> acc.contains(c) || new.contains(c),
    decreases new.len(),
{
    if new.len() > 0 {
        lemma_merge_new_union(acc, new.drop_last());
        let m = merge_new(acc, new.drop_last());
        assert(forall|c: Criterion| #[trigger] new.contains(c) <==> new.drop_last().contains(c) || c
            == new.last()) by {
            assert forall|c: Criterion| #[trigger] new.contains(c) implies new.drop_last().contains(c)
                || c == new.last() by {
                let k = choose|k: int| 0 <= k < new.len() && new[k] == c;
                if k < new.len() - 1 {
                    assert(new.drop_last()[k] == c);
                }
            }
            assert forall|c: Criterion| new.drop_last().contains(c) implies #[trigger] new.contains(c) by {
                let k = choose|k: int| 0 <= k < new.drop_last().len() && new.drop_last()[k] == c;
                assert(new[k] == c);
            }
            assert(new[new.len() - 1] == new.last());
        }
        if !m.contains(new.last()) {
            let p = m.push(new.last());
            assert(p.no_duplicates()) by {
                assert forall|i: int, j: int| 0 <= i < p.len() && 0 <= j < p.len() && i != j implies p[i]
                    != p[j] by {
                    if i < m.len() && j < m.len() {
                        assert(p[i] == m[i] && p[j] == m[j]);
                    } else if i < m.len() {
                        assert(p[i] == m[i]);
                    } else if j < m.len() {
                        assert(p[j] == m[j]);
                    }
                }
            }
            assert forall|c: Criterion| #[trigger] p.contains(c) <==> m.contains(c) || c == new.last() by {
                if p.contains(c) {
                    let k = choose|k: int| 0 <= k < p.len() && p[k] == c;
                    if k < m.len() {
                        assert(m[k] == c);
                    }
                }
                if m.contains(c) {
                    let k = choose|k: int| 0 <= k < m.len() && m[k] == c;
                    assert(p[k] == c);
                }
                if c == new.last() {
                    assert(p[m.len() as int] == c);
                }
            }
        }
    }
}

/// The criteria a plan triggers, without repeats, are exactly those that
/// the text of some validly tagged command triggers.
pub proof fn lemma_triggered_is_union(commands: Seq<Seq<char>>, cfg: CriteriaPatterns)
    requires
        plan_eval(commands, cfg) is Some,
    ensures
        plan_summary(commands, cfg).0.no_duplicates(),
        forall|c: Criterion|
            #[trigger] plan_summary(commands, cfg).0.contains(c) <==> exists|i: int|
                0 <= i < commands.len() && command_triggers(commands[i], cfg, c),
    decreases commands.len(),
{
    if commands.len() > 0 {
        let prefix = commands.drop_last();
        let last = commands.last();
        lemma_triggered_is_union(prefix, cfg);
        let acc = plan_eval(prefix, cfg).unwrap();
        let tt = text_eval(extract_spec(last).1, cfg).unwrap();
        if has_valid_tag(last) {
            lemma_merge_new_union(acc.0, tt);
        }
        assert forall|c: Criterion| #[trigger] plan_summary(commands, cfg).0.contains(c) <==> exists|i: int|
            0 <= i < commands.len() && command_triggers(commands[i], cfg, c) by {
            if exists|i: int| 0 <= i < commands.len() && command_triggers(commands[i], cfg, c) {
                let i = choose|i: int| 0 <= i < commands.len() && command_triggers(commands[i], cfg, c);
                if i < prefix.len() {
                    assert(prefix[i] == commands[i]);
                    assert(acc.0.contains(c));
                } else {
                    assert(commands[i] == last);
                }
            }
            if plan_summary(commands, cfg).0.contains(c) {
                if acc.0.contains(c) {
                    let i = choose|i: int| 0 <= i < prefix.len() && command_triggers(prefix[i], cfg, c);
                    assert(prefix[i] == commands[i]);
                } else {
                    assert(command_triggers(commands[commands.len() - 1], cfg, c));
                }
            }
        }
    }
}

/// Any command text that, once trimmed and lowercased, holds both `rm -rf`
/// and `backup` triggers irreversibility, whatever the pattern lists say.
pub proof fn lemma_rm_rf_on_backups_is_irreversible(command: Seq<char>, cfg: CriteriaPatterns)
    requires
        text_eval(command, cfg) is Some,
        contains(lower(trim(command)), "rm -rf"@),
        contains(lower(trim(command)), "backup"@),
    ensures
        text_eval(command, cfg).unwrap().contains(Criterion::Irreversibility),
{
    reveal(text_eval);
    let tt = text_eval(command, cfg).unwrap();
    assert(tt[0] == Criterion::Irreversibility);
}

/// Destructive command text triggers irreversibility: once trimmed and
/// lowercased, `rm -rf` aimed at backups or at `/var`, `/home`, `/tmp`,
/// `/etc` or `/usr`; `dd` from `/dev/zero` onto a device or disk; or any
/// configured irreversibility marker.
pub proof fn lemma_destructive_text_is_irreversible(command: Seq<char>, cfg: CriteriaPatterns)
    requires
        text_eval(command, cfg) is Some,
        ({
            let t = lower(trim(command));
            ||| contains(t, "rm -rf"@) && (contains(t, "backup"@) || contains(t, "/var"@) || contains(
                t,
                "/home"@,
            ) || contains(t, "/tmp"@) || contains(t, "/etc"@) || contains(t, "/usr"@))
            ||| contains(t, "dd"@) && contains(t, "/dev/zero"@) && (contains(t, "of="@) || contains(
                t,
                "disk"@,
            ) || contains(t, "sd"@) || contains(t, "nvme"@))
            ||| exists|i: int|
                0 <= i < cfg.irreversibility.len() && contains(t, #[trigger] cfg.irreversibility[i])
        }),
    ensures
        text_eval(command, cfg).unwrap().contains(Criterion::Irreversibility),
{
    reveal(text_eval);
    let tt = text_eval(command, cfg).unwrap();
    assert(tt[0] == Criterion::Irreversibility);
}

/// The text evaluation of every command of a plan whose evaluation is
/// defined is itself defined.
proof fn lemma_plan_eval_some_commands(commands: Seq<Seq<char>>, cfg: CriteriaPatterns, i: int)
    requires
        plan_eval(commands, cfg) is Some,
        0 <= i < commands.len(),
    ensures
        text_eval(extract_spec(commands[i]).1, cfg) is Some,
{
    if text_eval(extract_spec(commands[i]).1, cfg) is None {
        let pre = commands.take(i + 1);
        assert(pre.last() == commands[i]);
        assert(plan_eval(pre, cfg) is None);
        lemma_plan_eval_none_extends(commands, cfg, i + 1);
    }
}

/// A plan with a command that runs `rm -rf` on backups is never delegable,
/// and, when that command is validly tagged, the plan reports
/// irreversibility among its triggered criteria.
pub proof fn lemma_rm_rf_on_backups_holds_the_plan(commands: Seq<Seq<char>>, cfg: CriteriaPatterns, i: int)
    requires
        plan_eval(commands, cfg) is Some,
        0 <= i < commands.len(),
        contains(lower(trim(extract_spec(commands[i]).1)), "rm -rf"@),
        contains(lower(trim(extract_spec(commands[i]).1)), "backup"@),
    ensures
        plan_summary(commands, cfg).1 == EvaluationStatus::NonDelegable,
        has_valid_tag(commands[i]) ==> plan_summary(commands, cfg).0.contains(Criterion::Irreversibility),
{
    let rest = extract_spec(commands[i]).1;
    lemma_plan_eval_some_commands(commands, cfg, i);
    lemma_rm_rf_on_backups_is_irreversible(rest, cfg);
    let tt = text_eval(rest, cfg).unwrap();
    assert(tt.len() > 0) by {
        let w = choose|j: int| 0 <= j < tt.len() && tt[j] == Criterion::Irreversibility;
        assert(0 <= w < tt.len());
    }
    assert(!command_clean(commands[i], cfg)) by {
        if command_clean(commands[i], cfg) {
            assert(tt =~= Seq::<Criterion>::empty());
        }
    }
    lemma_delegable_iff_all_commands_clean(commands, cfg);
    lemma_triggered_is_union(commands, cfg);
    if has_valid_tag(commands[i]) {
        assert(command_triggers(commands[i], cfg, Criterion::Irreversibility));
        assert(plan_summary(commands, cfg).0.contains(Criterion::Irreversibility));
    }
}

} // verus!
