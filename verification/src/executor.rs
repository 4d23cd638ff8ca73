//! Running approved commands: a command string is split shell-style into a
//! program and its arguments (never handed to a shell), and the program must
//! be on the executor allowlist. Also the three-way gatekeeper timer, where
//! a non-delegable task past the timeout is suspended for good.
use vstd::prelude::*;

use crate::text::{owned, strs};
use crate::time::{Duration, Instant};

verus! {

// ---------------------------------------------------------------------------
// Splitting commands
// ---------------------------------------------------------------------------

/// The words `shlex::split` makes of a string, or `None` when it refuses it
/// (for instance an unbalanced quote).
pub uninterp spec fn shlex_split(s: Seq<char>) -> Option<Seq<Seq<char>>>;

/// Calls `shlex::split`. The contract claims its result is `shlex_split` of
/// the input, word for word.
#[verifier::external_body]
fn split_words(s: &str) -> (r: Option<Vec<String>>)
    ensures
        r matches Some(v) ==> shlex_split(s@) == Some(strs(v)),
        r is None ==> shlex_split(s@) is None,
{
    shlex::split(s)
}

#[derive(Debug, Clone, PartialEq, Eq)]
pub enum CommandError {
    /// The command cannot be run as given; the message says why.
    InvalidInput(String),
    /// The command is well formed, but its program is not on the executor
    /// allowlist; the message says which.
    NotAllowed(String),
}

/// The program and arguments for the words of a split command: an
/// unsplittable command has unbalanced quotes, and one without words is
/// empty.
pub fn command_tokens(split: Option<Vec<String>>) -> (r: Result<Vec<String>, CommandError>)
    ensures
        split is None ==> (r matches Err(CommandError::InvalidInput(m)) && m@
            == "command has unbalanced quotes"@),
        split matches Some(v) ==> (v@.len() == 0 ==> (r matches Err(CommandError::InvalidInput(m))
            && m@ == "command is empty"@)),
        split matches Some(v) ==> (v@.len() > 0 ==> r == Ok::<Vec<String>, CommandError>(v)),
{
    match split {
        None => Err(CommandError::InvalidInput(owned("command has unbalanced quotes"))),
        Some(tokens) => {
            if tokens.len() == 0 {
                Err(CommandError::InvalidInput(owned("command is empty")))
            } else {
                Ok(tokens)
            }
        },
    }
}

/// Splits a command into the program and its arguments, shell-style.
pub fn parse_command(command: &str) -> (r: Result<Vec<String>, CommandError>)
    ensures
        shlex_split(command@) is None ==> (r matches Err(CommandError::InvalidInput(m)) && m@
            == "command has unbalanced quotes"@),
        shlex_split(command@) matches Some(w) ==> (w.len() == 0 ==> (r matches Err(
            CommandError::InvalidInput(m),
        ) && m@ == "command is empty"@)),
        shlex_split(command@) matches Some(w) ==> (w.len() > 0 ==> (r matches Ok(v) && strs(v)
            == w)),
{
    let split = split_words(command);
    proof {
        if split is Some {
            assert(strs(split.unwrap()).len() == split.unwrap()@.len());
        }
    }
    command_tokens(split)
}

// ---------------------------------------------------------------------------
// The executor allowlist
// ---------------------------------------------------------------------------

/// Some string of `s` is `n`.
pub open spec fn listed(s: Seq<String>, n: Seq<char>) -> bool {
    exists|k: int| 0 <= k < s.len() && (#[trigger] s[k])@ == n
}

/// Some entry among the first `end` names `n` and allows it.
pub open spec fn allowed_by(bins: Seq<BinaryEntry>, end: int, n: Seq<char>) -> bool {
    exists|j: int| 0 <= j < end && (#[trigger] bins[j]).name@ == n && bins[j].allowed
}

/// One binary of the executor allowlist file.
#[derive(Debug, Clone, PartialEq, Eq)]
pub struct BinaryEntry {
    pub name: String,
    pub allowed: bool,
}

/// The parsed executor allowlist file.
#[derive(Debug, Clone, PartialEq, Eq)]
pub struct ExecutorAllowlistConfig {
    pub binaries: Vec<BinaryEntry>,
}

#[derive(Debug, Clone, PartialEq, Eq)]
pub enum ExecutorAllowlistError {
    Read { path: String, source: String },
    Parse(String),
}

/// The binaries that may run: an independent layer after the gatekeeper's
/// classification. A binary runs only if some entry names it and allows it.
#[derive(Debug, Clone)]
pub struct ExecutorAllowlist {
    allowed: Vec<String>,
}

impl ExecutorAllowlist {
    /// The names of the allowed binaries.
    pub closed spec fn names(self) -> Set<Seq<char>> {
        Set::new(|n: Seq<char>| listed(self.allowed@, n))
    }

    /// The allowlist of a parsed file: the names of the entries that allow.
    pub fn from_config(config: &ExecutorAllowlistConfig) -> (a: ExecutorAllowlist)
        ensures
            forall|n: Seq<char>|
                #![trigger a.names().contains(n)]
                a.names().contains(n) <==> allowed_by(config.binaries@, config.binaries@.len() as int, n),
    {
        let mut allowed: Vec<String> = Vec::new();
        let mut i: usize = 0;
        while i < config.binaries.len()
            invariant
                i <= config.binaries@.len(),
                forall|n: Seq<char>|
                    #![trigger listed(allowed@, n)]
                    listed(allowed@, n) <==> allowed_by(config.binaries@, i as int, n),
            decreases config.binaries.len() - i,
        {
            let ghost before = allowed@;
            if config.binaries[i].allowed {
                allowed.push(config.binaries[i].name.clone());
            }
            proof {
                assert forall|n: Seq<char>|
                    #![trigger listed(allowed@, n)]
                    listed(allowed@, n) <==> allowed_by(config.binaries@, i + 1, n) by {
                    if listed(allowed@, n) {
                        let k = choose|k: int| 0 <= k < allowed@.len() && (#[trigger] allowed@[k])@ == n;
                        if k < before.len() {
                            assert(before[k]@ == n);
                            assert(listed(before, n));
                        } else {
                            assert(config.binaries@[i as int].name@ == n);
                        }
                    }
                    if allowed_by(config.binaries@, i + 1, n) {
                        let j = choose|j: int|
                            0 <= j < i + 1 && (#[trigger] config.binaries@[j]).name@ == n
                                && config.binaries@[j].allowed;
                        if j < i {
                            assert(allowed_by(config.binaries@, i as int, n));
                            assert(listed(before, n));
                            let k = choose|k: int| 0 <= k < before.len() && (#[trigger] before[k])@ == n;
                            assert(allowed@[k] == before[k]);
                        } else {
                            assert(allowed@[allowed@.len() - 1]@ == n);
                        }
                    }
                    if !allowed_by(config.binaries@, i + 1, n) && listed(allowed@, n) {
                        let k = choose|k: int| 0 <= k < allowed@.len() && (#[trigger] allowed@[k])@ == n;
                        if k < before.len() {
                            assert(listed(before, n));
                            assert(allowed_by(config.binaries@, i as int, n));
                            let j = choose|j: int|
                                0 <= j < i && (#[trigger] config.binaries@[j]).name@ == n
                                    && config.binaries@[j].allowed;
                            assert(allowed_by(config.binaries@, i + 1, n));
                        } else {
                            assert(allowed_by(config.binaries@, i + 1, n));
                        }
                    }
                }
            }
            i = i + 1;
        }
        assert forall|n: Seq<char>|
            #![trigger listed(allowed@, n)]
            listed(allowed@, n) == (ExecutorAllowlist { allowed }).names().contains(n) by {}
        ExecutorAllowlist { allowed }
    }

    /// An allowlist of exactly the given names.
    pub fn from_names(names: Vec<String>) -> (a: ExecutorAllowlist)
        ensures
            forall|n: Seq<char>|
                #![trigger a.names().contains(n)]
                a.names().contains(n) <==> listed(names@, n),
    {
        ExecutorAllowlist { allowed: names }
    }

    /// Whether `binary` (the program of a split command) may run.
    pub fn is_allowed(&self, binary: &str) -> (b: bool)
        ensures
            b == self.names().contains(binary@),
    {
        let mut i: usize = 0;
        while i < self.allowed.len()
            invariant
                i <= self.allowed@.len(),
                forall|j: int| 0 <= j < i ==> (#[trigger] self.allowed@[j])@ != binary@,
            decreases self.allowed.len() - i,
        {
            if crate::text::str_eq(self.allowed[i].as_str(), binary) {
                assert(self.names().contains(binary@));
                return true;
            }
            i = i + 1;
        }
        false
    }
}

/// Locations tried, in order, for the executor allowlist, relative to the
/// working directory.
pub fn allowlist_candidates() -> (r: Vec<&'static str>)
    ensures
        r@.len() == 3,
        r@[0]@ == "config/executor_allowlist.toml"@,
        r@[1]@ == "../config/executor_allowlist.toml"@,
        r@[2]@ == "../../config/executor_allowlist.toml"@,
{
    let mut r: Vec<&'static str> = Vec::new();
    r.push("config/executor_allowlist.toml");
    r.push("../config/executor_allowlist.toml");
    r.push("../../config/executor_allowlist.toml");
    r
}

// ---------------------------------------------------------------------------
// The three-way gatekeeper timer
// ---------------------------------------------------------------------------

#[derive(Debug, Clone, Copy, PartialEq, Eq, Structural)]
pub enum TimerOutcome {
    AwaitingHuman,
    AutoApprove,
    PermanentSuspension,
}

/// The gatekeeper timeout, in seconds.
pub const GATEKEEPER_TIMEOUT_SECS: u64 = 120;

/// The gatekeeper timeout.
pub fn gatekeeper_timeout() -> (d: Duration)
    ensures
        d.wf(),
        d@ == GATEKEEPER_TIMEOUT_SECS as nat * 1_000_000_000,
{
    Duration::from_secs(GATEKEEPER_TIMEOUT_SECS)
}

/// Past the timeout a delegable task is approved and a non-delegable one is
/// suspended for good; before it, both wait for a human.
pub open spec fn outcome_spec(is_delegable: bool, elapsed: nat) -> TimerOutcome {
    if elapsed >= GATEKEEPER_TIMEOUT_SECS as nat * 1_000_000_000 {
        if is_delegable {
            TimerOutcome::AutoApprove
        } else {
            TimerOutcome::PermanentSuspension
        }
    } else {
        TimerOutcome::AwaitingHuman
    }
}

pub fn evaluate_timeout(is_delegable: bool, elapsed: Duration) -> (r: TimerOutcome)
    requires
        elapsed.wf(),
    ensures
        r == outcome_spec(is_delegable, elapsed@),
{
    if elapsed.is_at_least(&gatekeeper_timeout()) {
        if is_delegable {
            TimerOutcome::AutoApprove
        } else {
            TimerOutcome::PermanentSuspension
        }
    } else {
        TimerOutcome::AwaitingHuman
    }
}

/// The outcome at `now` of a wait that started at `deadline`; the action is
/// not run here.
pub fn with_timeout<F: FnOnce()>(is_delegable: bool, deadline: Instant, now: Instant, action: F) -> (r:
    TimerOutcome)
    requires
        deadline.wf(),
        now.wf(),
    ensures
        r == outcome_spec(is_delegable, if now@ >= deadline@ { (now@ - deadline@) as nat } else { 0 }),
{
    evaluate_timeout(is_delegable, now.saturating_duration_since(&deadline))
}

/// A non-delegable task is never approved by waiting, and a delegable one
/// never suspended.
pub proof fn lemma_waiting_never_approves_non_delegable(elapsed: nat)
    ensures
        outcome_spec(false, elapsed) != TimerOutcome::AutoApprove,
        outcome_spec(true, elapsed) != TimerOutcome::PermanentSuspension,
{
}

/// Splits an approved command and checks its program against the executor
/// allowlist: only a listed program may run, whatever the gatekeeper
/// decided.
pub fn authorize_command(allowlist: &ExecutorAllowlist, command: &str) -> (r: Result<Vec<String>, CommandError>)
    ensures
        shlex_split(command@) is None ==> (r matches Err(CommandError::InvalidInput(m)) && m@
            == "command has unbalanced quotes"@),
        shlex_split(command@) matches Some(w) ==> (w.len() == 0 ==> (r matches Err(
            CommandError::InvalidInput(m),
        ) && m@ == "command is empty"@)),
        shlex_split(command@) matches Some(w) ==> (w.len() > 0 && allowlist.names().contains(w[0])
            ==> (r matches Ok(v) && strs(v) == w)),
        shlex_split(command@) matches Some(w) ==> (w.len() > 0 && !allowlist.names().contains(w[0])
            ==> (r matches Err(CommandError::NotAllowed(m)) && m@ == "binary '"@ + w[0]
            + "' is not in the executor allowlist"@)),
{
    let tokens = parse_command(command)?;
    proof {
        assert(strs(tokens)[0] == tokens@[0]@);
    }
    if allowlist.is_allowed(tokens[0].as_str()) {
        Ok(tokens)
    } else {
        let mut out: Vec<char> = Vec::new();
        crate::text::push_str(&mut out, "binary '");
        crate::text::push_str(&mut out, tokens[0].as_str());
        crate::text::push_str(&mut out, "' is not in the executor allowlist");
        Err(CommandError::NotAllowed(crate::text::string_from_chars(&out)))
    }
}

} // verus!
