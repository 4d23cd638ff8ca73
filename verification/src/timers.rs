//! The delegation timeout of the gatekeeper: delegable work is auto-approved
//! once the timeout has elapsed; non-delegable work always waits for a human.
use vstd::prelude::*;

use crate::text::{parse_u64, parse_u64_chars, trim, trim_str};
use crate::time::Duration;

verus! {

#[derive(Debug, Clone, Copy, PartialEq, Eq, Structural)]
pub enum TimerOutcome {
    AwaitingHuman,
    AutoApprove,
}

/// The environment variable that overrides the delegation timeout, in seconds.
pub const GATEKEEPER_TIMEOUT_ENV: &'static str = "AI_BRIDGE_GATEKEEPER_TIMEOUT_SECS";

/// The delegation timeout used when no override is configured.
pub const DEFAULT_GATEKEEPER_TIMEOUT_SECS: u64 = 120;

pub fn default_gatekeeper_timeout() -> (d: Duration)
    ensures
        d.wf(),
        d@ == DEFAULT_GATEKEEPER_TIMEOUT_SECS as nat * 1_000_000_000,
{
    Duration::from_secs(DEFAULT_GATEKEEPER_TIMEOUT_SECS)
}

/// The timeout, in seconds, that a configured value selects: the value parsed
/// as an unsigned integer after trimming, or the default when it is absent or
/// does not parse.
pub open spec fn timeout_secs_from(raw: Option<Seq<char>>) -> u64 {
    match raw {
        Some(v) => match parse_u64(trim(v)) {
            Some(n) => n,
            None => DEFAULT_GATEKEEPER_TIMEOUT_SECS,
        },
        None => DEFAULT_GATEKEEPER_TIMEOUT_SECS,
    }
}

/// Resolves the delegation timeout from the configured value of
/// `AI_BRIDGE_GATEKEEPER_TIMEOUT_SECS` (the caller reads the environment).
pub fn gatekeeper_timeout_from(raw: Option<&str>) -> (d: Duration)
    ensures
        d.wf(),
        d@ == timeout_secs_from(
            match raw {
                Some(v) => Some(v@),
                None => None,
            },
        ) as nat * 1_000_000_000,
{
    match raw {
        Some(v) => {
            let t = trim_str(v);
            match parse_u64_chars(&t) {
                Some(n) => Duration::from_secs(n),
                None => default_gatekeeper_timeout(),
            }
        },
        None => default_gatekeeper_timeout(),
    }
}

/// The outcome of a delegation wait of `elapsed` under `timeout`.
pub open spec fn timeout_outcome(is_delegable: bool, elapsed: nat, timeout: nat) -> TimerOutcome {
    if elapsed >= timeout && is_delegable {
        TimerOutcome::AutoApprove
    } else {
        TimerOutcome::AwaitingHuman
    }
}

/// A delegable task is auto-approved once `elapsed` reaches `timeout`; a
/// non-delegable task is never auto-resolved and waits for the owner.
pub fn evaluate_timeout(is_delegable: bool, elapsed: &Duration, timeout: &Duration) -> (r:
    TimerOutcome)
    requires
        elapsed.wf(),
        timeout.wf(),
    ensures
        r == timeout_outcome(is_delegable, elapsed@, timeout@),
{
    if elapsed.is_at_least(timeout) && is_delegable {
        TimerOutcome::AutoApprove
    } else {
        TimerOutcome::AwaitingHuman
    }
}

/// How a wait for the owner's decision on a task ended.
#[derive(Debug, Clone, Copy, PartialEq, Eq, Structural)]
pub enum WaitEnd {
    /// The owner replied.
    Replied(bool),
    /// The deciding side went away without replying.
    Dropped,
    /// The delegation timeout elapsed first (only raced for delegable tasks).
    TimedOut,
}

/// Whether a task is approved once its wait has ended: an explicit reply
/// wins, a dropped channel denies, and silence past the timeout approves a
/// delegable task (never a non-delegable one).
pub open spec fn decision_after_wait_spec(is_delegable: bool, end: WaitEnd) -> bool {
    match end {
        WaitEnd::Replied(approved) => approved,
        WaitEnd::Dropped => false,
        WaitEnd::TimedOut => is_delegable,
    }
}

pub fn decision_after_wait(is_delegable: bool, end: WaitEnd, timeout: &Duration) -> (approved:
    bool)
    requires
        timeout.wf(),
    ensures
        approved == decision_after_wait_spec(is_delegable, end),
{
    match end {
        WaitEnd::Replied(approved) => approved,
        WaitEnd::Dropped => false,
        WaitEnd::TimedOut => match evaluate_timeout(is_delegable, timeout, timeout) {
            TimerOutcome::AutoApprove => true,
            TimerOutcome::AwaitingHuman => false,
        },
    }
}

/// A non-delegable task is never auto-approved, however long it waits.
pub proof fn lemma_non_delegable_never_auto_approves(elapsed: nat, timeout: nat)
    ensures
        timeout_outcome(false, elapsed, timeout) == TimerOutcome::AwaitingHuman,
{
}

/// Once a delegable task is auto-approved, it stays so as time goes on.
pub proof fn lemma_auto_approval_is_monotone(elapsed: nat, later: nat, timeout: nat)
    requires
        timeout_outcome(true, elapsed, timeout) == TimerOutcome::AutoApprove,
        elapsed <= later,
    ensures
        timeout_outcome(true, later, timeout) == TimerOutcome::AutoApprove,
{
}

} // verus!
