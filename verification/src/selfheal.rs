//! Self-healing: failure detection on the maestro connection and the ops-room
//! directives (role swap, status summary) that keep work going on a healthy
//! branch.
use vstd::prelude::*;

use crate::text::{decimal, decimal_chars, owned, push_chars, push_str, string_from_chars, trim, trim_str};
use crate::time::Duration;

verus! {

#[derive(Debug, Clone, Copy, PartialEq, Eq, Structural)]
pub enum FailureMode {
    ExplicitError,
    SilentTimeout,
}

#[derive(Debug, Clone, PartialEq, Eq)]
pub struct FailureDetection {
    pub mode: FailureMode,
    pub message: String,
    pub elapsed: Duration,
}

/// The maestro heartbeat timeout, in seconds.
pub const HEARTBEAT_TIMEOUT_SECS: u64 = 30;

pub fn heartbeat_timeout() -> (d: Duration)
    ensures
        d.wf(),
        d@ == HEARTBEAT_TIMEOUT_SECS as nat * 1_000_000_000,
{
    Duration::from_secs(HEARTBEAT_TIMEOUT_SECS)
}

/// A silent timeout is an empty (or blank) message after at least the
/// heartbeat timeout; anything else is an explicit error.
pub open spec fn is_silent_timeout(message: Seq<char>, elapsed: nat) -> bool {
    trim(message).len() == 0 && elapsed >= HEARTBEAT_TIMEOUT_SECS as nat * 1_000_000_000
}

/// A failure that reports a message (one not blank once trimmed) is an
/// explicit error whatever the time elapsed; a failure seen before the
/// 30-second heartbeat timeout is never a silent timeout, and a blank one
/// seen after it always is.
pub proof fn lemma_reported_errors_are_explicit(message: Seq<char>, elapsed: nat)
    ensures
        trim(message).len() > 0 ==> !is_silent_timeout(message, elapsed),
        elapsed < 30_000_000_000 ==> !is_silent_timeout(message, elapsed),
        trim(message).len() == 0 && elapsed >= 30_000_000_000 ==> is_silent_timeout(message, elapsed),
{
}

pub fn detect_failure(message: &str, elapsed: Duration) -> (d: FailureDetection)
    requires
        elapsed.wf(),
    ensures
        d.elapsed == elapsed,
        is_silent_timeout(message@, elapsed@) ==> d.mode == FailureMode::SilentTimeout
            && d.message@ == "Maestro heartbeat timed out"@,
        !is_silent_timeout(message@, elapsed@) ==> d.mode == FailureMode::ExplicitError
            && d.message@ == message@,
        trim(message@).len() > 0 ==> d.mode == FailureMode::ExplicitError && d.message@ == message@,
{
    let blank = trim_str(message).len() == 0;
    if blank && elapsed.is_at_least(&heartbeat_timeout()) {
        FailureDetection {
            mode: FailureMode::SilentTimeout,
            message: owned("Maestro heartbeat timed out"),
            elapsed,
        }
    } else {
        FailureDetection { mode: FailureMode::ExplicitError, message: owned(message), elapsed }
    }
}

#[derive(Debug, Clone, Copy, PartialEq, Eq, Structural)]
pub enum BranchRole {
    Maestro,
    BranchA,
    BranchB,
}

#[derive(Debug, Clone, PartialEq, Eq)]
pub struct RoleSwapDirective {
    pub active_maestro: BranchRole,
    pub continued_branch: BranchRole,
    pub directive: String,
}

#[derive(Debug, Clone, PartialEq, Eq)]
pub struct SelfHealState {
    pub mode: FailureMode,
    pub directive: String,
    pub active_maestro: BranchRole,
    pub continued_branch: BranchRole,
}

pub open spec fn explicit_error_directive() -> Seq<char> {
    "reconfigure connection layer; isolate faulted maestro and route task to healthy branch"@
}

pub open spec fn silent_timeout_directive() -> Seq<char> {
    "heartbeat missed for "@ + decimal(HEARTBEAT_TIMEOUT_SECS as nat)
        + "s; swap maestro role and continue active branch until recovery"@
}

/// Enters self-heal mode for a failure: an explicit error keeps branch A
/// leading and branch B running; a silent timeout swaps them.
pub fn self_heal_mode(message: &str, elapsed: Duration) -> (s: SelfHealState)
    requires
        elapsed.wf(),
    ensures
        is_silent_timeout(message@, elapsed@) ==> s.mode == FailureMode::SilentTimeout
            && s.directive@ == silent_timeout_directive() && s.active_maestro
            == BranchRole::BranchB && s.continued_branch == BranchRole::BranchA,
        !is_silent_timeout(message@, elapsed@) ==> s.mode == FailureMode::ExplicitError
            && s.directive@ == explicit_error_directive() && s.active_maestro
            == BranchRole::BranchA && s.continued_branch == BranchRole::BranchB,
        trim(message@).len() > 0 ==> s.mode == FailureMode::ExplicitError,
{
    let detection = detect_failure(message, elapsed);
    match detection.mode {
        FailureMode::ExplicitError => SelfHealState {
            mode: FailureMode::ExplicitError,
            directive: owned(
                "reconfigure connection layer; isolate faulted maestro and route task to healthy branch",
            ),
            active_maestro: BranchRole::BranchA,
            continued_branch: BranchRole::BranchB,
        },
        FailureMode::SilentTimeout => {
            let mut d: Vec<char> = Vec::new();
            push_str(&mut d, "heartbeat missed for ");
            let secs = decimal_chars(HEARTBEAT_TIMEOUT_SECS);
            push_chars(&mut d, &secs);
            push_str(&mut d, "s; swap maestro role and continue active branch until recovery");
            SelfHealState {
                mode: FailureMode::SilentTimeout,
                directive: string_from_chars(&d),
                active_maestro: BranchRole::BranchB,
                continued_branch: BranchRole::BranchA,
            }
        },
    }
}

/// The leader after the maestro goes offline: branch B keeps leading if it
/// already did; otherwise branch A takes over.
pub open spec fn swapped_maestro(current: BranchRole) -> BranchRole {
    match current {
        BranchRole::BranchB => BranchRole::BranchB,
        _ => BranchRole::BranchA,
    }
}

/// Swaps leadership when the maestro is offline, keeping the other branch
/// running.
pub fn role_swap_on_failure(maestro_offline: bool, current_maestro: BranchRole) -> (d:
    RoleSwapDirective)
    ensures
        maestro_offline ==> d.active_maestro == swapped_maestro(current_maestro)
            && d.directive@
            == "Maestro offline; swap leadership to active branch and keep alternate branch running"@,
        !maestro_offline ==> d.active_maestro == current_maestro && d.continued_branch
            == BranchRole::BranchB && d.directive@ == "No swap required"@,
        maestro_offline ==> d.continued_branch != d.active_maestro && d.continued_branch
            != BranchRole::Maestro && d.active_maestro != BranchRole::Maestro,
{
    if maestro_offline {
        let active_maestro = match current_maestro {
            BranchRole::Maestro | BranchRole::BranchA => BranchRole::BranchA,
            BranchRole::BranchB => BranchRole::BranchB,
        };
        let continued_branch = match active_maestro {
            BranchRole::BranchA => BranchRole::BranchB,
            BranchRole::BranchB => BranchRole::BranchA,
            BranchRole::Maestro => BranchRole::BranchB,
        };
        RoleSwapDirective {
            active_maestro,
            continued_branch,
            directive: owned(
                "Maestro offline; swap leadership to active branch and keep alternate branch running",
            ),
        }
    } else {
        RoleSwapDirective {
            active_maestro: current_maestro,
            continued_branch: BranchRole::BranchB,
            directive: owned("No swap required"),
        }
    }
}

/// The failure reason shown in a status summary: the trimmed reason, or
/// `SilentTimeout` when it is blank.
pub open spec fn reason_label(reason: Seq<char>) -> Seq<char> {
    if trim(reason).len() == 0 {
        "SilentTimeout"@
    } else {
        trim(reason)
    }
}

/// Whole seconds followed by `s`, or `<1s` below one second.
pub open spec fn elapsed_label(elapsed: nat) -> Seq<char> {
    if elapsed / 1_000_000_000 >= 1 {
        decimal(elapsed / 1_000_000_000) + "s"@
    } else {
        "<1s"@
    }
}

/// The status text reported after a failure.
pub open spec fn failure_status_spec(app_id: Seq<char>, reason: Seq<char>, elapsed: nat) -> Seq<
    char,
> {
    "App: "@ + app_id + "\nFailure: "@ + reason_label(reason) + "\nElapsed since last response: "@
        + elapsed_label(elapsed)
        + "\nAction: role swapped to the remaining healthy branch and recovery initiated."@
}

/// Summarizes a failure for the ops room: the application, the reason, and
/// the time since the last response.
pub fn build_failure_status_summary(app_id: &str, failure_reason: &str, elapsed: Duration) -> (s:
    String)
    requires
        elapsed.wf(),
    ensures
        s@ == failure_status_spec(app_id@, failure_reason@, elapsed@),
{
    let trimmed = trim_str(failure_reason);
    let mut out: Vec<char> = Vec::new();
    push_str(&mut out, "App: ");
    push_str(&mut out, app_id);
    push_str(&mut out, "\nFailure: ");
    if trimmed.len() == 0 {
        push_str(&mut out, "SilentTimeout");
    } else {
        push_chars(&mut out, &trimmed);
    }
    push_str(&mut out, "\nElapsed since last response: ");
    let secs = elapsed.as_secs();
    if secs >= 1 {
        let digits = decimal_chars(secs);
        push_chars(&mut out, &digits);
        push_str(&mut out, "s");
    } else {
        push_str(&mut out, "<1s");
    }
    push_str(
        &mut out,
        "\nAction: role swapped to the remaining healthy branch and recovery initiated.",
    );
    assert(out@ =~= failure_status_spec(app_id@, failure_reason@, elapsed@));
    string_from_chars(&out)
}

} // verus!
