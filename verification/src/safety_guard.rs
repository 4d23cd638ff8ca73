//! The safety lock: while armed, commands tagged with a critical symbol are
//! blocked; every toggle and override request is written to the audit trail.
use vstd::prelude::*;

use std::time::SystemTime;

use crate::protocol::{extract_spec, Symbol, SymbolClassification};
use crate::text::{owned, trim, trim_str};

verus! {

#[verifier::external_type_specification]
#[verifier::external_body]
pub struct ExSystemTime(std::time::SystemTime);

/// `SystemTime::now` reads the wall clock; nothing is claimed of the value.
pub assume_specification[ std::time::SystemTime::now ]() -> SystemTime;

/// `SystemTime` is `Copy`; its `clone` gives back the same instant.
pub assume_specification[ <std::time::SystemTime as Clone>::clone ](t: &SystemTime) -> (r: SystemTime)
    ensures
        r == *t,
;

#[derive(Debug, Clone, Copy, PartialEq, Eq, Structural)]
pub enum SafetyMode {
    Armed,
    Disarmed,
}

#[derive(Debug, Clone, PartialEq, Eq)]
pub struct SafetyState {
    pub armed: bool,
    pub last_toggle_at: Option<SystemTime>,
    pub last_toggled_by: Option<String>,
    pub last_override_reason: Option<String>,
    pub last_override_user: Option<String>,
}

#[derive(Debug, Clone, Copy, PartialEq, Eq, Structural)]
pub enum SafetyDecision {
    Allow,
    Block,
    RequireHumanOverride,
}

#[derive(Debug, Clone, PartialEq, Eq)]
pub struct OverrideRequest {
    pub task_id: String,
    pub symbol: String,
    pub reason: String,
    pub requested_by: String,
    pub timestamp: SystemTime,
    pub command_preview: String,
}

#[derive(Debug, Clone, PartialEq, Eq)]
pub struct AuditRecord {
    pub timestamp: SystemTime,
    pub task_id: String,
    pub command_preview: String,
    pub user: String,
    pub action: String,
    pub result: String,
    pub reason: String,
}

/// The fields of an audit record other than its time stamp, as character
/// sequences: task, command preview, user, action, result and reason.
pub open spec fn audit_fields(r: AuditRecord) -> (Seq<char>, Seq<char>, Seq<char>, Seq<char>, Seq<char>, Seq<char>) {
    (r.task_id@, r.command_preview@, r.user@, r.action@, r.result@, r.reason@)
}

#[derive(Debug, Clone, PartialEq, Eq)]
pub struct SafetyGuard {
    pub state: SafetyState,
    pub audit_log: Vec<AuditRecord>,
}

impl Default for SafetyGuard {
    /// An armed guard with an empty audit trail.
    fn default() -> (g: SafetyGuard)
        ensures
            g.state.armed,
            g.state.last_toggle_at is None,
            g.state.last_toggled_by is None,
            g.state.last_override_reason is None,
            g.state.last_override_user is None,
            g.audit_log@.len() == 0,
    {
        SafetyGuard {
            state: SafetyState {
                armed: true,
                last_toggle_at: None,
                last_toggled_by: None,
                last_override_reason: None,
                last_override_user: None,
            },
            audit_log: Vec::new(),
        }
    }
}

/// The decision for a command: a blank command is allowed; a command whose
/// tag names a critical symbol is blocked while the lock is armed; everything
/// else is allowed.
pub open spec fn command_decision(armed: bool, command: Seq<char>) -> SafetyDecision {
    let t = trim(command);
    if t.len() == 0 {
        SafetyDecision::Allow
    } else if extract_spec(t).0.classification_spec() == SymbolClassification::Critical && armed {
        SafetyDecision::Block
    } else {
        SafetyDecision::Allow
    }
}

impl SafetyGuard {
    pub fn new() -> (g: SafetyGuard)
        ensures
            g.state.armed,
            g.state.last_toggle_at is None,
            g.state.last_toggled_by is None,
            g.state.last_override_reason is None,
            g.state.last_override_user is None,
            g.audit_log@.len() == 0,
    {
        SafetyGuard::default()
    }

    /// Arms the lock on behalf of `user` and records the toggle.
    pub fn arm(&mut self, user: String) -> (ok: bool)
        ensures
            ok,
            final(self).state.armed,
            final(self).state.last_toggle_at is Some,
            final(self).state.last_toggled_by == Some(user),
            final(self).state.last_override_reason == old(self).state.last_override_reason,
            final(self).state.last_override_user == old(self).state.last_override_user,
            final(self).audit_log@.len() == old(self).audit_log@.len() + 1,
            final(self).audit_log@.drop_last() == old(self).audit_log@,
            audit_fields(final(self).audit_log@.last()) == (
                "system"@,
                "safety_lock:arm"@,
                user@,
                "arm"@,
                "granted"@,
                "user armed the safety lock"@,
            ),
    {
        self.state.armed = true;
        self.state.last_toggle_at = Some(SystemTime::now());
        self.state.last_toggled_by = Some(user.clone());
        self.audit_log.push(
            AuditRecord {
                timestamp: SystemTime::now(),
                task_id: owned("system"),
                command_preview: owned("safety_lock:arm"),
                user,
                action: owned("arm"),
                result: owned("granted"),
                reason: owned("user armed the safety lock"),
            },
        );
        assert(self.audit_log@.drop_last() =~= old(self).audit_log@);
        true
    }

    /// Disarms the lock on behalf of `user` for `reason` and records it.
    pub fn disarm(&mut self, user: String, reason: String) -> (ok: bool)
        ensures
            ok,
            !final(self).state.armed,
            final(self).state.last_toggle_at is Some,
            final(self).state.last_toggled_by == Some(user),
            final(self).state.last_override_reason == Some(reason),
            final(self).state.last_override_user == old(self).state.last_override_user,
            final(self).audit_log@.len() == old(self).audit_log@.len() + 1,
            final(self).audit_log@.drop_last() == old(self).audit_log@,
            audit_fields(final(self).audit_log@.last()) == (
                "system"@,
                "safety_lock:disarm"@,
                user@,
                "disarm"@,
                "granted"@,
                reason@,
            ),
    {
        self.state.armed = false;
        self.state.last_toggle_at = Some(SystemTime::now());
        self.state.last_toggled_by = Some(user.clone());
        self.state.last_override_reason = Some(reason.clone());
        self.audit_log.push(
            AuditRecord {
                timestamp: SystemTime::now(),
                task_id: owned("system"),
                command_preview: owned("safety_lock:disarm"),
                user,
                action: owned("disarm"),
                result: owned("granted"),
                reason,
            },
        );
        assert(self.audit_log@.drop_last() =~= old(self).audit_log@);
        true
    }

    pub fn evaluate_for_command(&self, command: &str) -> (d: SafetyDecision)
        ensures
            d == command_decision(self.state.armed, command@),
    {
        let trimmed = trim_str(command);
        if trimmed.len() == 0 {
            return SafetyDecision::Allow;
        }
        let (symbol, _) = Symbol::extract_from_chars(&trimmed);
        if symbol.classification() == SymbolClassification::Critical {
            if self.state.armed {
                return SafetyDecision::Block;
            }
            return SafetyDecision::Allow;
        }
        SafetyDecision::Allow
    }

    /// Records an override request; the answer always waits for a human.
    pub fn request_override(&mut self, request: OverrideRequest) -> (d: SafetyDecision)
        ensures
            d == SafetyDecision::RequireHumanOverride,
            final(self).state.armed == old(self).state.armed,
            final(self).state.last_toggle_at == old(self).state.last_toggle_at,
            final(self).state.last_toggled_by == old(self).state.last_toggled_by,
            final(self).state.last_override_reason == Some(request.reason),
            final(self).state.last_override_user == Some(request.requested_by),
            final(self).audit_log@.len() == old(self).audit_log@.len() + 1,
            final(self).audit_log@.drop_last() == old(self).audit_log@,
            final(self).audit_log@.last().timestamp == request.timestamp,
            audit_fields(final(self).audit_log@.last()) == (
                request.task_id@,
                request.command_preview@,
                request.requested_by@,
                "override_requested"@,
                "pending"@,
                request.reason@,
            ),
    {
        self.state.last_override_reason = Some(request.reason.clone());
        self.state.last_override_user = Some(request.requested_by.clone());
        self.audit_log.push(
            AuditRecord {
                timestamp: request.timestamp,
                task_id: request.task_id,
                command_preview: request.command_preview,
                user: request.requested_by,
                action: owned("override_requested"),
                result: owned("pending"),
                reason: request.reason,
            },
        );
        assert(self.audit_log@.drop_last() =~= old(self).audit_log@);
        SafetyDecision::RequireHumanOverride
    }

    pub fn append_audit(&mut self, record: AuditRecord)
        ensures
            final(self).state == old(self).state,
            final(self).audit_log@ == old(self).audit_log@.push(record),
    {
        self.audit_log.push(record);
    }
}

/// While the lock is armed, no command tagged with a critical symbol is
/// allowed; disarmed, every command is.
pub proof fn lemma_armed_lock_blocks_exactly_critical(command: Seq<char>)
    ensures
        command_decision(true, command) == SafetyDecision::Block <==> (trim(command).len() > 0
            && extract_spec(trim(command)).0.classification_spec() == SymbolClassification::Critical),
        command_decision(false, command) == SafetyDecision::Allow,
{
}

} // verus!
