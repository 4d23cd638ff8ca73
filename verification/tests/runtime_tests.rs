use ai_bridge::config::{default_runtime_config, sync_timeout, RuntimeConfig};
use ai_bridge::protocol::SubChatResult;
use ai_bridge::root_branch::{
    completion_delivery, record_and_decide, resolve_delivery, BranchRunState, DeliveryDecision,
};
use ai_bridge::safety_guard::{AuditRecord, OverrideRequest, SafetyDecision, SafetyGuard};
use ai_bridge::time::Duration;
use std::path::Path;
use std::time::SystemTime;

fn result(task_id: &str, text: &str) -> SubChatResult {
    SubChatResult {
        task_id: task_id.to_string(),
        result: text.to_string(),
        status: "success".to_string(),
        call_index: 0,
    }
}

#[test]
fn runtime_config_points_to_allowlist() {
    let config = RuntimeConfig::from_workspace_root(".");
    assert!(Path::new(&config.allowlist_path).ends_with("config/allowlist.toml"));
    assert_eq!(config.sync_timeout, sync_timeout());
    assert_eq!(default_runtime_config(), config);
    assert_eq!(config.allowlist_path, "./config/allowlist.toml");
}

#[test]
fn partial_delivery_on_timeout() {
    let result_a = result("task-9", "branch-a complete");
    let decision = resolve_delivery(result_a.clone(), None, Duration::from_secs(241), Duration::from_secs(240));
    assert!(matches!(decision, DeliveryDecision::PartialDelivery { .. }));
}

#[test]
fn full_delivery_when_second_branch_finishes_before_timeout() {
    let result_a = result("task-9", "branch-a complete");
    let result_b = result("task-9", "branch-b complete");
    let decision = resolve_delivery(result_a, Some(result_b), Duration::from_secs(120), Duration::from_secs(240));
    assert!(matches!(decision, DeliveryDecision::FullDelivery { .. }));
}

#[test]
fn late_second_result_is_dropped_by_task_id() {
    let a = result("task-a", "a");
    let b = result("task-b", "b");
    let decision = resolve_delivery(a.clone(), Some(b), Duration::from_secs(240), Duration::from_secs(240));
    assert_eq!(
        decision,
        DeliveryDecision::PartialDelivery { delivered: a, dropped: Some("task-b".to_string()) }
    );
}

#[test]
fn recording_both_branches_delivers_both_and_wipes_state() {
    let mut state = BranchRunState::new();
    let a = result("t", "a");
    let b = result("t", "b");
    state.mark_finished("A", a.clone());
    let decision = record_and_decide(&mut state, "B", b.clone(), Duration::from_secs(1), Duration::from_secs(240));
    assert_eq!(decision, DeliveryDecision::FullDelivery { primary: a, secondary: b });
    assert!(state.branch_a_result.is_none());
    assert!(state.branch_b_result.is_none());
}

#[test]
fn recording_alone_after_timeout_delivers_partially() {
    let mut state = BranchRunState::new();
    let a = result("t", "a");
    let decision = record_and_decide(&mut state, "A", a.clone(), Duration::from_secs(300), Duration::from_secs(240));
    assert_eq!(decision, DeliveryDecision::PartialDelivery { delivered: a, dropped: None });
    state.mark_finished("C", result("t", "c"));
    assert_eq!(state, BranchRunState::new());
}

#[test]
fn default_guard_is_armed() {
    let guard = SafetyGuard::default();
    assert!(guard.state.armed);
}

#[test]
fn safe_command_is_allowed_when_armed() {
    let guard = SafetyGuard::default();
    assert_eq!(guard.evaluate_for_command("[[AB:OPS.TERM.RUN.LOCAL]] echo hello"), SafetyDecision::Allow);
}

#[test]
fn critical_command_is_blocked_when_armed() {
    let guard = SafetyGuard::default();
    assert_eq!(guard.evaluate_for_command("[[AB:CRIT.SECRET]] echo token"), SafetyDecision::Block);
}

#[test]
fn override_requires_reason() {
    let mut guard = SafetyGuard::default();
    let req = OverrideRequest {
        task_id: "task-42".to_string(),
        symbol: "CRIT.SECRET".to_string(),
        reason: "Emergency recovery".to_string(),
        requested_by: "alice".to_string(),
        timestamp: SystemTime::now(),
        command_preview: "[[AB:CRIT.SECRET]] echo token".to_string(),
    };

    let decision = guard.request_override(req);
    assert_eq!(decision, SafetyDecision::RequireHumanOverride);
    assert!(guard.state.last_override_reason.is_some());
}

#[test]
fn disarmed_guard_allows_critical_and_toggles_are_audited() {
    let mut guard = SafetyGuard::new();
    assert!(guard.disarm("bob".to_string(), "maintenance".to_string()));
    assert!(!guard.state.armed);
    assert_eq!(guard.evaluate_for_command("[[AB:CRIT.SECRET]] echo token"), SafetyDecision::Allow);
    assert_eq!(guard.evaluate_for_command("echo untagged"), SafetyDecision::Allow);
    assert!(guard.arm("bob".to_string()));
    assert_eq!(guard.evaluate_for_command("echo untagged"), SafetyDecision::Block);
    assert_eq!(guard.evaluate_for_command("   "), SafetyDecision::Allow);
    assert_eq!(guard.audit_log.len(), 2);
    assert_eq!(guard.audit_log[0].action, "disarm");
    assert_eq!(guard.audit_log[0].reason, "maintenance");
    assert_eq!(guard.audit_log[1].action, "arm");
    assert_eq!(guard.audit_log[1].user, "bob");
    guard.append_audit(AuditRecord {
        timestamp: SystemTime::now(),
        task_id: "t".to_string(),
        command_preview: "c".to_string(),
        user: "u".to_string(),
        action: "a".to_string(),
        result: "r".to_string(),
        reason: "why".to_string(),
    });
    assert_eq!(guard.audit_log.len(), 3);
}

#[test]
fn completed_wait_delivers_what_arrived() {
    let a = result("task-1", "from A");
    let b = result("task-1", "from B");
    assert_eq!(
        completion_delivery(a.clone(), Some(b.clone())),
        DeliveryDecision::FullDelivery { primary: a.clone(), secondary: b }
    );
    assert_eq!(
        completion_delivery(a.clone(), None),
        DeliveryDecision::PartialDelivery { delivered: a, dropped: None }
    );
}
