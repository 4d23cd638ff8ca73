use ai_bridge::selfheal::{
    build_failure_status_summary, detect_failure, role_swap_on_failure, self_heal_mode,
    BranchRole, FailureMode,
};
use ai_bridge::time::Duration;

#[test]
fn detects_explicit_error_when_message_is_present() {
    let detection = detect_failure("connection refused", Duration::from_secs(5));
    assert_eq!(detection.mode, FailureMode::ExplicitError);
}

#[test]
fn detects_silent_timeout_when_no_message_and_elapsed_exceeds_threshold() {
    let detection = detect_failure("", Duration::from_secs(31));
    assert_eq!(detection.mode, FailureMode::SilentTimeout);
}

#[test]
fn explicit_error_triggers_self_heal_mode() {
    let state = self_heal_mode("automation failure", Duration::from_secs(5));
    assert_eq!(state.mode, FailureMode::ExplicitError);
    assert_eq!(state.active_maestro, BranchRole::BranchA);
    assert_eq!(state.continued_branch, BranchRole::BranchB);
}

#[test]
fn silent_timeout_triggers_self_heal_mode() {
    let state = self_heal_mode("", Duration::from_secs(31));
    assert_eq!(state.mode, FailureMode::SilentTimeout);
    assert_eq!(state.active_maestro, BranchRole::BranchB);
    assert_eq!(state.continued_branch, BranchRole::BranchA);
}

#[test]
fn role_swap_logic_keeps_non_maestro_branch_running() {
    let directive = role_swap_on_failure(true, BranchRole::BranchA);
    assert_eq!(directive.active_maestro, BranchRole::BranchA);
    assert_eq!(directive.continued_branch, BranchRole::BranchB);
}

#[test]
fn failure_summary_captures_app_name_reason_and_elapsed() {
    let summary = build_failure_status_summary(
        "org.mozilla.firefox",
        "SilentTimeout",
        Duration::from_secs(45),
    );
    assert!(summary.contains("org.mozilla.firefox"));
    assert!(summary.contains("SilentTimeout"));
    assert!(summary.contains("45s"));
}

#[test]
fn silent_timeout_directive_names_the_heartbeat() {
    let state = self_heal_mode("   ", Duration::from_secs(30));
    assert_eq!(
        state.directive,
        "heartbeat missed for 30s; swap maestro role and continue active branch until recovery"
    );
    let early = detect_failure("", Duration::from_secs(29));
    assert_eq!(early.mode, FailureMode::ExplicitError);
    assert_eq!(early.message, "");
    let late = detect_failure("", Duration::from_secs(30));
    assert_eq!(late.message, "Maestro heartbeat timed out");
}

#[test]
fn failure_summary_is_exact() {
    assert_eq!(
        build_failure_status_summary("app", "  ", Duration::from_millis(500)),
        "App: app\nFailure: SilentTimeout\nElapsed since last response: <1s\nAction: role swapped to the remaining healthy branch and recovery initiated."
    );
}

#[test]
fn no_swap_when_maestro_is_online() {
    let d = role_swap_on_failure(false, BranchRole::Maestro);
    assert_eq!(d.active_maestro, BranchRole::Maestro);
    assert_eq!(d.continued_branch, BranchRole::BranchB);
    assert_eq!(d.directive, "No swap required");
    let d = role_swap_on_failure(true, BranchRole::BranchB);
    assert_eq!(d.active_maestro, BranchRole::BranchB);
    assert_eq!(d.continued_branch, BranchRole::BranchA);
}
