use ai_bridge::dashboard::{
    apply_gatekeeper_event, build_manual_plan, maestro_send_status, manual_plan_queued_message,
    manual_plan_request, BranchRole,
    GatekeeperEvent,
    ManualCommandRow, PendingTask, RoleAssignment, RoleAssignmentSet, SafetyModeUi, SafetyUiState,
};
use ai_bridge::policy::{decide_policy, PolicyDecision};
use ai_bridge::protocol::{ExecutionPlan, Symbol};

#[test]
fn no_maestro_is_detected_when_missing() {
    let assignments = RoleAssignmentSet {
        roles: vec![
            RoleAssignment { app_id: "org.mozilla.firefox".into(), role: BranchRole::BranchA },
            RoleAssignment { app_id: "org.gnome.Nautilus".into(), role: BranchRole::BranchB },
        ],
    };

    let current = assignments.current_maestro();
    assert!(current.is_none());
}

#[test]
fn switching_maestro_promotes_new_app_and_keeps_single_maestro() {
    let mut assignments = RoleAssignmentSet {
        roles: vec![
            RoleAssignment { app_id: "org.gnome.Terminal".into(), role: BranchRole::Maestro },
            RoleAssignment { app_id: "org.mozilla.firefox".into(), role: BranchRole::BranchA },
        ],
    };

    assignments.promote_maestro("org.mozilla.firefox");

    assert_eq!(assignments.current_maestro().unwrap().app_id, "org.mozilla.firefox");
    assert_eq!(assignments.roles.iter().filter(|r| r.role == BranchRole::Maestro).count(), 1);
}

#[test]
fn manual_plan_matches_gatekeeper_policy_of_equivalent_external_plan() {
    let rows = vec![ManualCommandRow {
        command: "cargo test -- --nocapture".to_string(),
        symbol: Symbol::OpsTermRunLocal,
    }];

    let ui_plan = build_manual_plan("manual-1".to_string(), "Run tests".to_string(), &rows).unwrap();

    let external_plan = ExecutionPlan {
        task_id: "external-1".to_string(),
        description: "Run tests".to_string(),
        commands: vec!["[[AB:OPS.TERM.RUN.LOCAL]] cargo test -- --nocapture".to_string()],
    };

    assert_eq!(decide_policy(&ui_plan), decide_policy(&external_plan));
    assert_eq!(ui_plan.commands, external_plan.commands);
}

#[test]
fn promoting_an_unknown_app_adds_it_as_maestro() {
    let mut assignments = RoleAssignmentSet {
        roles: vec![RoleAssignment { app_id: "a".into(), role: BranchRole::Maestro }],
    };
    assignments.promote_maestro("b");
    assert_eq!(
        assignments.roles,
        vec![
            RoleAssignment { app_id: "a".into(), role: BranchRole::NoRole },
            RoleAssignment { app_id: "b".into(), role: BranchRole::Maestro },
        ]
    );
    assert_eq!(assignments.role_for_app("b"), BranchRole::Maestro);
    assert_eq!(assignments.role_for_app("zzz"), BranchRole::NoRole);
}

#[test]
fn set_role_replaces_or_clears_the_entry() {
    let mut assignments = RoleAssignmentSet {
        roles: vec![
            RoleAssignment { app_id: "a".into(), role: BranchRole::BranchA },
            RoleAssignment { app_id: "b".into(), role: BranchRole::BranchB },
        ],
    };
    assignments.set_role("a".to_string(), BranchRole::BranchB);
    assert_eq!(
        assignments.roles,
        vec![
            RoleAssignment { app_id: "b".into(), role: BranchRole::BranchB },
            RoleAssignment { app_id: "a".into(), role: BranchRole::BranchB },
        ]
    );
    assignments.set_role("b".to_string(), BranchRole::NoRole);
    assert_eq!(assignments.roles, vec![RoleAssignment { app_id: "a".into(), role: BranchRole::BranchB }]);
}

#[test]
fn blank_rows_are_skipped_and_all_blank_gives_no_plan() {
    let rows = vec![
        ManualCommandRow { command: "   ".to_string(), symbol: Symbol::OpsAppOpen },
        ManualCommandRow { command: " ls ".to_string(), symbol: Symbol::OpsAppOpen },
    ];
    let plan = build_manual_plan("m".to_string(), "d".to_string(), &rows).unwrap();
    assert_eq!(plan.commands, vec!["[[AB:OPS.APP.OPEN]] ls".to_string()]);
    let blank = vec![ManualCommandRow { command: "".to_string(), symbol: Symbol::OpsAppOpen }];
    assert!(build_manual_plan("m".to_string(), "d".to_string(), &blank).is_none());
    assert_eq!(
        manual_plan_request("  ", "m".to_string(), &rows),
        Err("A description is required before submitting a manual plan.".to_string())
    );
    assert_eq!(
        manual_plan_request("desc", "m".to_string(), &blank),
        Err("Add at least one non-empty command before sending the manual plan.".to_string())
    );
    assert_eq!(manual_plan_request(" desc ", "m".to_string(), &rows).unwrap().description, "desc");
}

#[test]
fn gatekeeper_events_add_once_and_remove_on_resolution() {
    let mut tasks: Vec<PendingTask> = Vec::new();
    let event = || GatekeeperEvent::TaskPending {
        task_id: "t1".to_string(),
        app_name: "app".to_string(),
        command: "ls".to_string(),
        risk_level: "LOW".to_string(),
        is_critical: false,
        triggered: vec![],
    };
    apply_gatekeeper_event(&mut tasks, event());
    apply_gatekeeper_event(&mut tasks, event());
    assert_eq!(tasks.len(), 1);
    apply_gatekeeper_event(&mut tasks, GatekeeperEvent::TaskResolved { task_id: "t1".to_string(), approved: true });
    assert!(tasks.is_empty());
}

#[test]
fn safety_ui_defaults_to_armed() {
    assert_eq!(SafetyModeUi::default(), SafetyModeUi::Armed);
    let s = SafetyUiState::default();
    assert_eq!(s.mode, SafetyModeUi::Armed);
    assert!(s.audit_entries.is_empty());
}

#[test]
fn safety_controls_record_each_action() {
    let mut state = SafetyUiState::at_startup();
    assert_eq!(state.mode, SafetyModeUi::Armed);
    assert_eq!(state.audit_entries, vec!["Safety lock defaulted to Armed at startup".to_string()]);

    assert_eq!(state.disarm("t1"), "Safety lock disarmed by user");
    assert_eq!(state.mode, SafetyModeUi::Disarmed);
    assert_eq!(state.audit_entries[1], "t1 :: user disarmed safety lock");

    assert_eq!(state.arm("t2"), "Safety lock armed by user");
    assert_eq!(state.mode, SafetyModeUi::Armed);
    assert_eq!(state.audit_entries[2], "t2 :: user armed safety lock");
}

#[test]
fn override_needs_a_reason() {
    let mut state = SafetyUiState::at_startup();
    state.override_reason = "   ".to_string();
    assert_eq!(state.override_and_execute("t"), "Override requires a clear human reason");
    assert_eq!(state.audit_entries.len(), 1);
    assert_eq!(state.override_reason, "   ");

    state.override_reason = "deploy hotfix".to_string();
    assert_eq!(
        state.override_and_execute("t3"),
        "Human override logged and requires the same secure execution path"
    );
    assert_eq!(state.audit_entries[1], "t3 :: override granted :: deploy hotfix");
    assert!(state.override_reason.is_empty());
    assert_eq!(state.mode, SafetyModeUi::Armed);
}

#[test]
fn sending_as_maestro_needs_a_maestro() {
    let mut roles = RoleAssignmentSet { roles: vec![] };
    assert_eq!(
        maestro_send_status(&roles, "hello"),
        Err("No Maestro is currently assigned. Assign a Maestro before sending.".to_string())
    );
    roles.promote_maestro("org.gnome.Terminal");
    assert_eq!(maestro_send_status(&roles, "hello"), Ok("Message sent as Maestro: hello".to_string()));
}

#[test]
fn dashboard_role_assignment_keeps_one_maestro() {
    let mut roles = RoleAssignmentSet { roles: vec![] };
    assert_eq!(
        roles.assign_from_dashboard("org.gnome.Terminal".to_string(), BranchRole::Maestro),
        "Role updated: org.gnome.Terminal -> Maestro"
    );
    assert_eq!(
        roles.assign_from_dashboard("org.mozilla.firefox".to_string(), BranchRole::Maestro),
        "Role updated: org.mozilla.firefox -> Maestro"
    );
    assert_eq!(roles.role_for_app("org.mozilla.firefox"), BranchRole::Maestro);
    assert_eq!(roles.role_for_app("org.gnome.Terminal"), BranchRole::NoRole);
    assert_eq!(
        roles.assign_from_dashboard("org.gnome.Nautilus".to_string(), BranchRole::BranchA),
        "Role updated: org.gnome.Nautilus -> BranchA"
    );
    assert_eq!(
        roles.assign_from_dashboard("org.gnome.Nautilus".to_string(), BranchRole::NoRole),
        "Role updated: org.gnome.Nautilus -> None"
    );
    assert_eq!(roles.role_for_app("org.gnome.Nautilus"), BranchRole::NoRole);
}

#[test]
fn queued_manual_plan_reports_its_decision() {
    assert_eq!(
        manual_plan_queued_message("manual-7", PolicyDecision::NonDelegable),
        "Manual plan manual-7 queued through the maestro socket path; policy result: NonDelegable"
    );
}
