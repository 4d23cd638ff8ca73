use ai_bridge::admin_config::{
    AdminConfig, AllowlistEntry, BranchConfig, CriteriaPatternSet, PolicySymbolEntry, SocketDefinition,
    SymbolDefinition,
};
use ai_bridge::admin_panel::{AdminPanel, LoadedSections, SaveTarget};
use ai_bridge::admin_rows::AdminTab;
use ai_bridge::criteria::EvaluationStatus;

fn empty_config() -> AdminConfig {
    AdminConfig {
        allowlist: vec![],
        symbols: vec![],
        policy: vec![],
        criteria: vec![],
        sockets: vec![],
        branches: vec![],
        audit: vec![],
    }
}

fn symbols_config() -> AdminConfig {
    let mut c = empty_config();
    c.symbols = vec![
        SymbolDefinition {
            name: "CRIT.SECRET".to_string(),
            classification: "critical".to_string(),
            description: "Secrets".to_string(),
        },
        SymbolDefinition {
            name: "STD.READ".to_string(),
            classification: "delegable".to_string(),
            description: "Reads".to_string(),
        },
    ];
    c.policy = vec![
        PolicySymbolEntry { symbol: "CRIT.SECRET".to_string(), classification: "critical".to_string(), auto_approve_seconds: 0 },
        PolicySymbolEntry { symbol: "STD.READ".to_string(), classification: "delegable".to_string(), auto_approve_seconds: 30 },
    ];
    c
}

fn sockets_config(names: &[&str]) -> AdminConfig {
    let mut c = empty_config();
    c.sockets = names
        .iter()
        .map(|n| SocketDefinition { name: n.to_string(), path: format!("{n}.sock"), permissions: "0600".to_string() })
        .collect();
    c
}

fn financial_criteria() -> AdminConfig {
    let mut c = empty_config();
    c.criteria = vec![CriteriaPatternSet { category: "financial".to_string(), patterns: vec!["stripe".to_string()] }];
    c
}

fn loaded_panel() -> AdminPanel {
    let mut panel = AdminPanel::new("/tmp/admin".to_string());
    let mut branches = empty_config();
    branches.branches = vec![BranchConfig { name: "branch_a".to_string(), sub_chat_limit: 3, context_enabled: true }];
    panel.load_all(LoadedSections {
        exec_allowlist: Some(vec![AllowlistEntry {
            name: "cargo".to_string(),
            path: "/usr/bin/cargo".to_string(),
            allowed: true,
            args: vec!["build".to_string(), "test".to_string()],
        }]),
        symbol_policy: Some(symbols_config()),
        criteria: None,
        sockets: Some(sockets_config(&["public_maestro", "private_a"])),
        branches: Some(branches),
        audit: vec![],
    });
    panel
}

#[test]
fn new_panel_is_empty_on_the_allowlist_tab() {
    let panel = AdminPanel::new("/tmp/admin".to_string());
    assert_eq!(panel.active_tab, AdminTab::Allowlist);
    assert!(panel.exec_allowlist.is_empty() && panel.criteria.is_empty());
    assert!(panel.status_message.is_empty());
    assert!(panel.confirm_dialog.is_none());
}

#[test]
fn loading_fills_rows_and_clears_edits() {
    let panel = loaded_panel();
    assert_eq!(panel.exec_allowlist.len(), 1);
    assert_eq!(panel.exec_allowlist[0].args, "build, test");
    assert_eq!(panel.symbol_policy.len(), 2);
    assert_eq!(panel.symbol_policy[0].description, "Secrets");
    assert_eq!(panel.symbol_policy[1].auto_approve_seconds, 30);
    assert!(panel.criteria.is_empty());
    assert_eq!(panel.sockets.len(), 2);
    assert_eq!(panel.branches[0].sub_chat_limit, 3);
    assert!(!panel.exec_allowlist_dirty && !panel.sockets_dirty);
}

#[test]
fn save_is_ignored_without_edits() {
    let mut panel = loaded_panel();
    assert!(panel.click_save(SaveTarget::ExecAllowlist, None).is_none());
    assert!(panel.status_message.is_empty());
}

#[test]
fn added_allowlist_entry_is_saved_with_split_arguments() {
    let mut panel = loaded_panel();
    panel.add_exec_entry();
    assert!(panel.exec_allowlist_dirty);
    assert_eq!(panel.exec_allowlist[1].name, "new_binary");
    assert!(panel.exec_allowlist[1].allowed);
    let mut row = panel.exec_allowlist[1].clone();
    row.args = " --a , ,--b".to_string();
    panel.edit_exec_entry(1, row);
    let cfg = panel.click_save(SaveTarget::ExecAllowlist, None).expect("a config to write");
    assert_eq!(cfg.allowlist.len(), 2);
    assert_eq!(cfg.allowlist[1].args, vec!["--a".to_string(), "--b".to_string()]);
    assert!(cfg.symbols.is_empty() && cfg.sockets.is_empty());

    panel.complete_save(
        SaveTarget::ExecAllowlist,
        "2024-01-01T00:00:00Z".to_string(),
        "admin".to_string(),
        "old".to_string(),
        "new".to_string(),
    );
    assert!(!panel.exec_allowlist_dirty);
    assert_eq!(panel.status_message, "Executor allowlist saved.");
    assert_eq!(panel.audit_entries.len(), 1);
    assert_eq!(panel.audit_entries[0].action, "allowlist.save");
    assert_eq!(panel.audit_entries[0].changed_file, "executor_allowlist.toml");
    assert!(!panel.audit_entries[0].security_lowering);
}

#[test]
fn critical_symbol_reclassified_warns_and_is_refused_on_save() {
    let mut panel = loaded_panel();
    panel.select_classification(0, true);
    assert_eq!(panel.symbol_policy[0].classification, "delegable");
    assert_eq!(
        panel.status_message,
        "WARNING: attempting to reclassify CRIT.SECRET (critical) as delegable \u{2014} will be rejected on save."
    );
    // The choice alone does not mark the section as edited.
    assert!(!panel.symbol_policy_dirty);
    panel.set_auto_approve_seconds(1, 99_999);
    assert_eq!(panel.symbol_policy[1].auto_approve_seconds, 3600);
    assert!(panel.symbol_policy_dirty);
    assert!(panel.click_save(SaveTarget::SymbolPolicy, Some(&symbols_config())).is_none());
    assert_eq!(
        panel.status_message,
        "Validation failed: Critical symbol 'CRIT.SECRET' must not be classified as delegable"
    );
    assert!(panel.confirm_dialog.is_none());
}

#[test]
fn critical_symbol_delay_cannot_be_edited() {
    let mut panel = loaded_panel();
    panel.set_auto_approve_seconds(0, 60);
    assert_eq!(panel.symbol_policy[0].auto_approve_seconds, 0);
    assert!(!panel.symbol_policy_dirty);
}

#[test]
fn symbols_cannot_be_removed() {
    let mut panel = loaded_panel();
    panel.request_symbol_removal(1);
    assert_eq!(panel.symbol_policy.len(), 2);
    assert_eq!(
        panel.status_message,
        "Cannot remove symbol STD.READ from the config \u{2014} symbol vocabulary is fixed in code."
    );
}

#[test]
fn removing_a_socket_asks_for_confirmation() {
    let mut panel = loaded_panel();
    panel.remove_socket(1);
    let previous = sockets_config(&["public_maestro", "private_a"]);
    assert!(panel.click_save(SaveTarget::Sockets, Some(&previous)).is_none());
    let dialog = panel.confirm_dialog.clone().expect("a confirmation");
    assert_eq!(dialog.action, SaveTarget::Sockets);
    assert_eq!(
        dialog.message,
        "This change removes a socket definition, which may reduce the monitored attack surface. Proceed?"
    );
    // While the confirmation is pending no other save starts.
    panel.add_category();
    assert!(panel.click_save(SaveTarget::Criteria, None).is_none());

    let (target, cfg) = panel.confirm_change().expect("the held-back save");
    assert_eq!(target, SaveTarget::Sockets);
    assert_eq!(cfg.sockets.len(), 1);
    assert_eq!(cfg.sockets[0].name, "public_maestro");
    assert!(panel.confirm_dialog.is_none());
}

#[test]
fn cancelled_change_is_not_saved() {
    let mut panel = loaded_panel();
    panel.remove_socket(0);
    let previous = sockets_config(&["public_maestro", "private_a"]);
    assert!(panel.click_save(SaveTarget::Sockets, Some(&previous)).is_none());
    panel.cancel_change();
    assert!(panel.confirm_dialog.is_none());
    assert_eq!(panel.status_message, "Change cancelled.");
    assert!(panel.sockets_dirty);
    assert!(panel.confirm_change().is_none());
}

#[test]
fn socket_save_without_previous_file_proceeds() {
    let mut panel = loaded_panel();
    panel.add_socket();
    assert_eq!(panel.sockets[2].path, "new_socket.sock");
    assert_eq!(panel.sockets[2].permissions, "0600");
    let cfg = panel.click_save(SaveTarget::Sockets, None).expect("a config to write");
    assert_eq!(cfg.sockets.len(), 3);
}

#[test]
fn invalid_socket_permissions_are_refused() {
    let mut panel = loaded_panel();
    panel.edit_socket(0, "x.sock".to_string(), "rw".to_string());
    assert!(panel.click_save(SaveTarget::Sockets, None).is_none());
    assert_eq!(panel.status_message, "Validation failed: Socket permissions must be octal, got 'rw'");
}

#[test]
fn branch_limit_is_kept_between_one_and_ten() {
    let mut panel = loaded_panel();
    panel.set_sub_chat_limit(0, 0);
    assert_eq!(panel.branches[0].sub_chat_limit, 1);
    panel.set_sub_chat_limit(0, 42);
    assert_eq!(panel.branches[0].sub_chat_limit, 10);
    panel.set_context_enabled(0, false);
    assert!(!panel.branches[0].context_enabled);
    let cfg = panel.click_save(SaveTarget::Branches, None).expect("a config to write");
    assert_eq!(cfg.branches[0].sub_chat_limit, 10);
    panel.complete_save(SaveTarget::Branches, "t".to_string(), "op".to_string(), String::new(), String::new());
    assert_eq!(panel.status_message, "Branch config saved. Daemon restart required.");
}

#[test]
fn live_test_uses_edited_criteria() {
    let mut panel = loaded_panel();
    panel.set_test_command("   ".to_string());
    assert!(panel.evaluate_test_command());
    assert!(panel.test_result.is_none());

    panel.set_test_command("[[AB:OPS.APP.OPEN]] ls -la".to_string());
    assert!(panel.evaluate_test_command());
    assert_eq!(panel.test_result.as_ref().map(|r| r.status), Some(EvaluationStatus::Delegable));

    panel.load_criteria(Some(&financial_criteria()));
    assert_eq!(panel.criteria[0].patterns_text, "stripe");
    panel.edit_criteria_patterns(0, "ls\n".to_string());
    assert!(panel.evaluate_test_command());
    assert_eq!(panel.test_result.as_ref().map(|r| r.status), Some(EvaluationStatus::NonDelegable));

    panel.remove_category(0);
    assert!(panel.criteria.is_empty());
    assert!(panel.criteria_dirty);
}

#[test]
fn uncompilable_pattern_leaves_panel_unchanged() {
    let mut panel = loaded_panel();
    panel.load_criteria(Some(&financial_criteria()));
    panel.edit_criteria_patterns(0, "(".to_string());
    panel.set_test_command("[[AB:OPS.APP.OPEN]] ls".to_string());
    assert!(!panel.evaluate_test_command());
    assert!(panel.test_result.is_none());
    assert!(panel.click_save(SaveTarget::Criteria, None).is_none());
    assert_eq!(panel.status_message, "Validation failed: Invalid criteria regex for category 'financial': (");

    panel.add_category();
    assert_eq!(panel.criteria[1].category, "new_category");
    assert!(panel.criteria[1].patterns_text.is_empty());
}

#[test]
fn status_can_be_dismissed_and_tabs_switched() {
    let mut panel = loaded_panel();
    panel.report_write_error("disk full");
    assert_eq!(panel.status_message, "Save failed: disk full");
    panel.report_serialize_error("bad");
    assert_eq!(panel.status_message, "Serialize error: bad");
    panel.dismiss_status();
    assert!(panel.status_message.is_empty());
    panel.select_tab(AdminTab::AuditLog);
    assert_eq!(panel.active_tab, AdminTab::AuditLog);
}

#[test]
fn allowlist_save_is_validated_first() {
    let mut panel = loaded_panel();
    panel.add_exec_entry();
    let mut row = panel.exec_allowlist[1].clone();
    row.name = "cargo".to_string();
    panel.edit_exec_entry(1, row);
    assert!(panel.click_save(SaveTarget::ExecAllowlist, None).is_none());
    assert_eq!(
        panel.status_message,
        "Validation failed: Duplicate allowlist entry: 'cargo' appears more than once"
    );
    let mut row = panel.exec_allowlist[1].clone();
    row.name = "any".to_string();
    row.path = "*".to_string();
    panel.edit_exec_entry(1, row);
    assert!(panel.click_save(SaveTarget::ExecAllowlist, None).is_none());
    assert_eq!(
        panel.status_message,
        "Validation failed: Unsafe allowlist value: wildcard '*' not permitted in path for 'any'"
    );
    assert!(panel.audit_entries.is_empty());
}

#[test]
fn confirmed_lowering_save_is_flagged_in_the_audit() {
    let mut panel = loaded_panel();
    panel.remove_socket(1);
    panel.add_socket();
    // One socket replaced by another: still a removal.
    let previous = sockets_config(&["public_maestro", "private_a"]);
    assert!(panel.click_save(SaveTarget::Sockets, Some(&previous)).is_none());
    assert!(panel.confirm_dialog.is_some());
    let (target, _cfg) = panel.confirm_change().expect("the held-back save");
    panel.complete_save(target, "t".to_string(), "op".to_string(), "a".to_string(), "b".to_string());
    assert!(panel.audit_entries[0].security_lowering);
    assert!(panel.confirmed_lowering.is_none());

    panel.set_sub_chat_limit(0, 4);
    panel.click_save(SaveTarget::Branches, None).expect("a config to write");
    panel.complete_save(SaveTarget::Branches, "t".to_string(), "op".to_string(), "a".to_string(), "b".to_string());
    assert!(!panel.audit_entries[1].security_lowering);
}
