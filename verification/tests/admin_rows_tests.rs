use ai_bridge::admin_config::{AllowlistEntry, CriteriaPatternSet};
use ai_bridge::admin_rows::{
    build_admin_config_from_rows, join_items, split_items, symbol_policy_config,
    try_run_test_command, BranchRow, CriteriaRow, ExecAllowlistRow, SocketRow, SymbolPolicyRow,
};
use ai_bridge::criteria::EvaluationStatus;

#[test]
fn argument_text_splits_into_trimmed_items() {
    assert_eq!(split_items(" --a,  --b ,, ", ','), vec!["--a".to_string(), "--b".to_string()]);
    assert!(split_items("", ',').is_empty());
    assert_eq!(join_items(&vec!["x".to_string(), "y".to_string()], ", "), "x, y");
    assert_eq!(join_items(&vec![], ", "), "");
}

#[test]
fn rows_round_trip_through_entries() {
    let entry = AllowlistEntry {
        name: "cargo".to_string(),
        path: "/usr/bin/cargo".to_string(),
        allowed: true,
        args: vec!["--version".to_string(), "build".to_string()],
    };
    let row = ExecAllowlistRow::from_binary(&entry);
    assert_eq!(row.args, "--version, build");
    assert_eq!(row.to_binary(), entry);

    let set = CriteriaPatternSet { category: "secrets".to_string(), patterns: vec!["a".to_string(), "b".to_string()] };
    let crow = CriteriaRow::from_set(&set);
    assert_eq!(crow.patterns_text, "a\nb");
    assert_eq!(crow.to_pattern_set(), set);
}

#[test]
fn all_rows_build_one_admin_config() {
    let config = build_admin_config_from_rows(
        &vec![ExecAllowlistRow { name: "ls".to_string(), path: "/bin/ls".to_string(), allowed: true, args: "-l".to_string() }],
        &vec![SymbolPolicyRow {
            name: "OPS.APP.OPEN".to_string(),
            description: "open".to_string(),
            classification: "delegable".to_string(),
            auto_approve_seconds: 30,
        }],
        &vec![CriteriaRow { category: "financial".to_string(), patterns_text: "pay\n\n  invoice ".to_string() }],
        &vec![SocketRow { name: "a".to_string(), path: "/tmp/a".to_string(), permissions: "0600".to_string() }],
        &vec![BranchRow { name: "A".to_string(), sub_chat_limit: 3, context_enabled: true }],
    );
    assert_eq!(config.allowlist[0].args, vec!["-l".to_string()]);
    assert_eq!(config.symbols[0].name, "OPS.APP.OPEN");
    assert_eq!(config.policy[0].auto_approve_seconds, 30);
    assert_eq!(config.criteria[0].patterns, vec!["pay".to_string(), "invoice".to_string()]);
    assert_eq!(config.sockets[0].permissions, "0600");
    assert_eq!(config.branches[0].sub_chat_limit, 3);
    assert!(config.audit.is_empty());
    assert!(config.validate().is_ok());

    let policy_only = symbol_policy_config(&vec![SymbolPolicyRow {
        name: "CRIT.SECRET".to_string(),
        description: "s".to_string(),
        classification: "delegable".to_string(),
        auto_approve_seconds: 0,
    }]);
    assert!(policy_only.validate().is_err());
}

#[test]
fn test_command_is_checked_against_edited_criteria() {
    let rows = vec![CriteriaRow { category: "financial".to_string(), patterns_text: "tip jar".to_string() }];
    assert_eq!(try_run_test_command(&rows, "   "), Some(None));
    let summary = try_run_test_command(&rows, "[[AB:OPS.APP.OPEN]] fill the tip jar").unwrap().unwrap();
    assert_eq!(summary.status, EvaluationStatus::NonDelegable);
    let summary = try_run_test_command(&rows, "[[AB:OPS.APP.OPEN]] ls").unwrap().unwrap();
    assert_eq!(summary.status, EvaluationStatus::Delegable);
    let broken = vec![CriteriaRow { category: "financial".to_string(), patterns_text: "(".to_string() }];
    assert_eq!(try_run_test_command(&broken, "[[AB:OPS.APP.OPEN]] ls"), None);
}
