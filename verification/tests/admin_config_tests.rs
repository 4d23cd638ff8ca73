use ai_bridge::admin_config::{
    audit_dir, config_file, dry_run_validate, is_critical_symbol, permissions_valid,
    AdminAuditEntry, AdminConfig, AllowlistEntry, CriteriaPatternSet, PolicySymbolEntry, PolicyValidationError,
    SocketDefinition, SymbolDefinition,
};
use ai_bridge::criteria::CriteriaConfig;

#[test]
fn unsafe_values_are_rejected() {
    let config = AdminConfig {
        allowlist: vec![AllowlistEntry {
            name: "wildcard".to_string(),
            path: "*".to_string(),
            allowed: true,
            args: vec![],
        }],
        symbols: vec![SymbolDefinition {
            name: "CRIT.SECRET".to_string(),
            classification: "delegable".to_string(),
            description: "secret".to_string(),
        }],
        policy: vec![PolicySymbolEntry {
            symbol: "CRIT.SECRET".to_string(),
            classification: "delegable".to_string(),
            auto_approve_seconds: 0,
        }],
        criteria: vec![CriteriaPatternSet {
            category: "secrets".to_string(),
            patterns: vec!["secret".to_string()],
        }],
        sockets: vec![],
        branches: vec![],
        audit: vec![],
    };

    let err = config.validate().unwrap_err();
    assert!(matches!(err, PolicyValidationError::UnsafeAllowlistValue { .. }));
}

#[test]
fn security_lowering_detection_flags_reclassification() {
    let mut before = AdminConfig::default();
    before.seed_default_criteria();
    before.policy.push(PolicySymbolEntry {
        symbol: "CRIT.SECRET".to_string(),
        classification: "critical".to_string(),
        auto_approve_seconds: 0,
    });

    let mut after = before.clone();
    for entry in &mut after.policy {
        if entry.symbol == "CRIT.SECRET" {
            entry.classification = "delegable".to_string();
        }
    }

    assert!(after.is_security_lowering_change(&before));

    let mut benign = before.clone();
    benign.policy.push(PolicySymbolEntry {
        symbol: "OPS.TERM.RUN.LOCAL".to_string(),
        classification: "delegable".to_string(),
        auto_approve_seconds: 60,
    });
    assert!(!benign.is_security_lowering_change(&before));
}

#[test]
fn seeded_criteria_reproduce_the_default_patterns() {
    let mut config = AdminConfig::default();
    config.seed_default_criteria();
    assert_eq!(config.criteria.len(), 6);
    let from_config = config.to_criteria_config();
    let defaults = CriteriaConfig::default_patterns();
    assert_eq!(from_config, defaults);
    assert!(config.validate().is_ok());
}

#[test]
fn critical_symbol_cannot_be_reclassified_or_auto_approved() {
    let mut config = AdminConfig::default();
    config.policy.push(PolicySymbolEntry {
        symbol: "CRIT.EGRESS".to_string(),
        classification: "delegable".to_string(),
        auto_approve_seconds: 0,
    });
    assert!(matches!(
        config.validate(),
        Err(PolicyValidationError::CriticalSymbolReclassified { .. })
    ));

    let mut config = AdminConfig::default();
    config.policy.push(PolicySymbolEntry {
        symbol: "CRIT.EGRESS".to_string(),
        classification: "critical".to_string(),
        auto_approve_seconds: 30,
    });
    assert_eq!(
        config.validate(),
        Err(PolicyValidationError::CriticalSymbolAutoApprove {
            symbol: "CRIT.EGRESS".to_string(),
            seconds: 30
        })
    );
}

#[test]
fn duplicate_entries_and_bad_permissions_are_rejected() {
    let entry = AllowlistEntry {
        name: "cargo".to_string(),
        path: "/usr/bin/cargo".to_string(),
        allowed: true,
        args: vec![],
    };
    let mut config = AdminConfig::default();
    config.allowlist.push(entry.clone());
    config.allowlist.push(entry);
    assert_eq!(
        config.validate(),
        Err(PolicyValidationError::DuplicateAllowlistEntry { name: "cargo".to_string() })
    );

    let mut config = AdminConfig::default();
    config.sockets.push(SocketDefinition {
        name: "a".to_string(),
        path: "/tmp/a.sock".to_string(),
        permissions: "rw-------".to_string(),
    });
    assert!(matches!(
        config.validate(),
        Err(PolicyValidationError::InvalidSocketPermissions { .. })
    ));
    assert!(permissions_valid("0600"));
    assert!(permissions_valid("0666"));
    assert!(!permissions_valid("600"));
    assert!(!permissions_valid("06x0"));
    assert!(permissions_valid("0755"));
    assert!(!permissions_valid("0899"));
    assert!(!permissions_valid("0680"));
}

#[test]
fn invalid_regex_is_reported_with_its_category() {
    let mut config = AdminConfig::default();
    config.criteria.push(CriteriaPatternSet {
        category: "financial".to_string(),
        patterns: vec!["(unclosed".to_string()],
    });
    assert!(matches!(
        config.validate(),
        Err(PolicyValidationError::InvalidCriteriaRegex { category, .. }) if category == "financial"
    ));
}

#[test]
fn dry_run_reports_load_failure_as_file_error() {
    let r = dry_run_validate(Err("missing".to_string()));
    assert_eq!(
        r,
        Err(PolicyValidationError::InvalidCriteriaRegex {
            category: "file".to_string(),
            error: "missing".to_string()
        })
    );
    assert!(dry_run_validate(Ok(AdminConfig::default())).is_ok());
}

#[test]
fn config_paths_join_under_the_root() {
    assert_eq!(audit_dir("/home/u/.config/ai-bridge"), "/home/u/.config/ai-bridge/audit");
    assert_eq!(config_file("/etc/ai-bridge/", "criteria.toml"), "/etc/ai-bridge/criteria.toml");
    assert!(is_critical_symbol("CRIT.SECRET"));
    assert!(!is_critical_symbol("OPS.APP.OPEN"));
}

#[test]
fn audit_entries_are_created_on_changes() {
    let mut config = AdminConfig::default();
    let before = config.clone();
    config.allowlist.push(AllowlistEntry {
        name: "cargo".to_string(),
        path: "/usr/bin/cargo".to_string(),
        allowed: true,
        args: vec![],
    });
    config.audit.push(AdminAuditEntry {
        timestamp: "2026-08-31T00:00:00Z".to_string(),
        action: "allowlist.add".to_string(),
        summary: "Added cargo to allowlist".to_string(),
        old_value: format!("{before:?}"),
        new_value: format!("{:?}", config.allowlist),
    });
    assert_eq!(config.audit.len(), 1);
    assert!(config.audit[0].summary.contains("cargo"));
}

#[test]
fn replacing_a_socket_lowers_security() {
    let sock = |n: &str| SocketDefinition { name: n.to_string(), path: format!("{n}.sock"), permissions: "0600".to_string() };
    let previous = AdminConfig { sockets: vec![sock("a")], ..AdminConfig::default() };
    let replaced = AdminConfig { sockets: vec![sock("b")], ..AdminConfig::default() };
    assert!(replaced.is_security_lowering_change(&previous));
    let grown = AdminConfig { sockets: vec![sock("a"), sock("b")], ..AdminConfig::default() };
    assert!(!grown.is_security_lowering_change(&previous));
    assert!(previous.is_security_lowering_change(&grown));
}
