use ai_bridge::audit::{entry_lines, log_files_in_order, month_filename, AuditLog};

#[test]
fn month_files_are_zero_padded() {
    assert_eq!(month_filename(2026, 8), "audit-2026-08.jsonl");
    assert_eq!(month_filename(999, 12), "audit-0999-12.jsonl");
    assert_eq!(month_filename(-5, 1), "audit--005-01.jsonl");
    assert_eq!(month_filename(12345, 3), "audit-12345-03.jsonl");
}

#[test]
fn log_files_live_in_the_audit_directory() {
    let log = AuditLog::default_dir("/cfg");
    assert_eq!(log.dir(), "/cfg/audit");
    assert_eq!(log.file_for(2026, 1), "/cfg/audit/audit-2026-01.jsonl");
    let current = log.current_month_file().expect("the clock reads after 1970");
    assert!(current.starts_with("/cfg/audit/audit-"));
    assert!(current.ends_with(".jsonl"));
    assert_eq!(AuditLog::new("d".to_string()).dir(), "d");
}

#[test]
fn a_timestamp_names_the_month_it_falls_in() {
    let log = AuditLog::new("/var/log".to_string());
    assert_eq!(log.month_file_at(0), Some("/var/log/audit-1970-01.jsonl".to_string()));
    assert_eq!(log.month_file_at(1431648000), Some("/var/log/audit-2015-05.jsonl".to_string()));
    assert_eq!(log.month_file_at(1767225599), Some("/var/log/audit-2025-12.jsonl".to_string()));
    assert_eq!(log.month_file_at(1767225600), Some("/var/log/audit-2026-01.jsonl".to_string()));
    assert_eq!(log.month_file_at(u64::MAX), None);
    assert_eq!(log.month_file_at(i64::MAX as u64), None);
}

#[test]
fn blank_lines_of_a_log_are_skipped() {
    let lines = entry_lines("{\"a\":1}\n\n  \r\n {\"b\":2} \n");
    assert_eq!(lines, vec!["{\"a\":1}".to_string(), "{\"b\":2}".to_string()]);
}

#[test]
fn log_files_are_read_in_name_order() {
    let names: Vec<String> = [
        "audit-2026-08.jsonl",
        "notes.txt",
        "audit-2025-12.jsonl",
        ".jsonl",
        "audit-2026-01.jsonl",
        "backup.JSONL",
        "audit-2026-01.jsonl.bak",
    ]
    .iter()
    .map(|s| s.to_string())
    .collect();
    assert_eq!(
        log_files_in_order(&names),
        vec![
            "audit-2025-12.jsonl".to_string(),
            "audit-2026-01.jsonl".to_string(),
            "audit-2026-08.jsonl".to_string(),
        ]
    );
    assert!(log_files_in_order(&vec![]).is_empty());
}
