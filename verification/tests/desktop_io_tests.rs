use ai_bridge::desktop_io::{
    json_record_values, text_lines,
    check_records_identity, choose_store, confine_resolved, default_store_root, filter_sqlite_rows,
    ChatIdentity, ChatRecord, DesktopIoError, SqliteRow, StoreChoice, StorePaths,
};

#[test]
fn rejects_records_mismatching_requested_identity() {
    let records = vec![ChatRecord {
        identity: ChatIdentity::Maestro,
        task_id: "task-9".to_string(),
        content: "wrong identity".to_string(),
    }];
    assert!(matches!(check_records_identity(records, ChatIdentity::A), Err(DesktopIoError::Decode(_))));
}

#[test]
fn matching_records_are_kept_in_order() {
    let records = vec![
        ChatRecord { identity: ChatIdentity::Maestro, task_id: "task-1".to_string(), content: "ready".to_string() },
        ChatRecord { identity: ChatIdentity::Maestro, task_id: "task-2".to_string(), content: "done".to_string() },
    ];
    let kept = check_records_identity(records.clone(), ChatIdentity::Maestro).unwrap();
    assert_eq!(kept.len(), 2);
    assert_eq!(kept[0].content, "ready");
    assert_eq!(
        check_records_identity(records, ChatIdentity::B),
        Err(DesktopIoError::Decode("record identity Maestro does not match requested identity B".to_string()))
    );
}

#[test]
fn path_is_confined_to_store_root() {
    assert!(matches!(
        confine_resolved("/tmp/x/store", "/tmp/x/outside/chat.db", "/tmp/x/outside/chat.db"),
        Err(DesktopIoError::UnconfinedPath(_))
    ));
    assert_eq!(
        confine_resolved("/tmp/x/store", "/tmp/x/store/A/chat.db", "store/A/chat.db"),
        Ok("/tmp/x/store/A/chat.db".to_string())
    );
    assert!(confine_resolved("/tmp/x/store", "/tmp/x/storeroom/chat.db", "c").is_err());
}

#[test]
fn store_paths_follow_the_identity() {
    let paths = StorePaths::under("/data");
    assert_eq!(paths.json_records(ChatIdentity::Maestro), "/data/maestro/messages.json");
    assert_eq!(paths.sqlite_records(ChatIdentity::A), "/data/A/chat.db");
    assert_eq!(paths.root(), "/data");
    assert_eq!(choose_store(true, true), StoreChoice::Json);
    assert_eq!(choose_store(false, true), StoreChoice::Sqlite);
    assert_eq!(choose_store(false, false), StoreChoice::Empty);
}

#[test]
fn sqlite_rows_are_filtered_by_identity_column() {
    let rows = vec![
        SqliteRow { identity: Some("a".to_string()), task_id: "1".to_string(), content: "x".to_string() },
        SqliteRow { identity: Some("B".to_string()), task_id: "2".to_string(), content: "y".to_string() },
        SqliteRow { identity: None, task_id: "3".to_string(), content: "z".to_string() },
    ];
    let kept = filter_sqlite_rows(&rows, ChatIdentity::A).unwrap();
    assert_eq!(kept.len(), 2);
    assert_eq!(kept[0].task_id, "1");
    assert_eq!(kept[1].task_id, "3");
    assert!(kept.iter().all(|r| r.identity == ChatIdentity::A));
    let bad = vec![SqliteRow { identity: Some("zz".to_string()), task_id: "1".to_string(), content: "x".to_string() }];
    assert_eq!(
        filter_sqlite_rows(&bad, ChatIdentity::A),
        Err(DesktopIoError::Decode("unknown identity column value: zz".to_string()))
    );
}

#[test]
fn default_store_root_prefers_xdg_then_home() {
    assert_eq!(default_store_root(Some("/x"), Some("/h")), "/x/ai-bridge-chat");
    assert_eq!(default_store_root(Some("  "), Some("/h")), "/h/.local/share/ai-bridge-chat");
    assert_eq!(default_store_root(None, None), "/tmp/ai-bridge-chat");
}

#[test]
fn store_errors_explain_themselves() {
    assert_eq!(
        DesktopIoError::UnconfinedPath("/etc/passwd".to_string()).message(),
        "path is outside the allowed store: /etc/passwd"
    );
    assert_eq!(DesktopIoError::Io("denied".to_string()).message(), "I/O error: denied");
    assert_eq!(DesktopIoError::Parse("bad".to_string()).message(), "unable to parse store: bad");
    assert_eq!(DesktopIoError::Decode("x".to_string()).message(), "unable to decode record: x");
}

#[test]
fn json_stores_yield_their_record_values() {
    let arr = json_record_values(r#"[{"a":1},{"b":2}]"#).unwrap();
    assert_eq!(arr.len(), 2);
    let one = json_record_values(r#"{"a":1}"#).unwrap();
    assert_eq!(one.len(), 1);
    let lines = json_record_values(r#""{\"a\":1}\r\n{\"b\":2}\n""#).unwrap();
    assert_eq!(lines.len(), 2);
    assert!(matches!(json_record_values("{"), Err(DesktopIoError::Parse(_))));
    assert!(matches!(json_record_values(r#""{\"a\":1}\nnope""#), Err(DesktopIoError::Decode(_))));
    assert!(json_record_values(r#""""#).unwrap().is_empty());
}

#[test]
fn text_lines_follow_str_lines() {
    for s in ["", "a", "a\n", "a\r\nb", "a\n\nb\n", "x\r", "\n"] {
        let expected: Vec<String> = s.lines().map(|l| l.to_string()).collect();
        assert_eq!(text_lines(s), expected, "{s:?}");
    }
}

#[test]
fn the_store_read_is_chosen_by_what_exists() {
    let paths = StorePaths::under("/data");
    assert_eq!(
        paths.store_to_read(ChatIdentity::B, true, true),
        Some((StoreChoice::Json, "/data/B/messages.json".to_string()))
    );
    assert_eq!(
        paths.store_to_read(ChatIdentity::B, false, true),
        Some((StoreChoice::Sqlite, "/data/B/chat.db".to_string()))
    );
    assert_eq!(paths.store_to_read(ChatIdentity::B, false, false), None);
}
