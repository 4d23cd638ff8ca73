use ai_bridge::executor::{
    authorize_command, command_tokens, evaluate_timeout, gatekeeper_timeout, parse_command, with_timeout,
    BinaryEntry, CommandError, ExecutorAllowlist, ExecutorAllowlistConfig, TimerOutcome,
};
use ai_bridge::time::{Duration, Instant};

#[test]
fn criteria_tests_timeout_logic_handles_delegable_and_non_delegable_cases() {
    assert_eq!(evaluate_timeout(true, Duration::from_secs(121)), TimerOutcome::AutoApprove);
    assert_eq!(evaluate_timeout(false, Duration::from_secs(121)), TimerOutcome::PermanentSuspension);
    assert_eq!(
        evaluate_timeout(true, gatekeeper_timeout().saturating_sub(&Duration::from_secs(1))),
        TimerOutcome::AwaitingHuman
    );
    assert_eq!(
        evaluate_timeout(false, gatekeeper_timeout().saturating_sub(&Duration::from_secs(1))),
        TimerOutcome::AwaitingHuman
    );
}

#[test]
fn rejects_when_binary_not_in_list() {
    let list = ExecutorAllowlist::from_names(vec!["cargo".to_string()]);
    assert!(!list.is_allowed("rm"));
}

#[test]
fn allowlist_keeps_only_allowed_binaries() {
    let list = ExecutorAllowlist::from_config(&ExecutorAllowlistConfig {
        binaries: vec![
            BinaryEntry { name: "cargo".to_string(), allowed: true },
            BinaryEntry { name: "rm".to_string(), allowed: false },
        ],
    });
    assert!(list.is_allowed("cargo"));
    assert!(!list.is_allowed("rm"));
    assert!(!list.is_allowed("unknown"));
}

#[test]
fn separates_program_from_arguments() {
    let tokens = parse_command("rm -rf /tmp/scratch dir with spaces").unwrap();
    assert_eq!(tokens, ["rm", "-rf", "/tmp/scratch", "dir", "with", "spaces"]);
    assert_eq!(tokens[0], "rm");
}

#[test]
fn keeps_quoted_words_as_single_arguments() {
    let tokens = parse_command("echo \"hello world\" a").unwrap();
    assert_eq!(tokens, ["echo", "hello world", "a"]);
}

#[test]
fn rejects_empty_command() {
    assert!(matches!(parse_command("   ").unwrap_err(), CommandError::InvalidInput(_)));
}

#[test]
fn rejects_unbalanced_quotes() {
    assert!(matches!(parse_command("echo \"unterminated").unwrap_err(), CommandError::InvalidInput(_)));
}

#[test]
fn shell_metacharacters_stay_plain_arguments() {
    let tokens = parse_command("echo hi; ls /").unwrap();
    assert_eq!(tokens, ["echo", "hi;", "ls", "/"]);
}

#[test]
fn command_tokens_names_each_refusal() {
    assert_eq!(
        command_tokens(None),
        Err(CommandError::InvalidInput("command has unbalanced quotes".to_string()))
    );
    assert_eq!(
        command_tokens(Some(vec![])),
        Err(CommandError::InvalidInput("command is empty".to_string()))
    );
    assert_eq!(command_tokens(Some(vec!["ls".to_string()])), Ok(vec!["ls".to_string()]));
}

#[test]
fn waiting_from_a_deadline_uses_the_elapsed_time() {
    let start = Instant::from_origin(Duration::from_secs(1000));
    let late = Instant::from_origin(Duration::from_secs(1121));
    let early = Instant::from_origin(Duration::from_secs(1010));
    assert_eq!(with_timeout(true, start, late, || {}), TimerOutcome::AutoApprove);
    assert_eq!(with_timeout(false, start, late, || {}), TimerOutcome::PermanentSuspension);
    assert_eq!(with_timeout(false, start, early, || {}), TimerOutcome::AwaitingHuman);
    assert_eq!(with_timeout(true, late, start, || {}), TimerOutcome::AwaitingHuman);
}

#[test]
fn only_listed_programs_are_authorized() {
    let list = ExecutorAllowlist::from_names(vec!["cargo".to_string()]);
    assert_eq!(
        authorize_command(&list, "cargo test --all"),
        Ok(vec!["cargo".to_string(), "test".to_string(), "--all".to_string()])
    );
    assert_eq!(
        authorize_command(&list, "rm -rf /"),
        Err(CommandError::NotAllowed("binary 'rm' is not in the executor allowlist".to_string()))
    );
    assert_eq!(
        authorize_command(&list, "   "),
        Err(CommandError::InvalidInput("command is empty".to_string()))
    );
}
