use ai_bridge::channels::ChannelName;
use ai_bridge::event_loop::{
    apply_gatekeeper_policy, delegation_timeout, process_maestro_message, process_task_resolved,
    route_branch_request, BranchRegistry, GatekeeperVerdict, LoopError, MaestroReply, PendingPlans,
};
use ai_bridge::policy::PolicyDecision;
use ai_bridge::protocol::{
    ExecutionOutcome, ExecutionPlan, MaestroMessage, SubChatOpenRequest, TaskQuery, TaskResolved,
    TaskStatus,
};
use ai_bridge::time::{Duration, Instant};

fn now() -> Instant {
    Instant::from_origin(Duration::from_secs(1_000))
}

fn delegable_plan(task_id: &str) -> ExecutionPlan {
    ExecutionPlan {
        task_id: task_id.to_string(),
        description: "run the test suite".to_string(),
        commands: vec!["[[AB:OPS.TERM.RUN.LOCAL]] cargo test".to_string()],
    }
}

fn critical_plan(task_id: &str) -> ExecutionPlan {
    ExecutionPlan {
        task_id: task_id.to_string(),
        description: "rotate credentials".to_string(),
        commands: vec!["[[AB:OPS.TERM.RUN.LOCAL]] echo password=secret".to_string()],
    }
}

fn wipe_plan(task_id: &str) -> ExecutionPlan {
    ExecutionPlan {
        task_id: task_id.to_string(),
        description: "wipe the disk".to_string(),
        commands: vec!["[[AB:OPS.TERM.RUN.LOCAL]] dd if=/dev/zero of=/dev/sda bs=1M status=progress".to_string()],
    }
}

#[test]
fn branch_routing_returns_call_index_without_dropping_results() {
    let mut registry = BranchRegistry::new("task-7".to_string());
    let first = SubChatOpenRequest {
        task_id: "task-7".to_string(),
        prompt: "first".to_string(),
        branch: "A".to_string(),
    };
    let second = SubChatOpenRequest {
        task_id: "task-7".to_string(),
        prompt: "second".to_string(),
        branch: "A".to_string(),
    };

    let first_result = route_branch_request(&mut registry, ChannelName::PrivateA, &first).unwrap();
    let second_result = route_branch_request(&mut registry, ChannelName::PrivateA, &second).unwrap();

    assert_eq!(first_result.call_index, 0);
    assert_eq!(second_result.call_index, 1);
}

#[test]
fn branch_routing_rejects_maestro_channel() {
    let mut registry = BranchRegistry::new("task-7".to_string());
    let request = SubChatOpenRequest {
        task_id: "task-7".to_string(),
        prompt: "x".to_string(),
        branch: "A".to_string(),
    };
    assert!(matches!(
        route_branch_request(&mut registry, ChannelName::PublicMaestro, &request),
        Err(LoopError::NoBranch(ChannelName::PublicMaestro))
    ));
}

#[test]
fn delegable_plan_auto_approves_after_timeout() {
    let mut pending = PendingPlans::new();
    let plan = delegable_plan("task-1");
    let start = now();

    let (verdict, _ack) = pending.ingest(&plan, start);
    assert_eq!(verdict, GatekeeperVerdict::PendingTimeout);

    let later = start.checked_add(&delegation_timeout(None)).unwrap();
    let (verdict, _ack) = pending.ingest(&plan, later);
    assert_eq!(verdict, GatekeeperVerdict::AutoApproved);
}

#[test]
fn critical_plan_is_held_forever_for_manual_approval() {
    let mut pending = PendingPlans::new();
    let plan = critical_plan("task-2");
    let start = now();

    let (verdict, _ack) = pending.ingest(&plan, start);
    assert_eq!(verdict, GatekeeperVerdict::HeldForManualApproval);
    assert_eq!(pending.critical_held(), &["task-2".to_string()]);

    let later = start
        .checked_add(&delegation_timeout(None))
        .unwrap()
        .checked_add(&Duration::from_secs(3600))
        .unwrap();
    let (verdict, _ack) = pending.ingest(&plan, later);
    assert_eq!(verdict, GatekeeperVerdict::HeldForManualApproval);
}

#[test]
fn manual_approval_releases_held_critical_task() {
    let mut pending = PendingPlans::new();
    let plan = critical_plan("task-3");
    let (_, _ack) = pending.ingest(&plan, now());

    assert!(pending.handle_owner_decision("task-3", true).unwrap().is_some());
    assert!(pending.critical_held().is_empty());
    assert!(pending.handle_owner_decision("task-3", true).unwrap().is_none());
}

#[test]
fn wipe_plan_is_non_delegable_and_held_for_manual_approval() {
    let mut pending = PendingPlans::new();
    let plan = wipe_plan("task-4");
    let (verdict, _ack) = pending.ingest(&plan, now());
    assert_eq!(verdict, GatekeeperVerdict::HeldForManualApproval);
}

#[test]
fn default_gatekeeper_timeout_is_120_seconds() {
    assert_eq!(delegation_timeout(None), Duration::from_secs(120));
}

#[test]
fn task_submit_ack_returned_on_ingest() {
    let mut pending = PendingPlans::new();
    let plan = delegable_plan("task-ack-1");
    let (_, ack) = pending.ingest(&plan, now());
    assert_eq!(ack.task_id, "task-ack-1");
}

#[test]
fn task_query_returns_pending_for_new_delegable_task() {
    let mut pending = PendingPlans::new();
    let plan = delegable_plan("task-query-1");
    pending.ingest(&plan, now());

    let result = pending.query("task-query-1").unwrap();
    assert_eq!(result.task_id, "task-query-1");
    assert_eq!(result.status, TaskStatus::Pending);
    assert!(result.result.is_none());
}

#[test]
fn task_query_returns_held_for_critical_task() {
    let mut pending = PendingPlans::new();
    let plan = critical_plan("task-query-2");
    pending.ingest(&plan, now());

    let result = pending.query("task-query-2").unwrap();
    assert_eq!(result.status, TaskStatus::HeldForManualApproval);
}

#[test]
fn owner_approval_triggers_execution() {
    let mut pending = PendingPlans::new();
    let plan = critical_plan("task-owner-1");
    pending.ingest(&plan, now());

    let plan_to_exec = pending.handle_owner_decision("task-owner-1", true).unwrap();
    assert!(plan_to_exec.is_some());
    assert_eq!(plan_to_exec.unwrap().task_id, "task-owner-1");

    let result = pending.query("task-owner-1").unwrap();
    assert_eq!(result.status, TaskStatus::Pending);
}

#[test]
fn owner_rejection_marks_task_rejected() {
    let mut pending = PendingPlans::new();
    let plan = critical_plan("task-owner-2");
    pending.ingest(&plan, now());

    let plan_to_exec = pending.handle_owner_decision("task-owner-2", false).unwrap();
    assert!(plan_to_exec.is_none());

    let result = pending.query("task-owner-2").unwrap();
    assert_eq!(result.status, TaskStatus::RejectedByOwner);
}

#[test]
fn record_execution_updates_status() {
    let mut pending = PendingPlans::new();
    let plan = delegable_plan("task-exec-1");
    pending.ingest(&plan, now());

    let outcome = ExecutionOutcome {
        stdout: "hello".to_string(),
        stderr: "".to_string(),
        exit_code: 0,
        success: true,
    };
    pending.record_execution("task-exec-1", outcome.clone()).unwrap();

    let result = pending.query("task-exec-1").unwrap();
    assert_eq!(result.status, TaskStatus::Executed);
    assert_eq!(result.result, Some(outcome));
}

#[test]
fn process_maestro_message_execution_plan_returns_ack() {
    let mut pending = PendingPlans::new();
    let plan = delegable_plan("task-proc-1");
    let msg = MaestroMessage::ExecutionPlan(plan);

    let response = process_maestro_message(&mut pending, now(), msg).unwrap();
    match response {
        MaestroReply::Ack(ack) => assert_eq!(ack.task_id, "task-proc-1"),
        other => panic!("unexpected reply {other:?}"),
    }
}

#[test]
fn process_maestro_message_task_query_returns_result() {
    let mut pending = PendingPlans::new();
    let plan = critical_plan("task-proc-2");
    pending.ingest(&plan, now());

    let msg = MaestroMessage::TaskQuery(TaskQuery { task_id: "task-proc-2".to_string() });
    let response = process_maestro_message(&mut pending, now(), msg).unwrap();
    match response {
        MaestroReply::QueryResult(result) => {
            assert_eq!(result.task_id, "task-proc-2");
            assert_eq!(result.status, TaskStatus::HeldForManualApproval);
        }
        other => panic!("unexpected reply {other:?}"),
    }
}

#[test]
fn timeout_sweep_auto_approves_only_elapsed_delegable_tasks() {
    let mut pending = PendingPlans::with_delegation_timeout(Duration::from_secs(10));
    pending.ingest(&delegable_plan("d1"), now());
    pending.ingest(&critical_plan("c1"), now());
    let early = now().checked_add(&Duration::from_secs(5)).unwrap();
    assert!(pending.check_timeouts(early).is_empty());
    let late = now().checked_add(&Duration::from_secs(10)).unwrap();
    let run = pending.check_timeouts(late);
    assert_eq!(run.len(), 1);
    assert_eq!(run[0].0, "d1");
    assert_eq!(run[0].1, delegable_plan("d1"));
    assert_eq!(pending.query("d1").unwrap().status, TaskStatus::DelegableAutoApproved);
    assert_eq!(pending.query("c1").unwrap().status, TaskStatus::HeldForManualApproval);
    assert!(pending.check_timeouts(late).is_empty());
    let ready = pending.ready_for_execution();
    assert_eq!(ready.len(), 1);
    assert_eq!(ready[0].0, "d1");
}

#[test]
fn unknown_tasks_are_reported() {
    let mut pending = PendingPlans::new();
    assert_eq!(pending.query("nope"), Err(LoopError::TaskNotFound("nope".to_string())));
    assert_eq!(
        pending.record_execution(
            "nope",
            ExecutionOutcome { stdout: String::new(), stderr: String::new(), exit_code: 1, success: false }
        ),
        Err(LoopError::TaskNotFound("nope".to_string()))
    );
    assert_eq!(
        process_task_resolved(&mut pending, TaskResolved { task_id: "nope".to_string(), approved: true }),
        Err(LoopError::TaskNotFound("nope".to_string()))
    );
}

#[test]
fn failed_execution_is_recorded_as_failed() {
    let mut pending = PendingPlans::new();
    pending.ingest(&delegable_plan("f"), now());
    pending
        .record_execution(
            "f",
            ExecutionOutcome { stdout: String::new(), stderr: "boom".to_string(), exit_code: 2, success: false },
        )
        .unwrap();
    assert_eq!(pending.query("f").unwrap().status, TaskStatus::ExecutionFailed);
}

#[test]
fn policy_verdicts_follow_the_timeout() {
    let t = Duration::from_secs(120);
    assert_eq!(
        apply_gatekeeper_policy(PolicyDecision::Delegable, Duration::from_secs(119), t),
        GatekeeperVerdict::PendingTimeout
    );
    assert_eq!(
        apply_gatekeeper_policy(PolicyDecision::Delegable, Duration::from_secs(120), t),
        GatekeeperVerdict::AutoApproved
    );
    assert_eq!(
        apply_gatekeeper_policy(PolicyDecision::NonDelegable, Duration::from_secs(100_000), t),
        GatekeeperVerdict::HeldForManualApproval
    );
    assert_eq!(delegation_timeout(Some("15")), Duration::from_secs(15));
}

#[test]
fn only_approved_tasks_are_ready() {
    let mut pending = PendingPlans::new();
    pending.ingest(&delegable_plan("t"), now());
    assert!(pending.ready_for_execution().is_empty());
    pending.ingest(&critical_plan("c"), now());
    assert!(pending.ready_for_execution().is_empty());
    assert!(process_task_resolved(&mut pending, TaskResolved { task_id: "c".to_string(), approved: true })
        .unwrap()
        .is_some());
    assert_eq!(pending.query("c").unwrap().status, TaskStatus::Pending);
    let ready = pending.ready_for_execution();
    assert_eq!(ready.len(), 1);
    assert_eq!(ready[0].0, "c");
}
