use ai_bridge::channels::{ChannelError, ChannelName};
use ai_bridge::daemon::{
    authorized_target_count, combine_runs, handle_maestro_inbound, maestro_candidates, maestro_value,
    startup_check, CommandRun, Daemon, DaemonAction, DaemonEvent, MaestroCandidate,
    MaestroInbound, MaestroResponse, ROOT_TASK_ID,
};
use ai_bridge::event_loop::{LoopError, PendingPlans};
use ai_bridge::hand_eye::{Allowlist, AllowlistRule};
use ai_bridge::json::JsonValue;
use ai_bridge::protocol::{ExecutionOutcome, ExecutionPlan, SubChatOpenRequest, TaskQuery, TaskResolved, TaskStatus};
use ai_bridge::time::{Duration, Instant};

fn obj(entries: Vec<(&str, JsonValue)>) -> JsonValue {
    JsonValue::Object(entries.into_iter().map(|(k, v)| (k.to_string(), v)).collect())
}

fn s(v: &str) -> JsonValue {
    JsonValue::Str(v.to_string())
}

fn at(secs: u64) -> Instant {
    Instant::from_origin(Duration::from_secs(secs))
}

fn plan(task_id: &str, command: &str) -> ExecutionPlan {
    ExecutionPlan {
        task_id: task_id.to_string(),
        description: "d".to_string(),
        commands: vec![command.to_string()],
    }
}

#[test]
fn maestro_messages_are_tried_in_the_documented_order() {
    let resolved = obj(vec![("task_id", s("t")), ("approved", JsonValue::Bool(true))]);
    assert_eq!(maestro_candidates(&resolved), vec![MaestroCandidate::Resolved]);

    let typed_plan = obj(vec![("type", s("execution_plan")), ("commands", JsonValue::Array(vec![]))]);
    assert_eq!(
        maestro_candidates(&typed_plan),
        vec![MaestroCandidate::Typed, MaestroCandidate::PlainPlan]
    );

    let bare_query = obj(vec![("task_id", s("t"))]);
    assert_eq!(
        maestro_candidates(&bare_query),
        vec![MaestroCandidate::PlainQuery, MaestroCandidate::Fallback]
    );

    let other = obj(vec![("task_id", s("t")), ("x", JsonValue::Null)]);
    assert_eq!(maestro_candidates(&other), vec![MaestroCandidate::Fallback]);

    let typed_query = obj(vec![("type", s("task_query")), ("task_id", s("t"))]);
    assert_eq!(
        maestro_candidates(&typed_query),
        vec![MaestroCandidate::Typed, MaestroCandidate::Fallback]
    );
    assert_eq!(maestro_candidates(&JsonValue::Null), vec![MaestroCandidate::Fallback]);
}

#[test]
fn delegable_plan_is_run_once_its_window_elapses() {
    let mut pending = PendingPlans::with_delegation_timeout(Duration::from_secs(0));
    let p = plan("t1", "[[AB:OPS.TERM.RUN.LOCAL]] cargo test");
    let handled = handle_maestro_inbound(&mut pending, MaestroInbound::Plan(p.clone()), at(5)).unwrap();
    assert!(matches!(handled.response, MaestroResponse::Submitted(ref ack) if ack.task_id == "t1"));
    assert_eq!(handled.execute, Some(("t1".to_string(), p)));
}

#[test]
fn held_plan_is_released_only_by_the_owner() {
    let mut pending = PendingPlans::new();
    let p = plan("c1", "[[AB:CRIT.SECRET]] echo token");
    let handled = handle_maestro_inbound(&mut pending, MaestroInbound::Plan(p.clone()), at(5)).unwrap();
    assert_eq!(handled.execute, None);

    let approved = handle_maestro_inbound(
        &mut pending,
        MaestroInbound::Resolved(TaskResolved { task_id: "c1".to_string(), approved: true }),
        at(6),
    )
    .unwrap();
    assert_eq!(
        approved.response,
        MaestroResponse::Resolved { task_id: "c1".to_string(), approved: true, status: "approved" }
    );
    assert_eq!(approved.execute, Some(("c1".to_string(), p)));

    let again = handle_maestro_inbound(
        &mut pending,
        MaestroInbound::Resolved(TaskResolved { task_id: "c1".to_string(), approved: false }),
        at(7),
    )
    .unwrap();
    assert_eq!(
        again.response,
        MaestroResponse::Resolved { task_id: "c1".to_string(), approved: false, status: "rejected" }
    );
    assert_eq!(again.execute, None);

    let query = handle_maestro_inbound(
        &mut pending,
        MaestroInbound::Query(TaskQuery { task_id: "c1".to_string() }),
        at(8),
    )
    .unwrap();
    assert!(matches!(query.response, MaestroResponse::Queried(ref r) if r.status == TaskStatus::Pending));

    assert_eq!(
        handle_maestro_inbound(&mut pending, MaestroInbound::Query(TaskQuery { task_id: "zz".to_string() }), at(9)),
        Err(LoopError::TaskNotFound("zz".to_string()))
    );
}

#[test]
fn plan_outcome_combines_all_runs() {
    let runs = vec![
        CommandRun::Finished { code: Some(0), success: true, stdout: "a\n".to_string(), stderr: String::new() },
        CommandRun::Failed("no such file".to_string()),
        CommandRun::Finished { code: None, success: true, stdout: "b".to_string(), stderr: "w".to_string() },
    ];
    assert_eq!(
        combine_runs(&runs),
        ExecutionOutcome {
            stdout: "a\nb".to_string(),
            stderr: "execution error: no such filew".to_string(),
            exit_code: 0,
            success: false,
        }
    );
    assert_eq!(
        combine_runs(&vec![]),
        ExecutionOutcome { stdout: String::new(), stderr: String::new(), exit_code: 0, success: true }
    );
}

#[test]
fn startup_needs_the_maestro_browser_allowed() {
    let none = Allowlist { apps: vec![] };
    assert_eq!(startup_check(&none), Err("firefox is not authorized for portal actions".to_string()));
    assert_eq!(authorized_target_count(&none), 0);
    let both = Allowlist {
        apps: vec![
            AllowlistRule { app_id: "org.mozilla.firefox".to_string(), allowed: true },
            AllowlistRule { app_id: "org.gnome.Terminal".to_string(), allowed: true },
        ],
    };
    assert!(startup_check(&both).is_ok());
    assert_eq!(authorized_target_count(&both), 3);
}

#[test]
fn daemon_steps_route_each_event() {
    let mut daemon = Daemon::new(ROOT_TASK_ID.to_string());
    let req = SubChatOpenRequest {
        task_id: "root-task".to_string(),
        prompt: "p".to_string(),
        branch: "A".to_string(),
    };
    match daemon.step(DaemonEvent::Branch(ChannelName::PrivateB, req)) {
        DaemonAction::AnswerBranch(Ok(r)) => assert_eq!(r.call_index, 0),
        other => panic!("unexpected {other:?}"),
    }
    let p = plan("d1", "[[AB:OPS.TERM.RUN.LOCAL]] cargo test");
    match daemon.step(DaemonEvent::Maestro(MaestroInbound::Plan(p.clone()), at(0))) {
        DaemonAction::AnswerMaestro(Ok(h)) => assert_eq!(h.execute, None),
        other => panic!("unexpected {other:?}"),
    }
    match daemon.step(DaemonEvent::Tick(at(120))) {
        DaemonAction::Execute(list) => assert_eq!(list, vec![("d1".to_string(), p)]),
        other => panic!("unexpected {other:?}"),
    }
    let outcome = ExecutionOutcome { stdout: "ok".to_string(), stderr: String::new(), exit_code: 0, success: true };
    match daemon.step(DaemonEvent::Executed("d1".to_string(), outcome)) {
        DaemonAction::Recorded(r) => assert_eq!(r, Ok(())),
        other => panic!("unexpected {other:?}"),
    }
    assert_eq!(daemon.pending.query("d1").unwrap().status, TaskStatus::Executed);
}

#[test]
fn maestro_text_is_trimmed_and_parsed() {
    assert!(matches!(maestro_value("  {\"task_id\":\"t\"} \n"), Ok(JsonValue::Object(_))));
    assert!(matches!(maestro_value("   "), Err(ChannelError::Json(_))));
}

#[test]
fn try_step_evaluates_plans_under_the_default_patterns() {
    let mut daemon = Daemon::new(ROOT_TASK_ID.to_string());
    let p = plan("c1", "[[AB:CRIT.SECRET]] cat key");
    match daemon.try_step(DaemonEvent::Maestro(MaestroInbound::Plan(p), at(0))) {
        Some(DaemonAction::AnswerMaestro(Ok(h))) => assert_eq!(h.execute, None),
        other => panic!("unexpected {other:?}"),
    }
    assert!(matches!(daemon.try_step(DaemonEvent::Tick(at(1))), Some(DaemonAction::Execute(list)) if list.is_empty()));
}

#[test]
fn the_delegation_window_is_configurable() {
    let mut daemon = Daemon::with_delegation_timeout(ROOT_TASK_ID.to_string(), Duration::from_secs(5));
    let p = plan("w1", "[[AB:OPS.TERM.RUN.LOCAL]] cargo test");
    match daemon.step(DaemonEvent::Maestro(MaestroInbound::Plan(p.clone()), at(0))) {
        DaemonAction::AnswerMaestro(Ok(h)) => assert_eq!(h.execute, None),
        other => panic!("unexpected {other:?}"),
    }
    match daemon.step(DaemonEvent::Tick(at(4))) {
        DaemonAction::Execute(list) => assert!(list.is_empty()),
        other => panic!("unexpected {other:?}"),
    }
    match daemon.step(DaemonEvent::Tick(at(5))) {
        DaemonAction::Execute(list) => assert_eq!(list, vec![("w1".to_string(), p)]),
        other => panic!("unexpected {other:?}"),
    }
}
