use ai_bridge::approvals::{handle_resolution, ActiveTasks, PendingTask};
use ai_bridge::criteria::Criterion;
use ai_bridge::protocol::TaskResolved;
use tokio::sync::oneshot;

fn pending(task_id: &str) -> PendingTask {
    PendingTask {
        task_id: task_id.to_string(),
        app_name: "org.gnome.Terminal".to_string(),
        command: "rm -rf /tmp/test_dir".to_string(),
        risk_level: "HIGH".to_string(),
        is_critical: false,
        triggered: Vec::new(),
    }
}

#[test]
fn resolves_pending_task_with_approved_true() {
    let mut tasks = ActiveTasks::new();
    let (tx, mut rx) = oneshot::channel();
    tasks.register(pending("TASK-1"), tx);
    assert!(tasks.contains("TASK-1"));

    let resolved = handle_resolution(
        TaskResolved { task_id: "TASK-1".to_string(), approved: true },
        &mut tasks,
    );

    assert_eq!(resolved.as_deref(), Some("TASK-1"));
    assert!(!tasks.contains("TASK-1"));
    assert_eq!(rx.try_recv(), Ok(true));
}

#[test]
fn resolves_pending_task_with_approved_false() {
    let mut tasks = ActiveTasks::new();
    let (tx, mut rx) = oneshot::channel();
    tasks.register(pending("TASK-2"), tx);

    handle_resolution(TaskResolved { task_id: "TASK-2".to_string(), approved: false }, &mut tasks);

    assert_eq!(rx.try_recv(), Ok(false));
}

#[test]
fn unknown_task_id_is_ignored() {
    let mut tasks = ActiveTasks::new();
    let (tx, _rx) = oneshot::channel();
    tasks.register(pending("TASK-KNOWN"), tx);
    let _ = handle_resolution(
        TaskResolved { task_id: "TASK-MISSING".to_string(), approved: true },
        &mut tasks,
    );
    assert_eq!(tasks.len(), 1);
}

#[test]
fn defaults_to_empty_registry() {
    let tasks = ActiveTasks::new();
    assert!(tasks.is_empty());
    assert_eq!(tasks.len(), 0);
}

#[test]
fn registering_the_same_task_again_replaces_it() {
    let mut tasks = ActiveTasks::new();
    let (tx1, mut rx1) = oneshot::channel();
    let (tx2, mut rx2) = oneshot::channel();
    tasks.register(pending("TASK-5"), tx1);
    let mut second = pending("TASK-5");
    second.is_critical = true;
    second.triggered = vec![Criterion::Irreversibility, Criterion::CredentialsSecrets];
    tasks.register(second, tx2);
    assert_eq!(tasks.len(), 1);
    let listed = tasks.pending_tasks();
    assert_eq!(listed.len(), 1);
    assert!(listed[0].is_critical);
    assert_eq!(listed[0].triggered_labels(), vec!["Irreversibility", "CredentialsSecrets"]);
    assert!(tasks.resolve("TASK-5", true).is_some());
    assert!(rx1.try_recv().is_err());
    assert_eq!(rx2.try_recv(), Ok(true));
    assert!(tasks.resolve("TASK-5", true).is_none());
}

#[test]
fn unknown_task_id_resolves_nothing() {
    let mut tasks = ActiveTasks::new();
    let (tx, _rx) = oneshot::channel();
    tasks.register(pending("TASK-KNOWN"), tx);
    let r = handle_resolution(
        TaskResolved { task_id: "TASK-MISSING".to_string(), approved: true },
        &mut tasks,
    );
    assert_eq!(r, None);
    assert_eq!(tasks.len(), 1);
    assert!(tasks.contains("TASK-KNOWN"));
}
