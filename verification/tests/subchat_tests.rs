use ai_bridge::protocol::SubChatOpenRequest;
use ai_bridge::subchat::{Branch, BranchName, OrphanError, OrphanWorker, SubChatError};

fn request(task_id: &str, prompt: &str, branch: &str) -> SubChatOpenRequest {
    SubChatOpenRequest {
        task_id: task_id.to_string(),
        prompt: prompt.to_string(),
        branch: branch.to_string(),
    }
}

#[test]
fn branch_limits_sub_chats_to_three_per_task() {
    let mut branch =
        Branch::new(BranchName::A, "task-7".to_string()).with_master_message("master context".to_string());
    let first = request("task-7", "First prompt", "A");
    let second = request("task-7", "Second prompt", "A");
    let third = request("task-7", "Third prompt", "A");
    let fourth = request("task-7", "Fourth prompt", "A");

    let first_result = branch.open_sub_chat(&first).unwrap();
    assert_eq!(first_result.call_index, 0);
    assert!(first_result.result.contains("master context"));

    let second_result = branch.open_sub_chat(&second).unwrap();
    assert_eq!(second_result.call_index, 1);
    assert!(second_result.result.contains("master context"));

    let third_result = branch.open_sub_chat(&third).unwrap();
    assert_eq!(third_result.call_index, 2);
    assert!(third_result.result.contains("master context"));

    assert!(matches!(
        branch.open_sub_chat(&fourth),
        Err(SubChatError::SubChatLimitExceeded { .. })
    ));
    assert_eq!(branch.sub_chat_counter, 3);
}

#[test]
fn branch_without_master_context_does_not_merge_master_message() {
    let mut branch = Branch::new(BranchName::B, "task-8".to_string());
    let request = request("task-8", "Prompt only", "B");

    let result = branch.open_sub_chat(&request).unwrap();
    assert_eq!(result.call_index, 0);
    assert!(!result.result.contains("master context"));
}

#[test]
fn orphan_worker_runs_once_and_is_dropped() {
    let mut worker = OrphanWorker::new("single-use prompt".to_string());
    let first = worker.run().unwrap();
    assert_eq!(first.status, "success");
    assert!(matches!(worker.run(), Err(OrphanError::Run(_))));

    let request = request("orphan-task", "nested", "new_a1");
    assert!(matches!(worker.request_sub_chat(&request), Err(OrphanError::SubChatNotAllowed)));
}

#[test]
fn sub_chat_result_text_is_exact() {
    let mut branch = Branch::new(BranchName::A, "t".to_string()).with_master_message("ctx".to_string());
    let result = branch.open_sub_chat(&request("t", "do it", "A")).unwrap();
    assert_eq!(result.result, "branch A completed sub-chat 0: ctx\ndo it");
    assert_eq!(result.status, "success");
    assert_eq!(result.task_id, "t");
    let mut plain = Branch::new(BranchName::B, "u".to_string());
    let result = plain.open_sub_chat(&request("u", "go", "B")).unwrap();
    assert_eq!(result.result, "branch B completed sub-chat 0: go");
}

#[test]
fn request_for_another_task_is_refused_without_counting() {
    let mut branch = Branch::new(BranchName::A, "mine".to_string());
    assert_eq!(
        branch.open_sub_chat(&request("theirs", "x", "A")),
        Err(SubChatError::InvalidTaskId("theirs".to_string()))
    );
    assert_eq!(branch.sub_chat_counter, 0);
    assert!(branch.can_open_more());
    assert_eq!(branch.sub_chat_limit(), 3);
}
