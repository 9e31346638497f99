use wechat_article_exporter_desktop_lib::archive_store::{
    collection_task_id, infer_collection_task_status, ArticleListSyncStatus, CollectionTask,
    CollectionTaskCounts, CollectionTaskItemInput, CollectionTaskItemStatus, CollectionTaskStatus,
    CollectionTaskType,
};

fn two_items() -> Vec<CollectionTaskItemInput> {
    vec![
        CollectionTaskItemInput {
            item_id: "page-0".to_string(),
            item_type: "article-list-page".to_string(),
            payload_json: r#"{"begin":0,"count":5}"#.to_string(),
        },
        CollectionTaskItemInput {
            item_id: "page-5".to_string(),
            item_type: "article-list-page".to_string(),
            payload_json: r#"{"begin":5,"count":5}"#.to_string(),
        },
    ]
}

fn create_two_item_task() -> CollectionTask {
    CollectionTask::create(
        "task-1-0".to_string(),
        CollectionTaskType::AccountArticleSync,
        Some("fakeid-1".to_string()),
        two_items(),
    )
    .expect("create collection task")
}

#[test]
fn creates_persistent_task_with_item_level_waiting_state() {
    let task = create_two_item_task();

    assert_eq!(task.task_type, CollectionTaskType::AccountArticleSync);
    assert_eq!(task.status, CollectionTaskStatus::Waiting);
    assert_eq!(task.total_items, 2);
    assert_eq!(task.waiting_items, 2);
    assert_eq!(task.running_items, 0);
    assert_eq!(task.succeeded_items, 0);
    assert_eq!(task.failed_items, 0);
    assert_eq!(task.cancelled_items, 0);

    assert_eq!(task.items.len(), 2);
    assert_eq!(task.items[0].status, CollectionTaskItemStatus::Waiting);
    assert_eq!(task.items[0].attempts, 0);
    assert_eq!(task.items[0].payload_json, r#"{"begin":0,"count":5}"#);
}

#[test]
fn updates_item_state_and_rolls_up_task_outcome() {
    let mut task = create_two_item_task();

    task.update_item_status("page-0", CollectionTaskItemStatus::Running, None)
        .expect("mark first item running");
    task.roll_up(None);
    assert_eq!(task.status, CollectionTaskStatus::Running);
    assert_eq!(task.running_items, 1);
    assert_eq!(task.waiting_items, 1);

    task.update_item_status("page-0", CollectionTaskItemStatus::Succeeded, None)
        .expect("mark first item succeeded");
    task.update_item_status(
        "page-5",
        CollectionTaskItemStatus::Failed,
        Some("upstream timeout".to_string()),
    )
    .expect("mark second item failed");
    task.roll_up(Some("upstream timeout".to_string()));

    assert_eq!(task.status, CollectionTaskStatus::Failed);
    assert_eq!(task.succeeded_items, 1);
    assert_eq!(task.failed_items, 1);
    assert_eq!(task.error_message.as_deref(), Some("upstream timeout"));
}

#[test]
fn retry_failed_items_preserves_successful_items() {
    let mut task = create_two_item_task();
    task.update_item_status("page-0", CollectionTaskItemStatus::Succeeded, None)
        .expect("mark first item succeeded");
    task.update_item_status(
        "page-5",
        CollectionTaskItemStatus::Failed,
        Some("temporary failure".to_string()),
    )
    .expect("mark second item failed");
    task.roll_up(Some("temporary failure".to_string()));

    task.retry_failed_items();

    assert_eq!(task.status, CollectionTaskStatus::Running);
    assert_eq!(task.succeeded_items, 1);
    assert_eq!(task.failed_items, 0);
    assert_eq!(task.waiting_items, 1);
    assert_eq!(task.items[0].status, CollectionTaskItemStatus::Succeeded);
    assert_eq!(task.items[0].attempts, 1);
    assert_eq!(task.items[1].status, CollectionTaskItemStatus::Waiting);
    assert_eq!(task.items[1].attempts, 1);
    assert_eq!(task.items[1].error_message, None);
}

#[test]
fn paused_and_cancelled_task_states_are_durable() {
    let mut task = create_two_item_task();

    task.set_status(CollectionTaskStatus::Paused, None);
    assert_eq!(task.status, CollectionTaskStatus::Paused);

    task.set_status(CollectionTaskStatus::Cancelled, None);
    assert_eq!(task.status, CollectionTaskStatus::Cancelled);
    assert_eq!(task.cancelled_items, 2);
    assert_eq!(task.items[0].status, CollectionTaskItemStatus::Cancelled);
}

#[test]
fn unknown_items_and_duplicate_ids_are_refused() {
    let mut task = create_two_item_task();
    let error = task
        .update_item_status("page-9", CollectionTaskItemStatus::Running, None)
        .expect_err("unknown item");
    assert_eq!(error.message(), "collection task item was not found: page-9");
    let mut items = two_items();
    items[1].item_id = "page-0".to_string();
    assert!(CollectionTask::create(
        "task-2-0".to_string(),
        CollectionTaskType::Export,
        None,
        items
    )
    .is_err());
}

#[test]
fn task_status_follows_item_counts() {
    let counts = |total, waiting, running, succeeded, failed, cancelled| CollectionTaskCounts {
        total,
        waiting,
        running,
        succeeded,
        failed,
        cancelled,
    };
    assert_eq!(
        infer_collection_task_status(counts(0, 0, 0, 0, 0, 0)),
        CollectionTaskStatus::Waiting
    );
    assert_eq!(
        infer_collection_task_status(counts(2, 0, 0, 2, 0, 0)),
        CollectionTaskStatus::Succeeded
    );
    assert_eq!(
        infer_collection_task_status(counts(2, 1, 1, 0, 0, 0)),
        CollectionTaskStatus::Running
    );
    assert_eq!(
        infer_collection_task_status(counts(2, 0, 0, 1, 1, 0)),
        CollectionTaskStatus::Failed
    );
    assert_eq!(
        infer_collection_task_status(counts(2, 0, 0, 0, 0, 2)),
        CollectionTaskStatus::Cancelled
    );
}

#[test]
fn status_names_round_trip_through_the_database() {
    for status in [
        CollectionTaskStatus::Waiting,
        CollectionTaskStatus::Running,
        CollectionTaskStatus::Paused,
        CollectionTaskStatus::Succeeded,
        CollectionTaskStatus::Failed,
        CollectionTaskStatus::Cancelled,
    ] {
        assert_eq!(
            CollectionTaskStatus::from_database_value(status.as_database_value()),
            Ok(status)
        );
    }
    assert_eq!(ArticleListSyncStatus::Completed.as_database_value(), "completed");
    assert_eq!(CollectionTaskType::AccountArticleSync.as_database_value(), "account_article_sync");
    assert!(CollectionTaskItemStatus::from_database_value("unknown").is_err());
    assert!(CollectionTaskItemStatus::Running.is_attempt_status());
    assert!(!CollectionTaskItemStatus::Waiting.is_attempt_status());
}

#[test]
fn task_ids_join_time_and_counter() {
    assert_eq!(collection_task_id(1700000000123, 7), "task-1700000000123-7");
}
