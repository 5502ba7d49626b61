use decision_broker::notion::{
    NotionImportAttempt, NotionTask, TaskStatus, map_status_group, preview_notion_import,
    select_tasks_to_import, summarize_notion_import,
};

fn task(id: &str, title: &str, status_group: &str) -> NotionTask {
    NotionTask {
        id: id.to_string(),
        task_id: format!("T-{id}"),
        title: title.to_string(),
        branch_name: format!("branch/{id}"),
        status: "Backlog".to_string(),
        status_group: status_group.to_string(),
        task_type: None,
        url: format!("https://tasks.example.com/{id}"),
        content_markdown: Some(format!("body of {title}")),
    }
}

#[test]
fn status_groups_map_onto_task_statuses() {
    assert_eq!(map_status_group("to_do"), TaskStatus::Todo);
    assert_eq!(map_status_group("in_progress"), TaskStatus::InProgress);
    assert_eq!(map_status_group("complete"), TaskStatus::Done);
    assert_eq!(map_status_group("anything else"), TaskStatus::Todo);
    assert_eq!(map_status_group(""), TaskStatus::Todo);
}

#[test]
fn preview_marks_duplicates_case_insensitively() {
    let tasks = vec![
        task("n1", "Fix Login", "to_do"),
        task("n2", "New Feature", "in_progress"),
    ];
    let existing = vec!["fix login".to_string(), "Other".to_string()];
    let preview = preview_notion_import(&tasks, &existing);
    assert_eq!(preview.total_count, 2);
    assert_eq!(preview.duplicate_count, 1);
    assert_eq!(preview.importable_count, 1);
    assert_eq!(preview.tasks.len(), 2);

    let dup = &preview.tasks[0];
    assert_eq!(dup.notion_id, "n1");
    assert!(!dup.will_import);
    assert_eq!(
        dup.skip_reason.as_deref(),
        Some("Task with same title already exists")
    );
    assert_eq!(dup.status, TaskStatus::Todo);

    let fresh = &preview.tasks[1];
    assert!(fresh.will_import);
    assert!(fresh.skip_reason.is_none());
    assert_eq!(fresh.status, TaskStatus::InProgress);
    assert_eq!(fresh.description.as_deref(), Some("body of New Feature"));
}

#[test]
fn selection_keeps_only_requested_ids_in_order() {
    let tasks = vec![
        task("n1", "A", "to_do"),
        task("n2", "B", "to_do"),
        task("n3", "C", "to_do"),
    ];
    let requested = vec!["n3".to_string(), "n1".to_string()];
    let selected = select_tasks_to_import(&tasks, &requested);
    let ids: Vec<&str> = selected.iter().map(|t| t.id.as_str()).collect();
    assert_eq!(ids, vec!["n1", "n3"]);
}

#[test]
fn import_summary_counts_and_collects_errors() {
    let attempts = vec![
        NotionImportAttempt {
            notion_id: "n1".to_string(),
            title: "A".to_string(),
            error: None,
        },
        NotionImportAttempt {
            notion_id: "n2".to_string(),
            title: "B".to_string(),
            error: Some("constraint violation".to_string()),
        },
        NotionImportAttempt {
            notion_id: "n3".to_string(),
            title: "C".to_string(),
            error: None,
        },
    ];
    let summary = summarize_notion_import(5, &attempts);
    assert_eq!(summary.imported_count, 2);
    assert_eq!(summary.errors.len(), 1);
    assert_eq!(summary.errors[0].notion_id, "n2");
    assert_eq!(summary.errors[0].title, "B");
    assert_eq!(summary.errors[0].error, "constraint violation");
    assert_eq!(summary.skipped_count, 2);
}
