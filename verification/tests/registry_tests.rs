use decision_broker::approvals::ToolCallMetadata;
use decision_broker::log::{ConversationLog, EntryBody, LogEntry, ToolStatus};
use decision_broker::questions::{QuestionAnswer, UserQuestionResponse};
use decision_broker::registry::{
    QuestionError, UserQuestions, find_matching_tool_use, timeout_wait_millis,
};

fn tool_use_entry(call_id: &str, status: ToolStatus) -> LogEntry {
    LogEntry {
        body: EntryBody::ToolUse { status },
        metadata: Some(ToolCallMetadata {
            tool_call_id: call_id.to_string(),
        }),
        content: format!("tool call {call_id}"),
    }
}

fn request(id: &str, call_id: &str, timeout_at: i64) -> decision_broker::questions::UserQuestionRequest {
    decision_broker::questions::UserQuestionRequest {
        id: id.to_string(),
        tool_call_id: call_id.to_string(),
        questions: Vec::new(),
        execution_process_id: "proc-1".to_string(),
        created_at: 1_000,
        timeout_at,
    }
}

fn response() -> UserQuestionResponse {
    UserQuestionResponse {
        execution_process_id: "proc-1".to_string(),
        answers: vec![QuestionAnswer {
            question_index: 0,
            selected_options: vec![0],
            custom_text: None,
        }],
    }
}

fn status_of(log: &ConversationLog, index: usize) -> &ToolStatus {
    match &log.entry_at(index).body {
        EntryBody::ToolUse { status } => status,
        EntryBody::Message => panic!("expected a tool-use entry"),
    }
}

#[test]
fn resolve_succeeds_once_then_reports_already_completed() {
    let mut registry = UserQuestions::new();
    let mut log = ConversationLog::new();
    log.push_entry(tool_use_entry("call-1", ToolStatus::Created));

    registry
        .create_with_waiter(request("id-1", "call-1", 5_000), &mut log)
        .unwrap();
    assert!(matches!(status_of(&log, 0), ToolStatus::PendingQuestion { .. }));

    let first = registry.respond(&"id-1".to_string(), response(), &mut log);
    assert!(first.is_ok());
    assert!(matches!(status_of(&log, 0), ToolStatus::Success));

    let second = registry.respond(&"id-1".to_string(), response(), &mut log);
    assert_eq!(second.unwrap_err(), QuestionError::AlreadyCompleted);
    // The log was patched exactly once: still Success, untouched by the loser.
    assert!(matches!(status_of(&log, 0), ToolStatus::Success));
}

#[test]
fn unknown_id_reports_not_found() {
    let mut registry = UserQuestions::new();
    let mut log = ConversationLog::new();
    let r = registry.respond(&"missing".to_string(), response(), &mut log);
    assert_eq!(r.unwrap_err(), QuestionError::NotFound);
}

#[test]
fn duplicate_registration_is_rejected() {
    let mut registry = UserQuestions::new();
    let mut log = ConversationLog::new();
    registry
        .create_with_waiter(request("id-1", "call-1", 5_000), &mut log)
        .unwrap();
    let dup = registry.create_with_waiter(request("id-1", "call-2", 5_000), &mut log);
    assert_eq!(dup.unwrap_err(), QuestionError::DuplicateId);
}

#[test]
fn timeout_fires_exactly_once_and_patches_timed_out() {
    let mut registry = UserQuestions::new();
    let mut log = ConversationLog::new();
    log.push_entry(tool_use_entry("call-1", ToolStatus::Created));
    registry
        .create_with_waiter(request("id-1", "call-1", 1_000), &mut log)
        .unwrap();

    assert!(registry.expire(&"id-1".to_string(), &mut log));
    assert!(matches!(status_of(&log, 0), ToolStatus::TimedOut));

    // A second expiry is a no-op, and a late response reports NotFound:
    // the decision was already timed out and consumed.
    assert!(!registry.expire(&"id-1".to_string(), &mut log));
    assert!(matches!(status_of(&log, 0), ToolStatus::TimedOut));
    let late = registry.respond(&"id-1".to_string(), response(), &mut log);
    assert_eq!(late.unwrap_err(), QuestionError::NotFound);
}

#[test]
fn human_response_wins_race_and_racer_mutates_nothing() {
    let mut registry = UserQuestions::new();
    let mut log = ConversationLog::new();
    log.push_entry(tool_use_entry("call-1", ToolStatus::Created));
    // Deadline scheduled immediately: the racer is about to fire.
    registry
        .create_with_waiter(request("id-1", "call-1", 1_000), &mut log)
        .unwrap();

    let resp = registry
        .respond(&"id-1".to_string(), response(), &mut log)
        .unwrap();

    // The racer observes the resolved waiter and performs no mutation.
    let timed_out = registry.racer_step(&"id-1".to_string(), Some(&resp), &mut log);
    assert!(!timed_out);
    assert!(matches!(status_of(&log, 0), ToolStatus::Success));

    // Even a racer that saw the timer fire loses gracefully.
    let timed_out = registry.racer_step(&"id-1".to_string(), None, &mut log);
    assert!(!timed_out);
    assert!(matches!(status_of(&log, 0), ToolStatus::Success));
}

#[test]
fn zero_duration_timeout_produces_timed_out_end_to_end() {
    let mut registry = UserQuestions::new();
    let mut log = ConversationLog::new();
    log.push_entry(tool_use_entry("call-1", ToolStatus::Created));
    // created_at == timeout_at: a zero-duration deadline.
    registry
        .create_with_waiter(request("id-1", "call-1", 1_000), &mut log)
        .unwrap();
    assert_eq!(timeout_wait_millis(1_000, 1_000), 0);

    // No response arrives; the racer's timer wins immediately.
    let timed_out = registry.racer_step(&"id-1".to_string(), None, &mut log);
    assert!(timed_out);
    assert!(matches!(status_of(&log, 0), ToolStatus::TimedOut));
    assert!(registry.outcome_of(&"id-1".to_string()).is_none());
}

#[test]
fn correlator_claims_newest_unclaimed_entry_once() {
    let mut log = ConversationLog::new();
    // Two entries share a call id; only the older is still Created.
    log.push_entry(tool_use_entry("call-1", ToolStatus::Created));
    log.push_entry(tool_use_entry("call-1", ToolStatus::Success));

    assert_eq!(find_matching_tool_use(&log, "call-1"), Some(0));

    let mut registry = UserQuestions::new();
    registry
        .create_with_waiter(request("id-1", "call-1", 5_000), &mut log)
        .unwrap();
    assert!(matches!(status_of(&log, 0), ToolStatus::PendingQuestion { .. }));

    // Once claimed, a second decision with the same call id finds no match.
    assert_eq!(find_matching_tool_use(&log, "call-1"), None);
}

#[test]
fn correlator_prefers_most_recent_created_entry() {
    let mut log = ConversationLog::new();
    log.push_entry(tool_use_entry("call-1", ToolStatus::Created));
    log.push_entry(LogEntry {
        body: EntryBody::Message,
        metadata: None,
        content: "hello".to_string(),
    });
    log.push_entry(tool_use_entry("call-1", ToolStatus::Created));
    // A reused call id correlates to the most recent unclaimed invocation.
    assert_eq!(find_matching_tool_use(&log, "call-1"), Some(2));
    assert_eq!(find_matching_tool_use(&log, "call-2"), None);
}

#[test]
fn uncorrelated_decision_proceeds_without_log_reflection() {
    let mut registry = UserQuestions::new();
    let mut log = ConversationLog::new();
    log.push_entry(tool_use_entry("other", ToolStatus::Created));
    registry
        .create_with_waiter(request("id-1", "call-1", 5_000), &mut log)
        .unwrap();
    // No match: the log is untouched, but the decision is still pending.
    assert!(matches!(status_of(&log, 0), ToolStatus::Created));
    let resp = registry.respond(&"id-1".to_string(), response(), &mut log);
    assert!(resp.is_ok());
    assert!(matches!(status_of(&log, 0), ToolStatus::Created));
}

#[test]
fn outcome_is_memoized_for_every_observer() {
    let mut registry = UserQuestions::new();
    let mut log = ConversationLog::new();
    registry
        .create_with_waiter(request("id-1", "call-1", 5_000), &mut log)
        .unwrap();
    assert!(registry.outcome_of(&"id-1".to_string()).is_none());
    registry
        .respond(&"id-1".to_string(), response(), &mut log)
        .unwrap();
    let first = registry.outcome_of(&"id-1".to_string()).unwrap();
    assert_eq!(first.answers.len(), 1);
    assert_eq!(first.answers[0].selected_options, vec![0]);
    let second = registry.outcome_of(&"id-1".to_string()).unwrap();
    assert_eq!(second.answers[0].question_index, 0);
}

#[test]
fn wait_is_zero_for_deadlines_in_the_past() {
    assert_eq!(timeout_wait_millis(2_000, 1_000), 0);
    assert_eq!(timeout_wait_millis(1_000, 1_000), 0);
    assert_eq!(timeout_wait_millis(1_000, 4_600_000), 4_599_000);
}
