use decision_broker::approvals::{
    ApprovalStatus, ExecutorApprovalError, ExecutorApprovalService, ExecutorQuestionError,
    ExecutorQuestionService, NoopExecutorApprovalService, map_waiter_outcome,
    question_notification_body,
};
use decision_broker::client::{
    AllowedInput, AnswerValue, ClaudeAgentClient, FormattedAnswer, HookDecision, PermissionMode,
    PermissionResult, format_question_answers,
};
use decision_broker::questions::{QuestionAnswer, QuestionOption, UserQuestion, UserQuestionResponse};


fn empty_input() -> serde_json::Value {
    serde_json::Value::Object(serde_json::Map::new())
}

fn object_input(key: &str, value: &str) -> serde_json::Value {
    let mut map = serde_json::Map::new();
    map.insert(key.to_string(), serde_json::Value::String(value.to_string()));
    serde_json::Value::Object(map)
}

struct FixedApproval(ApprovalStatus);

impl ExecutorApprovalService for FixedApproval {
    fn request_tool_approval(
        &self,
        _tool_name: &str,
        _tool_input: serde_json::Value,
        _tool_call_id: &str,
    ) -> Result<ApprovalStatus, ExecutorApprovalError> {
        Ok(self.0.clone())
    }
}

struct FailingApproval;

impl ExecutorApprovalService for FailingApproval {
    fn request_tool_approval(
        &self,
        _tool_name: &str,
        _tool_input: serde_json::Value,
        _tool_call_id: &str,
    ) -> Result<ApprovalStatus, ExecutorApprovalError> {
        Err(ExecutorApprovalError::request_failed("backend down".to_string()))
    }
}

struct EchoQuestions;

impl ExecutorQuestionService for EchoQuestions {
    fn request_user_question(
        &self,
        _tool_call_id: &str,
        _questions: Vec<UserQuestion>,
    ) -> Result<UserQuestionResponse, ExecutorQuestionError> {
        Ok(UserQuestionResponse {
            execution_process_id: "proc-1".to_string(),
            answers: vec![QuestionAnswer {
                question_index: 0,
                selected_options: vec![1],
                custom_text: None,
            }],
        })
    }
}

struct TimedOutQuestions;

impl ExecutorQuestionService for TimedOutQuestions {
    fn request_user_question(
        &self,
        _tool_call_id: &str,
        _questions: Vec<UserQuestion>,
    ) -> Result<UserQuestionResponse, ExecutorQuestionError> {
        Err(ExecutorQuestionError::TimedOut)
    }
}

fn lang_question(multi_select: bool) -> UserQuestion {
    UserQuestion {
        question: "Which language?".to_string(),
        header: Some("Lang".to_string()),
        options: vec![
            QuestionOption { label: "Go".to_string(), description: None },
            QuestionOption { label: "Rust".to_string(), description: None },
        ],
        multi_select,
    }
}

fn answer(selected: Vec<usize>, custom: Option<&str>) -> QuestionAnswer {
    QuestionAnswer {
        question_index: 0,
        selected_options: selected,
        custom_text: custom.map(|c| c.to_string()),
    }
}

fn single_text(m: &[FormattedAnswer], key: &str) -> String {
    assert_eq!(m.len(), 1);
    assert_eq!(m[0].key, key);
    match &m[0].value {
        AnswerValue::Text(t) => t.clone(),
        AnswerValue::Labels(_) => panic!("expected a single text value"),
    }
}

#[test]
fn single_select_formats_to_selected_label() {
    let m = format_question_answers(&vec![lang_question(false)], &vec![answer(vec![1], None)]);
    assert_eq!(single_text(&m, "Lang"), "Rust");
}

#[test]
fn multi_select_formats_to_label_list() {
    let m = format_question_answers(&vec![lang_question(true)], &vec![answer(vec![0, 1], None)]);
    assert_eq!(m.len(), 1);
    assert_eq!(m[0].key, "Lang");
    match &m[0].value {
        AnswerValue::Labels(ls) => assert_eq!(ls, &vec!["Go".to_string(), "Rust".to_string()]),
        AnswerValue::Text(_) => panic!("expected a label list"),
    }
}

#[test]
fn custom_text_wins_over_selection() {
    let m = format_question_answers(
        &vec![lang_question(false)],
        &vec![answer(vec![1], Some("C++"))],
    );
    assert_eq!(single_text(&m, "Lang"), "C++");
}

#[test]
fn missing_header_falls_back_to_positional_key() {
    let mut q = lang_question(false);
    q.header = None;
    let m = format_question_answers(&vec![q], &vec![answer(vec![0], None)]);
    assert_eq!(single_text(&m, "question_0"), "Go");
}

#[test]
fn out_of_range_answers_are_skipped() {
    let q = lang_question(false);
    let mut wrong_question = answer(vec![0], None);
    wrong_question.question_index = 7;
    let out_of_range_option = answer(vec![9], None);
    let unanswered = answer(vec![], None);
    let m = format_question_answers(
        &vec![q],
        &vec![wrong_question, out_of_range_option, unanswered],
    );
    assert!(m.is_empty());
}

#[test]
fn auto_approve_mode_allows_synchronously() {
    let client: ClaudeAgentClient<NoopExecutorApprovalService, EchoQuestions> =
        ClaudeAgentClient::new(None, None);
    assert!(client.auto_approve);
    let input = object_input("command", "ls");
    let (result, record) = client
        .on_can_use_tool(
            "Bash".to_string(),
            input.clone(),
            None,
            Some("call-1".to_string()),
            None,
        )
        .unwrap();
    assert!(record.is_none());
    match result {
        PermissionResult::Allow { updated_input, updated_permissions } => {
            assert!(updated_permissions.is_none());
            match updated_input {
                AllowedInput::Passthrough(v) => assert_eq!(v, input),
                AllowedInput::QuestionOutput { .. } => panic!("expected passthrough"),
            }
        },
        PermissionResult::Deny { .. } => panic!("auto-approve must allow"),
    }
}

#[test]
fn missing_call_id_fails_open() {
    let client: ClaudeAgentClient<FixedApproval, EchoQuestions> =
        ClaudeAgentClient::new(Some(FixedApproval(ApprovalStatus::Denied { reason: None })), None);
    assert!(!client.auto_approve);
    let (result, record) = client
        .on_can_use_tool("Bash".to_string(), empty_input(), None, None, None)
        .unwrap();
    assert!(record.is_none());
    assert!(matches!(result, PermissionResult::Allow { .. }));
}

#[test]
fn denial_becomes_deny_with_reason() {
    let client: ClaudeAgentClient<FixedApproval, EchoQuestions> = ClaudeAgentClient::new(
        Some(FixedApproval(ApprovalStatus::Denied { reason: Some("not today".to_string()) })),
        None,
    );
    let (result, record) = client
        .on_can_use_tool(
            "Bash".to_string(),
            empty_input(),
            None,
            Some("call-1".to_string()),
            None,
        )
        .unwrap();
    let record = record.unwrap();
    assert_eq!(record.tool_call_id, "call-1");
    assert_eq!(record.tool_name, "Bash");
    match result {
        PermissionResult::Deny { message, interrupt } => {
            assert_eq!(message, "not today");
            assert_eq!(interrupt, Some(false));
        },
        PermissionResult::Allow { .. } => panic!("expected a deny"),
    }
}

#[test]
fn pending_status_maps_to_deny() {
    let client: ClaudeAgentClient<FixedApproval, EchoQuestions> =
        ClaudeAgentClient::new(Some(FixedApproval(ApprovalStatus::Pending)), None);
    let (result, _) = client
        .handle_approval("call-1".to_string(), "Bash".to_string(), empty_input())
        .unwrap();
    match result {
        PermissionResult::Deny { message, .. } => {
            assert_eq!(message, "Approval still pending (unexpected)");
        },
        PermissionResult::Allow { .. } => panic!("expected a deny"),
    }
}

#[test]
fn backend_failure_becomes_deny_without_record() {
    let client: ClaudeAgentClient<FailingApproval, EchoQuestions> =
        ClaudeAgentClient::new(Some(FailingApproval), None);
    let (result, record) = client
        .handle_approval("call-1".to_string(), "Bash".to_string(), empty_input())
        .unwrap();
    assert!(record.is_none());
    match result {
        PermissionResult::Deny { message, .. } => {
            assert_eq!(message, "Tool approval request failed");
        },
        PermissionResult::Allow { .. } => panic!("expected a deny"),
    }
}

#[test]
fn exit_plan_mode_approval_escalates_session() {
    let client: ClaudeAgentClient<FixedApproval, EchoQuestions> =
        ClaudeAgentClient::new(Some(FixedApproval(ApprovalStatus::Approved)), None);
    let (result, _) = client
        .on_can_use_tool(
            "ExitPlanMode".to_string(),
            empty_input(),
            None,
            Some("call-1".to_string()),
            None,
        )
        .unwrap();
    match result {
        PermissionResult::Allow { updated_permissions, .. } => {
            let ups = updated_permissions.expect("escalation expected");
            assert_eq!(ups.len(), 1);
            assert_eq!(ups[0].mode, Some(PermissionMode::BypassPermissions));
        },
        PermissionResult::Deny { .. } => panic!("expected an allow"),
    }
}

#[test]
fn ask_user_question_routes_to_question_service() {
    let client: ClaudeAgentClient<FixedApproval, EchoQuestions> = ClaudeAgentClient::new(
        Some(FixedApproval(ApprovalStatus::Denied { reason: None })),
        Some(EchoQuestions),
    );
    let (result, record) = client
        .on_can_use_tool(
            "AskUserQuestion".to_string(),
            empty_input(),
            None,
            Some("call-1".to_string()),
            Some(vec![lang_question(false)]),
        )
        .unwrap();
    assert!(record.is_none());
    match result {
        PermissionResult::Allow { updated_input, .. } => match updated_input {
            AllowedInput::QuestionOutput { questions, answers } => {
                assert_eq!(questions.len(), 1);
                assert_eq!(single_text(&answers, "Lang"), "Rust");
            },
            AllowedInput::Passthrough(_) => panic!("expected question output"),
        },
        PermissionResult::Deny { .. } => panic!("expected an allow"),
    }
}

#[test]
fn question_timeout_becomes_deny_with_message() {
    let client: ClaudeAgentClient<FixedApproval, TimedOutQuestions> = ClaudeAgentClient::new(
        Some(FixedApproval(ApprovalStatus::Approved)),
        Some(TimedOutQuestions),
    );
    let result = client
        .handle_user_question("call-1".to_string(), vec![lang_question(false)])
        .unwrap();
    match result {
        PermissionResult::Deny { message, interrupt } => {
            assert_eq!(message, "User question request failed: question timed out");
            assert_eq!(interrupt, Some(false));
        },
        PermissionResult::Allow { .. } => panic!("expected a deny"),
    }
}

#[test]
fn undecodable_question_payload_falls_back_to_approval() {
    let client: ClaudeAgentClient<FixedApproval, EchoQuestions> = ClaudeAgentClient::new(
        Some(FixedApproval(ApprovalStatus::Approved)),
        Some(EchoQuestions),
    );
    let (result, record) = client
        .on_can_use_tool(
            "AskUserQuestion".to_string(),
            object_input("questions", "garbage"),
            None,
            Some("call-1".to_string()),
            None,
        )
        .unwrap();
    assert!(record.is_some());
    assert!(matches!(result, PermissionResult::Allow { .. }));
}

#[test]
fn hook_callback_never_blocks() {
    let auto: ClaudeAgentClient<FixedApproval, EchoQuestions> = ClaudeAgentClient::new(None, None);
    let out = auto.on_hook_callback("anything".to_string(), empty_input(), None);
    assert_eq!(out.hook_event_name, "PreToolUse");
    assert_eq!(out.permission_decision, HookDecision::Allow);
    assert_eq!(out.permission_decision_reason, "Auto-approved by SDK");

    let wired: ClaudeAgentClient<FixedApproval, EchoQuestions> =
        ClaudeAgentClient::new(Some(FixedApproval(ApprovalStatus::Approved)), None);
    let out = wired.on_hook_callback("AUTO_APPROVE_CALLBACK_ID".to_string(), empty_input(), None);
    assert_eq!(out.permission_decision, HookDecision::Allow);
    assert_eq!(out.permission_decision_reason, "Approved by SDK");

    let out = wired.on_hook_callback("other".to_string(), empty_input(), None);
    assert_eq!(out.permission_decision, HookDecision::Ask);
    assert_eq!(out.permission_decision_reason, "Forwarding to canusetool service");
}

#[test]
fn noop_service_always_approves() {
    let noop = NoopExecutorApprovalService::default();
    let status = noop
        .request_tool_approval("Bash", empty_input(), "call-1")
        .unwrap();
    assert!(matches!(status, ApprovalStatus::Approved));
}

#[test]
fn waiter_outcomes_map_to_results() {
    let resp = UserQuestionResponse { execution_process_id: "p".to_string(), answers: vec![] };
    assert!(map_waiter_outcome(Some(resp)).is_ok());
    assert!(matches!(
        map_waiter_outcome(None),
        Err(ExecutorQuestionError::TimedOut)
    ));
}

#[test]
fn notification_body_counts_questions() {
    assert_eq!(question_notification_body(1), "Agent is asking 1 question");
    assert_eq!(question_notification_body(3), "Agent is asking 3 questions");
    assert_eq!(question_notification_body(0), "Agent is asking 0 questions");
    assert_eq!(question_notification_body(12), "Agent is asking 12 questions");
}
