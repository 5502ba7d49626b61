use decision_broker::questions::{
    CreateUserQuestionRequest, QUESTION_TIMEOUT_MILLIS, UserQuestionRequest,
};

#[test]
fn from_create_sets_deadline_one_timeout_after_creation() {
    let request = UserQuestionRequest::from_create(
        CreateUserQuestionRequest {
            tool_call_id: "call-1".to_string(),
            questions: vec![],
        },
        "proc-1".to_string(),
    );
    assert_eq!(request.tool_call_id, "call-1");
    assert_eq!(request.execution_process_id, "proc-1");
    assert_eq!(request.timeout_at - request.created_at, QUESTION_TIMEOUT_MILLIS);
    assert_eq!(request.id.len(), 36);
}

#[test]
fn fresh_request_ids_differ() {
    let make = || {
        UserQuestionRequest::from_create(
            CreateUserQuestionRequest { tool_call_id: "c".to_string(), questions: vec![] },
            "proc-1".to_string(),
        )
    };
    assert_ne!(make().id, make().id);
}
