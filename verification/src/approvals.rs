//! Approval and question service abstractions: the status a human decision
//! resolves to, the errors the backends report, and the capability traits a
//! caller uses to request a decision and wait for it.

use vstd::prelude::*;

use crate::questions::{UserQuestion, UserQuestionResponse};

verus! {

/// The JSON payload a tool invocation carries, opaque to this crate.
#[verifier::external_type_specification]
#[verifier::external_body]
pub struct ExSerdeJsonValue(serde_json::Value);

/// Relies on the derived `Clone` of `serde_json::Value`: a structural copy
/// equal to the original.
pub assume_specification[ <serde_json::Value as Clone>::clone ](v: &serde_json::Value) -> (r:
    serde_json::Value)
    ensures
        r == *v,
;

/// The final status of a tool-approval decision. `Pending` is an
/// intermediate state and must never be handed to a caller as final.
#[derive(Debug)]
pub enum ApprovalStatus {
    Approved,
    Denied { reason: Option<String> },
    TimedOut,
    Pending,
}

/// The mathematical value of an `ApprovalStatus`.
#[verifier::ext_equal]
pub enum ApprovalStatusView {
    Approved,
    Denied { reason: Option<Seq<char>> },
    TimedOut,
    Pending,
}

impl View for ApprovalStatus {
    type V = ApprovalStatusView;

    open spec fn view(&self) -> ApprovalStatusView {
        match self {
            ApprovalStatus::Approved => ApprovalStatusView::Approved,
            ApprovalStatus::Denied { reason } => ApprovalStatusView::Denied {
                reason: match reason {
                    Some(r) => Some(r@),
                    None => None,
                },
            },
            ApprovalStatus::TimedOut => ApprovalStatusView::TimedOut,
            ApprovalStatus::Pending => ApprovalStatusView::Pending,
        }
    }
}

impl Clone for ApprovalStatus {
    fn clone(&self) -> (r: Self)
        ensures
            r@ == self@,
    {
        let r = match self {
            ApprovalStatus::Approved => ApprovalStatus::Approved,
            ApprovalStatus::Denied { reason } => ApprovalStatus::Denied {
                reason: match reason {
                    Some(m) => Some(m.clone()),
                    None => None,
                },
            },
            ApprovalStatus::TimedOut => ApprovalStatus::TimedOut,
            ApprovalStatus::Pending => ApprovalStatus::Pending,
        };
        proof {
            assert(r@ =~= self@);
        }
        r
    }
}

/// Correlation metadata a tool-use log entry carries: the id the agent gave
/// the tool call.
#[derive(Debug)]
pub struct ToolCallMetadata {
    pub tool_call_id: String,
}

/// The mathematical value of a `ToolCallMetadata`.
#[verifier::ext_equal]
pub struct ToolCallMetadataView {
    pub tool_call_id: Seq<char>,
}

impl View for ToolCallMetadata {
    type V = ToolCallMetadataView;

    open spec fn view(&self) -> ToolCallMetadataView {
        ToolCallMetadataView { tool_call_id: self.tool_call_id@ }
    }
}

impl Clone for ToolCallMetadata {
    fn clone(&self) -> (r: Self)
        ensures
            r@ == self@,
    {
        ToolCallMetadata { tool_call_id: self.tool_call_id.clone() }
    }
}

/// Errors emitted by executor approval services.
#[derive(Debug)]
pub enum ExecutorApprovalError {
    SessionNotRegistered,
    RequestFailed(String),
    ServiceUnavailable,
}

impl ExecutorApprovalError {
    /// Wraps a backend failure message.
    pub fn request_failed(err: String) -> (r: Self)
        ensures
            r matches ExecutorApprovalError::RequestFailed(m) && m@ == err@,
    {
        ExecutorApprovalError::RequestFailed(err)
    }
}

/// Errors emitted by executor question services.
#[derive(Debug)]
pub enum ExecutorQuestionError {
    SessionNotRegistered,
    RequestFailed(String),
    ServiceUnavailable,
    TimedOut,
}

impl ExecutorQuestionError {
    /// Wraps a backend failure message.
    pub fn request_failed(err: String) -> (r: Self)
        ensures
            r matches ExecutorQuestionError::RequestFailed(m) && m@ == err@,
    {
        ExecutorQuestionError::RequestFailed(err)
    }
}

/// Abstraction for executor approval backends: requests approval for a tool
/// invocation and waits for the final decision.
pub trait ExecutorApprovalService {
    fn request_tool_approval(
        &self,
        tool_name: &str,
        tool_input: serde_json::Value,
        tool_call_id: &str,
    ) -> Result<ApprovalStatus, ExecutorApprovalError>;
}

/// Abstraction for executor question backends: asks the user to answer
/// questions and waits for the response.
pub trait ExecutorQuestionService {
    fn request_user_question(
        &self,
        tool_call_id: &str,
        questions: Vec<UserQuestion>,
    ) -> Result<UserQuestionResponse, ExecutorQuestionError>;
}

/// The message text of a question-service error.
pub open spec fn question_error_detail(e: ExecutorQuestionError) -> Seq<char> {
    match e {
        ExecutorQuestionError::SessionNotRegistered => "executor question session not registered"@,
        ExecutorQuestionError::RequestFailed(s) => "executor question request failed: "@ + s@,
        ExecutorQuestionError::ServiceUnavailable => "executor question service unavailable"@,
        ExecutorQuestionError::TimedOut => "question timed out"@,
    }
}

/// Renders a question-service error as text.
pub fn question_error_message(e: &ExecutorQuestionError) -> (r: String)
    ensures
        r@ == question_error_detail(*e),
{
    match e {
        ExecutorQuestionError::SessionNotRegistered => String::from_str(
            "executor question session not registered",
        ),
        ExecutorQuestionError::RequestFailed(s) => {
            let mut m = String::from_str("executor question request failed: ");
            m.append(s.as_str());
            m
        },
        ExecutorQuestionError::ServiceUnavailable => String::from_str(
            "executor question service unavailable",
        ),
        ExecutorQuestionError::TimedOut => String::from_str("question timed out"),
    }
}

/// How the human-backed question service reads its waiter: a response is
/// handed through, and an empty waiter result — the sender was dropped by
/// the timeout race — is the timeout error.
pub fn map_waiter_outcome(outcome: Option<UserQuestionResponse>) -> (r: Result<
    UserQuestionResponse,
    ExecutorQuestionError,
>)
    ensures
        match outcome {
            Some(resp) => r matches Ok(rr) && rr == resp,
            None => r == Err::<UserQuestionResponse, ExecutorQuestionError>(
                ExecutorQuestionError::TimedOut,
            ),
        },
{
    match outcome {
        Some(resp) => Ok(resp),
        None => Err(ExecutorQuestionError::TimedOut),
    }
}

/// The notification text announcing how many questions the agent asks.
pub open spec fn notification_body_spec(n: nat) -> Seq<char> {
    "Agent is asking "@ + crate::text::dec_digits(n) + (if n == 1 {
        " question"@
    } else {
        " questions"@
    })
}

/// Builds the notification text for a question request.
pub fn question_notification_body(n: usize) -> (r: String)
    ensures
        r@ == notification_body_spec(n as nat),
{
    let mut m = String::from_str("Agent is asking ");
    let digits = crate::text::usize_to_string(n);
    m.append(digits.as_str());
    if n == 1 {
        m.append(" question");
    } else {
        m.append(" questions");
    }
    m
}

/// The backend used when nobody is wired up to approve requests: every
/// request is approved at once.
#[derive(Debug)]
pub struct NoopExecutorApprovalService;

impl Default for NoopExecutorApprovalService {
    fn default() -> (r: Self)
        ensures
            r == (NoopExecutorApprovalService {  }),
    {
        NoopExecutorApprovalService {  }
    }
}

impl ExecutorApprovalService for NoopExecutorApprovalService {
    fn request_tool_approval(
        &self,
        tool_name: &str,
        tool_input: serde_json::Value,
        tool_call_id: &str,
    ) -> (r: Result<ApprovalStatus, ExecutorApprovalError>)
        ensures
            r matches Ok(s) && s@ == ApprovalStatusView::Approved,
    {
        Ok(ApprovalStatus::Approved)
    }
}

} // verus!
