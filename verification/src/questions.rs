//! The question data model: questions put to a human, the answers that come
//! back, and the request envelope that ties them to one agent process.

use vstd::prelude::*;

verus! {

/// How long a question stays open before it times out, in seconds.
pub const QUESTION_TIMEOUT_SECONDS: i64 = 3600;

/// The same timeout in milliseconds, the unit of all timestamps here.
pub const QUESTION_TIMEOUT_MILLIS: i64 = 3600000;

/// A single question option with label and optional description.
#[derive(Debug)]
pub struct QuestionOption {
    pub label: String,
    pub description: Option<String>,
}

/// The mathematical value of a `QuestionOption`.
#[verifier::ext_equal]
pub struct QuestionOptionView {
    pub label: Seq<char>,
    pub description: Option<Seq<char>>,
}

impl View for QuestionOption {
    type V = QuestionOptionView;

    open spec fn view(&self) -> QuestionOptionView {
        QuestionOptionView {
            label: self.label@,
            description: match self.description {
                Some(d) => Some(d@),
                None => None,
            },
        }
    }
}

impl Clone for QuestionOption {
    fn clone(&self) -> (r: Self)
        ensures
            r@ == self@,
    {
        let r = QuestionOption {
            label: self.label.clone(),
            description: match &self.description {
                Some(d) => Some(d.clone()),
                None => None,
            },
        };
        proof {
            assert(r@ =~= self@);
        }
        r
    }
}

/// A user question with options for selection.
#[derive(Debug)]
pub struct UserQuestion {
    pub question: String,
    pub header: Option<String>,
    pub options: Vec<QuestionOption>,
    pub multi_select: bool,
}

/// The mathematical value of a `UserQuestion`.
#[verifier::ext_equal]
pub struct UserQuestionView {
    pub question: Seq<char>,
    pub header: Option<Seq<char>>,
    pub options: Seq<QuestionOptionView>,
    pub multi_select: bool,
}

impl View for UserQuestion {
    type V = UserQuestionView;

    open spec fn view(&self) -> UserQuestionView {
        UserQuestionView {
            question: self.question@,
            header: match self.header {
                Some(h) => Some(h@),
                None => None,
            },
            options: self.options@.map_values(|o: QuestionOption| o@),
            multi_select: self.multi_select,
        }
    }
}

impl Clone for UserQuestion {
    fn clone(&self) -> (r: Self)
        ensures
            r@ == self@,
    {
        let mut options: Vec<QuestionOption> = Vec::new();
        let mut i: usize = 0;
        while i < self.options.len()
            invariant
                i <= self.options.len(),
                options@.len() == i,
                forall|j: int| 0 <= j < i ==> options@[j]@ == self.options@[j]@,
            decreases self.options.len() - i,
        {
            options.push(self.options[i].clone());
            i += 1;
        }
        let r = UserQuestion {
            question: self.question.clone(),
            header: match &self.header {
                Some(h) => Some(h.clone()),
                None => None,
            },
            options,
            multi_select: self.multi_select,
        };
        proof {
            assert(r@.options =~= self@.options);
            assert(r@ =~= self@);
        }
        r
    }
}

/// The sequence of question values carried by a vector of questions.
pub open spec fn questions_view(qs: Vec<UserQuestion>) -> Seq<UserQuestionView> {
    qs@.map_values(|q: UserQuestion| q@)
}

/// Copies a vector of questions, preserving its value.
pub fn clone_questions(qs: &Vec<UserQuestion>) -> (r: Vec<UserQuestion>)
    ensures
        questions_view(r) == questions_view(*qs),
{
    let mut r: Vec<UserQuestion> = Vec::new();
    let mut i: usize = 0;
    while i < qs.len()
        invariant
            i <= qs.len(),
            r@.len() == i,
            forall|j: int| 0 <= j < i ==> r@[j]@ == qs@[j]@,
        decreases qs.len() - i,
    {
        r.push(qs[i].clone());
        i += 1;
    }
    proof {
        assert(questions_view(r) =~= questions_view(*qs));
    }
    r
}

/// Input format of the agent's ask-the-user tool.
#[derive(Debug)]
pub struct AskUserQuestionInput {
    pub questions: Vec<UserQuestion>,
}

/// A user's answer to a single question.
#[derive(Debug)]
pub struct QuestionAnswer {
    pub question_index: usize,
    pub selected_options: Vec<usize>,
    pub custom_text: Option<String>,
}

/// The mathematical value of a `QuestionAnswer`.
#[verifier::ext_equal]
pub struct QuestionAnswerView {
    pub question_index: int,
    pub selected_options: Seq<int>,
    pub custom_text: Option<Seq<char>>,
}

impl View for QuestionAnswer {
    type V = QuestionAnswerView;

    open spec fn view(&self) -> QuestionAnswerView {
        QuestionAnswerView {
            question_index: self.question_index as int,
            selected_options: self.selected_options@.map_values(|i: usize| i as int),
            custom_text: match self.custom_text {
                Some(t) => Some(t@),
                None => None,
            },
        }
    }
}

impl Clone for QuestionAnswer {
    fn clone(&self) -> (r: Self)
        ensures
            r@ == self@,
    {
        let mut selected: Vec<usize> = Vec::new();
        let mut i: usize = 0;
        while i < self.selected_options.len()
            invariant
                i <= self.selected_options.len(),
                selected@ == self.selected_options@.subrange(0, i as int),
            decreases self.selected_options.len() - i,
        {
            selected.push(self.selected_options[i]);
            proof {
                assert(selected@ =~= self.selected_options@.subrange(0, i + 1 as int));
            }
            i += 1;
        }
        proof {
            assert(selected@ =~= self.selected_options@);
        }
        let r = QuestionAnswer {
            question_index: self.question_index,
            selected_options: selected,
            custom_text: match &self.custom_text {
                Some(t) => Some(t.clone()),
                None => None,
            },
        };
        proof {
            assert(r@ =~= self@);
        }
        r
    }
}

/// Request to create a pending user question.
#[derive(Debug)]
pub struct CreateUserQuestionRequest {
    pub tool_call_id: String,
    pub questions: Vec<UserQuestion>,
}

/// Status of a user question.
#[derive(Debug, Clone, Copy, PartialEq, Eq, Structural)]
pub enum UserQuestionStatus {
    Pending,
    Answered,
    TimedOut,
}

/// Response from the user answering questions.
#[derive(Debug)]
pub struct UserQuestionResponse {
    pub execution_process_id: String,
    pub answers: Vec<QuestionAnswer>,
}

/// The mathematical value of a `UserQuestionResponse`.
#[verifier::ext_equal]
pub struct UserQuestionResponseView {
    pub execution_process_id: Seq<char>,
    pub answers: Seq<QuestionAnswerView>,
}

impl View for UserQuestionResponse {
    type V = UserQuestionResponseView;

    open spec fn view(&self) -> UserQuestionResponseView {
        UserQuestionResponseView {
            execution_process_id: self.execution_process_id@,
            answers: self.answers@.map_values(|a: QuestionAnswer| a@),
        }
    }
}

impl Clone for UserQuestionResponse {
    fn clone(&self) -> (r: Self)
        ensures
            r@ == self@,
    {
        let mut answers: Vec<QuestionAnswer> = Vec::new();
        let mut i: usize = 0;
        while i < self.answers.len()
            invariant
                i <= self.answers.len(),
                answers@.len() == i,
                forall|j: int| 0 <= j < i ==> answers@[j]@ == self.answers@[j]@,
            decreases self.answers.len() - i,
        {
            answers.push(self.answers[i].clone());
            i += 1;
        }
        let r = UserQuestionResponse {
            execution_process_id: self.execution_process_id.clone(),
            answers,
        };
        proof {
            assert(r@.answers =~= self@.answers);
            assert(r@ =~= self@);
        }
        r
    }
}

/// Full user question request with correlation metadata and deadline.
#[derive(Debug)]
pub struct UserQuestionRequest {
    pub id: String,
    pub tool_call_id: String,
    pub questions: Vec<UserQuestion>,
    pub execution_process_id: String,
    pub created_at: i64,
    pub timeout_at: i64,
}

/// The mathematical value of a `UserQuestionRequest`.
#[verifier::ext_equal]
pub struct UserQuestionRequestView {
    pub id: Seq<char>,
    pub tool_call_id: Seq<char>,
    pub questions: Seq<UserQuestionView>,
    pub execution_process_id: Seq<char>,
    pub created_at: int,
    pub timeout_at: int,
}

impl View for UserQuestionRequest {
    type V = UserQuestionRequestView;

    open spec fn view(&self) -> UserQuestionRequestView {
        UserQuestionRequestView {
            id: self.id@,
            tool_call_id: self.tool_call_id@,
            questions: self.questions@.map_values(|q: UserQuestion| q@),
            execution_process_id: self.execution_process_id@,
            created_at: self.created_at as int,
            timeout_at: self.timeout_at as int,
        }
    }
}

/// Relies on `chrono::Utc::now` and `DateTime::timestamp_millis`: the
/// milliseconds since the Unix epoch. `DateTime<Utc>` is bounded by
/// `DateTime::MIN_UTC` and `DateTime::MAX_UTC` (roughly years -262143 to
/// 262143), so the value stays far inside the stated bound.
#[verifier::external_body]
pub fn now_millis() -> (r: i64)
    ensures
        -9000000000000000 <= r <= 9000000000000000,
{
    chrono::Utc::now().timestamp_millis()
}

/// Relies on `uuid::Uuid::new_v4` and its hyphenated rendering: a fresh
/// random identifier, 36 characters long.
#[verifier::external_body]
pub fn new_request_id() -> (r: String)
    ensures
        r@.len() == 36,
{
    uuid::Uuid::new_v4().to_string()
}

impl UserQuestionRequest {
    /// Builds the full request: a fresh id, the current time as creation
    /// time, and a deadline one fixed timeout later.
    pub fn from_create(request: CreateUserQuestionRequest, execution_process_id: String) -> (r:
        UserQuestionRequest)
        ensures
            r.tool_call_id == request.tool_call_id,
            r.questions == request.questions,
            r.execution_process_id == execution_process_id,
            r.timeout_at == r.created_at + QUESTION_TIMEOUT_MILLIS,
            r.id@.len() == 36,
    {
        let now = now_millis();
        UserQuestionRequest {
            id: new_request_id(),
            tool_call_id: request.tool_call_id,
            questions: request.questions,
            execution_process_id,
            created_at: now,
            timeout_at: now + QUESTION_TIMEOUT_MILLIS,
        }
    }
}

} // verus!
