//! The protocol adapter: translates one agent's control-protocol callbacks
//! (tool-permission requests, the ask-the-user tool, session-wide
//! permission escalation, generic hook callbacks) into calls against the
//! approval and question services, and structures the answers back into the
//! shape the agent expects.

use vstd::prelude::*;

use crate::approvals::{
    ApprovalStatus, ApprovalStatusView, ExecutorApprovalError, ExecutorApprovalService,
    ExecutorQuestionError, ExecutorQuestionService, question_error_detail, question_error_message,
};
use crate::questions::{QuestionAnswer, QuestionAnswerView, UserQuestion, UserQuestionView, clone_questions};
use crate::text::{dec_digits, str_eq, usize_to_string};

verus! {

/// The tool name that asks the user a set of questions.
pub const ASK_USER_QUESTION_NAME: &'static str = "AskUserQuestion";

/// The tool name whose approval also ends planning mode.
pub const EXIT_PLAN_MODE_NAME: &'static str = "ExitPlanMode";

/// The reserved hook callback id that is allowed without asking.
pub const AUTO_APPROVE_CALLBACK_ID: &'static str = "AUTO_APPROVE_CALLBACK_ID";

/// An execution mode of the agent session.
#[derive(Debug, Clone, Copy, PartialEq, Eq, Structural)]
pub enum PermissionMode {
    Default,
    Plan,
    AcceptEdits,
    BypassPermissions,
}

/// What kind of permission update is being pushed.
#[derive(Debug, Clone, Copy, PartialEq, Eq, Structural)]
pub enum PermissionUpdateType {
    SetMode,
}

/// Where a permission update applies.
#[derive(Debug, Clone, Copy, PartialEq, Eq, Structural)]
pub enum PermissionUpdateDestination {
    Session,
}

/// A permission update handed back alongside an allow decision.
#[derive(Debug, Clone, Copy, PartialEq, Eq, Structural)]
pub struct PermissionUpdate {
    pub update_type: PermissionUpdateType,
    pub mode: Option<PermissionMode>,
    pub destination: PermissionUpdateDestination,
}

/// A value a formatted answer maps a question header to: free text, a
/// single selected label, or the list of selected labels.
#[derive(Debug)]
pub enum AnswerValue {
    Text(String),
    Labels(Vec<String>),
}

/// The mathematical value of an `AnswerValue`.
#[verifier::ext_equal]
pub enum AnswerValueView {
    Text(Seq<char>),
    Labels(Seq<Seq<char>>),
}

impl View for AnswerValue {
    type V = AnswerValueView;

    open spec fn view(&self) -> AnswerValueView {
        match self {
            AnswerValue::Text(t) => AnswerValueView::Text(t@),
            AnswerValue::Labels(ls) => AnswerValueView::Labels(
                ls@.map_values(|l: String| l@),
            ),
        }
    }
}

/// One formatted answer: a display key and the value chosen for it.
#[derive(Debug)]
pub struct FormattedAnswer {
    pub key: String,
    pub value: AnswerValue,
}

/// The mathematical value of a `FormattedAnswer`.
#[verifier::ext_equal]
pub struct FormattedAnswerView {
    pub key: Seq<char>,
    pub value: AnswerValueView,
}

impl View for FormattedAnswer {
    type V = FormattedAnswerView;

    open spec fn view(&self) -> FormattedAnswerView {
        FormattedAnswerView { key: self.key@, value: self.value@ }
    }
}

/// The values of a sequence of formatted answers.
pub open spec fn fa_views(m: Seq<FormattedAnswer>) -> Seq<FormattedAnswerView> {
    m.map_values(|f: FormattedAnswer| f@)
}

/// The values of a sequence of questions.
pub open spec fn question_views(qs: Seq<UserQuestion>) -> Seq<UserQuestionView> {
    qs.map_values(|q: UserQuestion| q@)
}

/// The values of a sequence of answers.
pub open spec fn answer_views(ans: Seq<QuestionAnswer>) -> Seq<QuestionAnswerView> {
    ans.map_values(|a: QuestionAnswer| a@)
}

/// The key a question's answer is filed under: the question's display
/// header, or a positional key when no header is set.
pub open spec fn question_key(q: UserQuestionView, index: int) -> Seq<char>
    recommends
        index >= 0,
{
    match q.header {
        Some(h) => h,
        None => "question_"@ + dec_digits(index as nat),
    }
}

/// The labels of the in-range selected options, in selection order.
pub open spec fn labels_of(q: UserQuestionView, sel: Seq<int>) -> Seq<Seq<char>>
    decreases sel.len(),
{
    if sel.len() == 0 {
        Seq::empty()
    } else {
        labels_of(q, sel.drop_last()) + (if 0 <= sel.last() < q.options.len() {
            seq![q.options[sel.last()].label]
        } else {
            Seq::<Seq<char>>::empty()
        })
    }
}

/// The value one answer contributes: free text verbatim when present, else
/// the selected labels for a multi-select question, else the single
/// selected option's label; nothing when no usable selection exists.
pub open spec fn answer_value_spec(q: UserQuestionView, a: QuestionAnswerView) -> Option<
    AnswerValueView,
> {
    match a.custom_text {
        Some(t) => Some(AnswerValueView::Text(t)),
        None => {
            if q.multi_select {
                Some(AnswerValueView::Labels(labels_of(q, a.selected_options)))
            } else {
                if a.selected_options.len() > 0 && 0 <= a.selected_options[0]
                    < q.options.len() {
                    Some(AnswerValueView::Text(q.options[a.selected_options[0]].label))
                } else {
                    None
                }
            }
        },
    }
}

/// Map-style insertion: replaces the first entry under the key, or appends
/// a new entry when the key is absent.
pub open spec fn upsert(
    m: Seq<FormattedAnswerView>,
    key: Seq<char>,
    value: AnswerValueView,
) -> Seq<FormattedAnswerView>
    decreases m.len(),
{
    if m.len() == 0 {
        seq![FormattedAnswerView { key, value }]
    } else if m[0].key == key {
        seq![FormattedAnswerView { key, value }] + m.drop_first()
    } else {
        seq![m[0]] + upsert(m.drop_first(), key, value)
    }
}

/// The formatted map after processing the remaining answers against an
/// accumulator: answers naming an out-of-range question, or carrying no
/// usable value, are skipped rather than erroring.
pub open spec fn format_fold(
    qs: Seq<UserQuestionView>,
    answers: Seq<QuestionAnswerView>,
    acc: Seq<FormattedAnswerView>,
) -> Seq<FormattedAnswerView>
    decreases answers.len(),
{
    if answers.len() == 0 {
        acc
    } else {
        let a = answers[0];
        let acc2 = if 0 <= a.question_index < qs.len() {
            let q = qs[a.question_index];
            match answer_value_spec(q, a) {
                Some(v) => upsert(acc, question_key(q, a.question_index), v),
                None => acc,
            }
        } else {
            acc
        };
        format_fold(qs, answers.drop_first(), acc2)
    }
}

/// The formatted answer map for a question list and an answer list.
pub open spec fn formatted_answers(
    qs: Seq<UserQuestionView>,
    answers: Seq<QuestionAnswerView>,
) -> Seq<FormattedAnswerView> {
    format_fold(qs, answers, Seq::empty())
}

/// Replacing the first entry under a key equals an in-place update at that
/// entry's position.
proof fn lemma_upsert_replaces(
    m: Seq<FormattedAnswerView>,
    key: Seq<char>,
    value: AnswerValueView,
    j: int,
)
    requires
        0 <= j < m.len(),
        m[j].key == key,
        forall|k: int| 0 <= k < j ==> m[k].key != key,
    ensures
        upsert(m, key, value) == m.update(j, FormattedAnswerView { key, value }),
    decreases m.len(),
{
    if j == 0 {
        assert(upsert(m, key, value) =~= m.update(0, FormattedAnswerView { key, value }));
    } else {
        let sub = m.drop_first();
        assert(sub[j - 1].key == key);
        assert forall|k: int| 0 <= k < j - 1 implies sub[k].key != key by {
            assert(sub[k] == m[k + 1]);
        }
        lemma_upsert_replaces(sub, key, value, j - 1);
        assert(upsert(m, key, value) =~= m.update(j, FormattedAnswerView { key, value }));
    }
}

/// Inserting an absent key appends it.
proof fn lemma_upsert_appends(m: Seq<FormattedAnswerView>, key: Seq<char>, value: AnswerValueView)
    requires
        forall|k: int| 0 <= k < m.len() ==> (#[trigger] m[k]).key != key,
    ensures
        upsert(m, key, value) == m.push(FormattedAnswerView { key, value }),
    decreases m.len(),
{
    if m.len() == 0 {
        assert(upsert(m, key, value) =~= m.push(FormattedAnswerView { key, value }));
    } else {
        let sub = m.drop_first();
        assert forall|k: int| 0 <= k < sub.len() implies (#[trigger] sub[k]).key != key by {
            assert(sub[k] == m[k + 1]);
        }
        lemma_upsert_appends(sub, key, value);
        assert(upsert(m, key, value) =~= m.push(FormattedAnswerView { key, value }));
    }
}

/// Inserts an answer value under a key, replacing an existing entry for
/// the same key.
fn upsert_exec(m: &mut Vec<FormattedAnswer>, key: String, value: AnswerValue)
    ensures
        fa_views(final(m)@) == upsert(fa_views(old(m)@), key@, value@),
{
    let ghost mv = fa_views(m@);
    proof {
        assert(mv == fa_views(old(m)@));
    }
    let mut found: Option<usize> = None;
    let mut i: usize = 0;
    while i < m.len() && found.is_none()
        invariant
            i <= m@.len(),
            mv == fa_views(m@),
            match found {
                Some(j) => 0 <= j < m@.len() && mv[j as int].key == key@ && forall|k: int|
                    0 <= k < j ==> (#[trigger] mv[k]).key != key@,
                None => forall|k: int| 0 <= k < i ==> (#[trigger] mv[k]).key != key@,
            },
        decreases m.len() - i + (if found is None {
            1int
        } else {
            0int
        }),
    {
        if str_eq(m[i].key.as_str(), key.as_str()) {
            proof {
                assert(m@[i as int].key@ == key@);
                assert(mv[i as int] == m@[i as int]@);
                assert(mv[i as int].key == key@);
            }
            found = Some(i);
        } else {
            i += 1;
        }
    }
    match found {
        Some(j) => {
            proof {
                assert(mv.len() == m@.len());
                lemma_upsert_replaces(mv, key@, value@, j as int);
            }
            let ghost keyv: Seq<char> = key@;
            let ghost valv: AnswerValueView = value@;
            m.set(j, FormattedAnswer { key, value });
            proof {
                assert(fa_views(m@) =~= mv.update(
                    j as int,
                    FormattedAnswerView { key: keyv, value: valv },
                ));
            }
        },
        None => {
            proof {
                assert(mv.len() == m@.len());
                assert(forall|k: int| 0 <= k < mv.len() ==> (#[trigger] mv[k]).key != key@);
                lemma_upsert_appends(mv, key@, value@);
            }
            let ghost keyv: Seq<char> = key@;
            let ghost valv: AnswerValueView = value@;
            m.push(FormattedAnswer { key, value });
            proof {
                assert(fa_views(m@) =~= mv.push(FormattedAnswerView { key: keyv, value: valv }));
            }
        },
    }
}

/// Formats a response's answers the way the agent expects: each answer is
/// resolved against its originating question and filed under the
/// question's header, or a positional key when no header is set; free text
/// is used verbatim; a multi-select question yields the selected labels; a
/// single-select question yields the one selected label. Unanswered or
/// out-of-range indices are skipped.
pub fn format_question_answers(questions: &Vec<UserQuestion>, answers: &Vec<QuestionAnswer>) -> (r:
    Vec<FormattedAnswer>)
    ensures
        fa_views(r@) == formatted_answers(question_views(questions@), answer_views(answers@)),
{
    let ghost qsv = question_views(questions@);
    let ghost ansv = answer_views(answers@);
    let mut acc: Vec<FormattedAnswer> = Vec::new();
    proof {
        assert(fa_views(acc@) =~= Seq::<FormattedAnswerView>::empty());
        assert(ansv.skip(0) =~= ansv);
    }
    let mut i: usize = 0;
    while i < answers.len()
        invariant
            i <= answers@.len(),
            qsv == question_views(questions@),
            ansv == answer_views(answers@),
            format_fold(qsv, ansv.skip(i as int), fa_views(acc@))
                == formatted_answers(qsv, ansv),
        decreases answers.len() - i,
    {
        let ghost accv = fa_views(acc@);
        let ghost rest = ansv.skip(i as int);
        proof {
            assert(rest[0] == ansv[i as int]);
            assert(rest.drop_first() =~= ansv.skip(i + 1));
        }
        let answer = &answers[i];
        if answer.question_index < questions.len() {
            let q = &questions[answer.question_index];
            let key: String = match &q.header {
                Some(h) => h.clone(),
                None => {
                    let digits = usize_to_string(answer.question_index);
                    let mut s = String::from_str("question_");
                    s.append(digits.as_str());
                    s
                },
            };
            proof {
                assert(key@ == question_key(qsv[answer.question_index as int], answer.question_index as int));
            }
            if let Some(custom) = &answer.custom_text {
                upsert_exec(&mut acc, key, AnswerValue::Text(custom.clone()));
            } else if q.multi_select {
                let mut labels: Vec<String> = Vec::new();
                let mut k: usize = 0;
                while k < answer.selected_options.len()
                    invariant
                        k <= answer.selected_options@.len(),
                        labels@.map_values(|l: String| l@) == labels_of(
                            qsv[answer.question_index as int],
                            answer@.selected_options.subrange(0, k as int),
                        ),
                        qsv == question_views(questions@),
                        answer.question_index < questions@.len(),
                        q == questions@[answer.question_index as int],
                    decreases answer.selected_options.len() - k,
                {
                    let ghost selpre = answer@.selected_options.subrange(0, k as int);
                    let ghost selcur = answer@.selected_options.subrange(0, k + 1 as int);
                    proof {
                        assert(selcur.drop_last() =~= selpre);
                        assert(selcur.last() == answer@.selected_options[k as int]);
                    }
                    let idx = answer.selected_options[k];
                    if idx < q.options.len() {
                        labels.push(q.options[idx].label.clone());
                        proof {
                            assert(labels@.map_values(|l: String| l@) =~= labels_of(
                                qsv[answer.question_index as int],
                                selcur,
                            ));
                        }
                    }
                    k += 1;
                }
                proof {
                    assert(answer@.selected_options.subrange(
                        0,
                        answer@.selected_options.len() as int,
                    ) =~= answer@.selected_options);
                }
                upsert_exec(&mut acc, key, AnswerValue::Labels(labels));
            } else {
                if answer.selected_options.len() > 0 {
                    let idx = answer.selected_options[0];
                    if idx < q.options.len() {
                        upsert_exec(
                            &mut acc,
                            key,
                            AnswerValue::Text(q.options[idx].label.clone()),
                        );
                    }
                }
            }
        }
        proof {
            assert(format_fold(qsv, rest.drop_first(), fa_views(acc@))
                == formatted_answers(qsv, ansv));
        }
        i += 1;
    }
    proof {
        assert(ansv.skip(ansv.len() as int) =~= Seq::<QuestionAnswerView>::empty());
    }
    acc
}


/// An error the adapter reports instead of a decision: the requested
/// capability has no backend wired.
#[derive(Debug)]
pub enum ExecutorError {
    Approval(ExecutorApprovalError),
    Question(ExecutorQuestionError),
}

/// The raw mirror record of one approval decision, written to the visible
/// transcript alongside the structured log patch.
#[derive(Debug)]
pub struct ApprovalRecord {
    pub tool_call_id: String,
    pub tool_name: String,
    pub approval_status: ApprovalStatus,
}

/// The mathematical value of an `ApprovalRecord`.
#[verifier::ext_equal]
pub struct ApprovalRecordView {
    pub tool_call_id: Seq<char>,
    pub tool_name: Seq<char>,
    pub approval_status: ApprovalStatusView,
}

impl View for ApprovalRecord {
    type V = ApprovalRecordView;

    open spec fn view(&self) -> ApprovalRecordView {
        ApprovalRecordView {
            tool_call_id: self.tool_call_id@,
            tool_name: self.tool_name@,
            approval_status: self.approval_status@,
        }
    }
}

/// What an allow decision hands back as the tool's input: the original
/// input unchanged, or — for the ask-the-user tool — the questions together
/// with the formatted answers.
#[derive(Debug)]
pub enum AllowedInput {
    Passthrough(serde_json::Value),
    QuestionOutput { questions: Vec<UserQuestion>, answers: Vec<FormattedAnswer> },
}

/// The mathematical value of an `AllowedInput`.
#[verifier::ext_equal]
pub enum AllowedInputView {
    Passthrough(serde_json::Value),
    QuestionOutput { questions: Seq<UserQuestionView>, answers: Seq<FormattedAnswerView> },
}

impl View for AllowedInput {
    type V = AllowedInputView;

    open spec fn view(&self) -> AllowedInputView {
        match self {
            AllowedInput::Passthrough(v) => AllowedInputView::Passthrough(*v),
            AllowedInput::QuestionOutput { questions, answers } => AllowedInputView::QuestionOutput {
                questions: question_views(questions@),
                answers: fa_views(answers@),
            },
        }
    }
}

/// The decision handed back to the agent for one tool invocation.
#[derive(Debug)]
pub enum PermissionResult {
    Allow { updated_input: AllowedInput, updated_permissions: Option<Vec<PermissionUpdate>> },
    Deny { message: String, interrupt: Option<bool> },
}

/// The mathematical value of a `PermissionResult`.
#[verifier::ext_equal]
pub enum PermissionResultView {
    Allow { updated_input: AllowedInputView, updated_permissions: Option<Seq<PermissionUpdate>> },
    Deny { message: Seq<char>, interrupt: Option<bool> },
}

impl View for PermissionResult {
    type V = PermissionResultView;

    open spec fn view(&self) -> PermissionResultView {
        match self {
            PermissionResult::Allow { updated_input, updated_permissions } => {
                PermissionResultView::Allow {
                    updated_input: updated_input@,
                    updated_permissions: match updated_permissions {
                        Some(u) => Some(u@),
                        None => None,
                    },
                }
            },
            PermissionResult::Deny { message, interrupt } => PermissionResultView::Deny {
                message: message@,
                interrupt: *interrupt,
            },
        }
    }
}

/// An allow decision that hands the input through unchanged.
pub open spec fn allow_passthrough(input: serde_json::Value) -> PermissionResultView {
    PermissionResultView::Allow {
        updated_input: AllowedInputView::Passthrough(input),
        updated_permissions: None,
    }
}

/// The session-wide escalation pushed when the exit-planning tool is
/// approved.
pub open spec fn bypass_escalation() -> Seq<PermissionUpdate> {
    seq![
        PermissionUpdate {
            update_type: PermissionUpdateType::SetMode,
            mode: Some(PermissionMode::BypassPermissions),
            destination: PermissionUpdateDestination::Session,
        },
    ]
}

/// The decision the adapter derives from a final approval status: an
/// approval allows the call — with the session escalation when the tool
/// ends planning mode — and a denial, a timeout, or an unexpected
/// still-pending status each deny with a readable message, without
/// interrupting the agent's turn.
pub open spec fn permission_for_status(
    tool_name: Seq<char>,
    input: serde_json::Value,
    status: ApprovalStatusView,
) -> PermissionResultView {
    match status {
        ApprovalStatusView::Approved => PermissionResultView::Allow {
            updated_input: AllowedInputView::Passthrough(input),
            updated_permissions: if tool_name == "ExitPlanMode"@ {
                Some(bypass_escalation())
            } else {
                None
            },
        },
        ApprovalStatusView::Denied { reason } => PermissionResultView::Deny {
            message: match reason {
                Some(r) => r,
                None => "Denied by user"@,
            },
            interrupt: Some(false),
        },
        ApprovalStatusView::TimedOut => PermissionResultView::Deny {
            message: "Approval request timed out"@,
            interrupt: Some(false),
        },
        ApprovalStatusView::Pending => PermissionResultView::Deny {
            message: "Approval still pending (unexpected)"@,
            interrupt: Some(false),
        },
    }
}

/// The deny handed back when the approval backend itself failed.
pub open spec fn request_failed_deny() -> PermissionResultView {
    PermissionResultView::Deny {
        message: "Tool approval request failed"@,
        interrupt: Some(false),
    }
}

/// What a completed approval round leaves: either a mirror record of the
/// status the backend returned, with the decision derived from exactly that
/// status, or no record and the backend-failure deny.
pub open spec fn approval_decision_ok(
    res: PermissionResultView,
    rec: Option<ApprovalRecordView>,
    tool_name: Seq<char>,
    input: serde_json::Value,
    call_id: Seq<char>,
) -> bool {
    match rec {
        Some(rc) => rc.tool_call_id == call_id && rc.tool_name == tool_name && res
            == permission_for_status(tool_name, input, rc.approval_status),
        None => res == request_failed_deny(),
    }
}

/// What a completed question round leaves: an allow carrying the questions
/// and the formatted answers of some response, or a deny carrying some
/// question-service error's message.
pub open spec fn question_decision_ok(
    res: PermissionResultView,
    qs: Seq<UserQuestionView>,
) -> bool {
    ||| exists|answers: Seq<QuestionAnswerView>|
        res == PermissionResultView::Allow {
            updated_input: AllowedInputView::QuestionOutput {
                questions: qs,
                answers: #[trigger] formatted_answers(qs, answers),
            },
            updated_permissions: None,
        }
    ||| exists|e: ExecutorQuestionError|
        res == PermissionResultView::Deny {
            message: "User question request failed: "@ + #[trigger] question_error_detail(e),
            interrupt: Some(false),
        }
}

/// The hook decision returned to the agent: this callback never blocks and
/// never itself grants or denies a tool call.
#[derive(Debug, Clone, Copy, PartialEq, Eq, Structural)]
pub enum HookDecision {
    Allow,
    Ask,
}

/// The shape of a hook callback's reply.
#[derive(Debug)]
pub struct HookOutput {
    pub hook_event_name: String,
    pub permission_decision: HookDecision,
    pub permission_decision_reason: String,
}

/// The mathematical value of a `HookOutput`.
#[verifier::ext_equal]
pub struct HookOutputView {
    pub hook_event_name: Seq<char>,
    pub permission_decision: HookDecision,
    pub permission_decision_reason: Seq<char>,
}

impl View for HookOutput {
    type V = HookOutputView;

    open spec fn view(&self) -> HookOutputView {
        HookOutputView {
            hook_event_name: self.hook_event_name@,
            permission_decision: self.permission_decision,
            permission_decision_reason: self.permission_decision_reason@,
        }
    }
}

/// The agent client with control-protocol support. It holds the optional
/// approval and question backends; with no approval backend wired it runs
/// in auto-approve mode, a fact fixed at construction and never flipped.
#[derive(Debug)]
pub struct ClaudeAgentClient<A, Q> {
    pub approvals: Option<A>,
    pub questions: Option<Q>,
    pub auto_approve: bool,
}

impl<A: ExecutorApprovalService, Q: ExecutorQuestionService> ClaudeAgentClient<A, Q> {
    /// The construction invariant: auto-approve holds exactly when no
    /// approval backend is wired.
    pub open spec fn wf(self) -> bool {
        self.auto_approve == (self.approvals is None)
    }

    /// Creates a client over optional approval and question backends.
    pub fn new(approvals: Option<A>, questions: Option<Q>) -> (r: ClaudeAgentClient<A, Q>)
        ensures
            r.wf(),
            r.approvals == approvals,
            r.questions == questions,
            r.auto_approve == (approvals is None),
    {
        let auto_approve = approvals.is_none();
        ClaudeAgentClient { approvals, questions, auto_approve }
    }

    /// Runs one approval round: asks the backend, mirrors the returned
    /// status into a record, and derives the agent's decision from that
    /// status alone; a backend failure becomes a deny, so the agent always
    /// receives a decision.
    pub fn handle_approval(
        &self,
        tool_use_id: String,
        tool_name: String,
        tool_input: serde_json::Value,
    ) -> (r: Result<(PermissionResult, Option<ApprovalRecord>), ExecutorError>)
        ensures
            r is Err <==> self.approvals is None,
            r is Err ==> r == Err::<(PermissionResult, Option<ApprovalRecord>), ExecutorError>(
                ExecutorError::Approval(ExecutorApprovalError::ServiceUnavailable),
            ),
            r matches Ok((res, rec)) ==> approval_decision_ok(
                res@,
                match rec {
                    Some(rc) => Some(rc@),
                    None => None,
                },
                tool_name@,
                tool_input,
                tool_use_id@,
            ),
    {
        let service = match &self.approvals {
            Some(s) => s,
            None => {
                return Err(ExecutorError::Approval(ExecutorApprovalError::ServiceUnavailable));
            },
        };
        let outcome = service.request_tool_approval(
            tool_name.as_str(),
            tool_input.clone(),
            tool_use_id.as_str(),
        );
        match outcome {
            Ok(status) => {
                let record = ApprovalRecord {
                    tool_call_id: tool_use_id.clone(),
                    tool_name: tool_name.clone(),
                    approval_status: status.clone(),
                };
                let res = match status {
                    ApprovalStatus::Approved => {
                        if str_eq(tool_name.as_str(), "ExitPlanMode") {
                            let updates = vec![
                                PermissionUpdate {
                                    update_type: PermissionUpdateType::SetMode,
                                    mode: Some(PermissionMode::BypassPermissions),
                                    destination: PermissionUpdateDestination::Session,
                                },
                            ];
                            proof {
                                assert(updates@ =~= bypass_escalation());
                            }
                            PermissionResult::Allow {
                                updated_input: AllowedInput::Passthrough(tool_input),
                                updated_permissions: Some(updates),
                            }
                        } else {
                            PermissionResult::Allow {
                                updated_input: AllowedInput::Passthrough(tool_input),
                                updated_permissions: None,
                            }
                        }
                    },
                    ApprovalStatus::Denied { reason } => {
                        let message = match reason {
                            Some(m) => m,
                            None => String::from_str("Denied by user"),
                        };
                        PermissionResult::Deny { message, interrupt: Some(false) }
                    },
                    ApprovalStatus::TimedOut => PermissionResult::Deny {
                        message: String::from_str("Approval request timed out"),
                        interrupt: Some(false),
                    },
                    ApprovalStatus::Pending => PermissionResult::Deny {
                        message: String::from_str("Approval still pending (unexpected)"),
                        interrupt: Some(false),
                    },
                };
                Ok((res, Some(record)))
            },
            Err(_) => Ok((
                PermissionResult::Deny {
                    message: String::from_str("Tool approval request failed"),
                    interrupt: Some(false),
                },
                None,
            )),
        }
    }

    /// Runs one question round: asks the backend, formats the response's
    /// answers against the originating questions, and allows the call with
    /// that payload; a backend failure — the timeout included — becomes a
    /// deny with the error's message.
    pub fn handle_user_question(&self, tool_use_id: String, questions: Vec<UserQuestion>) -> (r:
        Result<PermissionResult, ExecutorError>)
        ensures
            r is Err <==> self.questions is None,
            r is Err ==> r == Err::<PermissionResult, ExecutorError>(
                ExecutorError::Question(ExecutorQuestionError::ServiceUnavailable),
            ),
            r matches Ok(res) ==> question_decision_ok(res@, question_views(questions@)),
    {
        let service = match &self.questions {
            Some(s) => s,
            None => {
                return Err(ExecutorError::Question(ExecutorQuestionError::ServiceUnavailable));
            },
        };
        let sent = clone_questions(&questions);
        match service.request_user_question(tool_use_id.as_str(), sent) {
            Ok(response) => {
                let answers = format_question_answers(&questions, &response.answers);
                let res = PermissionResult::Allow {
                    updated_input: AllowedInput::QuestionOutput { questions, answers },
                    updated_permissions: None,
                };
                proof {
                    assert(question_decision_ok(res@, question_views(questions@))) by {
                        assert(res@ == PermissionResultView::Allow {
                            updated_input: AllowedInputView::QuestionOutput {
                                questions: question_views(questions@),
                                answers: formatted_answers(
                                    question_views(questions@),
                                    answer_views(response.answers@),
                                ),
                            },
                            updated_permissions: None,
                        });
                    }
                }
                Ok(res)
            },
            Err(e) => {
                let mut message = String::from_str("User question request failed: ");
                let detail = question_error_message(&e);
                message.append(detail.as_str());
                let res = PermissionResult::Deny { message, interrupt: Some(false) };
                proof {
                    assert(question_decision_ok(res@, question_views(questions@))) by {
                        assert(res@ == PermissionResultView::Deny {
                            message: "User question request failed: "@ + question_error_detail(e),
                            interrupt: Some(false),
                        });
                    }
                }
                Ok(res)
            },
        }
    }

    /// The tool-permission callback. In auto-approve mode, or when the
    /// protocol handed no call id — an undocumented gap where the adapter
    /// fails open rather than block the agent — the call is allowed
    /// unchanged. The ask-the-user tool with a decoded question payload is
    /// routed to the question service; everything else, the fallback for an
    /// undecodable payload included, goes through the approval round.
    pub fn on_can_use_tool(
        &self,
        tool_name: String,
        input: serde_json::Value,
        permission_suggestions: Option<Vec<PermissionUpdate>>,
        tool_use_id: Option<String>,
        questions_payload: Option<Vec<UserQuestion>>,
    ) -> (r: Result<(PermissionResult, Option<ApprovalRecord>), ExecutorError>)
        ensures
            self.auto_approve ==> (r matches Ok((res, rec)) && res@ == allow_passthrough(input)
                && rec is None),
            !self.auto_approve ==> match tool_use_id {
                None => (r matches Ok((res, rec)) && res@ == allow_passthrough(input)
                    && rec is None),
                Some(id) => {
                    if tool_name@ == "AskUserQuestion"@ && questions_payload is Some {
                        &&& r is Err <==> self.questions is None
                        &&& r is Err ==> r == Err::<
                            (PermissionResult, Option<ApprovalRecord>),
                            ExecutorError,
                        >(ExecutorError::Question(ExecutorQuestionError::ServiceUnavailable))
                        &&& r matches Ok((res, rec)) ==> question_decision_ok(
                            res@,
                            question_views(questions_payload->0@),
                        ) && rec is None
                    } else {
                        &&& r is Err <==> self.approvals is None
                        &&& r is Err ==> r == Err::<
                            (PermissionResult, Option<ApprovalRecord>),
                            ExecutorError,
                        >(ExecutorError::Approval(ExecutorApprovalError::ServiceUnavailable))
                        &&& r matches Ok((res, rec)) ==> approval_decision_ok(
                            res@,
                            match rec {
                                Some(rc) => Some(rc@),
                                None => None,
                            },
                            tool_name@,
                            input,
                            id@,
                        )
                    }
                },
            },
    {
        if self.auto_approve {
            return Ok((
                PermissionResult::Allow {
                    updated_input: AllowedInput::Passthrough(input),
                    updated_permissions: None,
                },
                None,
            ));
        }
        match tool_use_id {
            None => Ok((
                PermissionResult::Allow {
                    updated_input: AllowedInput::Passthrough(input),
                    updated_permissions: None,
                },
                None,
            )),
            Some(id) => {
                if str_eq(tool_name.as_str(), "AskUserQuestion") {
                    if let Some(qs) = questions_payload {
                        return match self.handle_user_question(id, qs) {
                            Ok(res) => Ok((res, None)),
                            Err(e) => Err(e),
                        };
                    }
                    return self.handle_approval(id, tool_name, input);
                }
                self.handle_approval(id, tool_name, input)
            },
        }
    }

    /// The generic hook callback: in auto-approve mode, and for the one
    /// reserved callback id, it allows; for every other id it answers
    /// "ask", deferring the real decision to a later tool-permission
    /// callback. It never blocks and never itself grants or denies.
    pub fn on_hook_callback(
        &self,
        callback_id: String,
        input: serde_json::Value,
        tool_use_id: Option<String>,
    ) -> (r: HookOutput)
        ensures
            r@.hook_event_name == "PreToolUse"@,
            self.auto_approve ==> r@.permission_decision == HookDecision::Allow
                && r@.permission_decision_reason == "Auto-approved by SDK"@,
            !self.auto_approve && callback_id@ == "AUTO_APPROVE_CALLBACK_ID"@
                ==> r@.permission_decision == HookDecision::Allow
                && r@.permission_decision_reason == "Approved by SDK"@,
            !self.auto_approve && callback_id@ != "AUTO_APPROVE_CALLBACK_ID"@
                ==> r@.permission_decision == HookDecision::Ask
                && r@.permission_decision_reason == "Forwarding to canusetool service"@,
    {
        if self.auto_approve {
            HookOutput {
                hook_event_name: String::from_str("PreToolUse"),
                permission_decision: HookDecision::Allow,
                permission_decision_reason: String::from_str("Auto-approved by SDK"),
            }
        } else if str_eq(callback_id.as_str(), "AUTO_APPROVE_CALLBACK_ID") {
            HookOutput {
                hook_event_name: String::from_str("PreToolUse"),
                permission_decision: HookDecision::Allow,
                permission_decision_reason: String::from_str("Approved by SDK"),
            }
        } else {
            HookOutput {
                hook_event_name: String::from_str("PreToolUse"),
                permission_decision: HookDecision::Ask,
                permission_decision_reason: String::from_str("Forwarding to canusetool service"),
            }
        }
    }
}

} // verus!
