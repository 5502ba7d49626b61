//! The decision registry: a store of pending decisions keyed by request id,
//! with atomic admission, atomic resolve-or-expire, and a memoized outcome
//! lookup. Removal from the pending store is the point of truth for "has
//! this been decided": a decision leaves it exactly once, either through a
//! human response or through the timeout race, and the correlated
//! conversation-log entry is patched to the matching terminal state.

use vstd::prelude::*;

use crate::log::{ConversationLog, LogEntry, LogEntryView, ToolStatus, ToolStatusView};
use crate::questions::{
    UserQuestion, UserQuestionRequest, UserQuestionResponse, UserQuestionResponseView,
    UserQuestionView, clone_questions, questions_view,
};
use crate::text::str_eq;

verus! {

/// The position of the correlated tool-use entry and a copy of that entry
/// at match time, used later to compute the terminal patch.
#[derive(Debug)]
pub struct CorrelatedEntry {
    pub index: usize,
    pub entry: LogEntry,
}

/// One outstanding decision.
#[derive(Debug)]
pub struct PendingDecision {
    pub id: String,
    pub correlated: Option<CorrelatedEntry>,
    pub execution_process_id: String,
    pub questions: Vec<UserQuestion>,
    pub created_at: i64,
    pub timeout_at: i64,
}

/// The mathematical value of a `PendingDecision`.
#[verifier::ext_equal]
pub struct PendingDecisionView {
    pub id: Seq<char>,
    pub correlated: Option<(int, LogEntryView)>,
    pub execution_process_id: Seq<char>,
    pub questions: Seq<UserQuestionView>,
    pub created_at: int,
    pub timeout_at: int,
}

impl View for PendingDecision {
    type V = PendingDecisionView;

    open spec fn view(&self) -> PendingDecisionView {
        PendingDecisionView {
            id: self.id@,
            correlated: match self.correlated {
                Some(c) => Some((c.index as int, c.entry@)),
                None => None,
            },
            execution_process_id: self.execution_process_id@,
            questions: questions_view(self.questions),
            created_at: self.created_at as int,
            timeout_at: self.timeout_at as int,
        }
    }
}

/// One completed decision, kept for late idempotency checks.
#[derive(Debug)]
struct CompletedDecision {
    id: String,
    response: UserQuestionResponse,
}

/// How the registry answers a `respond` call for a given id.
#[derive(Debug, Clone, Copy, PartialEq, Eq, Structural)]
pub enum QuestionError {
    /// Unknown id: never registered, or already timed out and consumed.
    NotFound,
    /// Benign race loss: someone else already resolved this id.
    AlreadyCompleted,
    /// A registration was attempted under an id that already exists.
    DuplicateId,
}

/// Concurrent store of pending decisions keyed by request id.
pub struct UserQuestions {
    pending: Vec<PendingDecision>,
    completed: Vec<CompletedDecision>,
}

impl UserQuestions {
    /// The values of the outstanding decisions, in admission order.
    pub closed spec fn pending_seq(self) -> Seq<PendingDecisionView> {
        self.pending@.map_values(|p: PendingDecision| p@)
    }

    /// The ids and outcomes of the completed decisions, in completion order.
    pub closed spec fn completed_seq(self) -> Seq<(Seq<char>, UserQuestionResponseView)> {
        self.completed@.map_values(|c: CompletedDecision| (c.id@, c.response@))
    }

    /// Whether a decision with this id is outstanding.
    pub open spec fn has_pending(self, id: Seq<char>) -> bool {
        exists|i: int|
            0 <= i < self.pending_seq().len() && (#[trigger] self.pending_seq()[i]).id == id
    }

    /// The index of the outstanding decision with this id.
    pub open spec fn pending_index_of(self, id: Seq<char>) -> int {
        choose|i: int|
            0 <= i < self.pending_seq().len() && (#[trigger] self.pending_seq()[i]).id == id
    }

    /// The outstanding decision with this id.
    pub open spec fn pending_for(self, id: Seq<char>) -> PendingDecisionView {
        self.pending_seq()[self.pending_index_of(id)]
    }

    /// Whether a decision with this id has been resolved by a response.
    pub open spec fn has_completed(self, id: Seq<char>) -> bool {
        exists|i: int|
            0 <= i < self.completed_seq().len() && (#[trigger] self.completed_seq()[i]).0 == id
    }

    /// The index of the completed decision with this id.
    pub open spec fn completed_index_of(self, id: Seq<char>) -> int {
        choose|i: int|
            0 <= i < self.completed_seq().len() && (#[trigger] self.completed_seq()[i]).0 == id
    }

    /// The recorded outcome of the completed decision with this id.
    pub open spec fn completed_for(self, id: Seq<char>) -> UserQuestionResponseView {
        self.completed_seq()[self.completed_index_of(id)].1
    }

    /// Well-formedness: at most one entry per id on either side, no id both
    /// pending and completed, and every correlated snapshot is a tool-use
    /// entry (so a terminal patch can always be computed from it).
    pub open spec fn wf(self) -> bool {
        &&& forall|i: int, j: int|
            0 <= i < j < self.pending_seq().len() ==> (#[trigger] self.pending_seq()[i]).id != (
            #[trigger] self.pending_seq()[j]).id
        &&& forall|i: int, j: int|
            0 <= i < j < self.completed_seq().len() ==> (#[trigger] self.completed_seq()[i]).0 != (
            #[trigger] self.completed_seq()[j]).0
        &&& forall|i: int, j: int|
            0 <= i < self.pending_seq().len() && 0 <= j < self.completed_seq().len() ==> (
            #[trigger] self.pending_seq()[i]).id != (#[trigger] self.completed_seq()[j]).0
        &&& forall|i: int|
            0 <= i < self.pending_seq().len() ==> match (#[trigger] self.pending_seq()[i]).correlated {
                Some(c) => c.1.is_tool_use(),
                None => true,
            }
    }

    /// An empty registry.
    pub fn new() -> (r: UserQuestions)
        ensures
            r.wf(),
            r.pending_seq().len() == 0,
            r.completed_seq().len() == 0,
    {
        let r = UserQuestions { pending: Vec::new(), completed: Vec::new() };
        proof {
            assert(r.pending_seq() =~= Seq::<PendingDecisionView>::empty());
            assert(r.completed_seq() =~= Seq::<(Seq<char>, UserQuestionResponseView)>::empty());
        }
        r
    }

    /// Looks an id up in the pending store.
    fn find_pending(&self, id: &String) -> (r: Option<usize>)
        ensures
            r is Some <==> self.has_pending(id@),
            r matches Some(i) ==> 0 <= i < self.pending_seq().len() && self.pending_seq()[
                i as int
            ].id == id@,
    {
        let mut i: usize = 0;
        while i < self.pending.len()
            invariant
                i <= self.pending_seq().len(),
                forall|j: int| 0 <= j < i ==> (#[trigger] self.pending_seq()[j]).id != id@,
            decreases self.pending.len() - i,
        {
            if str_eq(self.pending[i].id.as_str(), id.as_str()) {
                return Some(i);
            }
            i += 1;
        }
        None
    }

    /// Looks an id up in the completed store.
    fn find_completed(&self, id: &String) -> (r: Option<usize>)
        ensures
            r is Some <==> self.has_completed(id@),
            r matches Some(i) ==> 0 <= i < self.completed_seq().len() && self.completed_seq()[
                i as int
            ].0 == id@,
    {
        let mut i: usize = 0;
        while i < self.completed.len()
            invariant
                i <= self.completed_seq().len(),
                forall|j: int| 0 <= j < i ==> (#[trigger] self.completed_seq()[j]).0 != id@,
            decreases self.completed.len() - i,
        {
            if str_eq(self.completed[i].id.as_str(), id.as_str()) {
                proof {
                    assert(self.completed_seq()[i as int].0 == id@);
                }
                return Some(i);
            }
            i += 1;
        }
        None
    }

    /// The memoized outcome lookup behind a waiter: every observer of a
    /// resolved decision sees the same recorded response.
    pub fn outcome_of(&self, id: &String) -> (r: Option<&UserQuestionResponse>)
        requires
            self.wf(),
        ensures
            r is Some <==> self.has_completed(id@),
            r matches Some(resp) ==> resp@ == self.completed_for(id@),
            r is Some ==> !self.has_pending(id@),
    {
        match self.find_completed(id) {
            Some(i) => {
                proof {
                    let k = self.completed_index_of(id@);
                    assert(self.completed_seq()[k].0 == id@);
                    if i < k {
                        assert(self.completed_seq()[i as int].0 != self.completed_seq()[k].0);
                    } else if k < i {
                        assert(self.completed_seq()[k].0 != self.completed_seq()[i as int].0);
                    }
                    if self.has_pending(id@) {
                        let p = self.pending_index_of(id@);
                        assert(self.pending_seq()[p].id == self.completed_seq()[k].0);
                        assert(false);
                    }
                    assert(self.completed_seq()[i as int].1 == self.completed@[i as int].response@);
                }
                Some(&self.completed[i].response)
            },
            None => None,
        }
    }
}

/// Whether the log holds an unclaimed tool-use entry for this call id.
pub open spec fn has_match(log: Seq<LogEntryView>, call_id: Seq<char>) -> bool {
    exists|i: int| 0 <= i < log.len() && (#[trigger] log[i]).matches_call(call_id)
}

/// The newest unclaimed tool-use entry for this call id.
pub open spec fn newest_match(log: Seq<LogEntryView>, call_id: Seq<char>) -> int {
    choose|i: int|
        0 <= i < log.len() && (#[trigger] log[i]).matches_call(call_id) && forall|j: int|
            i < j < log.len() ==> !(#[trigger] log[j]).matches_call(call_id)
}

/// Where some unclaimed match exists, a newest one exists, and
/// `newest_match` denotes it: an unclaimed match that no later position
/// repeats.
pub proof fn lemma_newest_match_properties(log: Seq<LogEntryView>, call_id: Seq<char>)
    requires
        has_match(log, call_id),
    ensures
        0 <= newest_match(log, call_id) < log.len(),
        log[newest_match(log, call_id)].matches_call(call_id),
        forall|j: int|
            newest_match(log, call_id) < j < log.len() ==> !(#[trigger] log[j]).matches_call(
                call_id,
            ),
    decreases log.len(),
{
    let n = log.len() as int;
    if log[n - 1].matches_call(call_id) {
        assert(log[n - 1].matches_call(call_id) && forall|j: int|
            n - 1 < j < log.len() ==> !(#[trigger] log[j]).matches_call(call_id));
    } else {
        let sub = log.drop_last();
        let w = choose|i: int| 0 <= i < log.len() && (#[trigger] log[i]).matches_call(call_id);
        assert(sub[w] == log[w]);
        assert(has_match(sub, call_id));
        lemma_newest_match_properties(sub, call_id);
        let i = newest_match(sub, call_id);
        assert(log[i] == sub[i]);
        assert(log[i].matches_call(call_id) && forall|j: int|
            i < j < log.len() ==> !(#[trigger] log[j]).matches_call(call_id)) by {
            assert forall|j: int| i < j < log.len() implies !(#[trigger] log[j]).matches_call(
                call_id,
            ) by {
                if j < n - 1 {
                    assert(log[j] == sub[j]);
                    assert(!sub[j].matches_call(call_id));
                }
            }
        }
    }
    let k = newest_match(log, call_id);
    assert(0 <= k < log.len() && log[k].matches_call(call_id));
}

/// The pending status a correlated entry is moved to at registration,
/// carrying the id, the timestamps and the question payload.
pub open spec fn pending_status_of(req: crate::questions::UserQuestionRequestView) -> ToolStatusView {
    ToolStatusView::PendingQuestion {
        question_id: req.id,
        requested_at: req.created_at,
        timeout_at: req.timeout_at,
        questions: req.questions,
    }
}

/// Frame: the pending store reads the same for every id but one.
pub open spec fn pending_unchanged_except(
    pre: UserQuestions,
    post: UserQuestions,
    id: Seq<char>,
) -> bool {
    &&& forall|x: Seq<char>| x != id ==> (#[trigger] post.has_pending(x) <==> pre.has_pending(x))
    &&& forall|x: Seq<char>|
        x != id && pre.has_pending(x) ==> #[trigger] post.pending_for(x) == pre.pending_for(x)
}

/// Frame: the completed store reads the same for every id.
pub open spec fn completed_unchanged(pre: UserQuestions, post: UserQuestions) -> bool {
    &&& forall|x: Seq<char>| #[trigger] post.has_completed(x) <==> pre.has_completed(x)
    &&& forall|x: Seq<char>|
        pre.has_completed(x) ==> #[trigger] post.completed_for(x) == pre.completed_for(x)
}

/// Frame: the completed store reads the same for every id but one.
pub open spec fn completed_unchanged_except(
    pre: UserQuestions,
    post: UserQuestions,
    id: Seq<char>,
) -> bool {
    &&& forall|x: Seq<char>|
        x != id ==> (#[trigger] post.has_completed(x) <==> pre.has_completed(x))
    &&& forall|x: Seq<char>|
        x != id && pre.has_completed(x) ==> #[trigger] post.completed_for(x) == pre.completed_for(
            x,
        )
}

/// The terminal replace-patch a leaving decision pushes: its correlated
/// entry's snapshot with the given terminal status, at the correlated
/// position, when that position exists in the log at hand.
pub open spec fn terminal_patch(
    p: PendingDecisionView,
    status: ToolStatusView,
    lpre: Seq<LogEntryView>,
    lpost: Seq<LogEntryView>,
) -> bool {
    match p.correlated {
        Some(c) => {
            if 0 <= c.0 < lpre.len() {
                lpost == lpre.update(c.0, c.1.with_status_view(status))
            } else {
                lpost == lpre
            }
        },
        None => lpost == lpre,
    }
}

/// What a successful registration leaves behind: the new decision is
/// pending under its id with the given payload, its correlation is the
/// newest unclaimed match if one exists, the matched entry was patched to
/// its pending state, and nothing else moved.
pub open spec fn register_ok(
    pre: UserQuestions,
    lpre: Seq<LogEntryView>,
    post: UserQuestions,
    lpost: Seq<LogEntryView>,
    req: crate::questions::UserQuestionRequestView,
) -> bool {
    &&& post.has_pending(req.id)
    &&& post.pending_for(req.id).id == req.id
    &&& post.pending_for(req.id).execution_process_id == req.execution_process_id
    &&& post.pending_for(req.id).questions == req.questions
    &&& post.pending_for(req.id).created_at == req.created_at
    &&& post.pending_for(req.id).timeout_at == req.timeout_at
    &&& if has_match(lpre, req.tool_call_id) {
        let i = newest_match(lpre, req.tool_call_id);
        &&& post.pending_for(req.id).correlated == Some((i, lpre[i]))
        &&& lpost == lpre.update(i, lpre[i].with_status_view(pending_status_of(req)))
    } else {
        &&& post.pending_for(req.id).correlated is None
        &&& lpost == lpre
    }
    &&& pending_unchanged_except(pre, post, req.id)
    &&& completed_unchanged(pre, post)
}

/// What a successful human resolution leaves behind: the id has moved from
/// pending to completed with the given response recorded, the correlated
/// entry was patched to `Success`, and nothing else moved.
pub open spec fn respond_ok(
    pre: UserQuestions,
    lpre: Seq<LogEntryView>,
    post: UserQuestions,
    lpost: Seq<LogEntryView>,
    id: Seq<char>,
    resp: UserQuestionResponseView,
) -> bool {
    &&& !post.has_pending(id)
    &&& post.has_completed(id)
    &&& post.completed_for(id) == resp
    &&& pending_unchanged_except(pre, post, id)
    &&& completed_unchanged_except(pre, post, id)
    &&& terminal_patch(pre.pending_for(id), ToolStatusView::Success, lpre, lpost)
}

/// What a timeout expiry leaves behind: the id has left the pending store
/// without entering the completed store, the correlated entry was patched
/// to `TimedOut`, and nothing else moved.
pub open spec fn expire_ok(
    pre: UserQuestions,
    lpre: Seq<LogEntryView>,
    post: UserQuestions,
    lpost: Seq<LogEntryView>,
    id: Seq<char>,
) -> bool {
    &&& !post.has_pending(id)
    &&& pending_unchanged_except(pre, post, id)
    &&& completed_unchanged(pre, post)
    &&& terminal_patch(pre.pending_for(id), ToolStatusView::TimedOut, lpre, lpost)
}

impl UserQuestions {
    /// An id that occurs at a position of the pending store is the one the
    /// lookup functions find there.
    proof fn lemma_pending_lookup(self, x: Seq<char>, i: int)
        requires
            self.wf(),
            0 <= i < self.pending_seq().len(),
            self.pending_seq()[i].id == x,
        ensures
            self.has_pending(x),
            self.pending_index_of(x) == i,
            self.pending_for(x) == self.pending_seq()[i],
    {
        assert(self.has_pending(x));
        let k = self.pending_index_of(x);
        if k < i {
            assert(self.pending_seq()[k].id != self.pending_seq()[i].id);
        } else if i < k {
            assert(self.pending_seq()[i].id != self.pending_seq()[k].id);
        }
    }

    /// An id that occurs at a position of the completed store is the one
    /// the lookup functions find there.
    proof fn lemma_completed_lookup(self, x: Seq<char>, i: int)
        requires
            self.wf(),
            0 <= i < self.completed_seq().len(),
            self.completed_seq()[i].0 == x,
        ensures
            self.has_completed(x),
            self.completed_index_of(x) == i,
            self.completed_for(x) == self.completed_seq()[i].1,
    {
        assert(self.has_completed(x));
        let k = self.completed_index_of(x);
        if k < i {
            assert(self.completed_seq()[k].0 != self.completed_seq()[i].0);
        } else if i < k {
            assert(self.completed_seq()[i].0 != self.completed_seq()[k].0);
        }
    }

    /// Admits a decision: inserts it into the pending store, failing on a
    /// duplicate id rather than overwriting, and — when the correlator
    /// finds an unclaimed tool-use entry for the request's call id —
    /// patches that entry into its pending-question state.
    pub fn create_with_waiter(
        &mut self,
        request: UserQuestionRequest,
        log: &mut ConversationLog,
    ) -> (r: Result<(), QuestionError>)
        requires
            old(self).wf(),
        ensures
            final(self).wf(),
            r is Ok <==> !old(self).has_pending(request@.id) && !old(self).has_completed(
                request@.id,
            ),
            r is Ok ==> register_ok(*old(self), old(log)@, *final(self), final(log)@, request@),
            r is Err ==> r == Err::<(), QuestionError>(QuestionError::DuplicateId) && *final(self)
                == *old(self) && final(log)@ == old(log)@,
    {
        if self.find_pending(&request.id).is_some() || self.find_completed(&request.id).is_some() {
            return Err(QuestionError::DuplicateId);
        }
        let ghost lpre: Seq<LogEntryView> = log@;
        let correlated: Option<CorrelatedEntry> = match find_matching_tool_use(
            log,
            request.tool_call_id.as_str(),
        ) {
            Some(idx) => {
                proof {
                    assert(has_match(lpre, request@.tool_call_id));
                    let k = newest_match(lpre, request@.tool_call_id);
                    assert(lpre[k].matches_call(request@.tool_call_id) && forall|j: int|
                        k < j < lpre.len() ==> !(#[trigger] lpre[j]).matches_call(
                            request@.tool_call_id,
                        ));
                    if k < idx {
                        assert(!lpre[idx as int].matches_call(request@.tool_call_id));
                    } else if idx < k {
                        assert(!lpre[k].matches_call(request@.tool_call_id));
                    }
                    assert(k == idx);
                }
                let snapshot = log.entry_at(idx).clone();
                let pending_status = ToolStatus::PendingQuestion {
                    question_id: request.id.clone(),
                    requested_at: request.created_at,
                    timeout_at: request.timeout_at,
                    questions: clone_questions(&request.questions),
                };
                proof {
                    assert(pending_status@ == pending_status_of(request@));
                }
                let patched = snapshot.with_status(pending_status);
                log.push_replace_patch(idx, patched.unwrap());
                Some(CorrelatedEntry { index: idx, entry: snapshot })
            },
            None => {
                proof {
                    if has_match(lpre, request@.tool_call_id) {
                        let k = newest_match(lpre, request@.tool_call_id);
                        assert(exists|i: int|
                            0 <= i < lpre.len() && (#[trigger] lpre[i]).matches_call(
                                request@.tool_call_id,
                            ));
                        let w = choose|i: int|
                            0 <= i < lpre.len() && (#[trigger] lpre[i]).matches_call(
                                request@.tool_call_id,
                            );
                        assert(!lpre[w].matches_call(request@.tool_call_id));
                    }
                }
                None
            },
        };
        let decision = PendingDecision {
            id: request.id,
            correlated,
            execution_process_id: request.execution_process_id,
            questions: request.questions,
            created_at: request.created_at,
            timeout_at: request.timeout_at,
        };
        let ghost dv: PendingDecisionView = decision@;
        let ghost pre: UserQuestions = *old(self);
        self.pending.push(decision);
        proof {
            assert(self.pending_seq() =~= pre.pending_seq().push(dv));
            let n = pre.pending_seq().len() as int;
            assert forall|i: int| 0 <= i < n implies (#[trigger] self.pending_seq()[i]).id
                != request@.id by {
                if self.pending_seq()[i].id == request@.id {
                    assert(pre.pending_seq()[i].id == request@.id);
                    assert(pre.has_pending(request@.id));
                }
            }
            assert(self.wf()) by {
                assert forall|i: int, j: int|
                    0 <= i < j < self.pending_seq().len() implies (
                #[trigger] self.pending_seq()[i]).id != (#[trigger] self.pending_seq()[j]).id by {
                    if j < n {
                        assert(pre.pending_seq()[i].id != pre.pending_seq()[j].id);
                    }
                }
                assert forall|i: int, j: int|
                    0 <= i < self.pending_seq().len() && 0 <= j < self.completed_seq().len()
                    implies (#[trigger] self.pending_seq()[i]).id != (
                #[trigger] self.completed_seq()[j]).0 by {
                    if i < n {
                        assert(pre.pending_seq()[i].id != pre.completed_seq()[j].0);
                    } else {
                        if self.completed_seq()[j].0 == request@.id {
                            assert(pre.has_completed(request@.id));
                        }
                    }
                }
                assert forall|i: int|
                    0 <= i < self.pending_seq().len() implies match (
                #[trigger] self.pending_seq()[i]).correlated {
                    Some(c) => c.1.is_tool_use(),
                    None => true,
                } by {
                    if i < n {
                        assert(pre.wf());
                        assert(match pre.pending_seq()[i].correlated {
                            Some(c) => c.1.is_tool_use(),
                            None => true,
                        });
                    }
                }
            }
            self.lemma_pending_lookup(request@.id, n);
            assert(self.pending_for(request@.id) == dv);
            assert(pending_unchanged_except(pre, *self, request@.id)) by {
                assert forall|x: Seq<char>| x != request@.id implies (
                #[trigger] self.has_pending(x) <==> pre.has_pending(x)) by {
                    if self.has_pending(x) {
                        let j = self.pending_index_of(x);
                        assert(self.pending_seq()[j].id == x);
                        assert(j < n);
                        assert(pre.pending_seq()[j].id == x);
                        assert(pre.has_pending(x));
                    }
                    if pre.has_pending(x) {
                        let j = pre.pending_index_of(x);
                        assert(pre.pending_seq()[j].id == x);
                        assert(self.pending_seq()[j].id == x);
                        assert(self.has_pending(x));
                    }
                }
                assert forall|x: Seq<char>| x != request@.id && pre.has_pending(x) implies
                    #[trigger] self.pending_for(x) == pre.pending_for(x) by {
                    let j = pre.pending_index_of(x);
                    assert(pre.pending_seq()[j].id == x);
                    pre.lemma_pending_lookup(x, j);
                    self.lemma_pending_lookup(x, j);
                }
            }
        }
        Ok(())
    }
}

impl UserQuestions {
    /// Removing one position from the pending store removes exactly that
    /// id and leaves every other id's entry as it was.
    proof fn lemma_pending_remove(pre: UserQuestions, post: UserQuestions, ix: int, id: Seq<char>)
        requires
            pre.wf(),
            0 <= ix < pre.pending_seq().len(),
            pre.pending_seq()[ix].id == id,
            post.pending_seq() == pre.pending_seq().remove(ix),
        ensures
            !post.has_pending(id),
            forall|x: Seq<char>|
                x != id ==> (#[trigger] post.has_pending(x) <==> pre.has_pending(x)),
            forall|x: Seq<char>|
                x != id && pre.has_pending(x) ==> #[trigger] post.pending_for(x)
                    == pre.pending_for(x),
            forall|i: int, j: int|
                0 <= i < j < post.pending_seq().len() ==> (#[trigger] post.pending_seq()[i]).id
                    != (#[trigger] post.pending_seq()[j]).id,
            forall|i: int|
                0 <= i < post.pending_seq().len() ==> exists|j: int|
                    0 <= j < pre.pending_seq().len() && #[trigger] post.pending_seq()[i]
                        == pre.pending_seq()[j],
    {
        let pres = pre.pending_seq();
        let posts = post.pending_seq();
        assert forall|i: int| 0 <= i < posts.len() implies #[trigger] posts[i] == (if i < ix {
            pres[i]
        } else {
            pres[i + 1]
        }) by {}
        assert forall|i: int| 0 <= i < posts.len() implies exists|j: int|
            0 <= j < pres.len() && #[trigger] posts[i] == pres[j] by {
            if i < ix {
                assert(posts[i] == pres[i]);
            } else {
                assert(posts[i] == pres[i + 1]);
            }
        }
        assert forall|i: int| 0 <= i < posts.len() implies (#[trigger] posts[i]).id != id by {
            if i < ix {
                assert(pres[i].id != pres[ix].id);
            } else {
                assert(pres[ix].id != pres[i + 1].id);
            }
        }
        assert forall|i: int, j: int| 0 <= i < j < posts.len() implies (
        #[trigger] posts[i]).id != (#[trigger] posts[j]).id by {
            let i2 = if i < ix {
                i
            } else {
                i + 1
            };
            let j2 = if j < ix {
                j
            } else {
                j + 1
            };
            assert(posts[i] == pres[i2] && posts[j] == pres[j2]);
            assert(pres[i2].id != pres[j2].id);
        }
        assert forall|x: Seq<char>| x != id implies (#[trigger] post.has_pending(x)
            <==> pre.has_pending(x)) by {
            if post.has_pending(x) {
                let k = post.pending_index_of(x);
                let k2 = if k < ix {
                    k
                } else {
                    k + 1
                };
                assert(posts[k] == pres[k2]);
                assert(pres[k2].id == x);
                assert(pre.has_pending(x));
            }
            if pre.has_pending(x) {
                let k = pre.pending_index_of(x);
                assert(pres[k].id == x);
                assert(k != ix);
                if k < ix {
                    assert(posts[k] == pres[k]);
                    assert(post.has_pending(x));
                } else {
                    assert(posts[k - 1] == pres[k]);
                    assert(post.has_pending(x));
                }
            }
        }
        assert forall|x: Seq<char>| x != id && pre.has_pending(x) implies
            #[trigger] post.pending_for(x) == pre.pending_for(x) by {
            let k = pre.pending_index_of(x);
            assert(pres[k].id == x);
            pre.lemma_pending_lookup(x, k);
            assert(post.has_pending(x));
            let m = post.pending_index_of(x);
            assert(posts[m].id == x);
            let m2 = if m < ix {
                m
            } else {
                m + 1
            };
            assert(posts[m] == pres[m2]);
            if m2 < k {
                assert(pres[m2].id != pres[k].id);
            } else if k < m2 {
                assert(pres[k].id != pres[m2].id);
            }
            assert(m2 == k);
        }
    }

    /// Takes the pending decision at a position out of the store and pushes
    /// its terminal replace-patch for the given status.
    fn take_and_patch(&mut self, ix: usize, status: ToolStatus, log: &mut ConversationLog) -> (p:
        PendingDecision)
        requires
            old(self).wf(),
            ix < old(self).pending_seq().len(),
        ensures
            p@ == old(self).pending_seq()[ix as int],
            final(self).pending_seq() == old(self).pending_seq().remove(ix as int),
            final(self).completed_seq() == old(self).completed_seq(),
            terminal_patch(p@, status@, old(log)@, final(log)@),
    {
        let p = self.pending.remove(ix);
        proof {
            assert(self.pending_seq() =~= old(self).pending_seq().remove(ix as int));
            assert(p@ == (#[trigger] old(self).pending_seq()[ix as int]));
            assert(match p@.correlated {
                Some(c) => c.1.is_tool_use(),
                None => true,
            });
        }
        match &p.correlated {
            Some(c) => {
                if c.index < log.len() {
                    let term = c.entry.with_status(status);
                    log.push_replace_patch(c.index, term.unwrap());
                }
            },
            None => {},
        }
        p
    }

    /// Resolves a decision with a human response: atomically removes it
    /// from the pending store, records the outcome for late idempotency
    /// checks, and patches the correlated entry to `Success`. A second call
    /// for the same id reports `AlreadyCompleted`; an id never registered,
    /// or already timed out and consumed, reports `NotFound`. Either error
    /// leaves registry and log untouched.
    pub fn respond(&mut self, id: &String, response: UserQuestionResponse, log: &mut ConversationLog) -> (r:
        Result<UserQuestionResponse, QuestionError>)
        requires
            old(self).wf(),
        ensures
            final(self).wf(),
            old(self).has_pending(id@) ==> (r matches Ok(resp) && resp@ == response@)
                && respond_ok(*old(self), old(log)@, *final(self), final(log)@, id@, response@),
            !old(self).has_pending(id@) && old(self).has_completed(id@) ==> r == Err::<
                UserQuestionResponse,
                QuestionError,
            >(QuestionError::AlreadyCompleted) && *final(self) == *old(self) && final(log)@ == old(
                log,
            )@,
            !old(self).has_pending(id@) && !old(self).has_completed(id@) ==> r == Err::<
                UserQuestionResponse,
                QuestionError,
            >(QuestionError::NotFound) && *final(self) == *old(self) && final(log)@ == old(log)@,
    {
        let ghost pre: UserQuestions = *old(self);
        match self.find_pending(id) {
            Some(ix) => {
                proof {
                    pre.lemma_pending_lookup(id@, ix as int);
                }
                let p = self.take_and_patch(ix, ToolStatus::Success, log);
                let stored = response.clone();
                self.completed.push(CompletedDecision { id: id.clone(), response: stored });
                proof {
                    let posts = self.completed_seq();
                    let pres = pre.completed_seq();
                    let n = pres.len() as int;
                    assert(posts =~= pres.push((id@, response@)));
                    UserQuestions::lemma_pending_remove(pre, *self, ix as int, id@);
                    assert forall|j: int| 0 <= j < n implies (#[trigger] pres[j]).0 != id@ by {
                        assert(pre.pending_seq()[ix as int].id != pres[j].0);
                    }
                    self.lemma_completed_helper(pre, id@, response@);
                    assert(self.wf()) by {
                        assert forall|i: int, j: int|
                            0 <= i < self.pending_seq().len() && 0 <= j < posts.len() implies (
                        #[trigger] self.pending_seq()[i]).id != (#[trigger] posts[j]).0 by {
                            let w = choose|w: int|
                                0 <= w < pre.pending_seq().len()
                                    && #[trigger] self.pending_seq()[i] == pre.pending_seq()[w];
                            assert(self.pending_seq()[i] == pre.pending_seq()[w]);
                            if j < n {
                                assert(pre.pending_seq()[w].id != pres[j].0);
                            } else {
                                assert(posts[j].0 == id@);
                                assert(self.pending_seq()[i].id != id@);
                            }
                        }
                        assert forall|i: int|
                            0 <= i < self.pending_seq().len() implies match (
                        #[trigger] self.pending_seq()[i]).correlated {
                            Some(c) => c.1.is_tool_use(),
                            None => true,
                        } by {
                            let w = choose|w: int|
                                0 <= w < pre.pending_seq().len()
                                    && #[trigger] self.pending_seq()[i] == pre.pending_seq()[w];
                            assert(match pre.pending_seq()[w].correlated {
                                Some(c) => c.1.is_tool_use(),
                                None => true,
                            });
                        }
                    }
                }
                Ok(response)
            },
            None => {
                match self.find_completed(id) {
                    Some(_) => Err(QuestionError::AlreadyCompleted),
                    None => Err(QuestionError::NotFound),
                }
            },
        }
    }

    /// After pushing `(id, resp)` onto the completed store of a state whose
    /// completed store did not hold `id`, lookups find exactly that record
    /// and every other record unchanged.
    proof fn lemma_completed_helper(self, pre: UserQuestions, id: Seq<char>, resp: UserQuestionResponseView)
        requires
            pre.wf(),
            self.completed_seq() == pre.completed_seq().push((id, resp)),
            forall|j: int| 0 <= j < pre.completed_seq().len() ==> (#[trigger] pre.completed_seq()[j]).0 != id,
        ensures
            self.has_completed(id),
            self.completed_for(id) == resp,
            completed_unchanged_except(pre, self, id),
            forall|i: int, j: int|
                0 <= i < j < self.completed_seq().len() ==> (#[trigger] self.completed_seq()[i]).0
                    != (#[trigger] self.completed_seq()[j]).0,
    {
        let posts = self.completed_seq();
        let pres = pre.completed_seq();
        let n = pres.len() as int;
        assert(posts[n] == (id, resp));
        assert(self.has_completed(id));
        let k = self.completed_index_of(id);
        assert(posts[k].0 == id);
        assert(k == n);
        assert forall|i: int, j: int| 0 <= i < j < posts.len() implies (
        #[trigger] posts[i]).0 != (#[trigger] posts[j]).0 by {
            if j < n {
                assert(pres[i].0 != pres[j].0);
            } else {
                assert(pres[i].0 != id);
            }
        }
        assert forall|x: Seq<char>| x != id implies (#[trigger] self.has_completed(x)
            <==> pre.has_completed(x)) by {
            if self.has_completed(x) {
                let m = self.completed_index_of(x);
                assert(posts[m].0 == x);
                assert(m < n);
                assert(pres[m].0 == x);
                assert(pre.has_completed(x));
            }
            if pre.has_completed(x) {
                let m = pre.completed_index_of(x);
                assert(pres[m].0 == x);
                assert(posts[m].0 == x);
                assert(self.has_completed(x));
            }
        }
        assert forall|x: Seq<char>| x != id && pre.has_completed(x) implies
            #[trigger] self.completed_for(x) == pre.completed_for(x) by {
            let m = pre.completed_index_of(x);
            assert(pres[m].0 == x);
            pre.lemma_completed_lookup(x, m);
            assert(posts[m].0 == x);
            assert(self.has_completed(x));
            let m2 = self.completed_index_of(x);
            assert(posts[m2].0 == x);
            if m2 < n {
                if m2 < m {
                    assert(pres[m2].0 != pres[m].0);
                } else if m < m2 {
                    assert(pres[m].0 != pres[m2].0);
                }
                assert(m2 == m);
            } else {
                assert(posts[m2].0 == id);
            }
        }
    }

    /// The timeout half of the race: when the deadline passes first, this
    /// removes the decision — exactly once — and patches the correlated
    /// entry to `TimedOut`. The outcome is not recorded as completed, so a
    /// later `respond` reports `NotFound`. Returns whether a timeout was
    /// produced; a decision no longer pending is left entirely alone.
    pub fn expire(&mut self, id: &String, log: &mut ConversationLog) -> (r: bool)
        requires
            old(self).wf(),
        ensures
            final(self).wf(),
            r == old(self).has_pending(id@),
            r ==> expire_ok(*old(self), old(log)@, *final(self), final(log)@, id@),
            !r ==> *final(self) == *old(self) && final(log)@ == old(log)@,
    {
        let ghost pre: UserQuestions = *old(self);
        match self.find_pending(id) {
            Some(ix) => {
                proof {
                    pre.lemma_pending_lookup(id@, ix as int);
                }
                let p = self.take_and_patch(ix, ToolStatus::TimedOut, log);
                proof {
                    UserQuestions::lemma_pending_remove(pre, *self, ix as int, id@);
                    assert(self.wf()) by {
                        assert forall|i: int, j: int|
                            0 <= i < self.pending_seq().len() && 0 <= j
                            < self.completed_seq().len() implies (
                        #[trigger] self.pending_seq()[i]).id != (
                        #[trigger] self.completed_seq()[j]).0 by {
                            let w = choose|w: int|
                                0 <= w < pre.pending_seq().len()
                                    && #[trigger] self.pending_seq()[i] == pre.pending_seq()[w];
                            assert(pre.pending_seq()[w].id != pre.completed_seq()[j].0);
                        }
                        assert forall|i: int|
                            0 <= i < self.pending_seq().len() implies match (
                        #[trigger] self.pending_seq()[i]).correlated {
                            Some(c) => c.1.is_tool_use(),
                            None => true,
                        } by {
                            let w = choose|w: int|
                                0 <= w < pre.pending_seq().len()
                                    && #[trigger] self.pending_seq()[i] == pre.pending_seq()[w];
                            assert(match pre.pending_seq()[w].correlated {
                                Some(c) => c.1.is_tool_use(),
                                None => true,
                            });
                        }
                    }
                }
                true
            },
            None => false,
        }
    }

    /// One step of the timeout race, decided after the select: when the
    /// waiter yielded an outcome, the racer touches nothing; when the timer
    /// won, it expires the decision, and a decision already resolved in the
    /// same instant is a benign no-op. Returns whether a timeout was
    /// produced.
    pub fn racer_step(
        &mut self,
        id: &String,
        outcome: Option<&UserQuestionResponse>,
        log: &mut ConversationLog,
    ) -> (r: bool)
        requires
            old(self).wf(),
        ensures
            final(self).wf(),
            outcome is Some ==> !r && *final(self) == *old(self) && final(log)@ == old(log)@,
            outcome is None ==> r == old(self).has_pending(id@),
            outcome is None && r ==> expire_ok(
                *old(self),
                old(log)@,
                *final(self),
                final(log)@,
                id@,
            ),
            outcome is None && !r ==> *final(self) == *old(self) && final(log)@ == old(log)@,
    {
        match outcome {
            Some(_) => false,
            None => self.expire(id, log),
        }
    }
}

/// How long the racer's timer should wait, in milliseconds: the time until
/// the deadline, and zero — an immediate timeout, never a negative sleep —
/// for a deadline already in the past.
pub fn timeout_wait_millis(now: i64, timeout_at: i64) -> (r: i64)
    requires
        -9100000000000000 <= now <= 9100000000000000,
        -9100000000000000 <= timeout_at <= 9100000000000000,
    ensures
        r == if timeout_at > now {
            timeout_at - now
        } else {
            0
        },
        r >= 0,
{
    if timeout_at > now {
        timeout_at - now
    } else {
        0
    }
}

/// For one id, at most one resolution succeeds. After a successful
/// `respond`, the id is out of the pending store and in the completed
/// store, so by `respond`'s contract every further `respond` for it
/// reports `AlreadyCompleted` and leaves both registry and log unchanged:
/// success happens once, and the log is patched exactly once.
pub proof fn lemma_resolve_at_most_once(
    pre: UserQuestions,
    lpre: Seq<LogEntryView>,
    post: UserQuestions,
    lpost: Seq<LogEntryView>,
    id: Seq<char>,
    resp: UserQuestionResponseView,
)
    requires
        pre.wf(),
        respond_ok(pre, lpre, post, lpost, id, resp),
    ensures
        !post.has_pending(id),
        post.has_completed(id),
        post.completed_for(id) == resp,
{
}

/// A decision times out exactly once. After one expiry, the id is out of
/// the pending store, so by `expire`'s contract every further expiry is a
/// no-op, and by `respond`'s contract a late response reports `NotFound`;
/// the correlated entry, if its position exists in the log, now shows
/// `TimedOut`.
pub proof fn lemma_timeout_exactly_once(
    pre: UserQuestions,
    lpre: Seq<LogEntryView>,
    post: UserQuestions,
    lpost: Seq<LogEntryView>,
    id: Seq<char>,
)
    requires
        pre.wf(),
        expire_ok(pre, lpre, post, lpost, id),
    ensures
        !post.has_pending(id),
        !pre.has_completed(id) ==> !post.has_completed(id),
        match pre.pending_for(id).correlated {
            Some(c) => 0 <= c.0 < lpre.len() ==> lpost[c.0] == c.1.with_status_view(
                ToolStatusView::TimedOut,
            ) && lpost[c.0].status() is TimedOut,
            None => true,
        },
{
}

/// When a human response wins the race, the racer mutates nothing: the id
/// it would expire is no longer pending, so by `expire`'s contract its
/// late step leaves registry and log unchanged, and the correlated entry
/// keeps the `Success` status the response gave it — not `TimedOut` — even
/// when the deadline fell in the same instant.
pub proof fn lemma_human_response_wins(
    pre: UserQuestions,
    lpre: Seq<LogEntryView>,
    post: UserQuestions,
    lpost: Seq<LogEntryView>,
    id: Seq<char>,
    resp: UserQuestionResponseView,
)
    requires
        pre.wf(),
        respond_ok(pre, lpre, post, lpost, id, resp),
    ensures
        !post.has_pending(id),
        match pre.pending_for(id).correlated {
            Some(c) => 0 <= c.0 < lpre.len() ==> lpost[c.0] == c.1.with_status_view(
                ToolStatusView::Success,
            ) && lpost[c.0].status() is Success && !(lpost[c.0].status() is TimedOut),
            None => true,
        },
{
}

/// A registered decision that expires — for instance one whose timeout
/// duration was zero — yields a timeout outcome, and its correlated entry,
/// when one was found, ends in the `TimedOut` status.
pub proof fn lemma_register_then_expire(
    pre: UserQuestions,
    lpre: Seq<LogEntryView>,
    mid: UserQuestions,
    lmid: Seq<LogEntryView>,
    post: UserQuestions,
    lpost: Seq<LogEntryView>,
    req: crate::questions::UserQuestionRequestView,
)
    requires
        pre.wf(),
        register_ok(pre, lpre, mid, lmid, req),
        expire_ok(mid, lmid, post, lpost, req.id),
    ensures
        !post.has_pending(req.id),
        !pre.has_completed(req.id) ==> !post.has_completed(req.id),
        has_match(lpre, req.tool_call_id) ==> {
            let i = newest_match(lpre, req.tool_call_id);
            &&& lpost[i] == lpre[i].with_status_view(ToolStatusView::TimedOut)
            &&& lpost[i].status() is TimedOut
        },
{
    if has_match(lpre, req.tool_call_id) {
        lemma_newest_match_properties(lpre, req.tool_call_id);
        let i = newest_match(lpre, req.tool_call_id);
        assert(mid.pending_for(req.id).correlated == Some((i, lpre[i])));
        assert(lmid.len() == lpre.len());
        assert(lpost == lmid.update(i, lpre[i].with_status_view(ToolStatusView::TimedOut)));
    }
}

/// Finds the entry a call id correlates to: scanning the log newest-first,
/// the first tool-use entry still in its initial `Created` state whose
/// metadata names the call id. Scanning newest-first over unclaimed entries
/// ties a reused call id to its most recent invocation, and each entry to
/// at most one decision.
pub fn find_matching_tool_use(log: &ConversationLog, tool_call_id: &str) -> (r: Option<usize>)
    ensures
        r matches Some(i) ==> 0 <= i < log@.len() && log@[i as int].matches_call(tool_call_id@)
            && forall|j: int| i < j < log@.len() ==> !(#[trigger] log@[j]).matches_call(
            tool_call_id@,
        ),
        r is None ==> forall|j: int|
            0 <= j < log@.len() ==> !(#[trigger] log@[j]).matches_call(tool_call_id@),
{
    let mut i: usize = log.len();
    while i > 0
        invariant
            i <= log@.len(),
            forall|j: int| i <= j < log@.len() ==> !(#[trigger] log@[j]).matches_call(tool_call_id@),
        decreases i,
    {
        i -= 1;
        let entry = log.entry_at(i);
        let is_created_tool_use = match &entry.body {
            crate::log::EntryBody::ToolUse { status } => match status {
                ToolStatus::Created => true,
                _ => false,
            },
            _ => false,
        };
        if is_created_tool_use {
            if let Some(metadata) = &entry.metadata {
                if str_eq(metadata.tool_call_id.as_str(), tool_call_id) {
                    return Some(i);
                }
            }
        }
        proof {
            assert(!log@[i as int].matches_call(tool_call_id@));
        }
    }
    None
}

} // verus!
