//! A model of the conversation log: an append-only sequence of normalized
//! entries to which the decision core pushes positional replace-patches.
//! Entries are never deleted or reordered; a tool-use entry carries a status
//! that moves through a small state machine.

use vstd::prelude::*;

use crate::approvals::{ToolCallMetadata, ToolCallMetadataView};
use crate::questions::{UserQuestion, UserQuestionView, clone_questions, questions_view};

verus! {

/// Where a tool-use entry stands: freshly created, waiting on a human, or in
/// a terminal state.
#[derive(Debug)]
pub enum ToolStatus {
    Created,
    PendingApproval,
    PendingQuestion {
        question_id: String,
        requested_at: i64,
        timeout_at: i64,
        questions: Vec<UserQuestion>,
    },
    Success,
    Denied,
    TimedOut,
}

/// The mathematical value of a `ToolStatus`.
#[verifier::ext_equal]
pub enum ToolStatusView {
    Created,
    PendingApproval,
    PendingQuestion {
        question_id: Seq<char>,
        requested_at: int,
        timeout_at: int,
        questions: Seq<UserQuestionView>,
    },
    Success,
    Denied,
    TimedOut,
}

impl View for ToolStatus {
    type V = ToolStatusView;

    open spec fn view(&self) -> ToolStatusView {
        match self {
            ToolStatus::Created => ToolStatusView::Created,
            ToolStatus::PendingApproval => ToolStatusView::PendingApproval,
            ToolStatus::PendingQuestion { question_id, requested_at, timeout_at, questions } => {
                ToolStatusView::PendingQuestion {
                    question_id: question_id@,
                    requested_at: *requested_at as int,
                    timeout_at: *timeout_at as int,
                    questions: questions@.map_values(|q: UserQuestion| q@),
                }
            },
            ToolStatus::Success => ToolStatusView::Success,
            ToolStatus::Denied => ToolStatusView::Denied,
            ToolStatus::TimedOut => ToolStatusView::TimedOut,
        }
    }
}

impl Clone for ToolStatus {
    fn clone(&self) -> (r: Self)
        ensures
            r@ == self@,
    {
        match self {
            ToolStatus::Created => ToolStatus::Created,
            ToolStatus::PendingApproval => ToolStatus::PendingApproval,
            ToolStatus::PendingQuestion { question_id, requested_at, timeout_at, questions } => {
                let r = ToolStatus::PendingQuestion {
                    question_id: question_id.clone(),
                    requested_at: *requested_at,
                    timeout_at: *timeout_at,
                    questions: clone_questions(questions),
                };
                proof {
                    assert(r@ =~= self@);
                }
                r
            },
            ToolStatus::Success => ToolStatus::Success,
            ToolStatus::Denied => ToolStatus::Denied,
            ToolStatus::TimedOut => ToolStatus::TimedOut,
        }
    }
}

/// What kind of entry this is: a tool invocation, or anything else.
#[derive(Debug)]
pub enum EntryBody {
    ToolUse { status: ToolStatus },
    Message,
}

/// The mathematical value of an `EntryBody`.
#[verifier::ext_equal]
pub enum EntryBodyView {
    ToolUse { status: ToolStatusView },
    Message,
}

impl View for EntryBody {
    type V = EntryBodyView;

    open spec fn view(&self) -> EntryBodyView {
        match self {
            EntryBody::ToolUse { status } => EntryBodyView::ToolUse { status: status@ },
            EntryBody::Message => EntryBodyView::Message,
        }
    }
}

/// One normalized entry of the conversation log.
#[derive(Debug)]
pub struct LogEntry {
    pub body: EntryBody,
    pub metadata: Option<ToolCallMetadata>,
    pub content: String,
}

/// The mathematical value of a `LogEntry`.
#[verifier::ext_equal]
pub struct LogEntryView {
    pub body: EntryBodyView,
    pub metadata: Option<ToolCallMetadataView>,
    pub content: Seq<char>,
}

impl View for LogEntry {
    type V = LogEntryView;

    open spec fn view(&self) -> LogEntryView {
        LogEntryView {
            body: match self.body {
                EntryBody::ToolUse { status } => EntryBodyView::ToolUse { status: status@ },
                EntryBody::Message => EntryBodyView::Message,
            },
            metadata: match self.metadata {
                Some(m) => Some(m@),
                None => None,
            },
            content: self.content@,
        }
    }
}

impl LogEntryView {
    /// Whether this entry is a tool invocation.
    pub open spec fn is_tool_use(self) -> bool {
        self.body is ToolUse
    }

    /// The status of a tool-use entry.
    pub open spec fn status(self) -> ToolStatusView {
        self.body->status
    }

    /// The same entry with its status replaced.
    pub open spec fn with_status_view(self, status: ToolStatusView) -> LogEntryView {
        LogEntryView { body: EntryBodyView::ToolUse { status }, ..self }
    }

    /// Whether this entry is the unclaimed tool invocation for a call id:
    /// a tool-use entry, still in its initial state, whose metadata names
    /// that call id.
    pub open spec fn matches_call(self, call_id: Seq<char>) -> bool {
        &&& self.body matches EntryBodyView::ToolUse { status: ToolStatusView::Created }
        &&& self.metadata matches Some(m) && m.tool_call_id == call_id
    }
}

impl Clone for LogEntry {
    fn clone(&self) -> (r: Self)
        ensures
            r@ == self@,
    {
        let r = LogEntry {
            body: match &self.body {
                EntryBody::ToolUse { status } => EntryBody::ToolUse { status: status.clone() },
                EntryBody::Message => EntryBody::Message,
            },
            metadata: match &self.metadata {
                Some(m) => Some(m.clone()),
                None => None,
            },
            content: self.content.clone(),
        };
        proof {
            assert(r@ =~= self@);
        }
        r
    }
}

impl LogEntry {
    /// A copy of this entry with the given status, when the entry is a tool
    /// invocation; nothing otherwise.
    pub fn with_status(&self, status: ToolStatus) -> (r: Option<LogEntry>)
        ensures
            r is Some <==> self@.is_tool_use(),
            r matches Some(e) ==> e@ == self@.with_status_view(status@),
    {
        match &self.body {
            EntryBody::ToolUse { status: _ } => {
                let r = LogEntry {
                    body: EntryBody::ToolUse { status },
                    metadata: match &self.metadata {
                        Some(m) => Some(m.clone()),
                        None => None,
                    },
                    content: self.content.clone(),
                };
                proof {
                    assert(r@ =~= self@.with_status_view(status@));
                }
                Some(r)
            },
            EntryBody::Message => None,
        }
    }
}

/// The conversation log itself. The core only appends entries and replaces
/// single entries in place, so positions, once taken, are stable.
#[derive(Debug)]
pub struct ConversationLog {
    pub entries: Vec<LogEntry>,
}

impl View for ConversationLog {
    type V = Seq<LogEntryView>;

    open spec fn view(&self) -> Seq<LogEntryView> {
        self.entries@.map_values(|e: LogEntry| e@)
    }
}

impl ConversationLog {
    /// An empty log.
    pub fn new() -> (r: ConversationLog)
        ensures
            r@ == Seq::<LogEntryView>::empty(),
    {
        let r = ConversationLog { entries: Vec::new() };
        proof {
            assert(r@ =~= Seq::<LogEntryView>::empty());
        }
        r
    }

    /// How many entries the log holds.
    pub fn len(&self) -> (r: usize)
        ensures
            r == self@.len(),
    {
        self.entries.len()
    }

    /// Appends one entry at the end.
    pub fn push_entry(&mut self, entry: LogEntry)
        ensures
            final(self)@ == old(self)@.push(entry@),
    {
        self.entries.push(entry);
        proof {
            assert(self@ =~= old(self)@.push(entry@));
        }
    }

    /// A borrow of the entry at a position.
    pub fn entry_at(&self, index: usize) -> (r: &LogEntry)
        requires
            index < self@.len(),
        ensures
            r@ == self@[index as int],
    {
        &self.entries[index]
    }

    /// The positional replace-patch: puts a new entry at an existing
    /// position, leaving every other entry as it was.
    pub fn push_replace_patch(&mut self, index: usize, entry: LogEntry)
        requires
            index < old(self)@.len(),
        ensures
            final(self)@ == old(self)@.update(index as int, entry@),
    {
        self.entries.set(index, entry);
        proof {
            assert(self@ =~= old(self)@.update(index as int, entry@));
        }
    }
}

} // verus!
