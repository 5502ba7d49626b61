//! Import planning for externally tracked tasks: mapping their status
//! groups, previewing an import with duplicate detection, selecting the
//! requested tasks, and summarizing what an import run did.

use vstd::prelude::*;

use crate::text::{lower_of, lowercase, str_eq};

verus! {

/// The status a task is created with.
#[derive(Debug, Clone, Copy, PartialEq, Eq, Structural)]
pub enum TaskStatus {
    Todo,
    InProgress,
    InReview,
    Done,
    Cancelled,
}

/// The status a task's external status group maps to; anything unknown
/// lands in the backlog.
pub open spec fn status_of_group(s: Seq<char>) -> TaskStatus {
    if s == "to_do"@ {
        TaskStatus::Todo
    } else if s == "in_progress"@ {
        TaskStatus::InProgress
    } else if s == "complete"@ {
        TaskStatus::Done
    } else {
        TaskStatus::Todo
    }
}

/// Maps an external status group onto a task status.
pub fn map_status_group(status_group: &str) -> (r: TaskStatus)
    ensures
        r == status_of_group(status_group@),
{
    if str_eq(status_group, "to_do") {
        TaskStatus::Todo
    } else if str_eq(status_group, "in_progress") {
        TaskStatus::InProgress
    } else if str_eq(status_group, "complete") {
        TaskStatus::Done
    } else {
        TaskStatus::Todo
    }
}

/// An externally tracked task as imported from the task stream.
#[derive(Debug)]
pub struct NotionTask {
    pub id: String,
    pub task_id: String,
    pub title: String,
    pub branch_name: String,
    pub status: String,
    pub status_group: String,
    pub task_type: Option<String>,
    pub url: String,
    pub content_markdown: Option<String>,
}

/// The mathematical value of a `NotionTask`.
#[verifier::ext_equal]
pub struct NotionTaskView {
    pub id: Seq<char>,
    pub task_id: Seq<char>,
    pub title: Seq<char>,
    pub branch_name: Seq<char>,
    pub status: Seq<char>,
    pub status_group: Seq<char>,
    pub task_type: Option<Seq<char>>,
    pub url: Seq<char>,
    pub content_markdown: Option<Seq<char>>,
}

impl View for NotionTask {
    type V = NotionTaskView;

    open spec fn view(&self) -> NotionTaskView {
        NotionTaskView {
            id: self.id@,
            task_id: self.task_id@,
            title: self.title@,
            branch_name: self.branch_name@,
            status: self.status@,
            status_group: self.status_group@,
            task_type: match self.task_type {
                Some(t) => Some(t@),
                None => None,
            },
            url: self.url@,
            content_markdown: match self.content_markdown {
                Some(c) => Some(c@),
                None => None,
            },
        }
    }
}

impl Clone for NotionTask {
    fn clone(&self) -> (r: Self)
        ensures
            r@ == self@,
    {
        let r = NotionTask {
            id: self.id.clone(),
            task_id: self.task_id.clone(),
            title: self.title.clone(),
            branch_name: self.branch_name.clone(),
            status: self.status.clone(),
            status_group: self.status_group.clone(),
            task_type: match &self.task_type {
                Some(t) => Some(t.clone()),
                None => None,
            },
            url: self.url.clone(),
            content_markdown: match &self.content_markdown {
                Some(c) => Some(c.clone()),
                None => None,
            },
        };
        proof {
            assert(r@ =~= self@);
        }
        r
    }
}

/// The values of a sequence of tasks.
pub open spec fn task_views(ts: Seq<NotionTask>) -> Seq<NotionTaskView> {
    ts.map_values(|t: NotionTask| t@)
}

/// The values of a sequence of strings.
pub open spec fn string_views(ss: Seq<String>) -> Seq<Seq<char>> {
    ss.map_values(|s: String| s@)
}

/// Preview item showing import status for one task.
#[derive(Debug)]
pub struct NotionImportPreviewItem {
    pub notion_id: String,
    pub task_id: String,
    pub title: String,
    pub description: Option<String>,
    pub status: TaskStatus,
    pub url: String,
    pub will_import: bool,
    pub skip_reason: Option<String>,
}

/// The mathematical value of a `NotionImportPreviewItem`.
#[verifier::ext_equal]
pub struct NotionImportPreviewItemView {
    pub notion_id: Seq<char>,
    pub task_id: Seq<char>,
    pub title: Seq<char>,
    pub description: Option<Seq<char>>,
    pub status: TaskStatus,
    pub url: Seq<char>,
    pub will_import: bool,
    pub skip_reason: Option<Seq<char>>,
}

impl View for NotionImportPreviewItem {
    type V = NotionImportPreviewItemView;

    open spec fn view(&self) -> NotionImportPreviewItemView {
        NotionImportPreviewItemView {
            notion_id: self.notion_id@,
            task_id: self.task_id@,
            title: self.title@,
            description: match self.description {
                Some(d) => Some(d@),
                None => None,
            },
            status: self.status,
            url: self.url@,
            will_import: self.will_import,
            skip_reason: match self.skip_reason {
                Some(s) => Some(s@),
                None => None,
            },
        }
    }
}

/// Preview response.
#[derive(Debug)]
pub struct NotionImportPreviewResponse {
    pub tasks: Vec<NotionImportPreviewItem>,
    pub total_count: usize,
    pub importable_count: usize,
    pub duplicate_count: usize,
}

/// Import request: which tasks to import.
#[derive(Debug)]
pub struct NotionImportRequest {
    pub notion_ids: Vec<String>,
}

/// Import result.
#[derive(Debug)]
pub struct NotionImportResponse {
    pub imported_count: usize,
    pub skipped_count: usize,
    pub errors: Vec<NotionImportError>,
}

/// One task that could not be created.
#[derive(Debug)]
pub struct NotionImportError {
    pub notion_id: String,
    pub title: String,
    pub error: String,
}

/// The mathematical value of a `NotionImportError`.
#[verifier::ext_equal]
pub struct NotionImportErrorView {
    pub notion_id: Seq<char>,
    pub title: Seq<char>,
    pub error: Seq<char>,
}

impl View for NotionImportError {
    type V = NotionImportErrorView;

    open spec fn view(&self) -> NotionImportErrorView {
        NotionImportErrorView { notion_id: self.notion_id@, title: self.title@, error: self.error@ }
    }
}

/// Whether a title, compared case-insensitively, already occurs among the
/// existing titles.
pub open spec fn is_duplicate(title: Seq<char>, existing: Seq<Seq<char>>) -> bool {
    exists|j: int| 0 <= j < existing.len() && lower_of(#[trigger] existing[j]) == lower_of(title)
}

/// How many of the tasks are duplicates of existing titles.
pub open spec fn dup_count(tasks: Seq<NotionTaskView>, existing: Seq<Seq<char>>) -> nat
    decreases tasks.len(),
{
    if tasks.len() == 0 {
        0
    } else {
        dup_count(tasks.drop_last(), existing) + (if is_duplicate(tasks.last().title, existing) {
            1nat
        } else {
            0nat
        })
    }
}

/// The preview line for one task: a duplicate is marked as skipped, with
/// the reason spelled out; everything else will import.
pub open spec fn preview_item_of(t: NotionTaskView, dup: bool) -> NotionImportPreviewItemView {
    NotionImportPreviewItemView {
        notion_id: t.id,
        task_id: t.task_id,
        title: t.title,
        description: t.content_markdown,
        status: status_of_group(t.status_group),
        url: t.url,
        will_import: !dup,
        skip_reason: if dup {
            Some("Task with same title already exists"@)
        } else {
            None
        },
    }
}

/// Builds the import preview: each task is lined up with whether it will
/// import, duplicates — tasks whose title, case-insensitively, already
/// exists — are counted and marked skipped, and the counts add up.
pub fn preview_notion_import(tasks: &Vec<NotionTask>, existing_titles: &Vec<String>) -> (r:
    NotionImportPreviewResponse)
    ensures
        r.tasks@.len() == tasks@.len(),
        forall|k: int|
            0 <= k < tasks@.len() ==> (#[trigger] r.tasks@[k])@ == preview_item_of(
                task_views(tasks@)[k],
                is_duplicate(task_views(tasks@)[k].title, string_views(existing_titles@)),
            ),
        r.total_count == tasks@.len(),
        r.duplicate_count == dup_count(task_views(tasks@), string_views(existing_titles@)),
        r.importable_count == tasks@.len() - dup_count(
            task_views(tasks@),
            string_views(existing_titles@),
        ),
{
    let ghost tv = task_views(tasks@);
    let ghost ev = string_views(existing_titles@);
    let mut lowered: Vec<String> = Vec::new();
    let mut j: usize = 0;
    while j < existing_titles.len()
        invariant
            j <= existing_titles@.len(),
            ev == string_views(existing_titles@),
            lowered@.len() == j,
            forall|k: int| 0 <= k < j ==> (#[trigger] lowered@[k])@ == lower_of(ev[k]),
        decreases existing_titles.len() - j,
    {
        lowered.push(lowercase(existing_titles[j].as_str()));
        j += 1;
    }
    let mut items: Vec<NotionImportPreviewItem> = Vec::new();
    let mut duplicate_count: usize = 0;
    let mut i: usize = 0;
    while i < tasks.len()
        invariant
            i <= tasks@.len(),
            tv == task_views(tasks@),
            ev == string_views(existing_titles@),
            lowered@.len() == ev.len(),
            forall|k: int| 0 <= k < ev.len() ==> (#[trigger] lowered@[k])@ == lower_of(ev[k]),
            items@.len() == i,
            duplicate_count <= i,
            duplicate_count == dup_count(tv.subrange(0, i as int), ev),
            forall|k: int|
                0 <= k < i ==> (#[trigger] items@[k])@ == preview_item_of(
                    tv[k],
                    is_duplicate(tv[k].title, ev),
                ),
        decreases tasks.len() - i,
    {
        let task = &tasks[i];
        let title_lower = lowercase(task.title.as_str());
        let mut dup: bool = false;
        let mut k: usize = 0;
        while k < lowered.len() && !dup
            invariant
                k <= ev.len(),
                lowered@.len() == ev.len(),
                forall|m: int| 0 <= m < ev.len() ==> (#[trigger] lowered@[m])@ == lower_of(ev[m]),
                title_lower@ == lower_of(tv[i as int].title),
                i < tv.len(),
                tv == task_views(tasks@),
                if dup {
                    is_duplicate(tv[i as int].title, ev)
                } else {
                    forall|m: int| 0 <= m < k ==> lower_of(#[trigger] ev[m]) != lower_of(
                        tv[i as int].title,
                    )
                },
            decreases ev.len() - k + (if dup {
                0int
            } else {
                1int
            }),
        {
            if str_eq(lowered[k].as_str(), title_lower.as_str()) {
                dup = true;
            } else {
                k += 1;
            }
        }
        proof {
            if !dup {
                assert(!is_duplicate(tv[i as int].title, ev));
            }
        }
        if dup {
            duplicate_count += 1;
        }
        let item = NotionImportPreviewItem {
            notion_id: task.id.clone(),
            task_id: task.task_id.clone(),
            title: task.title.clone(),
            description: match &task.content_markdown {
                Some(c) => Some(c.clone()),
                None => None,
            },
            status: map_status_group(task.status_group.as_str()),
            url: task.url.clone(),
            will_import: !dup,
            skip_reason: if dup {
                Some(String::from_str("Task with same title already exists"))
            } else {
                None
            },
        };
        proof {
            assert(item@ =~= preview_item_of(tv[i as int], dup));
            let cur = tv.subrange(0, i + 1 as int);
            assert(cur.drop_last() =~= tv.subrange(0, i as int));
            assert(cur.last() == tv[i as int]);
        }
        items.push(item);
        i += 1;
    }
    proof {
        assert(tv.subrange(0, tv.len() as int) =~= tv);
    }
    let total_count = tasks.len();
    NotionImportPreviewResponse {
        tasks: items,
        total_count,
        importable_count: total_count - duplicate_count,
        duplicate_count,
    }
}

/// Whether an id is among the requested ids.
pub open spec fn id_requested(id: Seq<char>, requested: Seq<Seq<char>>) -> bool {
    exists|j: int| 0 <= j < requested.len() && #[trigger] requested[j] == id
}

/// The tasks whose ids were requested, in their original order.
pub open spec fn selected_tasks(
    tasks: Seq<NotionTaskView>,
    requested: Seq<Seq<char>>,
) -> Seq<NotionTaskView>
    decreases tasks.len(),
{
    if tasks.len() == 0 {
        Seq::empty()
    } else {
        selected_tasks(tasks.drop_last(), requested) + (if id_requested(
            tasks.last().id,
            requested,
        ) {
            seq![tasks.last()]
        } else {
            Seq::<NotionTaskView>::empty()
        })
    }
}

/// Filters the fetched tasks down to the ones whose ids the import request
/// names.
pub fn select_tasks_to_import(tasks: &Vec<NotionTask>, requested: &Vec<String>) -> (r: Vec<
    NotionTask,
>)
    ensures
        task_views(r@) == selected_tasks(task_views(tasks@), string_views(requested@)),
{
    let ghost tv = task_views(tasks@);
    let ghost rv = string_views(requested@);
    let mut out: Vec<NotionTask> = Vec::new();
    let mut i: usize = 0;
    while i < tasks.len()
        invariant
            i <= tasks@.len(),
            tv == task_views(tasks@),
            rv == string_views(requested@),
            task_views(out@) == selected_tasks(tv.subrange(0, i as int), rv),
        decreases tasks.len() - i,
    {
        let task = &tasks[i];
        let mut wanted: bool = false;
        let mut k: usize = 0;
        while k < requested.len() && !wanted
            invariant
                k <= rv.len(),
                rv == string_views(requested@),
                i < tv.len(),
                tv == task_views(tasks@),
                i < tasks@.len(),
                *task == tasks@[i as int],
                if wanted {
                    id_requested(tv[i as int].id, rv)
                } else {
                    forall|m: int| 0 <= m < k ==> #[trigger] rv[m] != tv[i as int].id
                },
            decreases rv.len() - k + (if wanted {
                0int
            } else {
                1int
            }),
        {
            let hit = str_eq(requested[k].as_str(), task.id.as_str());
            proof {
                assert(rv[k as int] == requested@[k as int]@);
                assert(tv[i as int] == tasks@[i as int]@);
                assert(tv[i as int].id == task.id@);
            }
            if hit {
                proof {
                    assert(rv[k as int] == tv[i as int].id);
                    assert(id_requested(tv[i as int].id, rv));
                }
                wanted = true;
            } else {
                proof {
                    assert(rv[k as int] != tv[i as int].id);
                }
                k += 1;
            }
        }
        proof {
            if !wanted {
                assert(!id_requested(tv[i as int].id, rv));
            }
            let cur = tv.subrange(0, i + 1 as int);
            assert(cur.drop_last() =~= tv.subrange(0, i as int));
            assert(cur.last() == tv[i as int]);
        }
        if wanted {
            out.push(task.clone());
            proof {
                assert(task_views(out@) =~= selected_tasks(tv.subrange(0, i + 1 as int), rv));
            }
        } else {
            proof {
                assert(task_views(out@) =~= selected_tasks(tv.subrange(0, i + 1 as int), rv));
            }
        }
        i += 1;
    }
    proof {
        assert(tv.subrange(0, tv.len() as int) =~= tv);
    }
    out
}

/// What one attempted task creation came to.
#[derive(Debug)]
pub struct NotionImportAttempt {
    pub notion_id: String,
    pub title: String,
    pub error: Option<String>,
}

/// The mathematical value of a `NotionImportAttempt`.
#[verifier::ext_equal]
pub struct NotionImportAttemptView {
    pub notion_id: Seq<char>,
    pub title: Seq<char>,
    pub error: Option<Seq<char>>,
}

impl View for NotionImportAttempt {
    type V = NotionImportAttemptView;

    open spec fn view(&self) -> NotionImportAttemptView {
        NotionImportAttemptView {
            notion_id: self.notion_id@,
            title: self.title@,
            error: match self.error {
                Some(e) => Some(e@),
                None => None,
            },
        }
    }
}

/// The values of a sequence of attempts.
pub open spec fn attempt_views(a: Seq<NotionImportAttempt>) -> Seq<NotionImportAttemptView> {
    a.map_values(|x: NotionImportAttempt| x@)
}

/// How many attempts succeeded.
pub open spec fn ok_count(attempts: Seq<NotionImportAttemptView>) -> nat
    decreases attempts.len(),
{
    if attempts.len() == 0 {
        0
    } else {
        ok_count(attempts.drop_last()) + (if attempts.last().error is None {
            1nat
        } else {
            0nat
        })
    }
}

/// The error lines of the failed attempts, in order.
pub open spec fn failed_errors(attempts: Seq<NotionImportAttemptView>) -> Seq<
    NotionImportErrorView,
>
    decreases attempts.len(),
{
    if attempts.len() == 0 {
        Seq::empty()
    } else {
        failed_errors(attempts.drop_last()) + (match attempts.last().error {
            Some(e) => seq![
                NotionImportErrorView {
                    notion_id: attempts.last().notion_id,
                    title: attempts.last().title,
                    error: e,
                },
            ],
            None => Seq::<NotionImportErrorView>::empty(),
        })
    }
}

/// Summarizes an import run: how many tasks were created, the error line
/// of each failure, and how many requested ids were skipped because they
/// were never attempted.
pub fn summarize_notion_import(requested_count: usize, attempts: &Vec<NotionImportAttempt>) -> (r:
    NotionImportResponse)
    requires
        attempts@.len() <= requested_count,
    ensures
        r.imported_count == ok_count(attempt_views(attempts@)),
        r.errors@.map_values(|e: NotionImportError| e@) == failed_errors(attempt_views(attempts@)),
        r.imported_count + r.errors@.len() == attempts@.len(),
        r.skipped_count == requested_count - r.imported_count - r.errors@.len(),
{
    let ghost av = attempt_views(attempts@);
    let mut imported_count: usize = 0;
    let mut errors: Vec<NotionImportError> = Vec::new();
    let mut i: usize = 0;
    proof {
        assert(errors@.map_values(|e: NotionImportError| e@) =~= Seq::<
            NotionImportErrorView,
        >::empty());
    }
    while i < attempts.len()
        invariant
            i <= attempts@.len(),
            av == attempt_views(attempts@),
            imported_count == ok_count(av.subrange(0, i as int)),
            errors@.map_values(|e: NotionImportError| e@) == failed_errors(
                av.subrange(0, i as int),
            ),
            imported_count + errors@.len() == i,
        decreases attempts.len() - i,
    {
        let attempt = &attempts[i];
        proof {
            let cur = av.subrange(0, i + 1 as int);
            assert(cur.drop_last() =~= av.subrange(0, i as int));
            assert(cur.last() == av[i as int]);
        }
        match &attempt.error {
            None => {
                imported_count += 1;
            },
            Some(e) => {
                errors.push(
                    NotionImportError {
                        notion_id: attempt.notion_id.clone(),
                        title: attempt.title.clone(),
                        error: e.clone(),
                    },
                );
                proof {
                    assert(errors@.map_values(|x: NotionImportError| x@) =~= failed_errors(
                        av.subrange(0, i + 1 as int),
                    ));
                }
            },
        }
        i += 1;
    }
    proof {
        assert(av.subrange(0, av.len() as int) =~= av);
    }
    let skipped_count = requested_count - imported_count - errors.len();
    NotionImportResponse { imported_count, skipped_count, errors }
}

} // verus!
