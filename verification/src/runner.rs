//! The task runner's side of a launch: which task a request stands for, and
//! what all tasks have in common.
//!
//! The worker itself, its channel and its flag belong to the host. Whatever
//! the kind of task, the worker does the same: it advances the task event
//! by event, sends the lines on, and performs the action asked for until
//! none is asked.

use vstd::prelude::*;
use crate::archive::fresh_extract;
use crate::duplicates::{
    find_duplicates_progress,
    fresh_scan,
    scan_task_transition,
    DuplicatesTask,
    ScanPhase,
    ScanView,
};
use crate::host::{ActionView, Event, EventView};
use crate::packing::fresh_create;
use crate::secure::{
    secure_delete_progress,
    secure_transition,
    SecureDeleteTask,
    SecurePhase,
    SecureView,
};
use crate::task::{
    archive_create_progress,
    archive_extract_progress,
    archive_task_transition,
    is_silent,
    ArchiveTask,
    ArchiveTaskView,
    ArchiveWorkView,
    TaskPhase,
    TaskStep,
    TaskStepView,
};
use crate::text::lines_of;
use crate::tool::{borrowed, optional_string};

verus! {

/// A long operation that can be launched as a task, with its parameters.
pub enum TaskRequest {
    /// Unpack the archive at `path` into `dest`.
    Extract { path: String, dest: String, password: Option<String> },
    /// Create the archive `output` from `sources`.
    Create { sources: Vec<String>, output: String, format: Option<String>, password: Option<String> },
    /// Scan the directory `dir` for files with the same content.
    FindDuplicates { dir: String },
    /// Overwrite the file at `path` and remove it.
    SecureDelete { path: String },
}

/// A task of any kind.
pub enum Task {
    Archive(ArchiveTask),
    Scan(DuplicatesTask),
    Wipe(SecureDeleteTask),
}

/// A [`Task`] as a mathematical value.
pub enum TaskView {
    Archive(ArchiveTaskView),
    Scan(ScanView),
    Wipe(SecureView),
}

impl View for Task {
    type V = TaskView;

    open spec fn view(&self) -> TaskView {
        match *self {
            Task::Archive(t) => TaskView::Archive(t@),
            Task::Scan(t) => TaskView::Scan(t@),
            Task::Wipe(t) => TaskView::Wipe(t@),
        }
    }
}

/// The task that a request stands for, before it has begun.
pub open spec fn fresh_task(request: TaskRequest) -> TaskView {
    match request {
        TaskRequest::Extract { path, dest, password } => TaskView::Archive(
            ArchiveTaskView {
                phase: TaskPhase::Fresh,
                work: ArchiveWorkView::Extract(
                    fresh_extract(path@, dest@, optional_string(password)),
                ),
            },
        ),
        TaskRequest::Create { sources, output, format, password } => TaskView::Archive(
            ArchiveTaskView {
                phase: TaskPhase::Fresh,
                work: ArchiveWorkView::Create(
                    fresh_create(
                        lines_of(sources@),
                        output@,
                        optional_string(format),
                        optional_string(password),
                    ),
                ),
            },
        ),
        TaskRequest::FindDuplicates { dir } => TaskView::Scan(fresh_scan(dir@)),
        TaskRequest::SecureDelete { path } => TaskView::Wipe(
            SecureView { phase: SecurePhase::Fresh, path: path@, size: 0, written: 0 },
        ),
    }
}

/// What a task answers to `event`, and where it stands afterwards: what a
/// task of its kind answers. A task never changes its kind.
pub open spec fn task_transition(
    pre: TaskView,
    event: EventView,
    post: TaskView,
    step: TaskStepView,
) -> bool {
    match (pre, post) {
        (TaskView::Archive(a), TaskView::Archive(b)) => archive_task_transition(a, event, b, step),
        (TaskView::Scan(a), TaskView::Scan(b)) => scan_task_transition(a, event, b, step),
        (TaskView::Wipe(a), TaskView::Wipe(b)) => secure_transition(a, event, b, step),
        _ => false,
    }
}

/// Whether the task has asked for the cancellation flag and waits for it.
pub open spec fn at_checkpoint(task: TaskView) -> bool {
    match task {
        TaskView::Archive(t) => t.phase == TaskPhase::AwaitCancel,
        TaskView::Scan(t) => t.phase == ScanPhase::AwaitCancel || t.phase
            == ScanPhase::AwaitItemCancel,
        TaskView::Wipe(t) => t.phase == SecurePhase::AwaitCancel || t.phase
            == SecurePhase::AwaitChunkCancel,
    }
}

/// Whether the task has ended.
pub open spec fn has_ended(task: TaskView) -> bool {
    match task {
        TaskView::Archive(t) => t.phase == TaskPhase::Closed,
        TaskView::Scan(t) => t.phase == ScanPhase::Closed,
        TaskView::Wipe(t) => t.phase == SecurePhase::Closed,
    }
}

/// Cancellation works alike for every kind of task. A task asks for the
/// flag only with [`ActionView::CheckCancel`]; when it finds the flag set at
/// a checkpoint it sends one last line, asks for nothing more and has
/// ended; and a task that has ended sends nothing and asks for nothing.
pub proof fn lemma_cancellation_is_uniform(
    pre: TaskView,
    event: EventView,
    post: TaskView,
    step: TaskStepView,
)
    requires
        task_transition(pre, event, post, step),
    ensures
        at_checkpoint(pre) && event == (EventView::Cancel { requested: true }) ==> has_ended(post)
            && step.lines.len() == 1 && step.next is None,
        has_ended(pre) ==> has_ended(post) && is_silent(step),
        at_checkpoint(post) ==> step.next == Some(ActionView::CheckCancel),
{
}

/// The task for `request`. It is advanced with [`Event::Start`] first.
pub fn start(request: &TaskRequest) -> (task: Task)
    ensures
        task@ == fresh_task(*request),
{
    match request {
        TaskRequest::Extract { path, dest, password } => Task::Archive(
            archive_extract_progress(path.as_str(), dest.as_str(), borrowed(password)),
        ),
        TaskRequest::Create { sources, output, format, password } => Task::Archive(
            archive_create_progress(
                sources.as_slice(),
                output.as_str(),
                borrowed(format),
                borrowed(password),
            ),
        ),
        TaskRequest::FindDuplicates { dir } => Task::Scan(find_duplicates_progress(dir.as_str())),
        TaskRequest::SecureDelete { path } => Task::Wipe(secure_delete_progress(path.as_str())),
    }
}

impl Task {
    /// Takes the task one event further (see [`task_transition`]).
    pub fn advance(&mut self, event: Event) -> (step: TaskStep)
        ensures
            task_transition(old(self)@, event@, final(self)@, step@),
    {
        match self {
            Task::Archive(task) => task.advance(event),
            Task::Scan(task) => task.advance(event),
            Task::Wipe(task) => task.advance(event),
        }
    }
}

} // verus!
