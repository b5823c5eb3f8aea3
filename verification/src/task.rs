//! Long operations run as background tasks.
//!
//! A task is run by a worker of the host. Besides actions it yields progress
//! lines, which the worker sends on in the order given. Before it starts its
//! work, and once per item of a chunked operation, a task asks for the shared
//! cancellation flag; when the flag is set it says so in a last line and
//! ends. What was written before is not undone. A task has ended when it
//! asks for no further action.

use vstd::prelude::*;
use vstd::string::StringExecFns;
use crate::archive::{extract_archive, extract_transition, fresh_extract, ExtractJob, ExtractView};
use crate::errors::prefixed;
use crate::host::{Action, ActionView, Event, EventView, Step, StepView};
use crate::packing::{create_archive, create_transition, fresh_create, CreateJob, CreateView};
use crate::text::{borrow_lines, lines_of};
use crate::tool::optional_text;

verus! {

/// The answer of a task to one event: the progress lines to send, in order,
/// and the action to perform next. Without an action the task has ended.
pub struct TaskStep {
    pub lines: Vec<String>,
    pub next: Option<Action>,
}

/// A [`TaskStep`] as a mathematical value.
pub struct TaskStepView {
    pub lines: Seq<Seq<char>>,
    pub next: Option<ActionView>,
}

impl View for TaskStep {
    type V = TaskStepView;

    open spec fn view(&self) -> TaskStepView {
        TaskStepView {
            lines: lines_of(self.lines@),
            next: match self.next {
                Some(a) => Some(a@),
                None => None,
            },
        }
    }
}

/// The step that sends `line` and ends the task.
pub open spec fn ends_saying(step: TaskStepView, line: Seq<char>) -> bool {
    step.lines == seq![line] && step.next is None
}

/// The step that sends nothing and asks for `action`.
pub open spec fn goes_on(step: TaskStepView, action: ActionView) -> bool {
    step.lines.len() == 0 && step.next == Some(action)
}

/// The step that sends `line` and asks for `action`.
pub open spec fn says_and_goes_on(step: TaskStepView, line: Seq<char>, action: ActionView) -> bool {
    step.lines == seq![line] && step.next == Some(action)
}

/// The step of an ended task: nothing is sent and nothing asked for.
pub open spec fn is_silent(step: TaskStepView) -> bool {
    step.lines.len() == 0 && step.next is None
}

/// The line for an event that the task was not waiting for.
pub open spec fn unexpected_line() -> Seq<char> {
    "Error: Unexpected event"@
}

/// A step that sends `line` and ends the task.
pub fn end_saying(line: String) -> (step: TaskStep)
    ensures
        ends_saying(step@, line@),
{
    let mut lines: Vec<String> = Vec::new();
    lines.push(line);
    assert(lines_of(lines@) =~= seq![line@]);
    TaskStep { lines, next: None }
}

/// A step that sends nothing and asks for `action`.
pub fn go_on(action: Action) -> (step: TaskStep)
    ensures
        goes_on(step@, action@),
{
    let lines: Vec<String> = Vec::new();
    TaskStep { lines, next: Some(action) }
}

/// A step that sends `line` and asks for `action`.
pub fn say_and_go_on(line: String, action: Action) -> (step: TaskStep)
    ensures
        says_and_goes_on(step@, line@, action@),
{
    let mut lines: Vec<String> = Vec::new();
    lines.push(line);
    assert(lines_of(lines@) =~= seq![line@]);
    TaskStep { lines, next: Some(action) }
}

/// The step of an ended task.
pub fn silence() -> (step: TaskStep)
    ensures
        is_silent(step@),
{
    let lines: Vec<String> = Vec::new();
    TaskStep { lines, next: None }
}

/// A step that reports an event out of turn and ends the task.
pub fn end_unexpected() -> (step: TaskStep)
    ensures
        ends_saying(step@, unexpected_line()),
{
    end_saying(String::from_str("Error: Unexpected event"))
}

/// Where an archive task stands.
#[derive(Clone, Copy, Debug, PartialEq, Eq, Structural)]
pub enum TaskPhase {
    /// Not begun.
    Fresh,
    /// Asked for the cancellation flag before starting.
    AwaitCancel,
    /// The facade job is running.
    Running,
    /// Ended.
    Closed,
}

enum ArchiveWork {
    Extract(ExtractJob),
    Create(CreateJob),
}

/// An archive extraction or creation run as a task.
pub struct ArchiveTask {
    phase: TaskPhase,
    work: ArchiveWork,
}

/// The facade job inside an archive task, as a mathematical value.
pub enum ArchiveWorkView {
    Extract(ExtractView),
    Create(CreateView),
}

/// An [`ArchiveTask`] as a mathematical value.
pub struct ArchiveTaskView {
    pub phase: TaskPhase,
    pub work: ArchiveWorkView,
}

impl View for ArchiveTask {
    type V = ArchiveTaskView;

    closed spec fn view(&self) -> ArchiveTaskView {
        ArchiveTaskView {
            phase: self.phase,
            work: match self.work {
                ArchiveWork::Extract(job) => ArchiveWorkView::Extract(job@),
                ArchiveWork::Create(job) => ArchiveWorkView::Create(job@),
            },
        }
    }
}

/// The first line of an archive task.
pub open spec fn starting_line(work: ArchiveWorkView) -> Seq<char> {
    match work {
        ArchiveWorkView::Extract(job) => "Starting extract: "@ + job.path + " -> "@ + job.dest,
        ArchiveWorkView::Create(job) => "Starting archive create -> "@ + job.output,
    }
}

/// Whether the facade job answers `event` with `step`, going from `pre` to
/// `post`.
pub open spec fn work_transition(
    pre: ArchiveWorkView,
    event: EventView,
    post: ArchiveWorkView,
    step: StepView<Seq<char>>,
) -> bool {
    match (pre, post) {
        (ArchiveWorkView::Extract(a), ArchiveWorkView::Extract(b)) => extract_transition(
            a,
            event,
            b,
            step,
        ),
        (ArchiveWorkView::Create(a), ArchiveWorkView::Create(b)) => create_transition(
            a,
            event,
            b,
            step,
        ),
        _ => false,
    }
}

/// How an answer of the facade job is passed on: an action is asked for
/// without a line; a result ends the task with `Finished: ` and the message,
/// or with `Error: ` and the failure's message.
pub open spec fn relayed(inner: StepView<Seq<char>>, phase: TaskPhase, step: TaskStepView) -> bool {
    match inner {
        StepView::Perform(action) => phase == TaskPhase::Running && goes_on(step, action),
        StepView::Finished(Ok(message)) => phase == TaskPhase::Closed && ends_saying(
            step,
            "Finished: "@ + message,
        ),
        StepView::Finished(Err(failure)) => phase == TaskPhase::Closed && ends_saying(
            step,
            "Error: "@ + failure.1,
        ),
    }
}

/// Whether the task hands `event` to its facade job and passes the answer
/// on.
pub open spec fn forwards(
    pre: ArchiveTaskView,
    event: EventView,
    post: ArchiveTaskView,
    step: TaskStepView,
) -> bool {
    exists|inner: StepView<Seq<char>>| #[trigger]
        work_transition(pre.work, event, post.work, inner) && relayed(inner, post.phase, step)
}

/// What an archive task answers to `event`, and where it stands afterwards.
/// It announces itself and asks for the cancellation flag; when that is set
/// it ends with `Canceled before start` and the facade job is never begun.
pub open spec fn archive_task_transition(
    pre: ArchiveTaskView,
    event: EventView,
    post: ArchiveTaskView,
    step: TaskStepView,
) -> bool {
    match (pre.phase, event) {
        (TaskPhase::Fresh, EventView::Start) => {
            &&& post.phase == TaskPhase::AwaitCancel
            &&& post.work == pre.work
            &&& says_and_goes_on(step, starting_line(pre.work), ActionView::CheckCancel)
        },
        (TaskPhase::AwaitCancel, EventView::Cancel { requested }) => if requested {
            &&& post.phase == TaskPhase::Closed
            &&& post.work == pre.work
            &&& ends_saying(step, "Canceled before start"@)
        } else {
            forwards(pre, EventView::Start, post, step)
        },
        (TaskPhase::Running, _) => forwards(pre, event, post, step),
        (TaskPhase::Closed, _) => {
            &&& post.phase == TaskPhase::Closed
            &&& post.work == pre.work
            &&& is_silent(step)
        },
        _ => {
            &&& post.phase == TaskPhase::Closed
            &&& post.work == pre.work
            &&& ends_saying(step, unexpected_line())
        },
    }
}

/// Cancellation before the start is final: the task ends with its
/// cancellation line, the facade job is never begun, and an ended task stays
/// silent.
pub proof fn lemma_archive_task_cancellation(
    pre: ArchiveTaskView,
    event: EventView,
    post: ArchiveTaskView,
    step: TaskStepView,
)
    requires
        archive_task_transition(pre, event, post, step),
    ensures
        pre.phase == TaskPhase::AwaitCancel && event == (EventView::Cancel { requested: true })
            ==> post.phase == TaskPhase::Closed && post.work == pre.work && ends_saying(
            step,
            "Canceled before start"@,
        ),
        pre.phase == TaskPhase::Closed ==> post.phase == TaskPhase::Closed && is_silent(step),
{
}

impl ArchiveTask {
    fn first_line(&self) -> (r: String)
        ensures
            r@ == starting_line(self@.work),
    {
        match &self.work {
            ArchiveWork::Extract(job) => {
                let mut line = prefixed("Starting extract: ", job.path());
                line.append(" -> ");
                line.append(job.dest());
                line
            },
            ArchiveWork::Create(job) => prefixed("Starting archive create -> ", job.output()),
        }
    }

    fn forward(&mut self, event: Event) -> (step: TaskStep)
        requires
            old(self).phase == TaskPhase::Closed,
        ensures
            forwards(old(self)@, event@, final(self)@, step@),
    {
        let inner = match &mut self.work {
            ArchiveWork::Extract(job) => job.advance(event),
            ArchiveWork::Create(job) => job.advance(event),
        };
        assert(work_transition(old(self)@.work, event@, self@.work, inner.text()));
        match inner {
            Step::Perform(action) => {
                self.phase = TaskPhase::Running;
                go_on(action)
            },
            Step::Finished(Ok(message)) => end_saying(prefixed("Finished: ", message.as_str())),
            Step::Finished(Err(failure)) => end_saying(
                prefixed("Error: ", failure.message.as_str()),
            ),
        }
    }

    /// Takes the task one event further (see [`archive_task_transition`]).
    pub fn advance(&mut self, event: Event) -> (step: TaskStep)
        ensures
            archive_task_transition(old(self)@, event@, final(self)@, step@),
    {
        let phase = self.phase;
        self.phase = TaskPhase::Closed;
        match (phase, event) {
            (TaskPhase::Fresh, Event::Start) => {
                self.phase = TaskPhase::AwaitCancel;
                say_and_go_on(self.first_line(), Action::CheckCancel)
            },
            (TaskPhase::AwaitCancel, Event::Cancel { requested }) => {
                if requested {
                    end_saying(String::from_str("Canceled before start"))
                } else {
                    self.forward(Event::Start)
                }
            },
            (TaskPhase::Running, event) => self.forward(event),
            (TaskPhase::Closed, _) => silence(),
            _ => end_unexpected(),
        }
    }
}

/// An extraction of the archive at `path` into `dest`, as a task. It is
/// advanced with [`Event::Start`] first.
pub fn archive_extract_progress(path: &str, dest: &str, password: Option<&str>) -> (task:
    ArchiveTask)
    ensures
        task@ == (ArchiveTaskView {
            phase: TaskPhase::Fresh,
            work: ArchiveWorkView::Extract(fresh_extract(path@, dest@, optional_text(password))),
        }),
{
    ArchiveTask {
        phase: TaskPhase::Fresh,
        work: ArchiveWork::Extract(extract_archive(path, dest, password)),
    }
}

/// The creation of the archive `output` from `sources`, as a task. It is
/// advanced with [`Event::Start`] first.
pub fn archive_create_progress(
    sources: &[String],
    output: &str,
    format: Option<&str>,
    password: Option<&str>,
) -> (task: ArchiveTask)
    ensures
        task@ == (ArchiveTaskView {
            phase: TaskPhase::Fresh,
            work: ArchiveWorkView::Create(
                fresh_create(
                    lines_of(sources@),
                    output@,
                    optional_text(format),
                    optional_text(password),
                ),
            ),
        }),
{
    let borrowed = borrow_lines(sources);
    ArchiveTask {
        phase: TaskPhase::Fresh,
        work: ArchiveWork::Create(create_archive(borrowed.as_slice(), output, format, password)),
    }
}

} // verus!
