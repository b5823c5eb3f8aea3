//! Secure deletion: a file is overwritten with random bytes and then
//! removed.
//!
//! As a task the file is overwritten in place, one mebibyte at a time, with
//! a look at the cancellation flag before every chunk. Cancellation stops
//! the overwriting where it stands and leaves the file in place.

use vstd::prelude::*;
use vstd::string::StringExecFns;
use rand::RngCore;
use crate::errors::{failure, prefixed, refusal, ErrorKind};
use crate::host::{Action, ActionView, Event, EventView, Step, StepView};
use crate::task::{
    end_saying,
    end_unexpected,
    ends_saying,
    go_on,
    goes_on,
    is_silent,
    say_and_go_on,
    says_and_goes_on,
    silence,
    unexpected_line,
    TaskStep,
    TaskStepView,
};
use crate::text::{decimal, push_decimal};

verus! {

/// Fills a new buffer of `len` bytes from `rand::thread_rng` with
/// `RngCore::fill_bytes`. Only the length of what comes back is known.
#[verifier::external_body]
pub(crate) fn random_bytes(len: usize) -> (r: Vec<u8>)
    ensures
        r@.len() == len,
{
    let mut data = vec![0u8; len];
    rand::thread_rng().fill_bytes(&mut data);
    data
}

/// The size of the chunks in which a file is overwritten: one mebibyte.
pub open spec fn overwrite_chunk() -> nat {
    1048576
}

/// The length of the next chunk when `remaining` bytes are still to be
/// overwritten.
pub open spec fn chunk_len(remaining: nat) -> nat {
    if remaining < overwrite_chunk() {
        remaining
    } else {
        overwrite_chunk()
    }
}

/// How far the overwriting has come, in tenths of a percent, rounded to the
/// nearest tenth with halves rounded up.
pub open spec fn tenths_of_percent(written: nat, size: nat) -> nat
    recommends
        size > 0,
{
    (written * 2000 + size) / (2 * size)
}

/// A number of tenths written with one decimal place and a percent sign.
pub open spec fn percent_text(tenths: nat) -> Seq<char> {
    decimal(tenths / 10) + seq!['.'] + decimal(tenths % 10) + seq!['%']
}

/// The progress line after `written` of `size` bytes.
pub open spec fn progress_line(written: nat, size: nat) -> Seq<char> {
    "Overwrite progress: "@ + percent_text(tenths_of_percent(written, size))
}

/// Writes the progress line (see [`progress_line`]).
pub fn progress_line_of(written: u64, size: u64) -> (r: String)
    requires
        0 < size,
        written <= size,
    ensures
        r@ == progress_line(written as nat, size as nat),
{
    let numerator: u128 = (written as u128) * 2000 + (size as u128);
    let denominator: u128 = 2 * (size as u128);
    let tenths: u128 = numerator / denominator;
    proof {
        assert(numerator <= 2001 * size) by (nonlinear_arith)
            requires
                numerator == written * 2000 + size,
                written <= size,
        ;
        assert(tenths <= 1000) by (nonlinear_arith)
            requires
                tenths == numerator / denominator,
                numerator <= 2001 * size,
                denominator == 2 * size,
                size > 0,
        ;
        assert(tenths == tenths_of_percent(written as nat, size as nat));
    }
    let small: u64 = tenths as u64;
    let mut out = String::from_str("Overwrite progress: ");
    push_decimal(&mut out, small / 10);
    out.push('.');
    push_decimal(&mut out, small % 10);
    out.push('%');
    assert(out@ =~= progress_line(written as nat, size as nat));
    out
}

/// Where a secure-delete task stands.
#[derive(Clone, Copy, Debug, PartialEq, Eq, Structural)]
pub enum SecurePhase {
    /// Not begun.
    Fresh,
    /// Asked for the cancellation flag before starting.
    AwaitCancel,
    /// Asked whether the file exists.
    AwaitExists,
    /// Asked for the size of the file.
    AwaitSize,
    /// The file is being opened for overwriting.
    AwaitOpen,
    /// Asked for the cancellation flag before the next chunk.
    AwaitChunkCancel,
    /// A chunk is being written.
    AwaitWrite,
    /// The file is being removed.
    AwaitRemove,
    /// Ended.
    Closed,
}

/// The secure deletion of one file, run as a task.
pub struct SecureDeleteTask {
    path: String,
    phase: SecurePhase,
    size: u64,
    written: u64,
}

/// A [`SecureDeleteTask`] as a mathematical value.
pub struct SecureView {
    /// Where the task stands.
    pub phase: SecurePhase,
    /// The file that is deleted.
    pub path: Seq<char>,
    /// The size of the file in bytes, once known.
    pub size: nat,
    /// The number of bytes overwritten so far.
    pub written: nat,
}

impl View for SecureDeleteTask {
    type V = SecureView;

    closed spec fn view(&self) -> SecureView {
        SecureView {
            phase: self.phase,
            path: self.path@,
            size: self.size as nat,
            written: self.written as nat,
        }
    }
}

/// A checkpoint: the task has asked for the cancellation flag.
pub open spec fn at_checkpoint(phase: SecurePhase) -> bool {
    phase == SecurePhase::AwaitCancel || phase == SecurePhase::AwaitChunkCancel
}

/// The line with which a cancelled task ends.
pub open spec fn canceled_line(phase: SecurePhase) -> Seq<char> {
    if phase == SecurePhase::AwaitCancel {
        "Canceled before start"@
    } else {
        "Canceled during overwrite"@
    }
}

/// How the task goes on once `written` bytes are overwritten: it asks for
/// the cancellation flag while bytes are left, and for the removal of the
/// file when none are.
pub open spec fn overwrite_next(pre: SecureView, written: nat) -> ActionView {
    if written < pre.size {
        ActionView::CheckCancel
    } else {
        ActionView::RemoveFile { path: pre.path }
    }
}

/// The phase that goes with [`overwrite_next`].
pub open spec fn overwrite_phase(pre: SecureView, written: nat) -> SecurePhase {
    if written < pre.size {
        SecurePhase::AwaitChunkCancel
    } else {
        SecurePhase::AwaitRemove
    }
}

/// What a secure-delete task answers to `event`, and where it stands
/// afterwards.
pub open spec fn secure_transition(
    pre: SecureView,
    event: EventView,
    post: SecureView,
    step: TaskStepView,
) -> bool {
    &&& post.path == pre.path
    &&& match (pre.phase, event) {
        (SecurePhase::Fresh, EventView::Start) => {
            &&& post.phase == SecurePhase::AwaitCancel
            &&& says_and_goes_on(step, "Secure deleting: "@ + pre.path, ActionView::CheckCancel)
        },
        (SecurePhase::AwaitCancel, EventView::Cancel { requested }) => if requested {
            post.phase == SecurePhase::Closed && ends_saying(step, canceled_line(pre.phase))
        } else {
            &&& post.phase == SecurePhase::AwaitExists
            &&& goes_on(step, ActionView::CheckExists { path: pre.path })
        },
        (SecurePhase::AwaitExists, EventView::Exists { exists }) => if exists {
            &&& post.phase == SecurePhase::AwaitSize
            &&& goes_on(step, ActionView::FileSize { path: pre.path })
        } else {
            post.phase == SecurePhase::Closed && ends_saying(step, "File not found: "@ + pre.path)
        },
        (SecurePhase::AwaitSize, EventView::Size { bytes }) => {
            &&& post.phase == SecurePhase::AwaitOpen
            &&& post.size == bytes
            &&& post.written == 0
            &&& goes_on(step, ActionView::OpenOutput { path: pre.path, create: false })
        },
        (SecurePhase::AwaitSize, EventView::Failed { .. }) => {
            post.phase == SecurePhase::Closed && ends_saying(
                step,
                "Unable to read metadata for "@ + pre.path,
            )
        },
        (SecurePhase::AwaitOpen, EventView::Done) => {
            &&& post.phase == overwrite_phase(pre, pre.written)
            &&& post.size == pre.size
            &&& post.written == pre.written
            &&& goes_on(step, overwrite_next(pre, pre.written))
        },
        (SecurePhase::AwaitOpen, EventView::Failed { message }) => {
            post.phase == SecurePhase::Closed && ends_saying(
                step,
                "Error opening file: "@ + message,
            )
        },
        (SecurePhase::AwaitChunkCancel, EventView::Cancel { requested }) => if requested {
            post.phase == SecurePhase::Closed && ends_saying(step, canceled_line(pre.phase))
        } else if pre.written < pre.size {
            &&& post.phase == SecurePhase::AwaitWrite
            &&& post.size == pre.size
            &&& post.written == pre.written
            &&& step.lines.len() == 0
            &&& step.next matches Some(ActionView::WriteOutput { data })
            &&& step.next->Some_0->WriteOutput_data.len() == chunk_len(
                (pre.size - pre.written) as nat,
            )
        } else {
            post.phase == SecurePhase::Closed && ends_saying(step, unexpected_line())
        },
        (SecurePhase::AwaitWrite, EventView::Done) => if pre.written < pre.size {
            &&& post.size == pre.size
            &&& post.written == pre.written + chunk_len((pre.size - pre.written) as nat)
            &&& post.phase == overwrite_phase(pre, post.written)
            &&& says_and_goes_on(
                step,
                progress_line(post.written, pre.size),
                overwrite_next(pre, post.written),
            )
        } else {
            post.phase == SecurePhase::Closed && ends_saying(step, unexpected_line())
        },
        (SecurePhase::AwaitWrite, EventView::Failed { message }) => {
            post.phase == SecurePhase::Closed && ends_saying(step, "Error writing: "@ + message)
        },
        (SecurePhase::AwaitRemove, EventView::Done) => {
            post.phase == SecurePhase::Closed && ends_saying(step, "Secure delete complete"@)
        },
        (SecurePhase::AwaitRemove, EventView::Failed { message }) => {
            post.phase == SecurePhase::Closed && ends_saying(
                step,
                "Error deleting file: "@ + message,
            )
        },
        (SecurePhase::Closed, _) => post.phase == SecurePhase::Closed && is_silent(step),
        _ => post.phase == SecurePhase::Closed && ends_saying(step, unexpected_line()),
    }
}

/// One answered event in the life of a task: the task before it, the
/// event, the task after it, and the answer.
pub struct Moment {
    pub before: SecureView,
    pub event: EventView,
    pub after: SecureView,
    pub step: TaskStepView,
}

/// Whether `run` is a run of a secure-delete task: every moment is a step
/// by [`secure_transition`], and each begins where the one before ended.
pub open spec fn is_run(run: Seq<Moment>) -> bool {
    &&& forall|i: int|
        0 <= i < run.len() ==> secure_transition(
            (#[trigger] run[i]).before,
            run[i].event,
            run[i].after,
            run[i].step,
        )
    &&& forall|i: int, j: int|
        0 <= i && j == i + 1 && j < run.len() ==> (#[trigger] run[j]).before == (
        #[trigger] run[i]).after
}

/// Whether the task asks to write to the file or to remove it.
pub open spec fn touches_file(step: TaskStepView) -> bool {
    step.next matches Some(action) && (action is WriteOutput || action is RemoveFile)
}

/// A task that has ended stays ended and silent.
pub proof fn lemma_ended_is_silent(
    pre: SecureView,
    event: EventView,
    post: SecureView,
    step: TaskStepView,
)
    requires
        secure_transition(pre, event, post, step),
        pre.phase == SecurePhase::Closed,
    ensures
        post.phase == SecurePhase::Closed,
        is_silent(step),
{
}

/// A set flag, found at a checkpoint, ends the task with its cancellation
/// line.
pub proof fn lemma_cancellation_ends(
    pre: SecureView,
    event: EventView,
    post: SecureView,
    step: TaskStepView,
)
    requires
        secure_transition(pre, event, post, step),
        at_checkpoint(pre.phase),
        event == (EventView::Cancel { requested: true }),
    ensures
        post.phase == SecurePhase::Closed,
        ends_saying(step, canceled_line(pre.phase)),
{
}

/// Whether a step asks for a write to the file.
pub open spec fn asks_write(step: TaskStepView) -> bool {
    step.next matches Some(action) && action is WriteOutput
}

/// Whether a moment is a chunk checkpoint that found the flag unset.
pub open spec fn goes_ahead(moment: Moment) -> bool {
    moment.before.phase == SecurePhase::AwaitChunkCancel && moment.event == (EventView::Cancel {
        requested: false,
    }) && moment.before.written < moment.before.size
}

/// The number of writes asked for in a run.
pub open spec fn writes_in(run: Seq<Moment>) -> nat
    decreases run.len(),
{
    if run.len() == 0 {
        0
    } else {
        writes_in(run.drop_last()) + if asks_write(run.last().step) {
            1nat
        } else {
            0nat
        }
    }
}

/// The number of chunk checkpoints in a run that found the flag unset.
pub open spec fn go_aheads_in(run: Seq<Moment>) -> nat
    decreases run.len(),
{
    if run.len() == 0 {
        0
    } else {
        go_aheads_in(run.drop_last()) + if goes_ahead(run.last()) {
            1nat
        } else {
            0nat
        }
    }
}

/// A chunk is written exactly in answer to a chunk checkpoint that found
/// the flag unset, and it is the next chunk: as long as what is left, at
/// most one mebibyte.
pub proof fn lemma_write_answers_unset_flag(
    pre: SecureView,
    event: EventView,
    post: SecureView,
    step: TaskStepView,
)
    requires
        secure_transition(pre, event, post, step),
    ensures
        asks_write(step) <==> pre.phase == SecurePhase::AwaitChunkCancel && event
            == (EventView::Cancel { requested: false }) && pre.written < pre.size,
        asks_write(step) ==> step.next->Some_0->WriteOutput_data.len() == chunk_len(
            (pre.size - pre.written) as nat,
        ),
{
}

/// In every run, as many chunks are written as chunk checkpoints found the
/// flag unset: a task that finds the flag set at its checkpoint number
/// `k + 1` has written exactly `k` chunks, and writes no more.
pub proof fn lemma_writes_match_checkpoints(run: Seq<Moment>)
    requires
        is_run(run),
    ensures
        writes_in(run) == go_aheads_in(run),
    decreases run.len(),
{
    if run.len() > 0 {
        let init = run.drop_last();
        assert(is_run(init)) by {
            assert forall|i: int| 0 <= i < init.len() implies secure_transition(
                (#[trigger] init[i]).before,
                init[i].event,
                init[i].after,
                init[i].step,
            ) by {
                assert(init[i] == run[i]);
            }
            assert forall|i: int, j: int| 0 <= i && j == i + 1 && j < init.len() implies (
            #[trigger] init[j]).before == (#[trigger] init[i]).after by {
                assert(init[i] == run[i] && init[j] == run[j]);
            }
        }
        lemma_writes_match_checkpoints(init);
        let last = run[run.len() - 1];
        assert(run.last() == last);
        lemma_write_answers_unset_flag(last.before, last.event, last.after, last.step);
    }
}

proof fn lemma_closed_stays(run: Seq<Moment>, from: int, at: int)
    requires
        is_run(run),
        0 <= from <= at < run.len(),
        run[from].before.phase == SecurePhase::Closed,
    ensures
        is_silent(run[at].step),
        run[at].after.phase == SecurePhase::Closed,
    decreases at - from,
{
    if from < at {
        lemma_closed_stays(run, from, at - 1);
        assert(run[at].before == run[at - 1].after);
    }
    lemma_ended_is_silent(run[at].before, run[at].event, run[at].after, run[at].step);
}

/// Cancellation is final. When the flag is found set at a checkpoint, the
/// task answers with its cancellation line and nothing else: no further
/// write and no removal is asked for, then or ever after, and no line
/// follows the cancellation line.
pub proof fn lemma_cancellation_is_final(run: Seq<Moment>, at: int, later: int)
    requires
        is_run(run),
        0 <= at < run.len(),
        at_checkpoint(run[at].before.phase),
        run[at].event == (EventView::Cancel { requested: true }),
        at <= later < run.len(),
    ensures
        ends_saying(run[at].step, canceled_line(run[at].before.phase)),
        !touches_file(run[later].step),
        later > at ==> is_silent(run[later].step),
{
    lemma_cancellation_ends(run[at].before, run[at].event, run[at].after, run[at].step);
    if later > at {
        assert(run[at + 1].before == run[at].after);
        lemma_closed_stays(run, at + 1, later);
    }
}

impl SecureDeleteTask {
    fn overwrite_or_remove(&mut self) -> (action: Action)
        requires
            old(self).phase == SecurePhase::Closed,
        ensures
            final(self)@.path == old(self)@.path,
            final(self)@.size == old(self)@.size,
            final(self)@.written == old(self)@.written,
            final(self)@.phase == overwrite_phase(old(self)@, old(self)@.written),
            action@ == overwrite_next(old(self)@, old(self)@.written),
    {
        if self.written < self.size {
            self.phase = SecurePhase::AwaitChunkCancel;
            Action::CheckCancel
        } else {
            self.phase = SecurePhase::AwaitRemove;
            Action::RemoveFile { path: self.path.clone() }
        }
    }

    fn next_len(&self) -> (n: usize)
        requires
            self.written < self.size,
        ensures
            n == chunk_len((self.size - self.written) as nat),
            self.written + n <= self.size,
    {
        let remaining: u64 = self.size - self.written;
        if remaining < 1048576 {
            remaining as usize
        } else {
            1048576
        }
    }

    /// Takes the task one event further (see [`secure_transition`]).
    pub fn advance(&mut self, event: Event) -> (step: TaskStep)
        ensures
            secure_transition(old(self)@, event@, final(self)@, step@),
    {
        let phase = self.phase;
        self.phase = SecurePhase::Closed;
        match (phase, event) {
            (SecurePhase::Fresh, Event::Start) => {
                self.phase = SecurePhase::AwaitCancel;
                say_and_go_on(
                    prefixed("Secure deleting: ", self.path.as_str()),
                    Action::CheckCancel,
                )
            },
            (SecurePhase::AwaitCancel, Event::Cancel { requested }) => {
                if requested {
                    end_saying(String::from_str("Canceled before start"))
                } else {
                    self.phase = SecurePhase::AwaitExists;
                    go_on(Action::CheckExists { path: self.path.clone() })
                }
            },
            (SecurePhase::AwaitExists, Event::Exists { exists }) => {
                if exists {
                    self.phase = SecurePhase::AwaitSize;
                    go_on(Action::FileSize { path: self.path.clone() })
                } else {
                    end_saying(prefixed("File not found: ", self.path.as_str()))
                }
            },
            (SecurePhase::AwaitSize, Event::Size { bytes }) => {
                self.size = bytes;
                self.written = 0;
                self.phase = SecurePhase::AwaitOpen;
                go_on(Action::OpenOutput { path: self.path.clone(), create: false })
            },
            (SecurePhase::AwaitSize, Event::Failed { message }) => {
                end_saying(prefixed("Unable to read metadata for ", self.path.as_str()))
            },
            (SecurePhase::AwaitOpen, Event::Done) => {
                let action = self.overwrite_or_remove();
                go_on(action)
            },
            (SecurePhase::AwaitOpen, Event::Failed { message }) => {
                end_saying(prefixed("Error opening file: ", message.as_str()))
            },
            (SecurePhase::AwaitChunkCancel, Event::Cancel { requested }) => {
                if requested {
                    end_saying(String::from_str("Canceled during overwrite"))
                } else if self.written < self.size {
                    let data = random_bytes(self.next_len());
                    self.phase = SecurePhase::AwaitWrite;
                    go_on(Action::WriteOutput { data })
                } else {
                    end_unexpected()
                }
            },
            (SecurePhase::AwaitWrite, Event::Done) => {
                if self.written < self.size {
                    let n = self.next_len();
                    self.written = self.written + n as u64;
                    let line = progress_line_of(self.written, self.size);
                    let action = self.overwrite_or_remove();
                    say_and_go_on(line, action)
                } else {
                    end_unexpected()
                }
            },
            (SecurePhase::AwaitWrite, Event::Failed { message }) => {
                end_saying(prefixed("Error writing: ", message.as_str()))
            },
            (SecurePhase::AwaitRemove, Event::Done) => {
                end_saying(String::from_str("Secure delete complete"))
            },
            (SecurePhase::AwaitRemove, Event::Failed { message }) => {
                end_saying(prefixed("Error deleting file: ", message.as_str()))
            },
            (SecurePhase::Closed, _) => silence(),
            _ => end_unexpected(),
        }
    }
}

/// Where a plain secure deletion stands.
#[derive(Clone, Copy, Debug, PartialEq, Eq, Structural)]
pub enum WipePhase {
    /// Not begun.
    Fresh,
    /// Asked whether the file exists.
    AwaitExists,
    /// Asked for the size of the file.
    AwaitSize,
    /// The file is being overwritten.
    AwaitWrite,
    /// The file is being removed.
    AwaitRemove,
    /// Ended.
    Closed,
}

/// The secure deletion of one file in one piece, without progress lines.
pub struct SecureDeleteJob {
    path: String,
    phase: WipePhase,
}

impl SecureDeleteJob {
    /// The file that is deleted.
    pub closed spec fn path(&self) -> Seq<char> {
        self.path@
    }

    /// Where the job stands.
    pub closed spec fn phase(&self) -> WipePhase {
        self.phase
    }
}

/// The step that ends the job with `failure`.
pub open spec fn wipe_fails(step: StepView<()>, failure: (ErrorKind, Seq<char>)) -> bool {
    step == StepView::<()>::Finished(Err(failure))
}

/// The step that asks for `action`.
pub open spec fn wipe_asks(step: StepView<()>, action: ActionView) -> bool {
    step == StepView::<()>::Perform(action)
}

/// What a plain secure deletion answers to `event`, and where it stands
/// afterwards. The file is overwritten with as many random bytes as it
/// holds and then removed; when its size cannot be had it is removed as it
/// is.
pub open spec fn wipe_transition(
    phase: WipePhase,
    path: Seq<char>,
    event: EventView,
    next: WipePhase,
    step: StepView<()>,
) -> bool {
    match (phase, event) {
        (WipePhase::Fresh, EventView::Start) => {
            next == WipePhase::AwaitExists && wipe_asks(step, ActionView::CheckExists { path })
        },
        (WipePhase::AwaitExists, EventView::Exists { exists }) => if exists {
            next == WipePhase::AwaitSize && wipe_asks(step, ActionView::FileSize { path })
        } else {
            next == WipePhase::Closed && wipe_fails(
                step,
                (ErrorKind::NotFound, "File not found: "@ + path),
            )
        },
        (WipePhase::AwaitSize, EventView::Size { bytes }) => if bytes <= usize::MAX {
            &&& next == WipePhase::AwaitWrite
            &&& step matches StepView::Perform(ActionView::WriteFile { path: target, data, parents })
            &&& step->Perform_0->WriteFile_path == path
            &&& step->Perform_0->WriteFile_data.len() == bytes
            &&& !step->Perform_0->WriteFile_parents
        } else {
            next == WipePhase::Closed && wipe_fails(
                step,
                (ErrorKind::InvalidArgument, "File too large to overwrite"@),
            )
        },
        (WipePhase::AwaitSize, EventView::Failed { .. }) => {
            next == WipePhase::AwaitRemove && wipe_asks(step, ActionView::RemoveFile { path })
        },
        (WipePhase::AwaitWrite, EventView::Done) => {
            next == WipePhase::AwaitRemove && wipe_asks(step, ActionView::RemoveFile { path })
        },
        (WipePhase::AwaitWrite, EventView::Failed { message }) => {
            next == WipePhase::Closed && wipe_fails(
                step,
                (ErrorKind::Io, "Error overwriting file: "@ + message),
            )
        },
        (WipePhase::AwaitRemove, EventView::Done) => {
            next == WipePhase::Closed && step == StepView::<()>::Finished(Ok(()))
        },
        (WipePhase::AwaitRemove, EventView::Failed { message }) => {
            next == WipePhase::Closed && wipe_fails(
                step,
                (ErrorKind::Io, "Error deleting file: "@ + message),
            )
        },
        _ => next == WipePhase::Closed && wipe_fails(
            step,
            (ErrorKind::InvalidArgument, "Unexpected event"@),
        ),
    }
}

impl SecureDeleteJob {
    /// Takes the job one event further (see [`wipe_transition`]).
    pub fn advance(&mut self, event: Event) -> (step: Step<()>)
        ensures
            final(self).path() == old(self).path(),
            wipe_transition(
                old(self).phase(),
                old(self).path(),
                event@,
                final(self).phase(),
                step.plain(),
            ),
    {
        let phase = self.phase;
        self.phase = WipePhase::Closed;
        match (phase, event) {
            (WipePhase::Fresh, Event::Start) => {
                self.phase = WipePhase::AwaitExists;
                Step::Perform(Action::CheckExists { path: self.path.clone() })
            },
            (WipePhase::AwaitExists, Event::Exists { exists }) => {
                if exists {
                    self.phase = WipePhase::AwaitSize;
                    Step::Perform(Action::FileSize { path: self.path.clone() })
                } else {
                    Step::Finished(
                        Err(
                            failure(
                                ErrorKind::NotFound,
                                prefixed("File not found: ", self.path.as_str()),
                            ),
                        ),
                    )
                }
            },
            (WipePhase::AwaitSize, Event::Size { bytes }) => {
                if bytes <= usize::MAX as u64 {
                    self.phase = WipePhase::AwaitWrite;
                    Step::Perform(
                        Action::WriteFile {
                            path: self.path.clone(),
                            data: random_bytes(bytes as usize),
                            parents: false,
                        },
                    )
                } else {
                    Step::Finished(
                        Err(
                            failure(
                                ErrorKind::InvalidArgument,
                                String::from_str("File too large to overwrite"),
                            ),
                        ),
                    )
                }
            },
            (WipePhase::AwaitSize, Event::Failed { message }) => {
                self.phase = WipePhase::AwaitRemove;
                Step::Perform(Action::RemoveFile { path: self.path.clone() })
            },
            (WipePhase::AwaitWrite, Event::Done) => {
                self.phase = WipePhase::AwaitRemove;
                Step::Perform(Action::RemoveFile { path: self.path.clone() })
            },
            (WipePhase::AwaitWrite, Event::Failed { message }) => Step::Finished(
                Err(failure(ErrorKind::Io, prefixed("Error overwriting file: ", message.as_str()))),
            ),
            (WipePhase::AwaitRemove, Event::Done) => Step::Finished(Ok(())),
            (WipePhase::AwaitRemove, Event::Failed { message }) => Step::Finished(
                Err(failure(ErrorKind::Io, prefixed("Error deleting file: ", message.as_str()))),
            ),
            _ => Step::Finished(
                Err(refusal()),
            ),
        }
    }
}

/// Begins the secure deletion of the file at `filepath` in one piece. The
/// job is advanced with [`Event::Start`] first.
pub fn secure_delete_noninteractive(filepath: &str) -> (job: SecureDeleteJob)
    ensures
        job.path() == filepath@,
        job.phase() == WipePhase::Fresh,
{
    SecureDeleteJob { path: String::from_str(filepath), phase: WipePhase::Fresh }
}

/// The secure deletion of the file at `filepath`, as a task. It is advanced
/// with [`Event::Start`] first.
pub fn secure_delete_progress(filepath: &str) -> (task: SecureDeleteTask)
    ensures
        task@ == (SecureView {
            phase: SecurePhase::Fresh,
            path: filepath@,
            size: 0,
            written: 0,
        }),
{
    SecureDeleteTask {
        path: String::from_str(filepath),
        phase: SecurePhase::Fresh,
        size: 0,
        written: 0,
    }
}

} // verus!
