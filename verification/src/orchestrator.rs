//! The job orchestrator: at most one task at a time, and its progress log.
//!
//! The orchestrator owns no worker and no channel. The host asks it whether
//! a task may be launched, hands it what it drained from the progress
//! channel, and asks it whether cancellation is to be signalled.

use vstd::prelude::*;
use vstd::string::StringExecFns;
use crate::text::{lemma_lines_push, lines_of};

verus! {

/// The answer to a request to launch a task.
#[derive(Clone, Copy, Debug, PartialEq, Eq, Structural)]
pub enum StartOutcome {
    /// No task was active: the host is to launch the worker now.
    Launched,
    /// A task is active: nothing is launched and nothing is queued.
    AlreadyRunning,
}

/// Zero or one active task, the lines it has reported, and the status line.
pub struct JobOrchestrator {
    busy: bool,
    cancel_requested: bool,
    log: Vec<String>,
    status: String,
}

/// A [`JobOrchestrator`] as a mathematical value.
pub struct OrchestratorView {
    /// Whether a task is active.
    pub busy: bool,
    /// Whether cancellation of the active task has been asked for.
    pub cancel_requested: bool,
    /// The progress lines of the task launched last, in the order in which
    /// they were emitted.
    pub log: Seq<Seq<char>>,
    /// The line shown as the current status.
    pub status: Seq<char>,
}

/// What the host can ask of the orchestrator.
pub enum Request {
    /// Launch a task.
    Start,
    /// Take in what was drained from the progress channel: the lines, and
    /// whether the channel was found closed.
    Poll { lines: Seq<Seq<char>>, closed: bool },
    /// Cancel the active task.
    Cancel,
}

/// The status line for a launch that was turned down.
pub open spec fn already_running() -> Seq<char> {
    "Already running an operation"@
}

/// The status line after cancellation was asked for.
pub open spec fn cancellation_requested() -> Seq<char> {
    "Cancellation requested"@
}

/// The orchestrator after a request to launch. When idle it becomes busy
/// with an empty log; when busy only the status line changes.
pub open spec fn after_start(v: OrchestratorView) -> OrchestratorView {
    if v.busy {
        OrchestratorView { status: already_running(), ..v }
    } else {
        OrchestratorView {
            busy: true,
            cancel_requested: false,
            log: Seq::<Seq<char>>::empty(),
            status: v.status,
        }
    }
}

/// The orchestrator after a poll. While a task is active the drained lines
/// are appended to the log in their order and the last of them becomes the
/// status; a closed channel makes the orchestrator idle and lets go of the
/// cancellation request. Without an active task nothing changes.
pub open spec fn after_poll(
    v: OrchestratorView,
    lines: Seq<Seq<char>>,
    closed: bool,
) -> OrchestratorView {
    if v.busy {
        OrchestratorView {
            busy: !closed,
            cancel_requested: v.cancel_requested && !closed,
            log: v.log + lines,
            status: if lines.len() > 0 {
                lines.last()
            } else {
                v.status
            },
        }
    } else {
        v
    }
}

/// The orchestrator after a request to cancel. It is noted only while a
/// task is active.
pub open spec fn after_cancel(v: OrchestratorView) -> OrchestratorView {
    if v.busy {
        OrchestratorView { cancel_requested: true, status: cancellation_requested(), ..v }
    } else {
        v
    }
}

/// The orchestrator after one request.
pub open spec fn after(v: OrchestratorView, request: Request) -> OrchestratorView {
    match request {
        Request::Start => after_start(v),
        Request::Poll { lines, closed } => after_poll(v, lines, closed),
        Request::Cancel => after_cancel(v),
    }
}

/// The orchestrator after a sequence of requests.
pub open spec fn after_all(v: OrchestratorView, requests: Seq<Request>) -> OrchestratorView
    decreases requests.len(),
{
    if requests.len() == 0 {
        v
    } else {
        after(after_all(v, requests.drop_last()), requests.last())
    }
}

/// The number of workers launched by a sequence of requests.
pub open spec fn launches(v: OrchestratorView, requests: Seq<Request>) -> nat
    decreases requests.len(),
{
    if requests.len() == 0 {
        0
    } else {
        let before = after_all(v, requests.drop_last());
        launches(v, requests.drop_last()) + if requests.last() is Start && !before.busy {
            1nat
        } else {
            0nat
        }
    }
}

/// Whether no poll among `requests` found the channel closed.
pub open spec fn none_closed(requests: Seq<Request>) -> bool {
    forall|i: int|
        0 <= i < requests.len() ==> !(#[trigger] requests[i] matches Request::Poll { closed, .. }
            && closed)
}

/// Single flight: while a task is active and its channel has not been found
/// closed, whatever the host asks and however often, no worker is launched
/// and the task stays the active one.
pub proof fn lemma_single_flight(v: OrchestratorView, requests: Seq<Request>)
    requires
        v.busy,
        none_closed(requests),
    ensures
        launches(v, requests) == 0,
        after_all(v, requests).busy,
    decreases requests.len(),
{
    if requests.len() > 0 {
        let init = requests.drop_last();
        assert forall|i: int| 0 <= i < init.len() implies !(#[trigger] init[i] matches Request::Poll {
            closed,
            ..
        } && closed) by {
            assert(init[i] == requests[i]);
        }
        lemma_single_flight(v, init);
        assert(requests.last() == requests[requests.len() - 1]);
    }
}

/// A launch that follows a launch, with no closed channel in between, is
/// turned down.
pub proof fn lemma_second_start_is_rejected(v: OrchestratorView, between: Seq<Request>)
    requires
        none_closed(between),
    ensures
        after_all(after_start(v), between).busy,
        launches(after_start(v), between.push(Request::Start)) == 0,
{
    lemma_single_flight(after_start(v), between);
    let all = between.push(Request::Start);
    assert(all.drop_last() =~= between);
}

/// The log only grows while a task is active: what was reported stays, in
/// its order, and what is drained is added behind it.
pub proof fn lemma_poll_appends(v: OrchestratorView, first: Seq<Seq<char>>, second: Seq<Seq<char>>)
    requires
        v.busy,
    ensures
        after_poll(after_poll(v, first, false), second, false).log == v.log + first + second,
{
}

impl View for JobOrchestrator {
    type V = OrchestratorView;

    closed spec fn view(&self) -> OrchestratorView {
        OrchestratorView {
            busy: self.busy,
            cancel_requested: self.cancel_requested,
            log: lines_of(self.log@),
            status: self.status@,
        }
    }
}

impl JobOrchestrator {
    /// An idle orchestrator with an empty log and an empty status line.
    pub fn new() -> (r: Self)
        ensures
            r@ == (OrchestratorView {
                busy: false,
                cancel_requested: false,
                log: Seq::<Seq<char>>::empty(),
                status: Seq::<char>::empty(),
            }),
    {
        let log: Vec<String> = Vec::new();
        assert(lines_of(log@) =~= Seq::<Seq<char>>::empty());
        JobOrchestrator { busy: false, cancel_requested: false, log, status: String::new() }
    }

    /// Asks to launch a task. The host launches a worker only on
    /// [`StartOutcome::Launched`].
    pub fn start(&mut self) -> (r: StartOutcome)
        ensures
            final(self)@ == after_start(old(self)@),
            r == (if old(self)@.busy {
                StartOutcome::AlreadyRunning
            } else {
                StartOutcome::Launched
            }),
    {
        if self.busy {
            self.status = String::from_str("Already running an operation");
            StartOutcome::AlreadyRunning
        } else {
            self.busy = true;
            self.cancel_requested = false;
            self.log = Vec::new();
            assert(lines_of(self.log@) =~= Seq::<Seq<char>>::empty());
            StartOutcome::Launched
        }
    }

    /// Takes in what the host drained from the progress channel without
    /// blocking: the lines in the order received, and whether the channel
    /// was found closed.
    pub fn poll(&mut self, lines: Vec<String>, closed: bool)
        ensures
            final(self)@ == after_poll(old(self)@, lines_of(lines@), closed),
    {
        if !self.busy {
            return ;
        }
        let mut i: usize = 0;
        assert(lines_of(lines@).take(0) =~= Seq::<Seq<char>>::empty());
        assert(old(self)@.log + Seq::<Seq<char>>::empty() =~= old(self)@.log);
        while i < lines.len()
            invariant
                i <= lines.len(),
                self.busy,
                self.cancel_requested == old(self).cancel_requested,
                lines_of(self.log@) == old(self)@.log + lines_of(lines@).take(i as int),
                self.status@ == (if i > 0 {
                    lines@[i - 1]@
                } else {
                    old(self)@.status
                }),
            decreases lines.len() - i,
        {
            let line = lines[i].clone();
            proof {
                lemma_lines_push(self.log@, line);
                assert((old(self)@.log + lines_of(lines@).take(i as int)).push(line@) =~= old(
                    self,
                )@.log + lines_of(lines@).take(i + 1));
            }
            self.status = line.clone();
            self.log.push(line);
            i += 1;
        }
        assert(lines_of(lines@).take(lines.len() as int) =~= lines_of(lines@));
        if closed {
            self.busy = false;
            self.cancel_requested = false;
        }
    }

    /// Asks to cancel the active task. The answer says whether the host is
    /// to set the shared cancellation flag.
    pub fn cancel(&mut self) -> (r: bool)
        ensures
            final(self)@ == after_cancel(old(self)@),
            r == old(self)@.busy,
    {
        if self.busy {
            self.cancel_requested = true;
            self.status = String::from_str("Cancellation requested");
            true
        } else {
            false
        }
    }

    /// Whether a task is active.
    pub fn is_busy(&self) -> (r: bool)
        ensures
            r == self@.busy,
    {
        self.busy
    }

    /// The status line.
    pub fn status(&self) -> (r: &str)
        ensures
            r@ == self@.status,
    {
        self.status.as_str()
    }

    /// The progress lines of the task launched last.
    pub fn log(&self) -> (r: &Vec<String>)
        ensures
            lines_of(r@) == self@.log,
    {
        &self.log
    }
}

} // verus!
