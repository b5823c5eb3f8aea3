//! The archive facade: list, extract and create, each routed to one of the
//! two strategies.
//!
//! Every call is a job of its own. It checks that the archive exists (list
//! and extract), asks afresh whether the external archiver can be started,
//! and then follows one strategy to the end: the external archiver when it
//! is there, the built-in code when it is not. A job never fails by
//! aborting; it ends with a message or with a [`Failure`].

use vstd::prelude::*;
use vstd::string::StringExecFns;
use std::io::Cursor;
use zip::read::ZipArchive;
use crate::builtin::{
    builtin_listing,
    list_builtin,
    malformed,
    unpack_zip_entry,
    unsupported_archive,
    unsupported_input,
    written_path,
    zip_entry_step,
};
use crate::errors::{failure, out_of_turn, prefixed, refusal, ErrorKind, Failure};
use crate::format::{detect_format, format_of, ArchiveFormat};
use crate::host::{Action, ActionView, Event, EventView, Step, StepView};
use crate::paths::confined;
use crate::tool::{
    borrowed,
    capture,
    captured,
    extract_arguments,
    extract_command,
    list_arguments,
    list_command,
    optional_string,
};
use crate::zip_codec::{zip_count, zip_len, zip_open, zip_source};

verus! {

/// The failure for an archive that is not there.
pub open spec fn not_found(path: Seq<char>) -> (ErrorKind, Seq<char>) {
    (ErrorKind::NotFound, "Archive not found: "@ + path)
}

/// Where a listing job stands.
#[derive(Clone, Copy, Debug, PartialEq, Eq, Structural)]
pub enum ListPhase {
    /// Not begun.
    Fresh,
    /// Asked whether the archive exists.
    AwaitExists,
    /// Asked whether the external archiver can be started.
    AwaitProbe,
    /// The external archiver is running.
    AwaitTool,
    /// The archive is being read for the built-in code.
    AwaitBytes,
    /// Ended.
    Closed,
}

/// One call of the facade's `list`.
pub struct ListJob {
    path: String,
    phase: ListPhase,
}

/// What a listing job answers to `event` in `phase`, and where it stands
/// afterwards.
pub open spec fn list_transition(
    phase: ListPhase,
    path: Seq<char>,
    event: EventView,
    next: ListPhase,
    step: StepView<Seq<char>>,
) -> bool {
    match (phase, event) {
        (ListPhase::Fresh, EventView::Start) => {
            &&& next == ListPhase::AwaitExists
            &&& step == StepView::<Seq<char>>::Perform(ActionView::CheckExists { path })
        },
        (ListPhase::AwaitExists, EventView::Exists { exists }) => if exists {
            &&& next == ListPhase::AwaitProbe
            &&& step == StepView::<Seq<char>>::Perform(ActionView::ProbeTool)
        } else {
            &&& next == ListPhase::Closed
            &&& step == StepView::<Seq<char>>::Finished(Err(not_found(path)))
        },
        (ListPhase::AwaitProbe, EventView::ToolProbed { available }) => if available {
            &&& next == ListPhase::AwaitTool
            &&& step == StepView::<Seq<char>>::Perform(
                ActionView::RunTool { arguments: list_arguments(path) },
            )
        } else if format_of(path) == ArchiveFormat::Unknown {
            &&& next == ListPhase::Closed
            &&& step == StepView::<Seq<char>>::Finished(Err(unsupported_input()))
        } else {
            &&& next == ListPhase::AwaitBytes
            &&& step == StepView::<Seq<char>>::Perform(ActionView::ReadFile { path })
        },
        (ListPhase::AwaitTool, EventView::ToolRan { success, stdout, stderr }) => {
            &&& next == ListPhase::Closed
            &&& step == StepView::<Seq<char>>::Finished(captured(success, stdout, stderr))
        },
        (ListPhase::AwaitTool, EventView::Failed { message }) => {
            &&& next == ListPhase::Closed
            &&& step == StepView::<Seq<char>>::Finished(Err((ErrorKind::ToolInvocation, message)))
        },
        (ListPhase::AwaitBytes, EventView::Bytes { data }) => {
            &&& next == ListPhase::Closed
            &&& step == StepView::<Seq<char>>::Finished(builtin_listing(format_of(path), data))
        },
        (ListPhase::AwaitBytes, EventView::Failed { message }) => {
            &&& next == ListPhase::Closed
            &&& step == StepView::<Seq<char>>::Finished(Err((ErrorKind::Io, message)))
        },
        _ => {
            &&& next == ListPhase::Closed
            &&& step == StepView::<Seq<char>>::Finished(Err(out_of_turn()))
        },
    }
}

impl ListJob {
    /// The archive that is listed.
    pub closed spec fn path(&self) -> Seq<char> {
        self.path@
    }

    /// Where the job stands.
    pub closed spec fn phase(&self) -> ListPhase {
        self.phase
    }

    /// Takes the job one event further (see [`list_transition`]).
    pub fn advance(&mut self, event: Event) -> (step: Step<String>)
        ensures
            final(self).path() == old(self).path(),
            list_transition(
                old(self).phase(),
                old(self).path(),
                event@,
                final(self).phase(),
                step.text(),
            ),
    {
        let phase = self.phase;
        self.phase = ListPhase::Closed;
        match (phase, event) {
            (ListPhase::Fresh, Event::Start) => {
                self.phase = ListPhase::AwaitExists;
                Step::Perform(Action::CheckExists { path: self.path.clone() })
            },
            (ListPhase::AwaitExists, Event::Exists { exists }) => {
                if exists {
                    self.phase = ListPhase::AwaitProbe;
                    Step::Perform(Action::ProbeTool)
                } else {
                    Step::Finished(
                        Err(
                            failure(
                                ErrorKind::NotFound,
                                prefixed("Archive not found: ", self.path.as_str()),
                            ),
                        ),
                    )
                }
            },
            (ListPhase::AwaitProbe, Event::ToolProbed { available }) => {
                if available {
                    self.phase = ListPhase::AwaitTool;
                    Step::Perform(Action::RunTool { arguments: list_command(self.path.as_str()) })
                } else if detect_format(self.path.as_str()) == ArchiveFormat::Unknown {
                    Step::Finished(Err(unsupported_archive()))
                } else {
                    self.phase = ListPhase::AwaitBytes;
                    Step::Perform(Action::ReadFile { path: self.path.clone() })
                }
            },
            (ListPhase::AwaitTool, Event::ToolRan { success, stdout, stderr }) => {
                Step::Finished(capture(success, stdout, stderr))
            },
            (ListPhase::AwaitTool, Event::Failed { message }) => {
                Step::Finished(Err(failure(ErrorKind::ToolInvocation, message)))
            },
            (ListPhase::AwaitBytes, Event::Bytes { data }) => {
                Step::Finished(list_builtin(detect_format(self.path.as_str()), data))
            },
            (ListPhase::AwaitBytes, Event::Failed { message }) => {
                Step::Finished(Err(failure(ErrorKind::Io, message)))
            },
            _ => Step::Finished(Err(refusal())),
        }
    }
}

/// Begins a listing of the archive at `path`. The job is advanced with
/// [`Event::Start`] first.
pub fn list_archive(path: &str) -> (job: ListJob)
    ensures
        job.path() == path@,
        job.phase() == ListPhase::Fresh,
{
    ListJob { path: String::from_str(path), phase: ListPhase::Fresh }
}

/// Where an extraction job stands.
#[derive(Clone, Copy, Debug, PartialEq, Eq, Structural)]
pub enum ExtractPhase {
    /// Not begun.
    Fresh,
    /// Asked whether the archive exists.
    AwaitExists,
    /// Asked whether the external archiver can be started.
    AwaitProbe,
    /// The external archiver is running.
    AwaitTool,
    /// The zip file is being read for the built-in code.
    AwaitBytes,
    /// An entry of the zip file is being written.
    Unpacking,
    /// The tar stream is being unpacked.
    AwaitUnpack,
    /// Ended.
    Closed,
}

/// One call of the facade's `extract`.
pub struct ExtractJob {
    path: String,
    dest: String,
    password: Option<String>,
    phase: ExtractPhase,
    archive: Option<ZipArchive<Cursor<Vec<u8>>>>,
    next: usize,
}

/// An [`ExtractJob`] as a mathematical value.
pub struct ExtractView {
    /// Where the job stands.
    pub phase: ExtractPhase,
    /// The archive that is unpacked.
    pub path: Seq<char>,
    /// The directory that it is unpacked into.
    pub dest: Seq<char>,
    /// The password handed to the external archiver, if any.
    pub password: Option<Seq<char>>,
    /// The bytes of the zip file, once it has been opened.
    pub source: Option<Seq<u8>>,
    /// The number of entries dealt with so far.
    pub cursor: nat,
}

impl View for ExtractJob {
    type V = ExtractView;

    closed spec fn view(&self) -> ExtractView {
        ExtractView {
            phase: self.phase,
            path: self.path@,
            dest: self.dest@,
            password: optional_string(self.password),
            source: match self.archive {
                Some(a) => Some(zip_source(a)),
                None => None,
            },
            cursor: self.next as nat,
        }
    }
}

/// The step that ends a job with `failure`.
pub open spec fn fails_with(
    step: StepView<Seq<char>>,
    failure: (ErrorKind, Seq<char>),
) -> bool {
    step == StepView::<Seq<char>>::Finished(Err(failure))
}

/// The step that ends a job with the message `text`.
pub open spec fn succeeds_with(step: StepView<Seq<char>>, text: Seq<char>) -> bool {
    step == StepView::<Seq<char>>::Finished(Ok(text))
}

/// The step that asks for `action`.
pub open spec fn asks(step: StepView<Seq<char>>, action: ActionView) -> bool {
    step == StepView::<Seq<char>>::Perform(action)
}

/// How the built-in code goes on with the zip file `source` when `cursor`
/// entries are done: the next entry is read and its action asked for; after
/// the last, the job ends with success; an entry that cannot be read ends it
/// with a container-format failure that carries the words on why.
pub open spec fn unpack_next(
    source: Seq<u8>,
    cursor: nat,
    dest: Seq<char>,
    post: ExtractView,
    step: StepView<Seq<char>>,
) -> bool {
    match zip_count(source) {
        Err(words) => post.phase == ExtractPhase::Closed && fails_with(step, malformed(words)),
        Ok(count) => if cursor < count {
            match zip_entry_step(source, dest, cursor) {
                Ok(action) => {
                    &&& post.phase == ExtractPhase::Unpacking
                    &&& post.source == Some(source)
                    &&& post.cursor == cursor + 1
                    &&& asks(step, action)
                },
                Err(words) => post.phase == ExtractPhase::Closed && fails_with(
                    step,
                    malformed(words),
                ),
            }
        } else {
            post.phase == ExtractPhase::Closed && succeeds_with(step, "Extraction complete"@)
        },
    }
}

/// What an extraction job answers to `event`, and where it stands
/// afterwards.
pub open spec fn extract_transition(
    pre: ExtractView,
    event: EventView,
    post: ExtractView,
    step: StepView<Seq<char>>,
) -> bool {
    &&& post.path == pre.path
    &&& post.dest == pre.dest
    &&& post.password == pre.password
    &&& match (pre.phase, event) {
        (ExtractPhase::Fresh, EventView::Start) => {
            &&& post.phase == ExtractPhase::AwaitExists
            &&& asks(step, ActionView::CheckExists { path: pre.path })
        },
        (ExtractPhase::AwaitExists, EventView::Exists { exists }) => if exists {
            post.phase == ExtractPhase::AwaitProbe && asks(step, ActionView::ProbeTool)
        } else {
            post.phase == ExtractPhase::Closed && fails_with(step, not_found(pre.path))
        },
        (ExtractPhase::AwaitProbe, EventView::ToolProbed { available }) => if available {
            &&& post.phase == ExtractPhase::AwaitTool
            &&& asks(
                step,
                ActionView::RunTool {
                    arguments: extract_arguments(pre.path, pre.dest, pre.password),
                },
            )
        } else {
            match format_of(pre.path) {
                ArchiveFormat::Zip => {
                    &&& post.phase == ExtractPhase::AwaitBytes
                    &&& asks(step, ActionView::ReadFile { path: pre.path })
                },
                ArchiveFormat::Tar => {
                    &&& post.phase == ExtractPhase::AwaitUnpack
                    &&& asks(
                        step,
                        ActionView::UnpackTar { archive: pre.path, dest: pre.dest, gzip: false },
                    )
                },
                ArchiveFormat::TarGz => {
                    &&& post.phase == ExtractPhase::AwaitUnpack
                    &&& asks(
                        step,
                        ActionView::UnpackTar { archive: pre.path, dest: pre.dest, gzip: true },
                    )
                },
                ArchiveFormat::Unknown => {
                    post.phase == ExtractPhase::Closed && fails_with(step, unsupported_input())
                },
            }
        },
        (ExtractPhase::AwaitTool, EventView::ToolRan { success, stdout, stderr }) => {
            &&& post.phase == ExtractPhase::Closed
            &&& step == StepView::<Seq<char>>::Finished(captured(success, stdout, stderr))
        },
        (ExtractPhase::AwaitTool, EventView::Failed { message }) => {
            post.phase == ExtractPhase::Closed && fails_with(
                step,
                (ErrorKind::ToolInvocation, message),
            )
        },
        (ExtractPhase::AwaitBytes, EventView::Bytes { data }) => unpack_next(
            data,
            0,
            pre.dest,
            post,
            step,
        ),
        (ExtractPhase::Unpacking, EventView::Done) => match pre.source {
            Some(source) => unpack_next(source, pre.cursor, pre.dest, post, step),
            None => post.phase == ExtractPhase::Closed && fails_with(step, out_of_turn()),
        },
        (ExtractPhase::AwaitUnpack, EventView::Done) => {
            post.phase == ExtractPhase::Closed && succeeds_with(step, "Extraction complete"@)
        },
        (ExtractPhase::AwaitBytes, EventView::Failed { message })
        | (ExtractPhase::Unpacking, EventView::Failed { message })
        | (ExtractPhase::AwaitUnpack, EventView::Failed { message }) => {
            post.phase == ExtractPhase::Closed && fails_with(step, (ErrorKind::Io, message))
        },
        _ => post.phase == ExtractPhase::Closed && fails_with(step, out_of_turn()),
    }
}

/// Every path that an extraction job asks to have made or written lies
/// inside its destination.
pub open spec fn stays_inside(dest: Seq<char>, step: StepView<Seq<char>>) -> bool {
    step matches StepView::Perform(action) ==> (written_path(action) matches Some(path)
        ==> confined(dest, path))
}

fn extraction_complete() -> (r: Result<String, Failure>)
    ensures
        crate::errors::text_outcome(r) == Ok::<Seq<char>, (ErrorKind, Seq<char>)>(
            "Extraction complete"@,
        ),
{
    Ok(String::from_str("Extraction complete"))
}

/// An extraction that has not begun.
pub open spec fn fresh_extract(
    path: Seq<char>,
    dest: Seq<char>,
    password: Option<Seq<char>>,
) -> ExtractView {
    ExtractView { phase: ExtractPhase::Fresh, path, dest, password, source: None, cursor: 0 }
}

impl ExtractJob {
    /// The archive that is unpacked.
    pub fn path(&self) -> (r: &str)
        ensures
            r@ == self@.path,
    {
        self.path.as_str()
    }

    /// The directory that it is unpacked into.
    pub fn dest(&self) -> (r: &str)
        ensures
            r@ == self@.dest,
    {
        self.dest.as_str()
    }

    fn unpack(&mut self, archive: ZipArchive<Cursor<Vec<u8>>>) -> (step: Step<String>)
        requires
            old(self).phase == ExtractPhase::Closed,
        ensures
            final(self)@.path == old(self)@.path,
            final(self)@.dest == old(self)@.dest,
            final(self)@.password == old(self)@.password,
            unpack_next(zip_source(archive), old(self)@.cursor, old(self)@.dest, final(self)@, step.text()),
            stays_inside(old(self)@.dest, step.text()),
    {
        let mut archive = archive;
        let count = zip_len(&archive);
        if self.next < count {
            match unpack_zip_entry(&mut archive, self.dest.as_str(), self.next) {
                Ok(action) => {
                    self.next = self.next + 1;
                    self.archive = Some(archive);
                    self.phase = ExtractPhase::Unpacking;
                    Step::Perform(action)
                },
                Err(f) => Step::Finished(Err(f)),
            }
        } else {
            Step::Finished(extraction_complete())
        }
    }

    /// Takes the job one event further (see [`extract_transition`]). No
    /// action that it asks for writes outside the destination.
    pub fn advance(&mut self, event: Event) -> (step: Step<String>)
        ensures
            extract_transition(old(self)@, event@, final(self)@, step.text()),
            stays_inside(old(self)@.dest, step.text()),
    {
        let phase = self.phase;
        self.phase = ExtractPhase::Closed;
        match (phase, event) {
            (ExtractPhase::Fresh, Event::Start) => {
                self.phase = ExtractPhase::AwaitExists;
                Step::Perform(Action::CheckExists { path: self.path.clone() })
            },
            (ExtractPhase::AwaitExists, Event::Exists { exists }) => {
                if exists {
                    self.phase = ExtractPhase::AwaitProbe;
                    Step::Perform(Action::ProbeTool)
                } else {
                    Step::Finished(
                        Err(
                            failure(
                                ErrorKind::NotFound,
                                prefixed("Archive not found: ", self.path.as_str()),
                            ),
                        ),
                    )
                }
            },
            (ExtractPhase::AwaitProbe, Event::ToolProbed { available }) => {
                if available {
                    self.phase = ExtractPhase::AwaitTool;
                    Step::Perform(
                        Action::RunTool {
                            arguments: extract_command(
                                self.path.as_str(),
                                self.dest.as_str(),
                                borrowed(&self.password),
                            ),
                        },
                    )
                } else {
                    match detect_format(self.path.as_str()) {
                        ArchiveFormat::Zip => {
                            self.phase = ExtractPhase::AwaitBytes;
                            Step::Perform(Action::ReadFile { path: self.path.clone() })
                        },
                        ArchiveFormat::Tar => {
                            self.phase = ExtractPhase::AwaitUnpack;
                            Step::Perform(
                                Action::UnpackTar {
                                    archive: self.path.clone(),
                                    dest: self.dest.clone(),
                                    gzip: false,
                                },
                            )
                        },
                        ArchiveFormat::TarGz => {
                            self.phase = ExtractPhase::AwaitUnpack;
                            Step::Perform(
                                Action::UnpackTar {
                                    archive: self.path.clone(),
                                    dest: self.dest.clone(),
                                    gzip: true,
                                },
                            )
                        },
                        ArchiveFormat::Unknown => Step::Finished(
                            Err(unsupported_archive()),
                        ),
                    }
                }
            },
            (ExtractPhase::AwaitTool, Event::ToolRan { success, stdout, stderr }) => {
                Step::Finished(capture(success, stdout, stderr))
            },
            (ExtractPhase::AwaitTool, Event::Failed { message }) => {
                Step::Finished(Err(failure(ErrorKind::ToolInvocation, message)))
            },
            (ExtractPhase::AwaitBytes, Event::Bytes { data }) => {
                self.next = 0;
                match zip_open(data) {
                    Ok(archive) => self.unpack(archive),
                    Err(words) => Step::Finished(
                        Err(failure(ErrorKind::ContainerFormat, words)),
                    ),
                }
            },
            (ExtractPhase::Unpacking, Event::Done) => {
                match self.archive.take() {
                    Some(archive) => self.unpack(archive),
                    None => Step::Finished(Err(refusal())),
                }
            },
            (ExtractPhase::AwaitUnpack, Event::Done) => Step::Finished(extraction_complete()),
            (ExtractPhase::AwaitBytes, Event::Failed { message }) => {
                Step::Finished(Err(failure(ErrorKind::Io, message)))
            },
            (ExtractPhase::Unpacking, Event::Failed { message }) => {
                Step::Finished(Err(failure(ErrorKind::Io, message)))
            },
            (ExtractPhase::AwaitUnpack, Event::Failed { message }) => {
                Step::Finished(Err(failure(ErrorKind::Io, message)))
            },
            _ => Step::Finished(Err(refusal())),
        }
    }
}

/// Begins an extraction of the archive at `path` into `dest`. The password
/// is handed to the external archiver when that is used and is not empty.
/// The built-in code takes no password: an archive that needs none is
/// unpacked whatever password was given, and an entry that needs one ends
/// the job with a container-format failure. The job is advanced with
/// [`Event::Start`] first.
pub fn extract_archive(path: &str, dest: &str, password: Option<&str>) -> (job: ExtractJob)
    ensures
        job@ == fresh_extract(path@, dest@, crate::tool::optional_text(password)),
{
    ExtractJob {
        path: String::from_str(path),
        dest: String::from_str(dest),
        password: match password {
            Some(p) => Some(String::from_str(p)),
            None => None,
        },
        phase: ExtractPhase::Fresh,
        archive: None,
        next: 0,
    }
}

/// Begins a listing of the archive at `path`, for callers that show the
/// result themselves. It is [`list_archive`] under another name.
pub fn archive_list_noninteractive(path: &str) -> (job: ListJob)
    ensures
        job.path() == path@,
        job.phase() == ListPhase::Fresh,
{
    list_archive(path)
}

/// Begins an extraction, for callers that show the result themselves. It is
/// [`extract_archive`] under another name.
pub fn archive_extract_noninteractive(path: &str, dest: &str, password: Option<&str>) -> (job:
    ExtractJob)
    ensures
        job@ == fresh_extract(path@, dest@, crate::tool::optional_text(password)),
{
    extract_archive(path, dest, password)
}

/// Extraction never leaves its destination: whatever the archive holds and
/// whatever the host reports, every directory that an extraction job asks
/// to have made and every file that it asks to have written lies inside
/// the destination.
pub proof fn lemma_extraction_stays_inside(
    pre: ExtractView,
    event: EventView,
    post: ExtractView,
    step: StepView<Seq<char>>,
)
    requires
        extract_transition(pre, event, post, step),
    ensures
        stays_inside(pre.dest, step),
{
    match (pre.phase, event) {
        (ExtractPhase::AwaitBytes, EventView::Bytes { data }) => {
            crate::builtin::lemma_zip_entry_step_is_confined(data, pre.dest, 0);
        },
        (ExtractPhase::Unpacking, EventView::Done) => {
            if pre.source is Some {
                crate::builtin::lemma_zip_entry_step_is_confined(
                    pre.source->Some_0,
                    pre.dest,
                    pre.cursor,
                );
            }
        },
        _ => {},
    }
}

/// Unpacking a zip file of given entries goes entry by entry and ends in
/// success: while entries are left, the step asks for what the next entry
/// needs (its directory made, or its file written with exactly the content
/// taken) and moves on by one; after the last entry the job ends with
/// `Extraction complete`. No step of it fails.
pub proof fn lemma_held_zip_is_unpacked_whole(
    bytes: Seq<u8>,
    entries: Seq<(Seq<char>, Seq<u8>)>,
    cursor: nat,
    dest: Seq<char>,
    post: ExtractView,
    step: StepView<Seq<char>>,
)
    requires
        crate::zip_codec::zip_holds(bytes, entries),
        unpack_next(bytes, cursor, dest, post, step),
    ensures
        cursor < entries.len() ==> {
            &&& post.phase == ExtractPhase::Unpacking
            &&& post.source == Some(bytes)
            &&& post.cursor == cursor + 1
            &&& asks(
                step,
                crate::builtin::entry_action(
                    dest,
                    entries[cursor as int].0,
                    entries[cursor as int].1,
                ),
            )
        },
        cursor >= entries.len() ==> post.phase == ExtractPhase::Closed && succeeds_with(
            step,
            "Extraction complete"@,
        ),
{
    if cursor < entries.len() {
        crate::builtin::lemma_held_zip_unpacks_its_entries(bytes, entries, dest, cursor as int);
    }
}

/// Whether `states`, `events` and `steps` record the built-in unpacking of
/// the zip file `bytes`: every step follows [`extract_transition`] from the
/// state before it to the state after it, and the host finds the archive,
/// answers the probe with no, reads the archive as `bytes` and does
/// whatever it is asked for after that.
pub open spec fn is_unpack_run(
    states: Seq<ExtractView>,
    events: Seq<EventView>,
    steps: Seq<StepView<Seq<char>>>,
    bytes: Seq<u8>,
) -> bool {
    &&& events.len() >= 4
    &&& steps.len() == events.len()
    &&& states.len() == events.len() + 1
    &&& states[0].phase == ExtractPhase::Fresh
    &&& format_of(states[0].path) == ArchiveFormat::Zip
    &&& forall|k: int|
        0 <= k < steps.len() ==> extract_transition(
            states[k],
            events[k],
            states[k + 1],
            #[trigger] steps[k],
        )
    &&& events[0] == EventView::Start
    &&& events[1] == (EventView::Exists { exists: true })
    &&& events[2] == (EventView::ToolProbed { available: false })
    &&& events[3] == (EventView::Bytes { data: bytes })
    &&& forall|k: int| 4 <= k < events.len() ==> #[trigger] events[k] == EventView::Done
}

proof fn lemma_unpack_run_upto(
    states: Seq<ExtractView>,
    events: Seq<EventView>,
    steps: Seq<StepView<Seq<char>>>,
    bytes: Seq<u8>,
    entries: Seq<(Seq<char>, Seq<u8>)>,
    k: int,
)
    requires
        is_unpack_run(states, events, steps, bytes),
        crate::zip_codec::zip_holds(bytes, entries),
        events.len() == entries.len() + 4,
        0 <= k < entries.len(),
    ensures
        states[k + 4].phase == ExtractPhase::Unpacking,
        states[k + 4].source == Some(bytes),
        states[k + 4].cursor == k + 1,
        states[k + 4].dest == states[0].dest,
        asks(
            steps[k + 3],
            crate::builtin::entry_action(states[0].dest, entries[k].0, entries[k].1),
        ),
    decreases k,
{
    if k == 0 {
        assert(extract_transition(states[0], events[0], states[1], steps[0]));
        assert(extract_transition(states[1], events[1], states[2], steps[1]));
        assert(extract_transition(states[2], events[2], states[3], steps[2]));
        assert(extract_transition(states[3], events[3], states[4], steps[3]));
        lemma_held_zip_is_unpacked_whole(bytes, entries, 0, states[0].dest, states[4], steps[3]);
    } else {
        lemma_unpack_run_upto(states, events, steps, bytes, entries, k - 1);
        assert(events[k + 3] == EventView::Done);
        assert(extract_transition(states[k + 3], events[k + 3], states[k + 4], steps[k + 3]));
        lemma_held_zip_is_unpacked_whole(
            bytes,
            entries,
            k as nat,
            states[0].dest,
            states[k + 4],
            steps[k + 3],
        );
    }
}

/// Built-in extraction gives back what a zip file holds. With no archiver
/// at hand, the job for a zip file of given entries asks for one action
/// for each entry, in the order of the entries: for an entry whose name
/// stands for a directory that the directory be made, for every other
/// entry that its file be written with exactly the content taken, below
/// the destination under its cleaned name. It asks for nothing else and
/// then ends with the words `Extraction complete`.
pub proof fn lemma_held_zip_is_restored(
    states: Seq<ExtractView>,
    events: Seq<EventView>,
    steps: Seq<StepView<Seq<char>>>,
    bytes: Seq<u8>,
    entries: Seq<(Seq<char>, Seq<u8>)>,
)
    requires
        is_unpack_run(states, events, steps, bytes),
        crate::zip_codec::zip_holds(bytes, entries),
        events.len() == entries.len() + 4,
    ensures
        forall|k: int|
            0 <= k < entries.len() ==> asks(
                steps[k + 3],
                crate::builtin::entry_action(
                    states[0].dest,
                    (#[trigger] entries[k]).0,
                    entries[k].1,
                ),
            ),
        succeeds_with(steps[entries.len() as int + 3], "Extraction complete"@),
{
    assert forall|k: int| 0 <= k < entries.len() implies asks(
        steps[k + 3],
        crate::builtin::entry_action(states[0].dest, (#[trigger] entries[k]).0, entries[k].1),
    ) by {
        lemma_unpack_run_upto(states, events, steps, bytes, entries, k);
    }
    let n = entries.len() as int;
    if n == 0 {
        assert(extract_transition(states[0], events[0], states[1], steps[0]));
        assert(extract_transition(states[1], events[1], states[2], steps[1]));
        assert(extract_transition(states[2], events[2], states[3], steps[2]));
        assert(extract_transition(states[3], events[3], states[4], steps[3]));
        lemma_held_zip_is_unpacked_whole(bytes, entries, 0, states[0].dest, states[4], steps[3]);
    } else {
        lemma_unpack_run_upto(states, events, steps, bytes, entries, n - 1);
        assert(events[n + 3] == EventView::Done);
        assert(extract_transition(states[n + 3], events[n + 3], states[n + 4], steps[n + 3]));
        lemma_held_zip_is_unpacked_whole(
            bytes,
            entries,
            n as nat,
            states[0].dest,
            states[n + 4],
            steps[n + 3],
        );
    }
}

/// Whether a step asks for the external archiver to be run.
pub open spec fn runs_tool(step: StepView<Seq<char>>) -> bool {
    step matches StepView::Perform(action) && action is RunTool
}

/// A listing follows one strategy. The external archiver is run only in
/// answer to a probe that found it, and its answer ends the job. A probe
/// that did not find it sends every archive of a known kind to the
/// built-in reader, whose answer ends the job too.
pub proof fn lemma_list_follows_one_strategy(
    phase: ListPhase,
    path: Seq<char>,
    event: EventView,
    next: ListPhase,
    step: StepView<Seq<char>>,
)
    requires
        list_transition(phase, path, event, next, step),
    ensures
        runs_tool(step) || next == ListPhase::AwaitTool ==> phase == ListPhase::AwaitProbe && event
            == (EventView::ToolProbed { available: true }),
        phase == ListPhase::AwaitTool || phase == ListPhase::AwaitBytes ==> next
            == ListPhase::Closed && step is Finished,
        phase == ListPhase::AwaitProbe && event == (EventView::ToolProbed { available: false })
            && format_of(path) != ArchiveFormat::Unknown ==> asks(
            step,
            ActionView::ReadFile { path },
        ),
{
}

/// An extraction follows one strategy. The external archiver is run only
/// in answer to a probe that found it, and its answer ends the job. A
/// probe that did not find it sends every archive of a known kind to the
/// built-in code.
pub proof fn lemma_extract_follows_one_strategy(
    pre: ExtractView,
    event: EventView,
    post: ExtractView,
    step: StepView<Seq<char>>,
)
    requires
        extract_transition(pre, event, post, step),
    ensures
        runs_tool(step) || post.phase == ExtractPhase::AwaitTool ==> pre.phase
            == ExtractPhase::AwaitProbe && event == (EventView::ToolProbed { available: true }),
        pre.phase == ExtractPhase::AwaitTool ==> post.phase == ExtractPhase::Closed
            && step is Finished,
        pre.phase == ExtractPhase::AwaitProbe && event == (EventView::ToolProbed {
            available: false,
        }) && format_of(pre.path) != ArchiveFormat::Unknown ==> step is Perform && !runs_tool(step),
{
}

} // verus!
