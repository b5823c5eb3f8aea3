//! The facade's `create`: a new archive from a list of sources.
//!
//! With the external archiver the request becomes one command. Without it
//! the kind of container follows from the name of the output. A zip file is
//! built in memory, source by source: a file becomes one entry under its
//! file name, a directory gives one entry for each file below it, named by
//! its path relative to the directory. A tar stream is packed by the host
//! from the sources as they are given.

use vstd::prelude::*;
use vstd::string::StringExecFns;
use crate::archive::{
    asks,
    fails_with,
    is_unpack_run,
    lemma_held_zip_is_restored,
    runs_tool,
    succeeds_with,
    ExtractView,
};
use crate::builtin::{
    add_entry,
    entry_name_of,
    entry_refusal,
    malformed,
    source_entry_name,
    walked_entry_name,
    walked_name_of,
};
use crate::errors::{failure, out_of_turn, refusal, ErrorKind, Failure};
use crate::format::{detect_format, format_of, ArchiveFormat};
use crate::host::{Action, ActionView, Event, EventView, SourceKind, SourceKindView, Step, StepView};
use crate::paths::{file_name, is_plain, under};
use crate::text::{borrow_lines, clone_lines, lines_of, own_lines, strs_of};
use crate::tool::{
    borrowed,
    capture,
    captured,
    create_arguments,
    create_command,
    optional_string,
    optional_text,
};
use crate::zip_codec::{
    entry_weight,
    reads_back,
    shows_locator,
    small_limit,
    total_weight,
    zip_finish,
    zip_finish_refusal,
    zip_fits,
    zip_holds,
    zip_plain,
    zip_ready,
    zip_writer_new,
    zip_written,
    ZipSink,
};

verus! {

/// Where a creation job stands.
#[derive(Clone, Copy, Debug, PartialEq, Eq, Structural)]
pub enum CreatePhase {
    /// Not begun.
    Fresh,
    /// Asked whether the external archiver can be started.
    AwaitProbe,
    /// The external archiver is running.
    AwaitTool,
    /// The output file is being created.
    AwaitOpen,
    /// Asked what the current source is.
    AwaitKind,
    /// The current source, a file, is being read.
    AwaitFile,
    /// A file found below the current source, a directory, is being read.
    AwaitWalked,
    /// The finished zip file is being written out.
    AwaitWrite,
    /// The host is packing a tar stream.
    AwaitPack,
    /// Ended.
    Closed,
}

/// A zip file under construction and the place reached among the sources.
struct Builder {
    writer: ZipSink,
    source_index: usize,
    files: Vec<String>,
    file_index: usize,
}

enum CreateState {
    Fresh,
    AwaitProbe,
    AwaitTool,
    AwaitOpen,
    Inspecting(Builder),
    ReadingFile(Builder),
    ReadingWalked(Builder),
    AwaitWrite,
    AwaitPack,
    Closed,
}

/// One call of the facade's `create`.
pub struct CreateJob {
    sources: Vec<String>,
    output: String,
    format: Option<String>,
    password: Option<String>,
    state: CreateState,
}

/// A [`CreateJob`] as a mathematical value.
pub struct CreateView {
    /// Where the job stands.
    pub phase: CreatePhase,
    /// The sources, in the order given.
    pub sources: Seq<Seq<char>>,
    /// The archive that is created.
    pub output: Seq<char>,
    /// The archive type handed to the external archiver, if any.
    pub format: Option<Seq<char>>,
    /// The password handed to the external archiver, if any.
    pub password: Option<Seq<char>>,
    /// The writer of the zip file under construction, while there is one.
    pub sink: Option<ZipSink>,
    /// The entries that the zip file under construction holds.
    pub written: Seq<(Seq<char>, Seq<u8>)>,
    /// The position of the current source.
    pub source_index: nat,
    /// The files found below the current source, when it is a directory.
    pub files: Seq<Seq<char>>,
    /// The position of the current file among them.
    pub file_index: nat,
}

impl CreateState {
    spec fn phase(self) -> CreatePhase {
        match self {
            CreateState::Fresh => CreatePhase::Fresh,
            CreateState::AwaitProbe => CreatePhase::AwaitProbe,
            CreateState::AwaitTool => CreatePhase::AwaitTool,
            CreateState::AwaitOpen => CreatePhase::AwaitOpen,
            CreateState::Inspecting(_) => CreatePhase::AwaitKind,
            CreateState::ReadingFile(_) => CreatePhase::AwaitFile,
            CreateState::ReadingWalked(_) => CreatePhase::AwaitWalked,
            CreateState::AwaitWrite => CreatePhase::AwaitWrite,
            CreateState::AwaitPack => CreatePhase::AwaitPack,
            CreateState::Closed => CreatePhase::Closed,
        }
    }

    spec fn builder(self) -> Option<Builder> {
        match self {
            CreateState::Inspecting(b) => Some(b),
            CreateState::ReadingFile(b) => Some(b),
            CreateState::ReadingWalked(b) => Some(b),
            _ => None,
        }
    }
}

impl View for CreateJob {
    type V = CreateView;

    closed spec fn view(&self) -> CreateView {
        CreateView {
            phase: self.state.phase(),
            sources: lines_of(self.sources@),
            output: self.output@,
            format: optional_string(self.format),
            password: optional_string(self.password),
            sink: match self.state.builder() {
                Some(b) => Some(b.writer),
                None => None,
            },
            written: match self.state.builder() {
                Some(b) => zip_written(b.writer),
                None => Seq::<(Seq<char>, Seq<u8>)>::empty(),
            },
            source_index: match self.state.builder() {
                Some(b) => b.source_index as nat,
                None => 0,
            },
            files: match self.state.builder() {
                Some(b) => lines_of(b.files@),
                None => Seq::<Seq<char>>::empty(),
            },
            file_index: match self.state.builder() {
                Some(b) => b.file_index as nat,
                None => 0,
            },
        }
    }
}

/// The failure for a request without sources.
pub open spec fn no_sources() -> (ErrorKind, Seq<char>) {
    (ErrorKind::InvalidArgument, "No sources provided"@)
}

/// The failure for an output whose kind cannot be written without the
/// external archiver.
pub open spec fn unsupported_output() -> (ErrorKind, Seq<char>) {
    (ErrorKind::Unsupported, "Unsupported output format and 7z not available"@)
}

/// The failure for a walked file that does not lie below its directory.
pub open spec fn outside_source() -> (ErrorKind, Seq<char>) {
    (ErrorKind::InvalidArgument, "prefix not found"@)
}

/// Whether `post` still carries the request of `pre`.
pub open spec fn same_request(pre: CreateView, post: CreateView) -> bool {
    &&& post.sources == pre.sources
    &&& post.output == pre.output
    &&& post.format == pre.format
    &&& post.password == pre.password
}

/// How the zip builder goes on to the source at `index` with the writer
/// `sink`: the source is inspected. After the last source the file is
/// finished. Where the writer finishes, the bytes that it hands back are
/// written to the output, and they read back as the entries taken as far
/// as [`reads_back`] says; where it does not, the job ends with a
/// container-format failure that carries the writer's words.
pub open spec fn next_source(
    sources: Seq<Seq<char>>,
    index: nat,
    sink: ZipSink,
    post: CreateView,
    step: StepView<Seq<char>>,
) -> bool {
    if index < sources.len() {
        &&& post.phase == CreatePhase::AwaitKind
        &&& post.source_index == index
        &&& post.sink == Some(sink)
        &&& post.written == zip_written(sink)
        &&& asks(step, ActionView::InspectSource { path: sources[index as int] })
    } else {
        match zip_finish_refusal(sink) {
            None => {
                &&& post.phase == CreatePhase::AwaitWrite
                &&& step matches StepView::Perform(ActionView::WriteOutput { data })
                &&& reads_back(step->Perform_0->WriteOutput_data, zip_written(sink))
            },
            Some(words) => post.phase == CreatePhase::Closed && fails_with(
                step,
                malformed(words),
            ),
        }
    }
}

/// How the zip builder goes on to the file at `file_index` among the
/// `files` found below the current source: the file is read, provided that
/// it lies below the source; after the last file the next source is taken.
pub open spec fn next_walked(
    sources: Seq<Seq<char>>,
    source_index: nat,
    files: Seq<Seq<char>>,
    file_index: nat,
    sink: ZipSink,
    post: CreateView,
    step: StepView<Seq<char>>,
) -> bool {
    if file_index < files.len() {
        match walked_entry_name(sources[source_index as int], files[file_index as int]) {
            Some(_) => {
                &&& post.phase == CreatePhase::AwaitWalked
                &&& post.source_index == source_index
                &&& post.files == files
                &&& post.file_index == file_index
                &&& post.sink == Some(sink)
                &&& post.written == zip_written(sink)
                &&& asks(step, ActionView::ReadFile { path: files[file_index as int] })
            },
            None => post.phase == CreatePhase::Closed && fails_with(step, outside_source()),
        }
    } else {
        next_source(sources, source_index + 1, sink, post, step)
    }
}

/// The job goes on to the source at `index` with a writer that holds
/// exactly `written`, and that is ready (see [`zip_ready`]) where `ready`
/// says so.
pub open spec fn next_source_holding(
    sources: Seq<Seq<char>>,
    index: nat,
    written: Seq<(Seq<char>, Seq<u8>)>,
    ready: bool,
    post: CreateView,
    step: StepView<Seq<char>>,
) -> bool {
    exists|sink: ZipSink| #[trigger]
        zip_written(sink) == written && (ready ==> zip_ready(sink)) && next_source(
            sources,
            index,
            sink,
            post,
            step,
        )
}

/// The job goes on to the file at `file_index` with a writer that holds
/// exactly `written`, and that is ready (see [`zip_ready`]) where `ready`
/// says so.
pub open spec fn next_walked_holding(
    sources: Seq<Seq<char>>,
    source_index: nat,
    files: Seq<Seq<char>>,
    file_index: nat,
    written: Seq<(Seq<char>, Seq<u8>)>,
    ready: bool,
    post: CreateView,
    step: StepView<Seq<char>>,
) -> bool {
    exists|sink: ZipSink| #[trigger]
        zip_written(sink) == written && (ready ==> zip_ready(sink)) && next_walked(
            sources,
            source_index,
            files,
            file_index,
            sink,
            post,
            step,
        )
}

/// What a creation job answers to `event`, and where it stands afterwards.
pub open spec fn create_transition(
    pre: CreateView,
    event: EventView,
    post: CreateView,
    step: StepView<Seq<char>>,
) -> bool {
    &&& same_request(pre, post)
    &&& match (pre.phase, event) {
        (CreatePhase::Fresh, EventView::Start) => if pre.sources.len() == 0 {
            post.phase == CreatePhase::Closed && fails_with(step, no_sources())
        } else {
            post.phase == CreatePhase::AwaitProbe && asks(step, ActionView::ProbeTool)
        },
        (CreatePhase::AwaitProbe, EventView::ToolProbed { available }) => if available {
            &&& post.phase == CreatePhase::AwaitTool
            &&& asks(
                step,
                ActionView::RunTool {
                    arguments: create_arguments(
                        pre.sources,
                        pre.output,
                        pre.format,
                        pre.password,
                    ),
                },
            )
        } else {
            match format_of(pre.output) {
                ArchiveFormat::Zip => {
                    &&& post.phase == CreatePhase::AwaitOpen
                    &&& asks(step, ActionView::OpenOutput { path: pre.output, create: true })
                },
                ArchiveFormat::Tar => {
                    &&& post.phase == CreatePhase::AwaitPack
                    &&& asks(
                        step,
                        ActionView::PackTar {
                            sources: pre.sources,
                            output: pre.output,
                            gzip: false,
                        },
                    )
                },
                ArchiveFormat::TarGz => {
                    &&& post.phase == CreatePhase::AwaitPack
                    &&& asks(
                        step,
                        ActionView::PackTar { sources: pre.sources, output: pre.output, gzip: true },
                    )
                },
                ArchiveFormat::Unknown => {
                    post.phase == CreatePhase::Closed && fails_with(step, unsupported_output())
                },
            }
        },
        (CreatePhase::AwaitTool, EventView::ToolRan { success, stdout, stderr }) => {
            &&& post.phase == CreatePhase::Closed
            &&& step == StepView::<Seq<char>>::Finished(captured(success, stdout, stderr))
        },
        (CreatePhase::AwaitTool, EventView::Failed { message }) => {
            post.phase == CreatePhase::Closed && fails_with(
                step,
                (ErrorKind::ToolInvocation, message),
            )
        },
        (CreatePhase::AwaitOpen, EventView::Done) => next_source_holding(
            pre.sources,
            0,
            Seq::<(Seq<char>, Seq<u8>)>::empty(),
            true,
            post,
            step,
        ),
        (CreatePhase::AwaitKind, EventView::Source { kind }) => if pre.source_index
            < pre.sources.len() && pre.sink is Some {
            match kind {
                SourceKindView::File => {
                    &&& post.phase == CreatePhase::AwaitFile
                    &&& post.source_index == pre.source_index
                    &&& post.sink == pre.sink
                    &&& post.written == pre.written
                    &&& asks(
                        step,
                        ActionView::ReadFile { path: pre.sources[pre.source_index as int] },
                    )
                },
                SourceKindView::Directory { files } => next_walked(
                    pre.sources,
                    pre.source_index,
                    files,
                    0,
                    pre.sink->Some_0,
                    post,
                    step,
                ),
                SourceKindView::Other => next_source(
                    pre.sources,
                    pre.source_index + 1,
                    pre.sink->Some_0,
                    post,
                    step,
                ),
            }
        } else {
            post.phase == CreatePhase::Closed && fails_with(step, out_of_turn())
        },
        (CreatePhase::AwaitFile, EventView::Bytes { data }) => if pre.source_index
            < pre.sources.len() && pre.sink is Some {
            let name = source_entry_name(pre.sources[pre.source_index as int]);
            match entry_refusal(pre.sink->Some_0, name, data) {
                None => next_source_holding(
                    pre.sources,
                    pre.source_index + 1,
                    pre.written.push((name, data)),
                    data.len() <= small_limit(),
                    post,
                    step,
                ),
                Some(words) => post.phase == CreatePhase::Closed && fails_with(
                    step,
                    malformed(words),
                ),
            }
        } else {
            post.phase == CreatePhase::Closed && fails_with(step, out_of_turn())
        },
        (CreatePhase::AwaitWalked, EventView::Bytes { data }) => if pre.source_index
            < pre.sources.len() && pre.file_index < pre.files.len() && walked_entry_name(
            pre.sources[pre.source_index as int],
            pre.files[pre.file_index as int],
        ) is Some && pre.sink is Some {
            let name = walked_entry_name(
                pre.sources[pre.source_index as int],
                pre.files[pre.file_index as int],
            )->Some_0;
            match entry_refusal(pre.sink->Some_0, name, data) {
                None => next_walked_holding(
                    pre.sources,
                    pre.source_index,
                    pre.files,
                    pre.file_index + 1,
                    pre.written.push((name, data)),
                    data.len() <= small_limit(),
                    post,
                    step,
                ),
                Some(words) => post.phase == CreatePhase::Closed && fails_with(
                    step,
                    malformed(words),
                ),
            }
        } else {
            post.phase == CreatePhase::Closed && fails_with(step, out_of_turn())
        },
        (CreatePhase::AwaitWrite, EventView::Done) | (CreatePhase::AwaitPack, EventView::Done) => {
            post.phase == CreatePhase::Closed && succeeds_with(step, "Archive created"@)
        },
        (CreatePhase::AwaitOpen, EventView::Failed { message })
        | (CreatePhase::AwaitKind, EventView::Failed { message })
        | (CreatePhase::AwaitFile, EventView::Failed { message })
        | (CreatePhase::AwaitWalked, EventView::Failed { message })
        | (CreatePhase::AwaitWrite, EventView::Failed { message })
        | (CreatePhase::AwaitPack, EventView::Failed { message }) => {
            post.phase == CreatePhase::Closed && fails_with(step, (ErrorKind::Io, message))
        },
        _ => post.phase == CreatePhase::Closed && fails_with(step, out_of_turn()),
    }
}

fn archive_created() -> (r: Result<String, Failure>)
    ensures
        crate::errors::text_outcome(r) == Ok::<Seq<char>, (ErrorKind, Seq<char>)>(
            "Archive created"@,
        ),
{
    Ok(String::from_str("Archive created"))
}

/// A creation that has not begun.
pub open spec fn fresh_create(
    sources: Seq<Seq<char>>,
    output: Seq<char>,
    format: Option<Seq<char>>,
    password: Option<Seq<char>>,
) -> CreateView {
    CreateView {
        phase: CreatePhase::Fresh,
        sources,
        output,
        format,
        password,
        sink: None,
        written: Seq::<(Seq<char>, Seq<u8>)>::empty(),
        source_index: 0,
        files: Seq::<Seq<char>>::empty(),
        file_index: 0,
    }
}

impl CreateJob {
    /// The archive that is created.
    pub fn output(&self) -> (r: &str)
        ensures
            r@ == self@.output,
    {
        self.output.as_str()
    }

    /// Goes on to the source at `index`.
    fn take_source(&mut self, index: usize, builder: Builder) -> (step: Step<String>)
        requires
            old(self).state is Closed,
        ensures
            same_request(old(self)@, final(self)@),
            next_source(
                old(self)@.sources,
                index as nat,
                builder.writer,
                final(self)@,
                step.text(),
            ),
    {
        let mut builder = builder;
        if index < self.sources.len() {
            builder.source_index = index;
            self.state = CreateState::Inspecting(builder);
            Step::Perform(Action::InspectSource { path: self.sources[index].clone() })
        } else {
            match zip_finish(&mut builder.writer) {
                Ok(data) => {
                    self.state = CreateState::AwaitWrite;
                    Step::Perform(Action::WriteOutput { data })
                },
                Err(words) => Step::Finished(Err(failure(ErrorKind::ContainerFormat, words))),
            }
        }
    }

    /// Goes on to the current file among those found below the current
    /// source.
    fn take_walked(&mut self, builder: Builder) -> (step: Step<String>)
        requires
            old(self).state is Closed,
            builder.source_index < old(self).sources.len(),
        ensures
            same_request(old(self)@, final(self)@),
            next_walked(
                old(self)@.sources,
                builder.source_index as nat,
                lines_of(builder.files@),
                builder.file_index as nat,
                builder.writer,
                final(self)@,
                step.text(),
            ),
    {
        if builder.file_index < builder.files.len() {
            let named = walked_name_of(
                self.sources[builder.source_index].as_str(),
                builder.files[builder.file_index].as_str(),
            );
            match named {
                Some(_) => {
                    let path = builder.files[builder.file_index].clone();
                    self.state = CreateState::ReadingWalked(builder);
                    Step::Perform(Action::ReadFile { path })
                },
                None => Step::Finished(
                    Err(
                        failure(ErrorKind::InvalidArgument, String::from_str("prefix not found")),
                    ),
                ),
            }
        } else {
            let next = builder.source_index + 1;
            self.take_source(next, builder)
        }
    }

    /// Takes the job one event further (see [`create_transition`]).
    pub fn advance(&mut self, event: Event) -> (step: Step<String>)
        ensures
            create_transition(old(self)@, event@, final(self)@, step.text()),
    {
        let mut state = CreateState::Closed;
        core::mem::swap(&mut self.state, &mut state);
        match (state, event) {
            (CreateState::Fresh, Event::Start) => {
                if self.sources.len() == 0 {
                    Step::Finished(
                        Err(
                            failure(
                                ErrorKind::InvalidArgument,
                                String::from_str("No sources provided"),
                            ),
                        ),
                    )
                } else {
                    self.state = CreateState::AwaitProbe;
                    Step::Perform(Action::ProbeTool)
                }
            },
            (CreateState::AwaitProbe, Event::ToolProbed { available }) => {
                if available {
                    self.state = CreateState::AwaitTool;
                    Step::Perform(
                        Action::RunTool {
                            arguments: create_command(
                                &self.sources,
                                self.output.as_str(),
                                borrowed(&self.format),
                                borrowed(&self.password),
                            ),
                        },
                    )
                } else {
                    match detect_format(self.output.as_str()) {
                        ArchiveFormat::Zip => {
                            self.state = CreateState::AwaitOpen;
                            Step::Perform(
                                Action::OpenOutput { path: self.output.clone(), create: true },
                            )
                        },
                        ArchiveFormat::Tar => {
                            self.state = CreateState::AwaitPack;
                            Step::Perform(
                                Action::PackTar {
                                    sources: clone_lines(&self.sources),
                                    output: self.output.clone(),
                                    gzip: false,
                                },
                            )
                        },
                        ArchiveFormat::TarGz => {
                            self.state = CreateState::AwaitPack;
                            Step::Perform(
                                Action::PackTar {
                                    sources: clone_lines(&self.sources),
                                    output: self.output.clone(),
                                    gzip: true,
                                },
                            )
                        },
                        ArchiveFormat::Unknown => Step::Finished(
                            Err(
                                failure(
                                    ErrorKind::Unsupported,
                                    String::from_str(
                                        "Unsupported output format and 7z not available",
                                    ),
                                ),
                            ),
                        ),
                    }
                }
            },
            (CreateState::AwaitTool, Event::ToolRan { success, stdout, stderr }) => {
                Step::Finished(capture(success, stdout, stderr))
            },
            (CreateState::AwaitTool, Event::Failed { message }) => {
                Step::Finished(Err(failure(ErrorKind::ToolInvocation, message)))
            },
            (CreateState::AwaitOpen, Event::Done) => {
                let builder = Builder {
                    writer: zip_writer_new(),
                    source_index: 0,
                    files: Vec::new(),
                    file_index: 0,
                };
                let ghost fresh = builder.writer;
                let step = self.take_source(0, builder);
                assert(zip_written(fresh) == Seq::<(Seq<char>, Seq<u8>)>::empty() && zip_ready(
                    fresh,
                ) && next_source(
                    old(self)@.sources,
                    0,
                    fresh,
                    self@,
                    step.text(),
                ));
                step
            },
            (CreateState::Inspecting(builder), Event::Source { kind }) => {
                if builder.source_index < self.sources.len() {
                    match kind {
                        SourceKind::File => {
                            let path = self.sources[builder.source_index].clone();
                            self.state = CreateState::ReadingFile(builder);
                            Step::Perform(Action::ReadFile { path })
                        },
                        SourceKind::Directory { files } => {
                            let mut builder = builder;
                            builder.files = files;
                            builder.file_index = 0;
                            self.take_walked(builder)
                        },
                        SourceKind::Other => {
                            let next = builder.source_index + 1;
                            self.take_source(next, builder)
                        },
                    }
                } else {
                    Step::Finished(Err(refusal()))
                }
            },
            (CreateState::ReadingFile(builder), Event::Bytes { data }) => {
                if builder.source_index < self.sources.len() {
                    let mut builder = builder;
                    let name = entry_name_of(self.sources[builder.source_index].as_str());
                    match add_entry(&mut builder.writer, name.as_str(), &data) {
                        Ok(()) => {
                            let next = builder.source_index + 1;
                            let ghost filled = builder.writer;
                            let step = self.take_source(next, builder);
                            assert(zip_written(filled) == old(self)@.written.push((name@, data@))
                                && (data@.len() <= small_limit() ==> zip_ready(filled))
                                && next_source(
                                old(self)@.sources,
                                next as nat,
                                filled,
                                self@,
                                step.text(),
                            ));
                            step
                        },
                        Err(f) => Step::Finished(Err(f)),
                    }
                } else {
                    Step::Finished(Err(refusal()))
                }
            },
            (CreateState::ReadingWalked(builder), Event::Bytes { data }) => {
                if builder.source_index < self.sources.len() && builder.file_index
                    < builder.files.len() {
                    let mut builder = builder;
                    let named = walked_name_of(
                        self.sources[builder.source_index].as_str(),
                        builder.files[builder.file_index].as_str(),
                    );
                    match named {
                        Some(name) => {
                            match add_entry(&mut builder.writer, name.as_str(), &data) {
                                Ok(()) => {
                                    builder.file_index = builder.file_index + 1;
                                    let ghost filled = builder.writer;
                                    let ghost files = lines_of(builder.files@);
                                    let ghost at = builder.file_index as nat;
                                    let ghost source = builder.source_index as nat;
                                    let step = self.take_walked(builder);
                                    assert(zip_written(filled) == old(self)@.written.push(
                                        (name@, data@),
                                    ) && (data@.len() <= small_limit() ==> zip_ready(filled))
                                        && next_walked(
                                        old(self)@.sources,
                                        source,
                                        files,
                                        at,
                                        filled,
                                        self@,
                                        step.text(),
                                    ));
                                    step
                                },
                                Err(f) => Step::Finished(Err(f)),
                            }
                        },
                        None => Step::Finished(Err(refusal())),
                    }
                } else {
                    Step::Finished(Err(refusal()))
                }
            },
            (CreateState::AwaitWrite, Event::Done) => Step::Finished(archive_created()),
            (CreateState::AwaitPack, Event::Done) => Step::Finished(archive_created()),
            (CreateState::AwaitOpen, Event::Failed { message }) => {
                Step::Finished(Err(failure(ErrorKind::Io, message)))
            },
            (CreateState::Inspecting(_), Event::Failed { message }) => {
                Step::Finished(Err(failure(ErrorKind::Io, message)))
            },
            (CreateState::ReadingFile(_), Event::Failed { message }) => {
                Step::Finished(Err(failure(ErrorKind::Io, message)))
            },
            (CreateState::ReadingWalked(_), Event::Failed { message }) => {
                Step::Finished(Err(failure(ErrorKind::Io, message)))
            },
            (CreateState::AwaitWrite, Event::Failed { message }) => {
                Step::Finished(Err(failure(ErrorKind::Io, message)))
            },
            (CreateState::AwaitPack, Event::Failed { message }) => {
                Step::Finished(Err(failure(ErrorKind::Io, message)))
            },
            _ => Step::Finished(Err(refusal())),
        }
    }
}

/// Begins the creation of the archive `output` from `sources`. The format
/// and the password are handed to the external archiver when that is used
/// and they are not empty. The built-in code goes by the name of `output`
/// alone and never encrypts: what it writes can be read without a
/// password, whatever password was given. The job is advanced with
/// [`Event::Start`] first.
pub fn create_archive(
    sources: &[&str],
    output: &str,
    format: Option<&str>,
    password: Option<&str>,
) -> (job: CreateJob)
    ensures
        job@ == fresh_create(
            strs_of(sources@),
            output@,
            optional_text(format),
            optional_text(password),
        ),
{
    CreateJob {
        sources: own_lines(sources),
        output: String::from_str(output),
        format: match format {
            Some(f) => Some(String::from_str(f)),
            None => None,
        },
        password: match password {
            Some(p) => Some(String::from_str(p)),
            None => None,
        },
        state: CreateState::Fresh,
    }
}

/// Begins the creation of an archive, for callers that hold their sources
/// as owned strings and show the result themselves. It is
/// [`create_archive`] on the same texts.
pub fn archive_create_noninteractive(
    sources: &[String],
    output: &str,
    format: Option<&str>,
    password: Option<&str>,
) -> (job: CreateJob)
    ensures
        job@ == fresh_create(
            lines_of(sources@),
            output@,
            optional_text(format),
            optional_text(password),
        ),
{
    let borrowed = borrow_lines(sources);
    create_archive(borrowed.as_slice(), output, format, password)
}

/// A creation follows one strategy. The external archiver is run only in
/// answer to a probe that found it, and its answer ends the job. A probe
/// that did not find it sends every output of a known kind to the built-in
/// code.
pub proof fn lemma_create_follows_one_strategy(
    pre: CreateView,
    event: EventView,
    post: CreateView,
    step: StepView<Seq<char>>,
)
    requires
        create_transition(pre, event, post, step),
    ensures
        runs_tool(step) || post.phase == CreatePhase::AwaitTool ==> pre.phase
            == CreatePhase::AwaitProbe && event == (EventView::ToolProbed { available: true }),
        pre.phase == CreatePhase::AwaitTool ==> post.phase == CreatePhase::Closed
            && step is Finished,
        pre.phase == CreatePhase::AwaitProbe && event == (EventView::ToolProbed {
            available: false,
        }) && format_of(pre.output) != ArchiveFormat::Unknown ==> step is Perform && !runs_tool(
            step,
        ),
{
}

/// Whether the writer failed the job: it ended with a container-format
/// failure.
pub open spec fn writer_failed(step: StepView<Seq<char>>) -> bool {
    step matches StepView::Finished(Err(f)) && f.0 == ErrorKind::ContainerFormat
}

/// Whether a job in `phase` is between two entries of a zip file that it
/// builds.
pub open spec fn is_building(phase: CreatePhase) -> bool {
    phase == CreatePhase::AwaitKind || phase == CreatePhase::AwaitFile || phase
        == CreatePhase::AwaitWalked
}

/// Built-in zip creation takes every ordinary file. The writer is ready
/// when it is made and stays ready through every file of no more than
/// 2 GiB - 1 bytes, and while it is ready no step ends in a failure of the
/// writer: a file that was read is stored, and after the last source the
/// finished file is handed out for writing.
pub proof fn lemma_creation_takes_ordinary_files(
    pre: CreateView,
    event: EventView,
    post: CreateView,
    step: StepView<Seq<char>>,
)
    requires
        create_transition(pre, event, post, step),
        is_building(pre.phase) ==> (pre.sink matches Some(sink) && zip_ready(sink)),
        event matches EventView::Bytes { data } ==> data.len() <= small_limit(),
    ensures
        !writer_failed(step),
        is_building(post.phase) ==> (post.sink matches Some(sink) && zip_ready(sink)),
        post.phase == CreatePhase::AwaitWrite ==> step matches StepView::Perform(
            ActionView::WriteOutput { .. },
        ),
{
}

/// The entries that a job has taken once it has answered `event` in the
/// state `pre`: a file that was read is added to those taken before, under
/// its base name where it is a source itself and under its path relative to
/// the source directory where it was found below one.
pub open spec fn taken_after(pre: CreateView, event: EventView) -> Seq<(Seq<char>, Seq<u8>)> {
    match (pre.phase, event) {
        (CreatePhase::AwaitOpen, _) => Seq::<(Seq<char>, Seq<u8>)>::empty(),
        (CreatePhase::AwaitFile, EventView::Bytes { data }) => pre.written.push(
            (source_entry_name(pre.sources[pre.source_index as int]), data),
        ),
        (CreatePhase::AwaitWalked, EventView::Bytes { data }) => pre.written.push(
            (
                walked_entry_name(
                    pre.sources[pre.source_index as int],
                    pre.files[pre.file_index as int],
                )->Some_0,
                data,
            ),
        ),
        _ => pre.written,
    }
}

/// Whether the entries that `view` records are those that its writer
/// holds, as they are in every job.
pub open spec fn records_its_writer(view: CreateView) -> bool {
    is_building(view.phase) ==> (view.sink matches Some(sink) && zip_written(sink)
        == view.written)
}

/// What built-in zip creation hands out for writing is a zip file of the
/// entries taken. While the job builds, it records exactly the entries
/// taken so far (see [`taken_after`]). When a step asks for the output to
/// be written, the bytes read back as those entries as far as
/// [`reads_back`] says. For the entries of [`zip_plain`], and within the
/// limits of [`zip_fits`] for all bytes that do not show the mark of the
/// 64-bit locator, the bytes are a zip file of exactly those entries, and
/// the listing of these bytes is their names, each once, on a line of its
/// own, in the order taken.
pub proof fn lemma_output_holds_what_was_taken(
    pre: CreateView,
    event: EventView,
    post: CreateView,
    step: StepView<Seq<char>>,
)
    requires
        create_transition(pre, event, post, step),
        records_its_writer(pre),
    ensures
        records_its_writer(post),
        is_building(post.phase) ==> post.written == taken_after(pre, event),
        step matches StepView::Perform(ActionView::WriteOutput { data }) ==> reads_back(
            data,
            taken_after(pre, event),
        ),
        (step matches StepView::Perform(ActionView::WriteOutput { data }) && (zip_plain(
            taken_after(pre, event),
        ) || (zip_fits(taken_after(pre, event)) && !shows_locator(data)))) ==> zip_holds(
            step->Perform_0->WriteOutput_data,
            taken_after(pre, event),
        ) && crate::builtin::zip_listing(step->Perform_0->WriteOutput_data) == Ok::<
            Seq<char>,
            (ErrorKind, Seq<char>),
        >(crate::builtin::lines_text(crate::builtin::names_of(taken_after(pre, event)))),
{
    if step matches StepView::Perform(ActionView::WriteOutput { .. }) {
        let data = step->Perform_0->WriteOutput_data;
        assert(reads_back(data, taken_after(pre, event)));
        if zip_holds(data, taken_after(pre, event)) {
            crate::builtin::lemma_held_zip_lists_its_names(data, taken_after(pre, event));
        }
    }
}

/// The listing of a created zip file has one line for each entry. Where
/// no name taken holds a line break, the listing of what a step asks to
/// have written, split at its line breaks, gives every name taken once, in
/// the order taken, and nothing else but the empty text behind the last
/// line break. This holds where [`lemma_output_holds_what_was_taken`] says
/// that the bytes are a zip file of the entries taken.
pub proof fn lemma_created_listing_has_a_line_for_each_entry(
    pre: CreateView,
    event: EventView,
    post: CreateView,
    step: StepView<Seq<char>>,
)
    requires
        create_transition(pre, event, post, step),
        records_its_writer(pre),
        step matches StepView::Perform(ActionView::WriteOutput { data }) && (zip_plain(
            taken_after(pre, event),
        ) || (zip_fits(taken_after(pre, event)) && !shows_locator(data))),
        forall|k: int|
            0 <= k < taken_after(pre, event).len() ==> crate::text::free_of(
                (#[trigger] taken_after(pre, event)[k]).0,
                '\n',
            ),
    ensures
        crate::builtin::zip_listing(step->Perform_0->WriteOutput_data) matches Ok(text)
            && crate::text::pieces(text, '\n') == crate::builtin::names_of(
            taken_after(pre, event),
        ).push(Seq::<char>::empty()),
{
    let names = crate::builtin::names_of(taken_after(pre, event));
    lemma_output_holds_what_was_taken(pre, event, post, step);
    assert forall|k: int| 0 <= k < names.len() implies crate::text::free_of(
        #[trigger] names[k],
        '\n',
    ) by {
        assert(names[k] == taken_after(pre, event)[k].0);
    }
    crate::builtin::lemma_listing_holds_the_names(names);
}

impl CreateJob {
    /// Every job records the entries that its writer holds.
    pub proof fn lemma_records_its_writer(&self)
        ensures
            records_its_writer(self@),
    {
    }
}

/// The password reaches nothing but the arguments of the external
/// archiver. Every step of a creation job other than the start of the
/// archiver is the same step under any other password: built-in creation
/// asks for the same actions, stores the same entries and ends in the same
/// way, whatever password was given.
pub proof fn lemma_password_reaches_the_tool_only(
    pre: CreateView,
    event: EventView,
    post: CreateView,
    step: StepView<Seq<char>>,
    other: Option<Seq<char>>,
)
    requires
        create_transition(pre, event, post, step),
        pre.phase == CreatePhase::AwaitProbe ==> !(event matches EventView::ToolProbed {
            available,
        } && available),
    ensures
        create_transition(
            (CreateView { password: other, ..pre }),
            event,
            (CreateView { password: other, ..post }),
            step,
        ),
{
}

/// Whether `states`, `events` and `steps` record a creation job from its
/// beginning: every step follows [`create_transition`] from the state
/// before it to the state after it.
pub open spec fn is_create_run(
    states: Seq<CreateView>,
    events: Seq<EventView>,
    steps: Seq<StepView<Seq<char>>>,
) -> bool {
    &&& steps.len() == events.len()
    &&& states.len() == events.len() + 1
    &&& states[0].phase == CreatePhase::Fresh
    &&& forall|k: int|
        0 <= k < steps.len() ==> create_transition(
            states[k],
            events[k],
            states[k + 1],
            #[trigger] steps[k],
        )
}

/// In no run does the writer turn an ordinary file down. As long as every
/// file that the host reads has no more than 2 GiB - 1 bytes, no step of a
/// creation job ends in a failure of the writer, whatever the sources are
/// and whatever else the host reports; and while the job builds, it
/// records exactly what its writer holds.
pub proof fn lemma_run_takes_ordinary_files(
    states: Seq<CreateView>,
    events: Seq<EventView>,
    steps: Seq<StepView<Seq<char>>>,
    at: int,
)
    requires
        is_create_run(states, events, steps),
        0 <= at < steps.len(),
        forall|k: int|
            0 <= k < events.len() && (#[trigger] events[k]) is Bytes
                ==> events[k]->Bytes_data.len() <= small_limit(),
    ensures
        !writer_failed(steps[at]),
        records_its_writer(states[at + 1]),
        is_building(states[at + 1].phase) ==> (states[at + 1].sink matches Some(sink)
            && zip_ready(sink)),
    decreases at,
{
    if at > 0 {
        lemma_run_takes_ordinary_files(states, events, steps, at - 1);
    }
    assert(create_transition(states[at], events[at], states[at + 1], steps[at]));
    assert(events[at] is Bytes ==> events[at]->Bytes_data.len() <= small_limit());
    lemma_creation_takes_ordinary_files(states[at], events[at], states[at + 1], steps[at]);
    lemma_output_holds_what_was_taken(states[at], events[at], states[at + 1], steps[at]);
}

/// The entries that a job stores for the file sources `sources` whose
/// contents are `contents`: each file under its base name, in the order of
/// the sources.
pub open spec fn stored_files(sources: Seq<Seq<char>>, contents: Seq<Seq<u8>>) -> Seq<
    (Seq<char>, Seq<u8>),
> {
    Seq::new(sources.len(), |i: int| (source_entry_name(sources[i]), contents[i]))
}

/// Whether `states`, `events` and `steps` record a job that builds a zip
/// file from file sources alone, with no archiver at hand: it is a run of
/// a creation job in which the host answers the probe with no, opens the
/// output, reports every source as a file and reads it as `contents` say,
/// and writes the output.
pub open spec fn is_file_run(
    states: Seq<CreateView>,
    events: Seq<EventView>,
    steps: Seq<StepView<Seq<char>>>,
    contents: Seq<Seq<u8>>,
) -> bool {
    let n = contents.len() as int;
    &&& is_create_run(states, events, steps)
    &&& events.len() == 2 * n + 4
    &&& states[0].sources.len() == n
    &&& format_of(states[0].output) == ArchiveFormat::Zip
    &&& events[0] == EventView::Start
    &&& events[1] == (EventView::ToolProbed { available: false })
    &&& events[2] == EventView::Done
    &&& forall|i: int|
        0 <= i < n ==> events[2 * i + 3] == (EventView::Source { kind: SourceKindView::File })
            && events[2 * i + 4] == (EventView::Bytes { data: #[trigger] contents[i] })
    &&& events[2 * n + 3] == EventView::Done
}

proof fn lemma_weight_covers_each(entries: Seq<(Seq<char>, Seq<u8>)>, i: int)
    requires
        0 <= i < entries.len(),
    ensures
        entry_weight(entries[i]) <= total_weight(entries),
    decreases entries.len(),
{
    if i < entries.len() - 1 {
        lemma_weight_covers_each(entries.drop_last(), i);
    }
}

proof fn lemma_file_run_upto(
    states: Seq<CreateView>,
    events: Seq<EventView>,
    steps: Seq<StepView<Seq<char>>>,
    contents: Seq<Seq<u8>>,
    k: int,
)
    requires
        is_file_run(states, events, steps, contents),
        zip_fits(stored_files(states[0].sources, contents)),
        0 <= k < contents.len(),
    ensures
        states[2 * k + 3].phase == CreatePhase::AwaitKind,
        states[2 * k + 3].source_index == k,
        same_request(states[0], states[2 * k + 3]),
        states[2 * k + 3].sink matches Some(sink) && zip_ready(sink) && zip_written(sink)
            == stored_files(states[0].sources, contents).take(k),
        states[2 * k + 3].written == stored_files(states[0].sources, contents).take(k),
    decreases k,
{
    let stored = stored_files(states[0].sources, contents);
    if k == 0 {
        assert(create_transition(states[0], events[0], states[1], steps[0]));
        assert(create_transition(states[1], events[1], states[2], steps[1]));
        assert(create_transition(states[2], events[2], states[3], steps[2]));
        assert(stored.take(0) =~= Seq::<(Seq<char>, Seq<u8>)>::empty());
    } else {
        let i = k - 1;
        lemma_file_run_upto(states, events, steps, contents, i);
        assert(events[2 * i + 4] == (EventView::Bytes { data: contents[i] }));
        assert(create_transition(
            states[2 * i + 3],
            events[2 * i + 3],
            states[2 * i + 4],
            steps[2 * i + 3],
        ));
        assert(create_transition(
            states[2 * i + 4],
            events[2 * i + 4],
            states[2 * i + 5],
            steps[2 * i + 4],
        ));
        lemma_weight_covers_each(stored, i);
        assert(stored[i] == (source_entry_name(states[0].sources[i]), contents[i]));
        assert(stored.take(i).push(stored[i]) =~= stored.take(k));
    }
}

/// Built-in zip creation stores every file. A job for file sources and a
/// zip output, with no archiver at hand and a host that reads every file,
/// asks in its last step but one for the output to be written with a zip
/// file of exactly the files read, each under its base name, in the order
/// of the sources, and then ends with the words `Archive created`. The
/// listing of what was written is the base names of the sources, each on a
/// line of its own, in their order. The job ends in this way within the
/// limits of [`zip_fits`]; what it wrote is that zip file for the entries
/// of [`zip_plain`], and for all others unless the bytes show the mark of
/// the 64-bit locator.
pub proof fn lemma_files_are_stored(
    states: Seq<CreateView>,
    events: Seq<EventView>,
    steps: Seq<StepView<Seq<char>>>,
    contents: Seq<Seq<u8>>,
)
    requires
        is_file_run(states, events, steps, contents),
        contents.len() > 0,
        zip_fits(stored_files(states[0].sources, contents)),
    ensures
        steps[2 * (contents.len() as int) + 2] matches StepView::Perform(ActionView::WriteOutput { data })
            && reads_back(data, stored_files(states[0].sources, contents)),
        steps[2 * (contents.len() as int) + 3] == StepView::<Seq<char>>::Finished(
            Ok("Archive created"@),
        ),
        zip_plain(stored_files(states[0].sources, contents)) || !shows_locator(
            steps[2 * (contents.len() as int) + 2]->Perform_0->WriteOutput_data,
        ) ==> zip_holds(
            steps[2 * (contents.len() as int) + 2]->Perform_0->WriteOutput_data,
            stored_files(states[0].sources, contents),
        ) && crate::builtin::builtin_listing(
            ArchiveFormat::Zip,
            steps[2 * (contents.len() as int) + 2]->Perform_0->WriteOutput_data,
        ) == Ok::<Seq<char>, (ErrorKind, Seq<char>)>(
            crate::builtin::lines_text(
                crate::builtin::names_of(stored_files(states[0].sources, contents)),
            ),
        ),
{
    let stored = stored_files(states[0].sources, contents);
    let i = contents.len() - 1;
    lemma_file_run_upto(states, events, steps, contents, i);
    assert(events[2 * i + 4] == (EventView::Bytes { data: contents[i] }));
    assert(create_transition(
        states[2 * i + 3],
        events[2 * i + 3],
        states[2 * i + 4],
        steps[2 * i + 3],
    ));
    assert(create_transition(
        states[2 * i + 4],
        events[2 * i + 4],
        states[2 * i + 5],
        steps[2 * i + 4],
    ));
    assert(create_transition(
        states[2 * i + 5],
        events[2 * i + 5],
        states[2 * i + 6],
        steps[2 * i + 5],
    ));
    lemma_weight_covers_each(stored, i);
    assert(stored[i] == (source_entry_name(states[0].sources[i]), contents[i]));
    assert(stored.take(i).push(stored[i]) =~= stored);
    let data = steps[2 * i + 4]->Perform_0->WriteOutput_data;
    assert(reads_back(data, stored));
    if zip_holds(data, stored) {
        crate::builtin::lemma_held_zip_lists_its_names(data, stored);
    }
}

/// What built-in creation stored from files, built-in extraction gives
/// back. With no archiver at hand, the extraction of a zip file that holds
/// the files `sources` with the contents `contents`, as creation stores
/// them, asks for each file to be written below the destination under its
/// base name with exactly its content, byte for byte, in the order of the
/// sources; it asks for nothing else and ends with the words
/// `Extraction complete`. This holds for file names without backslash and
/// NUL.
pub proof fn lemma_stored_files_are_restored(
    states: Seq<ExtractView>,
    events: Seq<EventView>,
    steps: Seq<StepView<Seq<char>>>,
    bytes: Seq<u8>,
    sources: Seq<Seq<char>>,
    contents: Seq<Seq<u8>>,
)
    requires
        is_unpack_run(states, events, steps, bytes),
        zip_holds(bytes, stored_files(sources, contents)),
        contents.len() == sources.len(),
        events.len() == sources.len() + 4,
        forall|i: int|
            0 <= i < sources.len() ==> (file_name(#[trigger] sources[i]) matches Some(name)
                && is_plain(name)),
    ensures
        forall|i: int|
            0 <= i < sources.len() ==> asks(
                steps[i + 3],
                (ActionView::WriteFile {
                    path: under(states[0].dest, file_name(sources[i])->Some_0),
                    data: #[trigger] contents[i],
                    parents: true,
                }),
            ),
        succeeds_with(steps[sources.len() as int + 3], "Extraction complete"@),
{
    let stored = stored_files(sources, contents);
    lemma_held_zip_is_restored(states, events, steps, bytes, stored);
    assert forall|i: int| 0 <= i < sources.len() implies asks(
        steps[i + 3],
        (ActionView::WriteFile {
            path: under(states[0].dest, file_name(sources[i])->Some_0),
            data: #[trigger] contents[i],
            parents: true,
        }),
    ) by {
        assert(stored[i] == (source_entry_name(sources[i]), contents[i]));
        crate::builtin::lemma_stored_file_is_restored(states[0].dest, sources[i], contents[i]);
    }
}

/// Creating a zip file and extracting it again restores every file. With
/// no archiver at hand, take a creation job for file sources that ran to
/// its end, and an extraction job that reads what the first asked to have
/// written: the second asks for each source to be written below its
/// destination under the source's base name with the content that the
/// first read, byte for byte, asks for nothing else, and ends with the
/// words `Extraction complete`. This holds for file names without
/// backslash and NUL: for the entries of [`zip_plain`], and within the
/// limits of [`zip_fits`] for all others unless what was written shows the
/// mark of the 64-bit locator.
pub proof fn lemma_zip_round_trip(
    packed_states: Seq<CreateView>,
    packed_events: Seq<EventView>,
    packed_steps: Seq<StepView<Seq<char>>>,
    contents: Seq<Seq<u8>>,
    states: Seq<ExtractView>,
    events: Seq<EventView>,
    steps: Seq<StepView<Seq<char>>>,
)
    requires
        is_file_run(packed_states, packed_events, packed_steps, contents),
        contents.len() > 0,
        zip_fits(stored_files(packed_states[0].sources, contents)),
        zip_plain(stored_files(packed_states[0].sources, contents)) || !shows_locator(
            packed_steps[2 * (contents.len() as int) + 2]->Perform_0->WriteOutput_data,
        ),
        forall|i: int|
            0 <= i < contents.len() ==> (file_name(
                #[trigger] packed_states[0].sources[i],
            ) matches Some(name) && is_plain(name)),
        is_unpack_run(
            states,
            events,
            steps,
            packed_steps[2 * (contents.len() as int) + 2]->Perform_0->WriteOutput_data,
        ),
        events.len() == contents.len() + 4,
    ensures
        forall|i: int|
            0 <= i < contents.len() ==> asks(
                steps[i + 3],
                (ActionView::WriteFile {
                    path: under(states[0].dest, file_name(packed_states[0].sources[i])->Some_0),
                    data: #[trigger] contents[i],
                    parents: true,
                }),
            ),
        succeeds_with(steps[contents.len() as int + 3], "Extraction complete"@),
{
    lemma_files_are_stored(packed_states, packed_events, packed_steps, contents);
    lemma_stored_files_are_restored(
        states,
        events,
        steps,
        packed_steps[2 * (contents.len() as int) + 2]->Perform_0->WriteOutput_data,
        packed_states[0].sources,
        contents,
    );
}

} // verus!
