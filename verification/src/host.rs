//! The boundary between the library and its host.
//!
//! The library decides; the host acts. A long operation is advanced one
//! [`Event`] at a time and answers each with the next [`Action`] that the
//! host is to perform, or with its result. The host reports what the action
//! gave as the next event. An action that fails is reported as
//! [`Event::Failed`] with the text of the error.

use vstd::prelude::*;
use crate::errors::{ErrorKind, Failure};
use crate::text::lines_of;

verus! {

/// What the host is asked to do next.
pub enum Action {
    /// Read the shared cancellation flag. Answered by [`Event::Cancel`].
    CheckCancel,
    /// Tell whether `path` exists. Answered by [`Event::Exists`].
    CheckExists { path: String },
    /// Try to start the external archiver with a harmless flag. Answered by
    /// [`Event::ToolProbed`].
    ProbeTool,
    /// Run the external archiver with these arguments and wait for it.
    /// Answered by [`Event::ToolRan`], or by [`Event::Failed`] when it could
    /// not be started.
    RunTool { arguments: Vec<String> },
    /// Read the whole file. Answered by [`Event::Bytes`].
    ReadFile { path: String },
    /// Tell how many bytes the file holds. Answered by [`Event::Size`].
    FileSize { path: String },
    /// List the regular files directly inside `dir`, by path. Answered by
    /// [`Event::Files`].
    ListFiles { dir: String },
    /// Tell what kind of thing `path` is and, for a directory, walk it.
    /// Answered by [`Event::Source`].
    InspectSource { path: String },
    /// Create the directory `path` and every missing parent. Answered by
    /// [`Event::Done`].
    MakeDirs { path: String },
    /// Write `data` as the whole content of `path`, first creating the
    /// missing parent directories when `parents` is set. Answered by
    /// [`Event::Done`].
    WriteFile { path: String, data: Vec<u8>, parents: bool },
    /// Open `path` as the current output. With `create` the file is created
    /// or emptied; without it an existing file is opened for overwriting
    /// from its start. The output stays open until the operation ends.
    /// Answered by [`Event::Done`].
    OpenOutput { path: String, create: bool },
    /// Write `data` at the current position of the open output. Answered by
    /// [`Event::Done`].
    WriteOutput { data: Vec<u8> },
    /// Delete the file. Answered by [`Event::Done`].
    RemoveFile { path: String },
    /// Append each of `sources`, by its path as given, to a new tar stream
    /// written to `output`, inside gzip at default compression when `gzip`
    /// is set. Answered by [`Event::Done`].
    PackTar { sources: Vec<String>, output: String, gzip: bool },
    /// Unpack the tar stream in `archive`, read through gzip when `gzip` is
    /// set, below `dest`. Answered by [`Event::Done`].
    UnpackTar { archive: String, dest: String, gzip: bool },
}

/// What a source path of an archive turned out to be.
pub enum SourceKind {
    /// A regular file.
    File,
    /// A directory; `files` are the regular files found anywhere below it,
    /// by path, in the order of the walk.
    Directory { files: Vec<String> },
    /// Neither of the two.
    Other,
}

/// What the host reports back.
pub enum Event {
    /// The operation is to begin.
    Start,
    /// The cancellation flag as it stood when it was read.
    Cancel { requested: bool },
    /// Whether the path exists.
    Exists { exists: bool },
    /// Whether the external archiver could be started.
    ToolProbed { available: bool },
    /// The external archiver ran to its end.
    ToolRan { success: bool, stdout: String, stderr: String },
    /// The content of the file that was read.
    Bytes { data: Vec<u8> },
    /// The size of the file.
    Size { bytes: u64 },
    /// The files that were listed.
    Files { paths: Vec<String> },
    /// The kind of the source that was inspected.
    Source { kind: SourceKind },
    /// The action succeeded and has nothing to report.
    Done,
    /// The action failed; `message` is the text of the error.
    Failed { message: String },
}

/// The answer of a running operation to one event.
pub enum Step<T> {
    /// The host is to perform this action and report back.
    Perform(Action),
    /// The operation has ended with this result.
    Finished(Result<T, Failure>),
}

/// An [`Action`] as a mathematical value.
pub enum ActionView {
    CheckCancel,
    CheckExists { path: Seq<char> },
    ProbeTool,
    RunTool { arguments: Seq<Seq<char>> },
    ReadFile { path: Seq<char> },
    FileSize { path: Seq<char> },
    ListFiles { dir: Seq<char> },
    InspectSource { path: Seq<char> },
    MakeDirs { path: Seq<char> },
    WriteFile { path: Seq<char>, data: Seq<u8>, parents: bool },
    OpenOutput { path: Seq<char>, create: bool },
    WriteOutput { data: Seq<u8> },
    RemoveFile { path: Seq<char> },
    PackTar { sources: Seq<Seq<char>>, output: Seq<char>, gzip: bool },
    UnpackTar { archive: Seq<char>, dest: Seq<char>, gzip: bool },
}

/// A [`SourceKind`] as a mathematical value.
pub enum SourceKindView {
    File,
    Directory { files: Seq<Seq<char>> },
    Other,
}

/// An [`Event`] as a mathematical value.
pub enum EventView {
    Start,
    Cancel { requested: bool },
    Exists { exists: bool },
    ToolProbed { available: bool },
    ToolRan { success: bool, stdout: Seq<char>, stderr: Seq<char> },
    Bytes { data: Seq<u8> },
    Size { bytes: u64 },
    Files { paths: Seq<Seq<char>> },
    Source { kind: SourceKindView },
    Done,
    Failed { message: Seq<char> },
}

impl View for Action {
    type V = ActionView;

    open spec fn view(&self) -> ActionView {
        match *self {
            Action::CheckCancel => ActionView::CheckCancel,
            Action::CheckExists { path } => ActionView::CheckExists { path: path@ },
            Action::ProbeTool => ActionView::ProbeTool,
            Action::RunTool { arguments } => ActionView::RunTool { arguments: lines_of(arguments@) },
            Action::ReadFile { path } => ActionView::ReadFile { path: path@ },
            Action::FileSize { path } => ActionView::FileSize { path: path@ },
            Action::ListFiles { dir } => ActionView::ListFiles { dir: dir@ },
            Action::InspectSource { path } => ActionView::InspectSource { path: path@ },
            Action::MakeDirs { path } => ActionView::MakeDirs { path: path@ },
            Action::WriteFile { path, data, parents } => ActionView::WriteFile {
                path: path@,
                data: data@,
                parents,
            },
            Action::OpenOutput { path, create } => ActionView::OpenOutput { path: path@, create },
            Action::WriteOutput { data } => ActionView::WriteOutput { data: data@ },
            Action::RemoveFile { path } => ActionView::RemoveFile { path: path@ },
            Action::PackTar { sources, output, gzip } => ActionView::PackTar {
                sources: lines_of(sources@),
                output: output@,
                gzip,
            },
            Action::UnpackTar { archive, dest, gzip } => ActionView::UnpackTar {
                archive: archive@,
                dest: dest@,
                gzip,
            },
        }
    }
}

impl View for SourceKind {
    type V = SourceKindView;

    open spec fn view(&self) -> SourceKindView {
        match *self {
            SourceKind::File => SourceKindView::File,
            SourceKind::Directory { files } => SourceKindView::Directory { files: lines_of(files@) },
            SourceKind::Other => SourceKindView::Other,
        }
    }
}

impl View for Event {
    type V = EventView;

    open spec fn view(&self) -> EventView {
        match *self {
            Event::Start => EventView::Start,
            Event::Cancel { requested } => EventView::Cancel { requested },
            Event::Exists { exists } => EventView::Exists { exists },
            Event::ToolProbed { available } => EventView::ToolProbed { available },
            Event::ToolRan { success, stdout, stderr } => EventView::ToolRan {
                success,
                stdout: stdout@,
                stderr: stderr@,
            },
            Event::Bytes { data } => EventView::Bytes { data: data@ },
            Event::Size { bytes } => EventView::Size { bytes },
            Event::Files { paths } => EventView::Files { paths: lines_of(paths@) },
            Event::Source { kind } => EventView::Source { kind: kind@ },
            Event::Done => EventView::Done,
            Event::Failed { message } => EventView::Failed { message: message@ },
        }
    }
}

/// A [`Step`] as a mathematical value.
pub enum StepView<V> {
    Perform(ActionView),
    Finished(Result<V, (ErrorKind, Seq<char>)>),
}

impl Step<String> {
    /// A step toward a text result as a mathematical value.
    pub open spec fn text(self) -> StepView<Seq<char>> {
        match self {
            Step::Perform(a) => StepView::Perform(a@),
            Step::Finished(Ok(s)) => StepView::Finished(Ok(s@)),
            Step::Finished(Err(f)) => StepView::Finished(Err(f@)),
        }
    }
}

impl<T> Step<T> {
    /// A step toward a plain result, such as a number, as a mathematical
    /// value.
    pub open spec fn plain(self) -> StepView<T> {
        match self {
            Step::Perform(a) => StepView::Perform(a@),
            Step::Finished(Ok(v)) => StepView::Finished(Ok(v)),
            Step::Finished(Err(f)) => StepView::Finished(Err(f@)),
        }
    }
}

} // verus!
