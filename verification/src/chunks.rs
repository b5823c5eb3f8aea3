//! Splitting a file into numbered chunks and joining them again.
//!
//! Chunk `i` of the file `path` is stored as `path.i`, with `i` written in
//! decimal without padding and counted from 0. Joining reads `base.0`,
//! `base.1` and so on and stops, with success, at the first that is missing.

use vstd::prelude::*;
use vstd::arithmetic::div_mod::{lemma_fundamental_div_mod, lemma_mod_bound};
use vstd::string::StringExecFns;
use crate::errors::{failure, out_of_turn, prefixed, refusal, ErrorKind};
use crate::host::{Action, ActionView, Event, EventView, Step, StepView};
use crate::text::{decimal, push_decimal};

verus! {

/// The number of bytes in a chunk of `chunk_size_mb` mebibytes, or `None`
/// when that is zero or more than can be addressed.
pub open spec fn chunk_bytes(chunk_size_mb: u64) -> Option<nat> {
    if chunk_size_mb == 0 || chunk_size_mb * 1048576 > usize::MAX {
        None
    } else {
        Some((chunk_size_mb * 1048576) as nat)
    }
}

/// The number of chunks of `size` bytes that `len` bytes fill: `len / size`,
/// rounded up.
pub open spec fn chunk_count(len: nat, size: nat) -> nat
    recommends
        size > 0,
{
    ((len + size - 1) / size as int) as nat
}

/// Chunk `index` of `data`: the bytes from `index * size` up to the next
/// multiple of `size` or the end of `data`, whichever comes first.
pub open spec fn chunk_at(data: Seq<u8>, size: nat, index: nat) -> Seq<u8>
    recommends
        size > 0,
        index < chunk_count(data.len(), size),
{
    let start = (index * size) as int;
    let end = if start + size < data.len() {
        start + size
    } else {
        data.len() as int
    };
    data.subrange(start, end)
}

/// All chunks of `data`, in order.
pub open spec fn chunks(data: Seq<u8>, size: nat) -> Seq<Seq<u8>>
    recommends
        size > 0,
{
    Seq::new(chunk_count(data.len(), size), |i: int| chunk_at(data, size, i as nat))
}

/// The parts written one after the other.
pub open spec fn joined(parts: Seq<Seq<u8>>) -> Seq<u8>
    decreases parts.len(),
{
    if parts.len() == 0 {
        Seq::<u8>::empty()
    } else {
        joined(parts.drop_last()) + parts.last()
    }
}

/// The path of chunk `index` of the file `path`.
pub open spec fn chunk_path(path: Seq<char>, index: nat) -> Seq<char> {
    path + seq!['.'] + decimal(index)
}

/// The chunks before the last start inside the data, and all chunks
/// together reach its end.
pub proof fn lemma_chunk_bounds(len: nat, size: nat, index: nat)
    requires
        size > 0,
    ensures
        index < chunk_count(len, size) <==> index * size < len,
        chunk_count(len, size) * size >= len,
        chunk_count(len, size) <= len,
{
    let n = (len + size - 1) as int;
    let d = size as int;
    let q = n / d;
    lemma_fundamental_div_mod(n, d);
    lemma_mod_bound(n, d);
    assert(n == d * q + n % d);
    assert(q >= 0) by (nonlinear_arith)
        requires
            n >= 0,
            d > 0,
            n == d * q + n % d,
            0 <= n % d < d,
    ;
    assert(q * d >= len) by (nonlinear_arith)
        requires
            n == d * q + n % d,
            0 <= n % d < d,
            n == len + d - 1,
    ;
    assert(q <= len) by (nonlinear_arith)
        requires
            n == d * q + n % d,
            0 <= n % d < d,
            n == len + d - 1,
            d >= 1,
            q >= 0,
    ;
    if index < q {
        assert(index * d < len) by (nonlinear_arith)
            requires
                index + 1 <= q,
                n == d * q + n % d,
                0 <= n % d < d,
                n == len + d - 1,
                d >= 1,
        ;
    } else {
        assert(index * d >= len) by (nonlinear_arith)
            requires
                index >= q,
                q * d >= len,
                d >= 1,
        ;
    }
}

/// Every chunk but the last holds exactly `size` bytes; the last holds what
/// is left, at least one byte and at most `size`.
pub proof fn lemma_chunk_sizes(data: Seq<u8>, size: nat, index: nat)
    requires
        size > 0,
        index < chunk_count(data.len(), size),
    ensures
        index + 1 < chunk_count(data.len(), size) ==> chunk_at(data, size, index).len() == size,
        index + 1 == chunk_count(data.len(), size) ==> chunk_at(data, size, index).len()
            == data.len() - index * size,
        0 < chunk_at(data, size, index).len() <= size,
{
    lemma_chunk_bounds(data.len(), size, index);
    lemma_chunk_bounds(data.len(), size, index + 1);
    assert((index + 1) * size == index * size + size) by (nonlinear_arith);
}

proof fn lemma_joined_prefix(data: Seq<u8>, size: nat, k: nat)
    requires
        size > 0,
        k <= chunk_count(data.len(), size),
    ensures
        joined(chunks(data, size).take(k as int)) == data.take(
            if k * size < data.len() {
                (k * size) as int
            } else {
                data.len() as int
            },
        ),
    decreases k,
{
    let all = chunks(data, size);
    if k == 0 {
        assert(all.take(0) =~= Seq::<Seq<u8>>::empty());
        assert(0 * size == 0) by (nonlinear_arith);
        assert(data.take(0) =~= Seq::<u8>::empty());
    } else {
        let j = (k - 1) as nat;
        lemma_joined_prefix(data, size, j);
        lemma_chunk_bounds(data.len(), size, j);
        assert(k * size == j * size + size) by (nonlinear_arith)
            requires
                k == j + 1,
        ;
        assert(all.take(k as int).drop_last() =~= all.take(j as int));
        assert(all.take(k as int).last() == chunk_at(data, size, j));
        let end = if k * size < data.len() {
            (k * size) as int
        } else {
            data.len() as int
        };
        assert(data.take((j * size) as int) + data.subrange((j * size) as int, end) =~= data.take(
            end,
        ));
    }
}

/// Joining the chunks of a file gives the file back, byte for byte.
pub proof fn lemma_chunks_rejoin(data: Seq<u8>, size: nat)
    requires
        size > 0,
    ensures
        joined(chunks(data, size)) == data,
{
    let count = chunk_count(data.len(), size);
    lemma_joined_prefix(data, size, count);
    lemma_chunk_bounds(data.len(), size, count);
    assert(chunks(data, size).take(count as int) =~= chunks(data, size));
    assert(data.take(data.len() as int) =~= data);
}

/// The path of chunk `index` of the file `path` (see [`chunk_path`]).
pub fn chunk_path_of(path: &str, index: usize) -> (r: String)
    ensures
        r@ == chunk_path(path@, index as nat),
{
    let mut out = String::from_str(path);
    out.push('.');
    push_decimal(&mut out, index as u64);
    assert(out@ =~= chunk_path(path@, index as nat));
    out
}

/// The number of bytes in a chunk of `chunk_size_mb` mebibytes (see
/// [`chunk_bytes`]).
pub fn chunk_bytes_of(chunk_size_mb: u64) -> (r: Option<usize>)
    ensures
        r is Some <==> chunk_bytes(chunk_size_mb) is Some,
        r matches Some(n) ==> chunk_bytes(chunk_size_mb) == Some(n as nat),
{
    if chunk_size_mb == 0 {
        return None;
    }
    if chunk_size_mb > u64::MAX / 1048576 {
        assert(chunk_size_mb * 1048576 > usize::MAX) by (nonlinear_arith)
            requires
                chunk_size_mb > u64::MAX / 1048576,
                usize::MAX <= u64::MAX,
        ;
        return None;
    }
    assert(chunk_size_mb * 1048576 <= u64::MAX) by (nonlinear_arith)
        requires
            chunk_size_mb <= u64::MAX / 1048576,
    ;
    let bytes: u64 = chunk_size_mb * 1048576;
    if bytes > usize::MAX as u64 {
        None
    } else {
        Some(bytes as usize)
    }
}

/// Copies chunk `index` out of `data` (see [`chunk_at`]).
pub fn copy_chunk(data: &Vec<u8>, size: usize, index: usize) -> (r: Vec<u8>)
    requires
        size > 0,
        index < chunk_count(data@.len(), size as nat),
    ensures
        r@ == chunk_at(data@, size as nat, index as nat),
{
    let len: usize = data.len();
    proof {
        lemma_chunk_bounds(data@.len(), size as nat, index as nat);
        assert((index as nat) * (size as nat) < data@.len());
        assert(index * size == (index as nat) * (size as nat)) by (nonlinear_arith);
        assert(index * size < len);
    }
    let start: usize = index * size;
    let end: usize = if len - start > size {
        start + size
    } else {
        len
    };
    let mut out: Vec<u8> = Vec::new();
    let mut i: usize = start;
    while i < end
        invariant
            start <= i <= end <= data.len(),
            out@ == data@.subrange(start as int, i as int),
        decreases end - i,
    {
        out.push(data[i]);
        assert(out@ =~= data@.subrange(start as int, i + 1));
        i += 1;
    }
    out
}

/// The number of chunks of `size` bytes that `len` bytes fill (see
/// [`chunk_count`]).
pub fn count_chunks(len: usize, size: usize) -> (r: usize)
    requires
        size > 0,
    ensures
        r == chunk_count(len as nat, size as nat),
{
    proof {
        lemma_chunk_bounds(len as nat, size as nat, (len / size) as nat);
        lemma_chunk_bounds(len as nat, size as nat, (len / size + 1) as nat);
        lemma_fundamental_div_mod(len as int, size as int);
        lemma_mod_bound(len as int, size as int);
        let q = (len / size) as int;
        let r = (len % size) as int;
        let d = size as int;
        assert(len == d * q + r);
        if r == 0 {
            assert(q * d >= len && (q - 1) * d < len || q == 0) by (nonlinear_arith)
                requires
                    len == d * q,
                    d > 0,
            ;
        } else {
            assert(q * d < len && (q + 1) * d >= len) by (nonlinear_arith)
                requires
                    len == d * q + r,
                    0 < r < d,
            ;
        }
        if q > 0 {
            lemma_chunk_bounds(len as nat, size as nat, (q - 1) as nat);
        }
    }
    if len % size == 0 {
        len / size
    } else {
        len / size + 1
    }
}

/// Where a split stands.
#[derive(Clone, Copy, Debug, PartialEq, Eq, Structural)]
pub enum SplitPhase {
    /// Not begun.
    Fresh,
    /// The file is being read.
    AwaitBytes,
    /// A chunk is being written.
    Writing,
    /// Ended.
    Closed,
}

/// The splitting of one file.
pub struct SplitJob {
    path: String,
    size: Option<usize>,
    phase: SplitPhase,
    data: Vec<u8>,
    index: usize,
}

/// A [`SplitJob`] as a mathematical value.
pub struct SplitView {
    /// Where the job stands.
    pub phase: SplitPhase,
    /// The file that is split.
    pub path: Seq<char>,
    /// The size of a chunk in bytes, when the size asked for is usable.
    pub size: Option<nat>,
    /// The content of the file, once it has been read.
    pub data: Seq<u8>,
    /// The chunk that is being written.
    pub index: nat,
}

impl View for SplitJob {
    type V = SplitView;

    closed spec fn view(&self) -> SplitView {
        SplitView {
            phase: self.phase,
            path: self.path@,
            size: match self.size {
                Some(n) => Some(n as nat),
                None => None,
            },
            data: self.data@,
            index: self.index as nat,
        }
    }
}

/// The step that asks for `action`.
pub open spec fn asks(step: StepView<usize>, action: ActionView) -> bool {
    step == StepView::<usize>::Perform(action)
}

/// The step that ends a job with `failure`.
pub open spec fn fails_with(step: StepView<usize>, failure: (ErrorKind, Seq<char>)) -> bool {
    step == StepView::<usize>::Finished(Err(failure))
}

/// The step that ends a job with the count `n`.
pub open spec fn counts(step: StepView<usize>, n: nat) -> bool {
    step matches StepView::Finished(Ok(k)) && k == n
}

/// The failure for a chunk size of zero or beyond what can be addressed.
pub open spec fn bad_chunk_size() -> (ErrorKind, Seq<char>) {
    (ErrorKind::InvalidArgument, "Invalid chunk size"@)
}

/// How a split goes on to chunk `index` of `data`: the chunk is written
/// under its path; after the last chunk the job ends with their number.
pub open spec fn next_chunk(
    path: Seq<char>,
    size: nat,
    data: Seq<u8>,
    index: nat,
    post: SplitView,
    step: StepView<usize>,
) -> bool {
    if index < chunk_count(data.len(), size) {
        &&& post.phase == SplitPhase::Writing
        &&& post.data == data
        &&& post.index == index
        &&& asks(
            step,
            ActionView::WriteFile {
                path: chunk_path(path, index),
                data: chunk_at(data, size, index),
                parents: false,
            },
        )
    } else {
        post.phase == SplitPhase::Closed && counts(step, chunk_count(data.len(), size))
    }
}

/// What a split answers to `event`, and where it stands afterwards.
pub open spec fn split_transition(
    pre: SplitView,
    event: EventView,
    post: SplitView,
    step: StepView<usize>,
) -> bool {
    &&& post.path == pre.path
    &&& post.size == pre.size
    &&& match (pre.phase, event, pre.size) {
        (SplitPhase::Fresh, EventView::Start, None) => {
            post.phase == SplitPhase::Closed && fails_with(step, bad_chunk_size())
        },
        (SplitPhase::Fresh, EventView::Start, Some(_)) => {
            post.phase == SplitPhase::AwaitBytes && asks(
                step,
                ActionView::ReadFile { path: pre.path },
            )
        },
        (SplitPhase::AwaitBytes, EventView::Bytes { data }, Some(size)) => if size > 0 {
            next_chunk(pre.path, size, data, 0, post, step)
        } else {
            post.phase == SplitPhase::Closed && fails_with(step, out_of_turn())
        },
        (SplitPhase::AwaitBytes, EventView::Failed { message }, _) => {
            post.phase == SplitPhase::Closed && fails_with(
                step,
                (ErrorKind::Io, "Error reading file: "@ + message),
            )
        },
        (SplitPhase::Writing, EventView::Done, Some(size)) => if size > 0 {
            next_chunk(pre.path, size, pre.data, pre.index + 1, post, step)
        } else {
            post.phase == SplitPhase::Closed && fails_with(step, out_of_turn())
        },
        (SplitPhase::Writing, EventView::Failed { message }, _) => {
            post.phase == SplitPhase::Closed && fails_with(
                step,
                (ErrorKind::Io, "Error creating chunk: "@ + message),
            )
        },
        _ => post.phase == SplitPhase::Closed && fails_with(step, out_of_turn()),
    }
}

impl SplitJob {
    fn emit(&mut self, size: usize, data: Vec<u8>, index: usize) -> (step: Step<usize>)
        requires
            size > 0,
            old(self).phase == SplitPhase::Closed,
        ensures
            final(self)@.path == old(self)@.path,
            final(self)@.size == old(self)@.size,
            next_chunk(old(self)@.path, size as nat, data@, index as nat, final(self)@, step.plain()),
    {
        proof {
            lemma_chunk_bounds(data@.len(), size as nat, 0);
        }
        let count = count_chunks(data.len(), size);
        if index < count {
            let chunk = copy_chunk(&data, size, index);
            let path = chunk_path_of(self.path.as_str(), index);
            self.data = data;
            self.index = index;
            self.phase = SplitPhase::Writing;
            Step::Perform(Action::WriteFile { path, data: chunk, parents: false })
        } else {
            Step::Finished(Ok(count))
        }
    }

    /// Takes the job one event further (see [`split_transition`]).
    pub fn advance(&mut self, event: Event) -> (step: Step<usize>)
        ensures
            split_transition(old(self)@, event@, final(self)@, step.plain()),
    {
        let phase = self.phase;
        self.phase = SplitPhase::Closed;
        match (phase, event, self.size) {
            (SplitPhase::Fresh, Event::Start, None) => Step::Finished(
                Err(failure(ErrorKind::InvalidArgument, String::from_str("Invalid chunk size"))),
            ),
            (SplitPhase::Fresh, Event::Start, Some(_)) => {
                self.phase = SplitPhase::AwaitBytes;
                Step::Perform(Action::ReadFile { path: self.path.clone() })
            },
            (SplitPhase::AwaitBytes, Event::Bytes { data }, Some(size)) => {
                if size > 0 {
                    self.emit(size, data, 0)
                } else {
                    Step::Finished(Err(refusal()))
                }
            },
            (SplitPhase::AwaitBytes, Event::Failed { message }, _) => Step::Finished(
                Err(failure(ErrorKind::Io, prefixed("Error reading file: ", message.as_str()))),
            ),
            (SplitPhase::Writing, Event::Done, Some(size)) => {
                if size == 0 {
                    Step::Finished(Err(refusal()))
                } else if self.index < usize::MAX {
                    let mut data: Vec<u8> = Vec::new();
                    core::mem::swap(&mut self.data, &mut data);
                    let next = self.index + 1;
                    self.emit(size, data, next)
                } else {
                    proof {
                        lemma_chunk_bounds(self.data@.len(), size as nat, 0);
                    }
                    Step::Finished(Ok(count_chunks(self.data.len(), size)))
                }
            },
            (SplitPhase::Writing, Event::Failed { message }, _) => Step::Finished(
                Err(failure(ErrorKind::Io, prefixed("Error creating chunk: ", message.as_str()))),
            ),
            _ => Step::Finished(Err(refusal())),
        }
    }
}

/// Begins the splitting of the file at `filepath` into chunks of
/// `chunk_size_mb` mebibytes. The job is advanced with [`Event::Start`]
/// first and ends with the number of chunks written. A chunk size of zero,
/// or one beyond what can be addressed, is an invalid argument.
pub fn split_file_noninteractive(filepath: &str, chunk_size_mb: u64) -> (job: SplitJob)
    ensures
        job@ == (SplitView {
            phase: SplitPhase::Fresh,
            path: filepath@,
            size: chunk_bytes(chunk_size_mb),
            data: Seq::<u8>::empty(),
            index: 0,
        }),
{
    SplitJob {
        path: String::from_str(filepath),
        size: chunk_bytes_of(chunk_size_mb),
        phase: SplitPhase::Fresh,
        data: Vec::new(),
        index: 0,
    }
}

/// Where a join stands.
#[derive(Clone, Copy, Debug, PartialEq, Eq, Structural)]
pub enum JoinPhase {
    /// Not begun.
    Fresh,
    /// The output file is being created.
    AwaitOpen,
    /// The next part is being read.
    AwaitPart,
    /// A part is being added to the output.
    AwaitAppend,
    /// Ended.
    Closed,
}

/// The joining of the chunks of one file.
pub struct JoinJob {
    base: String,
    output: String,
    phase: JoinPhase,
    parts: usize,
}

/// A [`JoinJob`] as a mathematical value.
pub struct JoinView {
    /// Where the job stands.
    pub phase: JoinPhase,
    /// The path that the chunks are numbered from.
    pub base: Seq<char>,
    /// The file that they are joined into.
    pub output: Seq<char>,
    /// The number of parts added to the output so far.
    pub parts: nat,
}

impl View for JoinJob {
    type V = JoinView;

    closed spec fn view(&self) -> JoinView {
        JoinView {
            phase: self.phase,
            base: self.base@,
            output: self.output@,
            parts: self.parts as nat,
        }
    }
}

/// What a join answers to `event`, and where it stands afterwards. Parts
/// are read in the order of their numbers and each is added to the output
/// as it was read. The first part that cannot be read ends the job with the
/// number of parts added; that is its success.
pub open spec fn join_transition(
    pre: JoinView,
    event: EventView,
    post: JoinView,
    step: StepView<usize>,
) -> bool {
    &&& post.base == pre.base
    &&& post.output == pre.output
    &&& match (pre.phase, event) {
        (JoinPhase::Fresh, EventView::Start) => {
            &&& post.phase == JoinPhase::AwaitOpen
            &&& post.parts == pre.parts
            &&& asks(step, ActionView::OpenOutput { path: pre.output, create: true })
        },
        (JoinPhase::AwaitOpen, EventView::Done) => {
            &&& post.phase == JoinPhase::AwaitPart
            &&& post.parts == pre.parts
            &&& asks(step, ActionView::ReadFile { path: chunk_path(pre.base, pre.parts) })
        },
        (JoinPhase::AwaitOpen, EventView::Failed { message }) => {
            post.phase == JoinPhase::Closed && fails_with(
                step,
                (ErrorKind::Io, "Error creating output file: "@ + message),
            )
        },
        (JoinPhase::AwaitPart, EventView::Bytes { data }) => {
            &&& post.phase == JoinPhase::AwaitAppend
            &&& post.parts == pre.parts
            &&& asks(step, ActionView::WriteOutput { data })
        },
        (JoinPhase::AwaitPart, EventView::Failed { .. }) => {
            post.phase == JoinPhase::Closed && counts(step, pre.parts)
        },
        (JoinPhase::AwaitAppend, EventView::Done) => if pre.parts < usize::MAX {
            &&& post.phase == JoinPhase::AwaitPart
            &&& post.parts == pre.parts + 1
            &&& asks(step, ActionView::ReadFile { path: chunk_path(pre.base, pre.parts + 1) })
        } else {
            post.phase == JoinPhase::Closed && counts(step, pre.parts)
        },
        (JoinPhase::AwaitAppend, EventView::Failed { message }) => {
            post.phase == JoinPhase::Closed && fails_with(
                step,
                (ErrorKind::Io, "Error writing to output file: "@ + message),
            )
        },
        _ => post.phase == JoinPhase::Closed && fails_with(step, out_of_turn()),
    }
}

impl JoinJob {
    /// Takes the job one event further (see [`join_transition`]).
    pub fn advance(&mut self, event: Event) -> (step: Step<usize>)
        ensures
            join_transition(old(self)@, event@, final(self)@, step.plain()),
    {
        let phase = self.phase;
        self.phase = JoinPhase::Closed;
        match (phase, event) {
            (JoinPhase::Fresh, Event::Start) => {
                self.phase = JoinPhase::AwaitOpen;
                Step::Perform(Action::OpenOutput { path: self.output.clone(), create: true })
            },
            (JoinPhase::AwaitOpen, Event::Done) => {
                self.phase = JoinPhase::AwaitPart;
                Step::Perform(
                    Action::ReadFile { path: chunk_path_of(self.base.as_str(), self.parts) },
                )
            },
            (JoinPhase::AwaitOpen, Event::Failed { message }) => Step::Finished(
                Err(
                    failure(
                        ErrorKind::Io,
                        prefixed("Error creating output file: ", message.as_str()),
                    ),
                ),
            ),
            (JoinPhase::AwaitPart, Event::Bytes { data }) => {
                self.phase = JoinPhase::AwaitAppend;
                Step::Perform(Action::WriteOutput { data })
            },
            (JoinPhase::AwaitPart, Event::Failed { message }) => Step::Finished(Ok(self.parts)),
            (JoinPhase::AwaitAppend, Event::Done) => {
                if self.parts < usize::MAX {
                    self.parts = self.parts + 1;
                    self.phase = JoinPhase::AwaitPart;
                    Step::Perform(
                        Action::ReadFile { path: chunk_path_of(self.base.as_str(), self.parts) },
                    )
                } else {
                    Step::Finished(Ok(self.parts))
                }
            },
            (JoinPhase::AwaitAppend, Event::Failed { message }) => Step::Finished(
                Err(
                    failure(
                        ErrorKind::Io,
                        prefixed("Error writing to output file: ", message.as_str()),
                    ),
                ),
            ),
            _ => Step::Finished(Err(refusal())),
        }
    }
}

/// Begins the joining of the chunks `base.0`, `base.1`, ... into `output`.
/// The job is advanced with [`Event::Start`] first and ends with the number
/// of parts joined.
pub fn join_files_noninteractive(base: &str, output: &str) -> (job: JoinJob)
    ensures
        job@ == (JoinView { phase: JoinPhase::Fresh, base: base@, output: output@, parts: 0 }),
{
    JoinJob {
        base: String::from_str(base),
        output: String::from_str(output),
        phase: JoinPhase::Fresh,
        parts: 0,
    }
}

/// A split writes the chunks of the file, one after the other: the write
/// that answers the file's content is chunk 0, the write that answers a
/// finished write is the next chunk, and each goes to the path of its
/// number. Its count, at the end, is the number of chunks.
pub proof fn lemma_split_writes_the_chunks(
    pre: SplitView,
    event: EventView,
    post: SplitView,
    step: StepView<usize>,
)
    requires
        split_transition(pre, event, post, step),
        pre.size matches Some(size) && size > 0,
    ensures
        step matches StepView::Perform(ActionView::WriteFile { path, data, parents }) ==> {
            &&& post.data == (if pre.phase == SplitPhase::AwaitBytes {
                event->Bytes_data
            } else {
                pre.data
            })
            &&& post.index == (if pre.phase == SplitPhase::AwaitBytes {
                0
            } else {
                pre.index + 1
            })
            &&& post.index < chunk_count(post.data.len(), pre.size->Some_0)
            &&& path == chunk_path(pre.path, post.index)
            &&& data == chunks(post.data, pre.size->Some_0)[post.index as int]
            &&& !parents
        },
        step matches StepView::Finished(Ok(count)) ==> pre.phase == SplitPhase::AwaitBytes
            || pre.phase == SplitPhase::Writing,
{
}

/// A join copies its parts: it writes to the output exactly what it has
/// just read, and nothing else. Together with [`lemma_chunks_rejoin`] this
/// makes the joined chunks of a file the file itself.
pub proof fn lemma_join_copies_the_parts(
    pre: JoinView,
    event: EventView,
    post: JoinView,
    step: StepView<usize>,
)
    requires
        join_transition(pre, event, post, step),
    ensures
        step matches StepView::Perform(ActionView::WriteOutput { data }) ==> pre.phase
            == JoinPhase::AwaitPart && event == (EventView::Bytes { data }),
        pre.phase == JoinPhase::AwaitPart && event is Bytes ==> asks(
            step,
            ActionView::WriteOutput { data: event->Bytes_data },
        ),
        step matches StepView::Perform(ActionView::ReadFile { path }) ==> path == chunk_path(
            pre.base,
            post.parts,
        ),
{
}

} // verus!
