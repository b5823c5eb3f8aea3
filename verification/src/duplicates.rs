//! The duplicate scan: the files of a directory grouped by the hash of their
//! content.
//!
//! Files are hashed one at a time, in the order in which the host listed
//! them. Groups stand in the order in which their first file was seen, and
//! the files of a group in the order in which they were seen. A file that
//! cannot be read belongs to no group.
//!
//! The groups are kept in a vector that is searched by hash, with no hash
//! in it twice. The keys are text, and for text keys vstd gives a hash map
//! no model to reason with; a vector also fixes the order of the report,
//! which a hash map would leave to its hasher.

use vstd::prelude::*;
use vstd::string::StringExecFns;
use crate::digest::{blake3_hex, blake3_hex_of};
use crate::errors::{failure, prefixed, refusal, ErrorKind};
use crate::host::{Action, ActionView, Event, EventView, Step};
use crate::task::{
    end_saying,
    end_unexpected,
    ends_saying,
    go_on,
    goes_on,
    is_silent,
    say_and_go_on,
    says_and_goes_on,
    silence,
    unexpected_line,
    TaskStep,
    TaskStepView,
};
use crate::text::{clone_lines, decimal, lemma_lines_push, lines_of, push_decimal};

verus! {

/// The files that share one hash.
pub struct Group {
    pub hash: String,
    pub paths: Vec<String>,
}

impl View for Group {
    type V = (Seq<char>, Seq<Seq<char>>);

    open spec fn view(&self) -> (Seq<char>, Seq<Seq<char>>) {
        (self.hash@, lines_of(self.paths@))
    }
}

/// The views of a list of groups.
pub open spec fn groups_of(v: Seq<Group>) -> Seq<(Seq<char>, Seq<Seq<char>>)> {
    Seq::new(v.len(), |i: int| v[i]@)
}

/// The views of a list of lists of strings.
pub open spec fn nested_lines(v: Seq<Vec<String>>) -> Seq<Seq<Seq<char>>> {
    Seq::new(v.len(), |i: int| lines_of(v[i]@))
}

/// The position of the group with the hash `hash`, or the number of groups
/// when there is none.
pub open spec fn find_group(groups: Seq<(Seq<char>, Seq<Seq<char>>)>, hash: Seq<char>) -> int
    decreases groups.len(),
{
    if groups.len() == 0 {
        0
    } else if groups[0].0 == hash {
        0
    } else {
        1 + find_group(groups.drop_first(), hash)
    }
}

/// The groups after a file with the hash `hash` was seen at `path`: the
/// file joins the group of its hash at the end, or founds a new last group.
pub open spec fn recorded(
    groups: Seq<(Seq<char>, Seq<Seq<char>>)>,
    hash: Seq<char>,
    path: Seq<char>,
) -> Seq<(Seq<char>, Seq<Seq<char>>)> {
    let at = find_group(groups, hash);
    if at < groups.len() {
        groups.update(at, (hash, groups[at].1.push(path)))
    } else {
        groups.push((hash, seq![path]))
    }
}

/// The groups of more than one file, each as the list of its paths.
pub open spec fn duplicate_groups(groups: Seq<(Seq<char>, Seq<Seq<char>>)>) -> Seq<Seq<Seq<char>>>
    decreases groups.len(),
{
    if groups.len() == 0 {
        Seq::<Seq<Seq<char>>>::empty()
    } else if groups.last().1.len() > 1 {
        duplicate_groups(groups.drop_last()).push(groups.last().1)
    } else {
        duplicate_groups(groups.drop_last())
    }
}

/// Whether no hash has two groups.
pub open spec fn distinct_hashes(groups: Seq<(Seq<char>, Seq<Seq<char>>)>) -> bool {
    forall|i: int, j: int|
        0 <= i < j < groups.len() ==> (#[trigger] groups[i]).0 != (#[trigger] groups[j]).0
}

proof fn lemma_find_group_finds(groups: Seq<(Seq<char>, Seq<Seq<char>>)>, hash: Seq<char>)
    ensures
        0 <= find_group(groups, hash) <= groups.len(),
        find_group(groups, hash) < groups.len() ==> groups[find_group(groups, hash)].0 == hash,
        forall|j: int| 0 <= j < find_group(groups, hash) ==> (#[trigger] groups[j]).0 != hash,
    decreases groups.len(),
{
    if groups.len() > 0 && groups[0].0 != hash {
        let rest = groups.drop_first();
        lemma_find_group_finds(rest, hash);
        let at = find_group(rest, hash);
        if at < rest.len() {
            assert(rest[at] == groups[at + 1]);
        }
        assert forall|j: int| 0 <= j < at + 1 implies (#[trigger] groups[j]).0 != hash by {
            if j > 0 {
                assert(rest[j - 1] == groups[j]);
            }
        }
    }
}

/// Recording keeps the groups what a map from hash to files would be: no
/// hash gets a second group, the groups that stood keep their places and
/// their files, and the file is the last of the group of its hash.
pub proof fn lemma_recorded_keeps_groups(
    groups: Seq<(Seq<char>, Seq<Seq<char>>)>,
    hash: Seq<char>,
    path: Seq<char>,
)
    requires
        distinct_hashes(groups),
    ensures
        distinct_hashes(recorded(groups, hash, path)),
        recorded(groups, hash, path).len() >= groups.len(),
        forall|i: int|
            0 <= i < groups.len() ==> (#[trigger] recorded(groups, hash, path)[i]).0 == groups[i].0,
        forall|i: int|
            0 <= i < groups.len() && groups[i].0 != hash ==> #[trigger] recorded(
                groups,
                hash,
                path,
            )[i] == groups[i],
        exists|i: int|
            0 <= i < recorded(groups, hash, path).len() && (#[trigger] recorded(
                groups,
                hash,
                path,
            )[i]).0 == hash && recorded(groups, hash, path)[i].1.len() > 0 && recorded(
                groups,
                hash,
                path,
            )[i].1.last() == path,
{
    lemma_find_group_finds(groups, hash);
    let at = find_group(groups, hash);
    let after = recorded(groups, hash, path);
    assert forall|i: int, j: int| 0 <= i < j < after.len() implies (#[trigger] after[i]).0 != (
    #[trigger] after[j]).0 by {
        if j < groups.len() {
            assert(groups[i].0 != groups[j].0);
        }
    }
    if at < groups.len() {
        assert(after[at].0 == hash && after[at].1.last() == path);
    } else {
        assert(after[groups.len() as int].0 == hash && after[groups.len() as int].1.last() == path);
    }
}

proof fn lemma_find_group(groups: Seq<(Seq<char>, Seq<Seq<char>>)>, hash: Seq<char>, at: int)
    requires
        0 <= at <= groups.len(),
        forall|j: int| 0 <= j < at ==> groups[j].0 != hash,
        at == groups.len() || groups[at].0 == hash,
    ensures
        find_group(groups, hash) == at,
    decreases at,
{
    if at > 0 {
        let rest = groups.drop_first();
        assert forall|j: int| 0 <= j < at - 1 implies rest[j].0 != hash by {
            assert(rest[j] == groups[j + 1]);
        }
        if at < groups.len() {
            assert(rest[at - 1] == groups[at]);
        }
        assert(groups[0].0 != hash);
        lemma_find_group(rest, hash, at - 1);
    }
}

/// Notes that a file with the hash `hash` was seen at `path` (see
/// [`recorded`]).
pub fn record(groups: &mut Vec<Group>, hash: String, path: String)
    ensures
        groups_of(final(groups)@) == recorded(groups_of(old(groups)@), hash@, path@),
        distinct_hashes(groups_of(old(groups)@)) ==> distinct_hashes(groups_of(final(groups)@)),
{
    proof {
        if distinct_hashes(groups_of(old(groups)@)) {
            lemma_recorded_keeps_groups(groups_of(old(groups)@), hash@, path@);
        }
    }
    let mut at: usize = 0;
    while at < groups.len() && !(groups[at].hash == hash)
        invariant
            at <= groups.len(),
            groups@ == old(groups)@,
            forall|j: int| 0 <= j < at ==> groups_of(groups@)[j].0 != hash@,
        decreases groups.len() - at,
    {
        at += 1;
    }
    proof {
        lemma_find_group(groups_of(groups@), hash@, at as int);
    }
    if at < groups.len() {
        let mut paths = clone_lines(&groups[at].paths);
        proof {
            lemma_lines_push(paths@, path);
        }
        paths.push(path);
        groups.set(at, Group { hash, paths });
        assert(groups_of(groups@) =~= recorded(groups_of(old(groups)@), hash@, path@));
    } else {
        let mut paths: Vec<String> = Vec::new();
        paths.push(path);
        assert(lines_of(paths@) =~= seq![path@]);
        groups.push(Group { hash, paths });
        assert(groups_of(groups@) =~= recorded(groups_of(old(groups)@), hash@, path@));
    }
}

/// The groups of more than one file (see [`duplicate_groups`]).
pub fn duplicates_in(groups: &Vec<Group>) -> (r: Vec<Vec<String>>)
    ensures
        nested_lines(r@) == duplicate_groups(groups_of(groups@)),
{
    let mut out: Vec<Vec<String>> = Vec::new();
    let mut i: usize = 0;
    assert(groups_of(groups@).take(0) =~= Seq::<(Seq<char>, Seq<Seq<char>>)>::empty());
    assert(nested_lines(out@) =~= Seq::<Seq<Seq<char>>>::empty());
    while i < groups.len()
        invariant
            i <= groups.len(),
            nested_lines(out@) == duplicate_groups(groups_of(groups@).take(i as int)),
        decreases groups.len() - i,
    {
        proof {
            assert(groups_of(groups@).take(i + 1).drop_last() =~= groups_of(groups@).take(i as int));
            assert(groups_of(groups@).take(i + 1).last() == groups@[i as int]@);
        }
        if groups[i].paths.len() > 1 {
            let paths = clone_lines(&groups[i].paths);
            let ghost before = out@;
            out.push(paths);
            assert(nested_lines(out@) =~= nested_lines(before).push(lines_of(paths@)));
        }
        i += 1;
    }
    assert(groups_of(groups@).take(groups.len() as int) =~= groups_of(groups@));
    out
}

/// The lines that close a scan: one line for every group of more than one
/// file, with the number of its files, and a last line that says how many
/// such groups there are, or that there are none.
pub open spec fn summary_lines(duplicates: Seq<Seq<Seq<char>>>) -> Seq<Seq<char>> {
    let groups = Seq::new(
        duplicates.len(),
        |i: int| "Duplicate group ("@ + decimal(duplicates[i].len()) + " files)"@,
    );
    if duplicates.len() == 0 {
        groups.push("No duplicates found."@)
    } else {
        groups.push("Found "@ + decimal(duplicates.len()) + " duplicate groups"@)
    }
}

/// Writes the lines that close a scan (see [`summary_lines`]) behind
/// `lines`.
pub fn push_summary(lines: &mut Vec<String>, duplicates: &Vec<Vec<String>>)
    ensures
        lines_of(final(lines)@) == lines_of(old(lines)@) + summary_lines(nested_lines(duplicates@)),
{
    let ghost start = lines_of(lines@);
    let ghost all = summary_lines(nested_lines(duplicates@));
    let mut i: usize = 0;
    assert(start + all.take(0) =~= start);
    while i < duplicates.len()
        invariant
            i <= duplicates.len(),
            start == lines_of(old(lines)@),
            all == summary_lines(nested_lines(duplicates@)),
            lines_of(lines@) == start + all.take(i as int),
        decreases duplicates.len() - i,
    {
        let mut line = String::from_str("Duplicate group (");
        push_decimal(&mut line, duplicates[i].len() as u64);
        line.append(" files)");
        proof {
            assert(nested_lines(duplicates@)[i as int].len() == duplicates@[i as int]@.len());
            assert(line@ =~= all[i as int]);
            lemma_lines_push(lines@, line);
            assert((start + all.take(i as int)).push(line@) =~= start + all.take(i + 1));
        }
        lines.push(line);
        i += 1;
    }
    let last = if duplicates.len() == 0 {
        String::from_str("No duplicates found.")
    } else {
        let mut line = String::from_str("Found ");
        push_decimal(&mut line, duplicates.len() as u64);
        line.append(" duplicate groups");
        line
    };
    proof {
        assert(last@ =~= all.last());
        lemma_lines_push(lines@, last);
        assert((start + all.take(duplicates.len() as int)).push(last@) =~= start + all);
    }
    lines.push(last);
}

/// Where a duplicate scan stands.
#[derive(Clone, Copy, Debug, PartialEq, Eq, Structural)]
pub enum ScanPhase {
    /// Not begun.
    Fresh,
    /// Asked for the cancellation flag before starting (tasks only).
    AwaitCancel,
    /// The directory is being listed.
    AwaitListing,
    /// Asked for the cancellation flag before the next file (tasks only).
    AwaitItemCancel,
    /// A file is being read.
    Reading,
    /// Ended.
    Closed,
}

/// The scan itself: the directory, its files, and the groups found so far.
struct Scan {
    dir: String,
    phase: ScanPhase,
    files: Vec<String>,
    index: usize,
    groups: Vec<Group>,
}

/// A duplicate scan as a mathematical value.
pub struct ScanView {
    /// Where the scan stands.
    pub phase: ScanPhase,
    /// The directory that is scanned.
    pub dir: Seq<char>,
    /// The files of the directory, once listed.
    pub files: Seq<Seq<char>>,
    /// The position of the file in hand.
    pub index: nat,
    /// The groups found so far.
    pub groups: Seq<(Seq<char>, Seq<Seq<char>>)>,
}

impl View for Scan {
    type V = ScanView;

    closed spec fn view(&self) -> ScanView {
        ScanView {
            phase: self.phase,
            dir: self.dir@,
            files: lines_of(self.files@),
            index: self.index as nat,
            groups: groups_of(self.groups@),
        }
    }
}

impl Scan {
    fn new(dir: &str) -> (r: Scan)
        ensures
            r@ == fresh_scan(dir@),
    {
        let files: Vec<String> = Vec::new();
        let groups: Vec<Group> = Vec::new();
        assert(lines_of(files@) =~= Seq::<Seq<char>>::empty());
        assert(groups_of(groups@) =~= Seq::<(Seq<char>, Seq<Seq<char>>)>::empty());
        Scan { dir: String::from_str(dir), phase: ScanPhase::Fresh, files, index: 0, groups }
    }

    /// Notes the content of the file in hand, or that it could not be read.
    fn note(&mut self, content: Option<Vec<u8>>)
        requires
            old(self).index < old(self).files.len(),
        ensures
            final(self)@.dir == old(self)@.dir,
            final(self)@.phase == old(self)@.phase,
            final(self)@.files == old(self)@.files,
            final(self)@.index == old(self)@.index,
            final(self)@.groups == noted(old(self)@, optional_bytes(content)),
    {
        match content {
            Some(data) => {
                let hash = blake3_hex_of(data.as_slice());
                let path = self.files[self.index].clone();
                record(&mut self.groups, hash, path);
            },
            None => {},
        }
    }
}

/// A scan never gives a hash a second group: while it runs, its groups are
/// what a map from hash to files would hold.
pub proof fn lemma_scan_keeps_hashes_distinct(
    pre: ScanView,
    event: EventView,
    post: ScanView,
    step: ScanStepView,
)
    requires
        scan_transition(pre, event, post, step),
        distinct_hashes(pre.groups),
    ensures
        post.phase != ScanPhase::Closed ==> distinct_hashes(post.groups),
{
    if pre.phase == ScanPhase::Reading && pre.index < pre.files.len() {
        if let EventView::Bytes { data } = event {
            lemma_recorded_keeps_groups(
                pre.groups,
                blake3_hex(data),
                pre.files[pre.index as int],
            );
        }
    }
}

/// A scan of `dir` that has not begun.
pub open spec fn fresh_scan(dir: Seq<char>) -> ScanView {
    ScanView {
        phase: ScanPhase::Fresh,
        dir,
        files: Seq::<Seq<char>>::empty(),
        index: 0,
        groups: Seq::<(Seq<char>, Seq<Seq<char>>)>::empty(),
    }
}

/// Optional bytes as a mathematical value.
pub open spec fn optional_bytes(content: Option<Vec<u8>>) -> Option<Seq<u8>> {
    match content {
        Some(data) => Some(data@),
        None => None,
    }
}

/// The groups after the file in hand was dealt with: with its content it is
/// recorded under the BLAKE3 hash of the content; a file that could not be
/// read changes nothing.
pub open spec fn noted(pre: ScanView, content: Option<Seq<u8>>) -> Seq<(Seq<char>, Seq<Seq<char>>)> {
    match content {
        Some(data) => recorded(pre.groups, blake3_hex(data), pre.files[pre.index as int]),
        None => pre.groups,
    }
}

/// What the host reported of the file in hand, if `event` is such a report.
pub open spec fn content_of(event: EventView) -> Option<Option<Seq<u8>>> {
    match event {
        EventView::Bytes { data } => Some(Some(data)),
        EventView::Failed { .. } => Some(None),
        _ => None,
    }
}

/// The answer of a plain scan, as a mathematical value.
pub enum ScanStepView {
    Perform(ActionView),
    Finished(Result<Seq<Seq<Seq<char>>>, (ErrorKind, Seq<char>)>),
}

/// The view of the answer of a plain scan.
pub open spec fn scan_step(step: Step<Vec<Vec<String>>>) -> ScanStepView {
    match step {
        Step::Perform(a) => ScanStepView::Perform(a@),
        Step::Finished(Ok(groups)) => ScanStepView::Finished(Ok(nested_lines(groups@))),
        Step::Finished(Err(f)) => ScanStepView::Finished(Err(f@)),
    }
}

/// How a plain scan goes on to the file at `index`: the file is read; after
/// the last file the scan ends with the groups of more than one file.
pub open spec fn next_file(
    files: Seq<Seq<char>>,
    index: nat,
    groups: Seq<(Seq<char>, Seq<Seq<char>>)>,
    post: ScanView,
    step: ScanStepView,
) -> bool {
    if index < files.len() {
        &&& post.phase == ScanPhase::Reading
        &&& post.files == files
        &&& post.index == index
        &&& post.groups == groups
        &&& step == ScanStepView::Perform(ActionView::ReadFile { path: files[index as int] })
    } else {
        post.phase == ScanPhase::Closed && step == ScanStepView::Finished(
            Ok(duplicate_groups(groups)),
        )
    }
}

/// What a plain scan answers to `event`, and where it stands afterwards.
pub open spec fn scan_transition(
    pre: ScanView,
    event: EventView,
    post: ScanView,
    step: ScanStepView,
) -> bool {
    &&& post.dir == pre.dir
    &&& match (pre.phase, event) {
        (ScanPhase::Fresh, EventView::Start) => {
            &&& post.phase == ScanPhase::AwaitListing
            &&& post.groups == pre.groups
            &&& step == ScanStepView::Perform(ActionView::ListFiles { dir: pre.dir })
        },
        (ScanPhase::AwaitListing, EventView::Files { paths }) => next_file(
            paths,
            0,
            pre.groups,
            post,
            step,
        ),
        (ScanPhase::AwaitListing, EventView::Failed { .. }) => {
            post.phase == ScanPhase::Closed && step == ScanStepView::Finished(
                Err((ErrorKind::Io, "Unable to read directory: "@ + pre.dir)),
            )
        },
        (ScanPhase::Reading, EventView::Bytes { .. })
        | (ScanPhase::Reading, EventView::Failed { .. }) => if pre.index < pre.files.len() {
            next_file(
                pre.files,
                pre.index + 1,
                noted(pre, content_of(event)->Some_0),
                post,
                step,
            )
        } else {
            post.phase == ScanPhase::Closed && step == ScanStepView::Finished(
                Err((ErrorKind::InvalidArgument, "Unexpected event"@)),
            )
        },
        _ => post.phase == ScanPhase::Closed && step == ScanStepView::Finished(
            Err((ErrorKind::InvalidArgument, "Unexpected event"@)),
        ),
    }
}

/// A duplicate scan without progress lines.
pub struct DuplicatesJob {
    scan: Scan,
}

impl View for DuplicatesJob {
    type V = ScanView;

    closed spec fn view(&self) -> ScanView {
        self.scan@
    }
}

impl DuplicatesJob {
    /// The groups found so far, each with its hash.
    pub fn groups(&self) -> (r: &Vec<Group>)
        ensures
            groups_of(r@) == self@.groups,
    {
        &self.scan.groups
    }

    fn read_next(&mut self) -> (step: Step<Vec<Vec<String>>>)
        requires
            old(self).scan.phase == ScanPhase::Closed,
        ensures
            final(self)@.dir == old(self)@.dir,
            next_file(
                old(self)@.files,
                old(self)@.index,
                old(self)@.groups,
                final(self)@,
                scan_step(step),
            ),
    {
        if self.scan.index < self.scan.files.len() {
            self.scan.phase = ScanPhase::Reading;
            Step::Perform(Action::ReadFile { path: self.scan.files[self.scan.index].clone() })
        } else {
            Step::Finished(Ok(duplicates_in(&self.scan.groups)))
        }
    }

    /// Takes the scan one event further (see [`scan_transition`]).
    pub fn advance(&mut self, event: Event) -> (step: Step<Vec<Vec<String>>>)
        ensures
            scan_transition(old(self)@, event@, final(self)@, scan_step(step)),
    {
        let phase = self.scan.phase;
        self.scan.phase = ScanPhase::Closed;
        match (phase, event) {
            (ScanPhase::Fresh, Event::Start) => {
                self.scan.phase = ScanPhase::AwaitListing;
                Step::Perform(Action::ListFiles { dir: self.scan.dir.clone() })
            },
            (ScanPhase::AwaitListing, Event::Files { paths }) => {
                self.scan.files = paths;
                self.scan.index = 0;
                self.read_next()
            },
            (ScanPhase::AwaitListing, Event::Failed { message }) => Step::Finished(
                Err(
                    failure(
                        ErrorKind::Io,
                        prefixed("Unable to read directory: ", self.scan.dir.as_str()),
                    ),
                ),
            ),
            (ScanPhase::Reading, Event::Bytes { data }) => {
                if self.scan.index < self.scan.files.len() {
                    self.scan.note(Some(data));
                    self.scan.index = self.scan.index + 1;
                    self.read_next()
                } else {
                    Step::Finished(Err(refusal()))
                }
            },
            (ScanPhase::Reading, Event::Failed { message }) => {
                if self.scan.index < self.scan.files.len() {
                    self.scan.note(None);
                    self.scan.index = self.scan.index + 1;
                    self.read_next()
                } else {
                    Step::Finished(Err(refusal()))
                }
            },
            _ => Step::Finished(Err(refusal())),
        }
    }
}

/// Begins a scan of the directory `dir` for files with the same content.
/// The job is advanced with [`Event::Start`] first and ends with the groups
/// of more than one file.
pub fn find_duplicates_noninteractive(dir: &str) -> (job: DuplicatesJob)
    ensures
        job@ == fresh_scan(dir@),
{
    DuplicatesJob { scan: Scan::new(dir) }
}

/// The line that reports the number of files found.
pub open spec fn found_line(count: nat) -> Seq<char> {
    "Found "@ + decimal(count) + " files, hashing..."@
}

/// The line that reports that file `number` of `count` was hashed.
pub open spec fn hashed_line(number: nat, count: nat, path: Seq<char>) -> Seq<char> {
    "Hashed "@ + decimal(number) + "/"@ + decimal(count) + ": "@ + path
}

/// How a scan task goes on once `index` files are done, having `said`
/// already: before the next file it asks for the cancellation flag; after
/// the last it closes with the summary.
pub open spec fn next_item(
    files: Seq<Seq<char>>,
    index: nat,
    groups: Seq<(Seq<char>, Seq<Seq<char>>)>,
    said: Seq<char>,
    post: ScanView,
    step: TaskStepView,
) -> bool {
    if index < files.len() {
        &&& post.phase == ScanPhase::AwaitItemCancel
        &&& post.files == files
        &&& post.index == index
        &&& post.groups == groups
        &&& says_and_goes_on(step, said, ActionView::CheckCancel)
    } else {
        &&& post.phase == ScanPhase::Closed
        &&& step.lines == seq![said] + summary_lines(duplicate_groups(groups))
        &&& step.next is None
    }
}

/// What a scan task answers to `event`, and where it stands afterwards. A
/// directory that cannot be listed counts as empty.
pub open spec fn scan_task_transition(
    pre: ScanView,
    event: EventView,
    post: ScanView,
    step: TaskStepView,
) -> bool {
    &&& post.dir == pre.dir
    &&& match (pre.phase, event) {
        (ScanPhase::Fresh, EventView::Start) => {
            &&& post.phase == ScanPhase::AwaitCancel
            &&& post.groups == pre.groups
            &&& says_and_goes_on(step, "Scanning directory: "@ + pre.dir, ActionView::CheckCancel)
        },
        (ScanPhase::AwaitCancel, EventView::Cancel { requested }) => if requested {
            post.phase == ScanPhase::Closed && ends_saying(step, "Canceled before scan"@)
        } else {
            &&& post.phase == ScanPhase::AwaitListing
            &&& post.groups == pre.groups
            &&& goes_on(step, ActionView::ListFiles { dir: pre.dir })
        },
        (ScanPhase::AwaitListing, EventView::Files { paths }) => next_item(
            paths,
            0,
            pre.groups,
            found_line(paths.len()),
            post,
            step,
        ),
        (ScanPhase::AwaitListing, EventView::Failed { .. }) => next_item(
            Seq::<Seq<char>>::empty(),
            0,
            pre.groups,
            found_line(0),
            post,
            step,
        ),
        (ScanPhase::AwaitItemCancel, EventView::Cancel { requested }) => if requested {
            post.phase == ScanPhase::Closed && ends_saying(step, "Canceled during hashing"@)
        } else if pre.index < pre.files.len() {
            &&& post.phase == ScanPhase::Reading
            &&& post.files == pre.files
            &&& post.index == pre.index
            &&& post.groups == pre.groups
            &&& goes_on(step, ActionView::ReadFile { path: pre.files[pre.index as int] })
        } else {
            post.phase == ScanPhase::Closed && ends_saying(step, unexpected_line())
        },
        (ScanPhase::Reading, EventView::Bytes { .. })
        | (ScanPhase::Reading, EventView::Failed { .. }) => if pre.index < pre.files.len() {
            next_item(
                pre.files,
                pre.index + 1,
                noted(pre, content_of(event)->Some_0),
                hashed_line(pre.index + 1, pre.files.len(), pre.files[pre.index as int]),
                post,
                step,
            )
        } else {
            post.phase == ScanPhase::Closed && ends_saying(step, unexpected_line())
        },
        (ScanPhase::Closed, _) => post.phase == ScanPhase::Closed && is_silent(step),
        _ => post.phase == ScanPhase::Closed && ends_saying(step, unexpected_line()),
    }
}

/// Cancellation of a scan is final: when the flag is found set, before the
/// scan or before a file, the task ends with its cancellation line and asks
/// for nothing more; an ended task stays silent.
pub proof fn lemma_scan_cancellation(
    pre: ScanView,
    event: EventView,
    post: ScanView,
    step: TaskStepView,
)
    requires
        scan_task_transition(pre, event, post, step),
    ensures
        pre.phase == ScanPhase::AwaitCancel && event == (EventView::Cancel { requested: true })
            ==> post.phase == ScanPhase::Closed && ends_saying(step, "Canceled before scan"@),
        pre.phase == ScanPhase::AwaitItemCancel && event == (EventView::Cancel {
            requested: true,
        }) ==> post.phase == ScanPhase::Closed && ends_saying(step, "Canceled during hashing"@),
        pre.phase == ScanPhase::Closed ==> post.phase == ScanPhase::Closed && is_silent(step),
{
}

/// A duplicate scan run as a task.
pub struct DuplicatesTask {
    scan: Scan,
}

impl View for DuplicatesTask {
    type V = ScanView;

    closed spec fn view(&self) -> ScanView {
        self.scan@
    }
}

impl DuplicatesTask {
    fn go_to_next(&mut self, said: String) -> (step: TaskStep)
        requires
            old(self).scan.phase == ScanPhase::Closed,
        ensures
            final(self)@.dir == old(self)@.dir,
            next_item(
                old(self)@.files,
                old(self)@.index,
                old(self)@.groups,
                said@,
                final(self)@,
                step@,
            ),
    {
        if self.scan.index < self.scan.files.len() {
            self.scan.phase = ScanPhase::AwaitItemCancel;
            say_and_go_on(said, Action::CheckCancel)
        } else {
            let mut lines: Vec<String> = Vec::new();
            lines.push(said);
            assert(lines_of(lines@) =~= seq![said@]);
            push_summary(&mut lines, &duplicates_in(&self.scan.groups));
            TaskStep { lines, next: None }
        }
    }

    fn hashed(&self) -> (line: String)
        requires
            self.scan.index < self.scan.files.len(),
        ensures
            line@ == hashed_line(
                self@.index + 1,
                self@.files.len(),
                self@.files[self@.index as int],
            ),
    {
        let mut line = String::from_str("Hashed ");
        push_decimal(&mut line, (self.scan.index + 1) as u64);
        line.append("/");
        push_decimal(&mut line, self.scan.files.len() as u64);
        line.append(": ");
        line.append(self.scan.files[self.scan.index].as_str());
        line
    }

    /// Takes the task one event further (see [`scan_task_transition`]).
    pub fn advance(&mut self, event: Event) -> (step: TaskStep)
        ensures
            scan_task_transition(old(self)@, event@, final(self)@, step@),
    {
        let phase = self.scan.phase;
        self.scan.phase = ScanPhase::Closed;
        match (phase, event) {
            (ScanPhase::Fresh, Event::Start) => {
                self.scan.phase = ScanPhase::AwaitCancel;
                say_and_go_on(
                    prefixed("Scanning directory: ", self.scan.dir.as_str()),
                    Action::CheckCancel,
                )
            },
            (ScanPhase::AwaitCancel, Event::Cancel { requested }) => {
                if requested {
                    end_saying(String::from_str("Canceled before scan"))
                } else {
                    self.scan.phase = ScanPhase::AwaitListing;
                    go_on(Action::ListFiles { dir: self.scan.dir.clone() })
                }
            },
            (ScanPhase::AwaitListing, Event::Files { paths }) => {
                let mut line = String::from_str("Found ");
                push_decimal(&mut line, paths.len() as u64);
                line.append(" files, hashing...");
                self.scan.files = paths;
                self.scan.index = 0;
                self.go_to_next(line)
            },
            (ScanPhase::AwaitListing, Event::Failed { message }) => {
                let mut line = String::from_str("Found ");
                push_decimal(&mut line, 0);
                line.append(" files, hashing...");
                self.scan.files = Vec::new();
                self.scan.index = 0;
                assert(lines_of(self.scan.files@) =~= Seq::<Seq<char>>::empty());
                self.go_to_next(line)
            },
            (ScanPhase::AwaitItemCancel, Event::Cancel { requested }) => {
                if requested {
                    end_saying(String::from_str("Canceled during hashing"))
                } else if self.scan.index < self.scan.files.len() {
                    self.scan.phase = ScanPhase::Reading;
                    go_on(Action::ReadFile { path: self.scan.files[self.scan.index].clone() })
                } else {
                    end_unexpected()
                }
            },
            (ScanPhase::Reading, Event::Bytes { data }) => {
                if self.scan.index < self.scan.files.len() {
                    let line = self.hashed();
                    self.scan.note(Some(data));
                    self.scan.index = self.scan.index + 1;
                    self.go_to_next(line)
                } else {
                    end_unexpected()
                }
            },
            (ScanPhase::Reading, Event::Failed { message }) => {
                if self.scan.index < self.scan.files.len() {
                    let line = self.hashed();
                    self.scan.note(None);
                    self.scan.index = self.scan.index + 1;
                    self.go_to_next(line)
                } else {
                    end_unexpected()
                }
            },
            (ScanPhase::Closed, _) => silence(),
            _ => end_unexpected(),
        }
    }
}

/// A scan of the directory `dir` for files with the same content, as a
/// task. It is advanced with [`Event::Start`] first.
pub fn find_duplicates_progress(dir: &str) -> (task: DuplicatesTask)
    ensures
        task@ == fresh_scan(dir@),
{
    DuplicatesTask { scan: Scan::new(dir) }
}

} // verus!
