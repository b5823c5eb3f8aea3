//! The built-in strategy: listing and unpacking zip files and listing tar
//! streams without the external archiver.
//!
//! The containers themselves are read by the codec modules. What is decided
//! here is what a listing looks like, which name an entry is written under,
//! and that no entry is written outside the destination.

use vstd::prelude::*;
use vstd::string::StringExecFns;
use std::io::Cursor;
use zip::read::ZipArchive;
use crate::errors::{failure, text_outcome, ErrorKind, Failure};
use crate::format::ArchiveFormat;
use crate::host::{Action, ActionView};
use crate::paths::{
    confined,
    file_name,
    file_name_of,
    is_normal,
    is_plain,
    join_segments,
    lemma_file_name_is_normal,
    lemma_normal_segments_are_clean,
    lemma_sanitized_is_confined,
    lemma_sanitized_keeps_clean_path,
    normal_segments,
    place_under,
    relative_name,
    relative_name_of,
    sanitize_entry_name,
    sanitized,
    separator_free,
    under,
};
use crate::tar_codec::{tar_entry_names, tar_gz_entry_names, tar_gz_names, tar_names};
use crate::text::{chars_of, free_of, lemma_pieces_extend, lines_of, pieces, string_of};
use crate::zip_codec::{
    counted,
    entry_limit,
    small_limit,
    zip_ready,
    too_large,
    zip_count,
    zip_entry_data,
    zip_entry_name,
    zip_holds,
    zip_len,
    zip_name,
    zip_open,
    zip_payload,
    zip_probe,
    zip_refuses_empty_password,
    zip_source,
    zip_start_file,
    zip_start_refusal,
    zip_write_all,
    zip_written,
    ZipSink,
};

verus! {

/// A listing: every name followed by a line break.
pub open spec fn lines_text(names: Seq<Seq<char>>) -> Seq<char>
    decreases names.len(),
{
    if names.len() == 0 {
        Seq::<char>::empty()
    } else {
        lines_text(names.drop_last()) + names.last() + seq!['\n']
    }
}

/// Writes a listing (see [`lines_text`]).
pub fn listing_text(names: &Vec<String>) -> (r: String)
    ensures
        r@ == lines_text(lines_of(names@)),
{
    let mut out = String::new();
    let mut i: usize = 0;
    assert(lines_of(names@).take(0) =~= Seq::<Seq<char>>::empty());
    while i < names.len()
        invariant
            i <= names.len(),
            out@ == lines_text(lines_of(names@).take(i as int)),
        decreases names.len() - i,
    {
        proof {
            assert(lines_of(names@).take(i + 1).drop_last() =~= lines_of(names@).take(i as int));
            assert(lines_of(names@).take(i + 1).last() == names@[i as int]@);
        }
        out.append(names[i].as_str());
        out.push('\n');
        assert(out@ =~= lines_text(lines_of(names@).take(i + 1)));
        i += 1;
    }
    assert(lines_of(names@).take(names.len() as int) =~= lines_of(names@));
    out
}

/// The words for a zip entry that asks for a password. They are the `zip`
/// crate's own for such an entry.
pub open spec fn password_words() -> Seq<char> {
    "unsupported Zip archive: Password required to decrypt file"@
}

/// The failure for a container that cannot be read, with the words of the
/// crate that read it.
pub open spec fn malformed(words: Seq<char>) -> (ErrorKind, Seq<char>) {
    (ErrorKind::ContainerFormat, words)
}

/// The failure for a container kind that cannot be read without the
/// external archiver.
pub open spec fn unsupported_input() -> (ErrorKind, Seq<char>) {
    (ErrorKind::Unsupported, "Unsupported archive format and 7z not available"@)
}

/// Builds the failure [`unsupported_input`].
pub fn unsupported_archive() -> (r: Failure)
    ensures
        r@ == unsupported_input(),
{
    failure(ErrorKind::Unsupported, String::from_str("Unsupported archive format and 7z not available"))
}

/// The name of entry `index` of the zip file `bytes` as the built-in
/// reader takes it: an entry that asks for a password is turned down with
/// [`password_words`]; any other entry has the name, or the words, that the
/// crate gives.
pub open spec fn zip_entry_name_or_words(bytes: Seq<u8>, index: nat) -> Result<
    Seq<char>,
    Seq<char>,
> {
    if zip_refuses_empty_password(bytes, index) {
        Err(password_words())
    } else {
        zip_name(bytes, index)
    }
}

/// The names of the first `count` entries of the zip file `bytes`, or the
/// words on the first of them that cannot be opened.
pub open spec fn zip_names_upto(bytes: Seq<u8>, count: nat) -> Result<Seq<Seq<char>>, Seq<char>>
    decreases count,
{
    if count == 0 {
        Ok(Seq::<Seq<char>>::empty())
    } else {
        let index = (count - 1) as nat;
        match zip_names_upto(bytes, index) {
            Err(words) => Err(words),
            Ok(before) => match zip_entry_name_or_words(bytes, index) {
                Err(words) => Err(words),
                Ok(name) => Ok(before.push(name)),
            },
        }
    }
}

/// The listing of the zip file `bytes`: the name of every entry on a line
/// of its own, in the order of the central directory. A file that cannot be
/// opened, or whose first unreadable entry comes before the end, is
/// malformed, with the words on that.
pub open spec fn zip_listing(bytes: Seq<u8>) -> Result<Seq<char>, (ErrorKind, Seq<char>)> {
    match zip_count(bytes) {
        Err(words) => Err(malformed(words)),
        Ok(count) => match zip_names_upto(bytes, count) {
            Err(words) => Err(malformed(words)),
            Ok(names) => Ok(lines_text(names)),
        },
    }
}

/// The listing of the tar stream `bytes`, read through gzip when `gzip` is
/// set: the path of every entry on a line of its own. A stream that cannot
/// be read to its end mark is malformed, with the crate's words.
pub open spec fn tar_listing(bytes: Seq<u8>, gzip: bool) -> Result<
    Seq<char>,
    (ErrorKind, Seq<char>),
> {
    let names = if gzip {
        tar_gz_names(bytes)
    } else {
        tar_names(bytes)
    };
    match names {
        Err(words) => Err(malformed(words)),
        Ok(n) => Ok(lines_text(n)),
    }
}

/// What the built-in reader lists for a container of the given kind. A
/// container of unknown kind is unsupported.
pub open spec fn builtin_listing(format: ArchiveFormat, bytes: Seq<u8>) -> Result<
    Seq<char>,
    (ErrorKind, Seq<char>),
> {
    match format {
        ArchiveFormat::Zip => zip_listing(bytes),
        ArchiveFormat::Tar => tar_listing(bytes, false),
        ArchiveFormat::TarGz => tar_listing(bytes, true),
        ArchiveFormat::Unknown => Err(unsupported_input()),
    }
}

/// The name of entry `index` of an opened zip file (see
/// [`zip_entry_name_or_words`]). The archive keeps reading from the same
/// bytes.
pub fn entry_name_at(archive: &mut ZipArchive<Cursor<Vec<u8>>>, index: usize) -> (r: Result<
    String,
    String,
>)
    ensures
        zip_source(*final(archive)) == zip_source(*old(archive)),
        zip_entry_name_or_words(zip_source(*old(archive)), index as nat) == match r {
            Ok(name) => Ok::<Seq<char>, Seq<char>>(name@),
            Err(words) => Err::<Seq<char>, Seq<char>>(words@),
        },
        r is Ok ==> !zip_refuses_empty_password(zip_source(*old(archive)), index as nat),
{
    if zip_probe(archive, index) {
        zip_entry_name(archive, index)
    } else {
        Err(String::from_str("unsupported Zip archive: Password required to decrypt file"))
    }
}

/// Lists a zip file held in memory (see [`zip_listing`]).
pub fn list_zip(bytes: Vec<u8>) -> (r: Result<String, Failure>)
    ensures
        text_outcome(r) == zip_listing(bytes@),
{
    let ghost source = bytes@;
    let mut archive = match zip_open(bytes) {
        Ok(a) => a,
        Err(words) => {
            return Err(failure(ErrorKind::ContainerFormat, words));
        },
    };
    let count = zip_len(&archive);
    let mut names: Vec<String> = Vec::new();
    let mut i: usize = 0;
    assert(lines_of(names@) =~= Seq::<Seq<char>>::empty());
    while i < count
        invariant
            i <= count,
            source == bytes@,
            zip_source(archive) == source,
            zip_count(source) == counted(count as nat),
            zip_names_upto(source, i as nat) == Ok::<Seq<Seq<char>>, Seq<char>>(lines_of(names@)),
        decreases count - i,
    {
        match entry_name_at(&mut archive, i) {
            Ok(name) => {
                proof {
                    crate::text::lemma_lines_push(names@, name);
                }
                names.push(name);
            },
            Err(words) => {
                proof {
                    lemma_zip_names_stay_refused(source, (i + 1) as nat, count as nat);
                }
                return Err(failure(ErrorKind::ContainerFormat, words));
            },
        }
        i += 1;
    }
    Ok(listing_text(&names))
}

proof fn lemma_zip_names_stay_refused(bytes: Seq<u8>, from: nat, to: nat)
    requires
        from <= to,
        zip_names_upto(bytes, from) is Err,
    ensures
        zip_names_upto(bytes, to) == zip_names_upto(bytes, from),
    decreases to - from,
{
    if from < to {
        lemma_zip_names_stay_refused(bytes, from, (to - 1) as nat);
    }
}

/// Lists a tar stream held in memory (see [`tar_listing`]).
pub fn list_tar(bytes: &[u8], gzip: bool) -> (r: Result<String, Failure>)
    ensures
        text_outcome(r) == tar_listing(bytes@, gzip),
{
    let read = if gzip {
        tar_gz_entry_names(bytes)
    } else {
        tar_entry_names(bytes)
    };
    match read {
        Ok(names) => Ok(listing_text(&names)),
        Err(words) => Err(failure(ErrorKind::ContainerFormat, words)),
    }
}

/// Lists a container of the given kind held in memory (see
/// [`builtin_listing`]).
pub fn list_builtin(format: ArchiveFormat, bytes: Vec<u8>) -> (r: Result<String, Failure>)
    ensures
        text_outcome(r) == builtin_listing(format, bytes@),
{
    match format {
        ArchiveFormat::Zip => list_zip(bytes),
        ArchiveFormat::Tar => list_tar(bytes.as_slice(), false),
        ArchiveFormat::TarGz => list_tar(bytes.as_slice(), true),
        ArchiveFormat::Unknown => Err(unsupported_archive()),
    }
}

/// Whether an entry name stands for a directory: it ends with `/`.
pub open spec fn is_directory_name(name: Seq<char>) -> bool {
    name.len() > 0 && name.last() == '/'
}

/// Where the entry called `name` goes when a container is unpacked into
/// `dest`: its cleaned name, below `dest`.
pub open spec fn entry_target(dest: Seq<char>, name: Seq<char>) -> Seq<char> {
    under(dest, sanitized(name))
}

/// What is to be done for an entry called `name` with content `data`: a
/// directory entry has its directory made, with missing parents; any other
/// entry is written as a file, with missing parents.
pub open spec fn entry_action(dest: Seq<char>, name: Seq<char>, data: Seq<u8>) -> ActionView {
    if is_directory_name(name) {
        ActionView::MakeDirs { path: entry_target(dest, name) }
    } else {
        ActionView::WriteFile { path: entry_target(dest, name), data, parents: true }
    }
}

/// The path that an unpacking action writes to.
pub open spec fn written_path(action: ActionView) -> Option<Seq<char>> {
    match action {
        ActionView::MakeDirs { path } => Some(path),
        ActionView::WriteFile { path, .. } => Some(path),
        _ => None,
    }
}

/// Whatever an entry is called, what is done for it stays inside the
/// destination: a name such as `../../escape.txt` or `/etc/passwd` is
/// written below `dest` like any other.
pub proof fn lemma_entry_action_is_confined(dest: Seq<char>, name: Seq<char>, data: Seq<u8>)
    ensures
        written_path(entry_action(dest, name, data)) matches Some(path) && confined(dest, path),
{
    lemma_sanitized_is_confined(dest, name);
}

/// Whether `name` ends with `/`.
pub fn names_directory(name: &Vec<char>) -> (r: bool)
    ensures
        r == is_directory_name(name@),
{
    name.len() > 0 && name[name.len() - 1] == '/'
}

/// The path below `dest` for the entry called `name` (see
/// [`entry_target`]).
pub fn target_of(dest: &str, name: &str) -> (r: String)
    ensures
        r@ == entry_target(dest@, name@),
        confined(dest@, r@),
{
    proof {
        lemma_sanitized_is_confined(dest@, name@);
    }
    let clean = sanitize_entry_name(&chars_of(name));
    string_of(&place_under(&chars_of(dest), &clean))
}

/// What unpacking does for entry `index` of the zip file `bytes`, or the
/// words on why the entry cannot be read. The content of a directory entry
/// is not looked at.
pub open spec fn zip_entry_step(bytes: Seq<u8>, dest: Seq<char>, index: nat) -> Result<
    ActionView,
    Seq<char>,
> {
    match zip_entry_name_or_words(bytes, index) {
        Err(words) => Err(words),
        Ok(name) => if is_directory_name(name) {
            Ok(entry_action(dest, name, Seq::<u8>::empty()))
        } else {
            match zip_payload(bytes, index) {
                Err(words) => Err(words),
                Ok(data) => Ok(entry_action(dest, name, data)),
            }
        },
    }
}

/// No entry of any zip file is unpacked outside the destination.
pub proof fn lemma_zip_entry_step_is_confined(bytes: Seq<u8>, dest: Seq<char>, index: nat)
    ensures
        zip_entry_step(bytes, dest, index) matches Ok(action) ==> (written_path(action) matches Some(
            path,
        ) && confined(dest, path)),
{
    if zip_entry_step(bytes, dest, index) is Ok {
        let name = zip_entry_name_or_words(bytes, index)->Ok_0;
        if is_directory_name(name) {
            lemma_entry_action_is_confined(dest, name, Seq::<u8>::empty());
        } else {
            lemma_entry_action_is_confined(dest, name, zip_payload(bytes, index)->Ok_0);
        }
    }
}

/// Reads entry `index` of an opened zip file and says what is to be done
/// for it when the file is unpacked into `dest` (see [`zip_entry_step`]).
/// An entry that cannot be read is a container-format failure with the
/// words on why. The archive keeps reading from the same bytes.
pub fn unpack_zip_entry(archive: &mut ZipArchive<Cursor<Vec<u8>>>, dest: &str, index: usize) -> (r:
    Result<Action, Failure>)
    ensures
        zip_source(*final(archive)) == zip_source(*old(archive)),
        zip_entry_step(zip_source(*old(archive)), dest@, index as nat) == match r {
            Ok(action) => Ok::<ActionView, Seq<char>>(action@),
            Err(f) => Err::<ActionView, Seq<char>>(f.message@),
        },
        r matches Ok(action) ==> (written_path(action@) matches Some(path) && confined(dest@, path)),
        r matches Err(f) ==> f.kind == ErrorKind::ContainerFormat,
{
    proof {
        lemma_zip_entry_step_is_confined(zip_source(*old(archive)), dest@, index as nat);
    }
    let name = match entry_name_at(archive, index) {
        Ok(name) => name,
        Err(words) => {
            return Err(failure(ErrorKind::ContainerFormat, words));
        },
    };
    let path = target_of(dest, name.as_str());
    if names_directory(&chars_of(name.as_str())) {
        Ok(Action::MakeDirs { path })
    } else {
        match zip_entry_data(archive, index) {
            Ok(data) => Ok(Action::WriteFile { path, data, parents: true }),
            Err(words) => Err(failure(ErrorKind::ContainerFormat, words)),
        }
    }
}

/// The name under which a source that is a single file is stored in a zip
/// file: its file name, or `file` for a path that has none.
pub open spec fn source_entry_name(source: Seq<char>) -> Seq<char> {
    match file_name(source) {
        Some(name) => name,
        None => "file"@,
    }
}

/// The name for a single-file source (see [`source_entry_name`]).
pub fn entry_name_of(source: &str) -> (r: String)
    ensures
        r@ == source_entry_name(source@),
{
    match file_name_of(&chars_of(source)) {
        Some(name) => string_of(&name),
        None => String::from_str("file"),
    }
}

/// The name under which a file found below a source directory is stored in
/// a zip file: its path relative to that directory.
pub open spec fn walked_entry_name(root: Seq<char>, file: Seq<char>) -> Option<Seq<char>> {
    relative_name(root, file)
}

/// The name for a file found below the source directory `root` (see
/// [`walked_entry_name`]).
pub fn walked_name_of(root: &str, file: &str) -> (r: Option<String>)
    ensures
        r is Some <==> walked_entry_name(root@, file@) is Some,
        r matches Some(name) ==> walked_entry_name(root@, file@) == Some(name@),
{
    match relative_name_of(&chars_of(root), &chars_of(file)) {
        Some(name) => Some(string_of(&name)),
        None => None,
    }
}

/// `None` where the writer takes an entry called `name` with the content
/// `data`; else the crate's words on why it does not: what it says against
/// starting the entry, or, once the entry is started, against content
/// beyond [`entry_limit`].
pub open spec fn entry_refusal(writer: ZipSink, name: Seq<char>, data: Seq<u8>) -> Option<
    Seq<char>,
> {
    match zip_start_refusal(writer, name) {
        Some(words) => Some(words),
        None => if data.len() <= entry_limit() {
            None
        } else {
            Some(too_large())
        },
    }
}

/// Adds one entry to a zip file under construction: the entry is started
/// under `name` and `data` is written to it. It succeeds exactly where the
/// writer takes the entry (see [`entry_refusal`]), and the writer then
/// holds exactly one entry more; after content of no more than
/// [`small_limit`] it would start any further entry and would finish.
/// Where the writer refuses, that is a container-format failure with the
/// writer's words.
pub fn add_entry(writer: &mut ZipSink, name: &str, data: &Vec<u8>) -> (r: Result<(), Failure>)
    ensures
        entry_refusal(*old(writer), name@, data@) == match r {
            Ok(_) => None::<Seq<char>>,
            Err(f) => Some(f.message@),
        },
        r is Ok ==> zip_written(*final(writer)) == zip_written(*old(writer)).push((name@, data@)),
        r is Ok && data@.len() <= small_limit() ==> zip_ready(*final(writer)),
        r matches Err(f) ==> f.kind == ErrorKind::ContainerFormat,
{
    match zip_start_file(writer, name) {
        Ok(()) => {},
        Err(words) => {
            return Err(failure(ErrorKind::ContainerFormat, words));
        },
    }
    let ghost started = zip_written(*writer);
    match zip_write_all(writer, data.as_slice()) {
        Ok(()) => {
            proof {
                assert(Seq::<u8>::empty() + data@ =~= data@);
                assert(started.len() > 0);
                assert(started.last() == (name@, Seq::<u8>::empty()));
                if data@.len() == 0 {
                    assert(started =~= zip_written(*old(writer)).push((name@, data@)));
                } else {
                    assert(zip_written(*writer) =~= zip_written(*old(writer)).push(
                        (name@, data@),
                    ));
                }
            }
            Ok(())
        },
        Err(words) => Err(failure(ErrorKind::ContainerFormat, words)),
    }
}

/// A listing holds exactly the names that went into it: split at its line
/// breaks it gives every name once, in order, and nothing else but the empty
/// text behind the last line break.
pub proof fn lemma_listing_holds_the_names(names: Seq<Seq<char>>)
    requires
        forall|k: int| 0 <= k < names.len() ==> free_of(#[trigger] names[k], '\n'),
    ensures
        pieces(lines_text(names), '\n') == names.push(Seq::<char>::empty()),
    decreases names.len(),
{
    let empty = Seq::<char>::empty();
    if names.len() == 0 {
        assert(seq![empty] =~= names.push(empty));
    } else {
        let init = names.drop_last();
        let last = names.last();
        assert forall|k: int| 0 <= k < init.len() implies free_of(#[trigger] init[k], '\n') by {
            assert(init[k] == names[k]);
        }
        lemma_listing_holds_the_names(init);
        assert(free_of(names[names.len() - 1], '\n'));
        let before = lines_text(init);
        lemma_pieces_extend(before, last, '\n');
        assert(init.push(empty).drop_last() =~= init);
        assert(empty + last =~= last);
        assert(init.push(last) =~= names);
        let line = before + last;
        let whole = line + seq!['\n'];
        assert(whole.drop_last() =~= line);
        assert(whole.last() == '\n');
        assert(lines_text(names) == whole);
    }
}

proof fn lemma_join_does_not_end_in_separator(segs: Seq<Seq<char>>)
    requires
        forall|k: int|
            0 <= k < segs.len() ==> is_normal(#[trigger] segs[k]) && separator_free(segs[k]),
    ensures
        !is_directory_name(join_segments(segs)),
{
    if segs.len() > 0 {
        let last = segs.last();
        assert(is_normal(segs[segs.len() - 1]) && separator_free(segs[segs.len() - 1]));
        assert(last[last.len() - 1] != '/');
        if segs.len() == 1 {
            assert(join_segments(segs) == segs[0]);
        } else {
            let joined = join_segments(segs.drop_last()) + seq!['/'] + last;
            assert(joined.last() == last[last.len() - 1]);
        }
    }
}

/// What was packed under a clean relative path is unpacked under the same
/// path below the destination, with the same bytes. A path is clean when it
/// is made of normal segments without backslash or NUL.
pub proof fn lemma_clean_entry_is_restored(dest: Seq<char>, segs: Seq<Seq<char>>, data: Seq<u8>)
    requires
        forall|k: int|
            0 <= k < segs.len() ==> is_normal(#[trigger] segs[k]) && separator_free(segs[k])
                && is_plain(segs[k]),
    ensures
        entry_action(dest, join_segments(segs), data) == (ActionView::WriteFile {
            path: under(dest, join_segments(segs)),
            data,
            parents: true,
        }),
{
    lemma_sanitized_keeps_clean_path(segs);
    lemma_join_does_not_end_in_separator(segs);
}

/// A single file packed into a zip file is stored under its file name, and
/// an entry of that name and content is unpacked as that file below the
/// destination, byte for byte. This holds for every file name without
/// backslash and NUL.
pub proof fn lemma_stored_file_is_restored(dest: Seq<char>, source: Seq<char>, data: Seq<u8>)
    requires
        file_name(source) matches Some(name) && is_plain(name),
    ensures
        entry_action(dest, source_entry_name(source), data) == (ActionView::WriteFile {
            path: under(dest, file_name(source)->Some_0),
            data,
            parents: true,
        }),
{
    let name = file_name(source)->Some_0;
    lemma_file_name_is_normal(source);
    let segs = seq![name];
    assert(join_segments(segs) == name);
    lemma_clean_entry_is_restored(dest, segs, data);
}

/// A file found below a source directory is stored under its path relative
/// to the directory, and an entry of that name and content is unpacked
/// under the same relative path below the destination, byte for byte. This
/// holds for every path without backslash and NUL.
pub proof fn lemma_walked_file_is_restored(
    dest: Seq<char>,
    root: Seq<char>,
    file: Seq<char>,
    data: Seq<u8>,
)
    requires
        is_plain(file),
        walked_entry_name(root, file) is Some,
    ensures
        entry_action(dest, walked_entry_name(root, file)->Some_0, data) == (ActionView::WriteFile {
            path: under(dest, walked_entry_name(root, file)->Some_0),
            data,
            parents: true,
        }),
{
    let all = normal_segments(file);
    let skipped = normal_segments(root).len() as int;
    let segs = all.skip(skipped);
    lemma_normal_segments_are_clean(file);
    assert forall|k: int| 0 <= k < segs.len() implies is_normal(#[trigger] segs[k])
        && separator_free(segs[k]) && is_plain(segs[k]) by {
        assert(segs[k] == all[k + skipped]);
    }
    lemma_clean_entry_is_restored(dest, segs, data);
}

/// The names of `entries`, in order.
pub open spec fn names_of(entries: Seq<(Seq<char>, Seq<u8>)>) -> Seq<Seq<char>> {
    Seq::new(entries.len(), |i: int| entries[i].0)
}

proof fn lemma_held_names_upto(bytes: Seq<u8>, entries: Seq<(Seq<char>, Seq<u8>)>, count: nat)
    requires
        zip_holds(bytes, entries),
        count <= entries.len(),
    ensures
        zip_names_upto(bytes, count) == Ok::<Seq<Seq<char>>, Seq<char>>(
            names_of(entries).take(count as int),
        ),
    decreases count,
{
    if count == 0 {
        assert(names_of(entries).take(0) =~= Seq::<Seq<char>>::empty());
    } else {
        let index = (count - 1) as nat;
        lemma_held_names_upto(bytes, entries, index);
        assert(zip_name(bytes, index) == Ok::<Seq<char>, Seq<char>>(entries[index as int].0));
        assert(names_of(entries).take(index as int).push(entries[index as int].0)
            =~= names_of(entries).take(count as int));
    }
}

/// A zip file of given entries lists exactly their names: every name once,
/// on a line of its own, in the order in which the entries were taken, and
/// no other line.
pub proof fn lemma_held_zip_lists_its_names(bytes: Seq<u8>, entries: Seq<(Seq<char>, Seq<u8>)>)
    requires
        zip_holds(bytes, entries),
    ensures
        zip_listing(bytes) == Ok::<Seq<char>, (ErrorKind, Seq<char>)>(
            lines_text(names_of(entries)),
        ),
        builtin_listing(ArchiveFormat::Zip, bytes) == zip_listing(bytes),
{
    lemma_held_names_upto(bytes, entries, entries.len());
    assert(names_of(entries).take(entries.len() as int) =~= names_of(entries));
}

/// A zip file of given entries unpacks each of them as what was taken: an
/// entry whose name stands for a directory has its directory made, every
/// other entry is written with exactly the content taken, below the
/// destination under its cleaned name.
pub proof fn lemma_held_zip_unpacks_its_entries(
    bytes: Seq<u8>,
    entries: Seq<(Seq<char>, Seq<u8>)>,
    dest: Seq<char>,
    index: int,
)
    requires
        zip_holds(bytes, entries),
        0 <= index < entries.len(),
    ensures
        zip_entry_step(bytes, dest, index as nat) == Ok::<ActionView, Seq<char>>(
            entry_action(dest, entries[index].0, entries[index].1),
        ),
{
    assert(zip_name(bytes, index as nat) == Ok::<Seq<char>, Seq<char>>(entries[index].0));
}

/// What was stored from a single file comes back as that file: in a zip
/// file of given entries, an entry stored under the file name of `source`
/// is unpacked below the destination under that very name, with the content
/// taken, byte for byte. This holds for every file name without backslash
/// and NUL.
pub proof fn lemma_held_zip_restores_stored_file(
    bytes: Seq<u8>,
    entries: Seq<(Seq<char>, Seq<u8>)>,
    dest: Seq<char>,
    index: int,
    source: Seq<char>,
)
    requires
        zip_holds(bytes, entries),
        0 <= index < entries.len(),
        file_name(source) matches Some(name) && is_plain(name),
        entries[index].0 == source_entry_name(source),
    ensures
        zip_entry_step(bytes, dest, index as nat) == Ok::<ActionView, Seq<char>>(
            ActionView::WriteFile {
                path: under(dest, file_name(source)->Some_0),
                data: entries[index].1,
                parents: true,
            },
        ),
{
    lemma_held_zip_unpacks_its_entries(bytes, entries, dest, index);
    lemma_stored_file_is_restored(dest, source, entries[index].1);
}

} // verus!
