//! The format detector: which kind of container a path names, judged from
//! the text of the path alone.

use vstd::prelude::*;
use crate::paths::{file_name, file_name_of, segments};
use crate::text::{
    ascii_lowered,
    chars_of,
    ends_with,
    eq_ignoring_ascii_case,
    free_of,
    has_suffix,
    lemma_pieces_single,
    same_ignoring_ascii_case,
};

verus! {

/// The container kinds that the built-in archive code tells apart.
#[derive(Clone, Copy, Debug, PartialEq, Eq, Structural)]
pub enum ArchiveFormat {
    /// A zip file.
    Zip,
    /// A plain tar stream.
    Tar,
    /// A tar stream inside gzip.
    TarGz,
    /// Anything else.
    Unknown,
}

/// The position of the last `.` in `name`, or -1 when it has none.
pub open spec fn last_dot(name: Seq<char>) -> int
    decreases name.len(),
{
    if name.len() == 0 {
        -1
    } else if name.last() == '.' {
        name.len() - 1
    } else {
        last_dot(name.drop_last())
    }
}

/// The extension of a file name: what follows its last `.`, unless the name
/// has no `.` or its only `.` is the first character.
pub open spec fn name_extension(name: Seq<char>) -> Option<Seq<char>> {
    let k = last_dot(name);
    if k <= 0 {
        None
    } else {
        Some(name.skip(k + 1))
    }
}

/// The extension of the file that `path` names, if it has one.
pub open spec fn extension(path: Seq<char>) -> Option<Seq<char>> {
    match file_name(path) {
        None => None,
        Some(name) => name_extension(name),
    }
}

/// The suffix `.tar.gz`.
pub open spec fn suffix_tar_gz() -> Seq<char> {
    seq!['.', 't', 'a', 'r', '.', 'g', 'z']
}

/// The suffix `.tgz`.
pub open spec fn suffix_tgz() -> Seq<char> {
    seq!['.', 't', 'g', 'z']
}

/// Whether the extension of `path` is `word`, letter case aside.
pub open spec fn has_extension(path: Seq<char>, word: Seq<char>) -> bool {
    match extension(path) {
        None => false,
        Some(e) => ascii_lowered(e) == ascii_lowered(word),
    }
}

/// The container kind of `path`. The rules are tried in this order: a path
/// that ends in `.tar.gz` or `.tgz` is gzipped tar; then the extension
/// decides, in any letter case: `gz` is gzipped tar, `zip` is zip, `tar` is
/// tar; every other path is unknown.
pub open spec fn format_of(path: Seq<char>) -> ArchiveFormat {
    if has_suffix(path, suffix_tar_gz()) || has_suffix(path, suffix_tgz()) {
        ArchiveFormat::TarGz
    } else if has_extension(path, seq!['g', 'z']) {
        ArchiveFormat::TarGz
    } else if has_extension(path, seq!['z', 'i', 'p']) {
        ArchiveFormat::Zip
    } else if has_extension(path, seq!['t', 'a', 'r']) {
        ArchiveFormat::Tar
    } else {
        ArchiveFormat::Unknown
    }
}

/// The extension of the file that `path` names, if it has one.
pub fn extension_of(path: &Vec<char>) -> (r: Option<Vec<char>>)
    ensures
        r is Some <==> extension(path@) is Some,
        r is Some ==> r->Some_0@ == extension(path@)->Some_0,
{
    let name = match file_name_of(path) {
        None => {
            return None;
        },
        Some(name) => name,
    };
    let mut i: usize = name.len();
    assert(name@.take(i as int) =~= name@);
    while i > 0 && name[i - 1] != '.'
        invariant
            i <= name.len(),
            last_dot(name@.take(i as int)) == last_dot(name@),
        decreases i,
    {
        assert(name@.take(i as int).drop_last() =~= name@.take(i - 1));
        i -= 1;
    }
    if i <= 1 {
        proof {
            if i == 1 {
                assert(name@.take(1).last() == '.');
            }
        }
        return None;
    }
    assert(name@.take(i as int).last() == '.');
    let mut ext: Vec<char> = Vec::new();
    let mut k: usize = i;
    while k < name.len()
        invariant
            i <= k <= name.len(),
            ext@ == name@.subrange(i as int, k as int),
        decreases name.len() - k,
    {
        ext.push(name[k]);
        assert(ext@ =~= name@.subrange(i as int, k + 1));
        k += 1;
    }
    assert(name@.subrange(i as int, name.len() as int) =~= name@.skip(i as int));
    Some(ext)
}

fn extension_is(ext: &Option<Vec<char>>, word: &Vec<char>) -> (r: bool)
    ensures
        r == match ext {
            None => false,
            Some(e) => ascii_lowered(e@) == ascii_lowered(word@),
        },
{
    match ext {
        None => false,
        Some(e) => eq_ignoring_ascii_case(e, word),
    }
}

/// Classifies `path` by its name (see [`format_of`]). Nothing is opened or
/// read.
pub fn detect_format(path: &str) -> (r: ArchiveFormat)
    ensures
        r == format_of(path@),
{
    let chars = chars_of(path);
    let tar_gz: Vec<char> = vec!['.', 't', 'a', 'r', '.', 'g', 'z'];
    let tgz: Vec<char> = vec!['.', 't', 'g', 'z'];
    assert(tar_gz@ =~= suffix_tar_gz());
    assert(tgz@ =~= suffix_tgz());
    if ends_with(&chars, &tar_gz) || ends_with(&chars, &tgz) {
        return ArchiveFormat::TarGz;
    }
    let ext = extension_of(&chars);
    let gz: Vec<char> = vec!['g', 'z'];
    let zip: Vec<char> = vec!['z', 'i', 'p'];
    let tar: Vec<char> = vec!['t', 'a', 'r'];
    assert(gz@ =~= seq!['g', 'z']);
    assert(zip@ =~= seq!['z', 'i', 'p']);
    assert(tar@ =~= seq!['t', 'a', 'r']);
    if extension_is(&ext, &gz) {
        ArchiveFormat::TarGz
    } else if extension_is(&ext, &zip) {
        ArchiveFormat::Zip
    } else if extension_is(&ext, &tar) {
        ArchiveFormat::Tar
    } else {
        ArchiveFormat::Unknown
    }
}

proof fn lemma_last_dot_past_tail(base: Seq<char>, tail: Seq<char>)
    requires
        free_of(tail, '.'),
    ensures
        last_dot(base + tail) == last_dot(base),
    decreases tail.len(),
{
    if tail.len() == 0 {
        assert(base + tail =~= base);
    } else {
        let init = tail.drop_last();
        assert(free_of(init, '.')) by {
            assert forall|i: int| 0 <= i < init.len() implies init[i] != '.' by {
                assert(init[i] == tail[i]);
            }
        }
        lemma_last_dot_past_tail(base, init);
        assert((base + tail).drop_last() =~= base + init);
        assert((base + tail).last() == tail[tail.len() - 1]);
    }
}

/// The kind that an extension stands for, when no other rule comes first.
pub open spec fn format_of_extension(ext: Seq<char>) -> ArchiveFormat {
    if ext == seq!['t', 'g', 'z'] || same_ignoring_ascii_case(ext, seq!['g', 'z']) {
        ArchiveFormat::TarGz
    } else if same_ignoring_ascii_case(ext, seq!['z', 'i', 'p']) {
        ArchiveFormat::Zip
    } else if same_ignoring_ascii_case(ext, seq!['t', 'a', 'r']) {
        ArchiveFormat::Tar
    } else {
        ArchiveFormat::Unknown
    }
}

/// For a plain file name the extension decides. A name `stem.ext`, where
/// neither part holds a `/`, the stem is not empty and the extension is not
/// empty and holds no `.`, has the extension `ext`, and its kind is gzipped
/// tar for `tgz` as written and for `gz` in any letter case, zip for `zip`
/// and tar for `tar` in any letter case, and unknown for everything else.
pub proof fn lemma_format_by_extension(stem: Seq<char>, ext: Seq<char>)
    requires
        stem.len() > 0,
        free_of(stem, '/'),
        ext.len() > 0,
        free_of(ext, '/'),
        free_of(ext, '.'),
    ensures
        extension(stem + seq!['.'] + ext) == Some(ext),
        format_of(stem + seq!['.'] + ext) == format_of_extension(ext),
{
    let dotted = stem + seq!['.'];
    let path = dotted + ext;
    let n = ext.len() as int;
    let len = path.len() as int;
    assert(free_of(path, '/'));
    lemma_pieces_single(path, '/');
    assert(segments(path) == seq![path]);
    let one = seq![path];
    assert(one.last() == path);
    assert(path[0] == stem[0]);
    assert(path.len() >= 3);
    assert(path != seq!['.']);
    assert(path != seq!['.', '.']);
    assert(file_name(path) == Some(path));
    lemma_last_dot_past_tail(dotted, ext);
    assert(dotted.last() == '.');
    assert(last_dot(dotted) == stem.len());
    assert(path.skip(stem.len() as int + 1) =~= ext);
    assert(extension(path) == Some(ext));
    assert forall|k: int| 0 <= k < n implies path[len - n + k] == ext[k] by {}
    assert(path[len - n - 1] == '.');
    if has_suffix(path, suffix_tgz()) {
        let tail = path.skip(len - 4);
        assert(tail[0] == '.' && tail[1] == 't' && tail[2] == 'g' && tail[3] == 'z');
        assert(path[len - 4] == '.' && path[len - 3] == 't' && path[len - 2] == 'g' && path[len
            - 1] == 'z');
        if n >= 4 {
            assert(path[len - 4] == ext[n - 4]);
        }
        assert(n == 3);
        assert(ext =~= seq!['t', 'g', 'z']);
    }
    if has_suffix(path, suffix_tar_gz()) {
        let tail = path.skip(len - 7);
        assert(tail[4] == '.' && tail[5] == 'g' && tail[6] == 'z');
        assert(path[len - 3] == '.' && path[len - 2] == 'g' && path[len - 1] == 'z');
        if n >= 3 {
            assert(path[len - 3] == ext[n - 3]);
        }
        assert(n == 2);
        assert(ext =~= seq!['g', 'z']);
    }
    if ext == seq!['t', 'g', 'z'] {
        assert(path.skip(len - 4) =~= suffix_tgz());
    }
}

} // verus!
