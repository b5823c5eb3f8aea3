//! Paths as text: splitting into segments, the final component, joining
//! below a directory, and the cleaning of archive entry names that keeps
//! extraction inside its destination.
//!
//! Everything here works on `/`-separated text and performs no I/O.

use vstd::prelude::*;
use crate::text::{lemma_texts_push, pieces, push_chars, same_chars, split_on, texts};

verus! {

/// The pieces of `s` between its `/` characters. A text without `/` is one
/// segment; `n` separators always give `n + 1` segments, some possibly empty.
pub open spec fn segments(s: Seq<char>) -> Seq<Seq<char>> {
    pieces(s, '/')
}

/// `segs` written out with one `/` between neighbours.
pub open spec fn join_segments(segs: Seq<Seq<char>>) -> Seq<char>
    decreases segs.len(),
{
    if segs.len() == 0 {
        Seq::<char>::empty()
    } else if segs.len() == 1 {
        segs[0]
    } else {
        join_segments(segs.drop_last()) + seq!['/'] + segs.last()
    }
}

/// Whether `seg` holds no `/`.
pub open spec fn separator_free(seg: Seq<char>) -> bool {
    forall|i: int| 0 <= i < seg.len() ==> seg[i] != '/'
}

/// Whether `seg` names an ordinary entry: it is not empty and is neither `.`
/// nor `..`.
pub open spec fn is_normal(seg: Seq<char>) -> bool {
    seg.len() > 0 && seg != seq!['.'] && seg != seq!['.', '.']
}

/// The normal segments among `segs`, in their order.
pub open spec fn normal_only(segs: Seq<Seq<char>>) -> Seq<Seq<char>>
    decreases segs.len(),
{
    if segs.len() == 0 {
        Seq::<Seq<char>>::empty()
    } else if is_normal(segs.last()) {
        normal_only(segs.drop_last()).push(segs.last())
    } else {
        normal_only(segs.drop_last())
    }
}

/// The normal segments of a path.
pub open spec fn normal_segments(path: Seq<char>) -> Seq<Seq<char>> {
    normal_only(segments(path))
}

/// Splitting always yields at least one segment.
pub proof fn lemma_segments_nonempty(s: Seq<char>)
    ensures
        segments(s).len() >= 1,
    decreases s.len(),
{
    if s.len() > 0 {
        lemma_segments_nonempty(s.drop_last());
    }
}

/// No segment of a split text holds a separator.
pub proof fn lemma_segments_separator_free(s: Seq<char>)
    ensures
        forall|k: int| 0 <= k < segments(s).len() ==> separator_free(#[trigger] segments(s)[k]),
    decreases s.len(),
{
    if s.len() > 0 {
        lemma_segments_separator_free(s.drop_last());
        lemma_segments_nonempty(s.drop_last());
        let init = segments(s.drop_last());
        assert forall|k: int| 0 <= k < segments(s).len() implies separator_free(
            #[trigger] segments(s)[k],
        ) by {
            if s.last() == '/' {
                if k < init.len() {
                    assert(segments(s)[k] == init[k]);
                }
            } else {
                if k < init.len() - 1 {
                    assert(segments(s)[k] == init[k]);
                } else {
                    assert(separator_free(init[init.len() - 1]));
                }
            }
        }
    }
}

/// Joining the segments of a text with `/` gives the text back.
pub proof fn lemma_join_segments_inverse(s: Seq<char>)
    ensures
        join_segments(segments(s)) == s,
    decreases s.len(),
{
    if s.len() == 0 {
        assert(join_segments(segments(s)) =~= s);
    } else {
        let t = s.drop_last();
        lemma_join_segments_inverse(t);
        lemma_segments_nonempty(t);
        let init = segments(t);
        if s.last() == '/' {
            let all = init.push(Seq::<char>::empty());
            assert(all.drop_last() =~= init);
            assert(join_segments(all) =~= t + seq!['/']);
            assert(t + seq!['/'] =~= s);
        } else {
            let grown = init.last().push(s.last());
            let all = init.drop_last().push(grown);
            assert(all.drop_last() =~= init.drop_last());
            if init.len() == 1 {
                assert(join_segments(init) == init[0]);
                assert(join_segments(all) =~= t.push(s.last()));
            } else {
                assert(join_segments(init) == join_segments(init.drop_last()) + seq!['/']
                    + init.last());
                assert(join_segments(all) =~= t.push(s.last()));
            }
            assert(t.push(s.last()) =~= s);
        }
    }
}

/// Every segment that survives the filter is normal and was among `segs`.
pub proof fn lemma_normal_only_members(segs: Seq<Seq<char>>)
    ensures
        forall|k: int|
            0 <= k < normal_only(segs).len() ==> is_normal(#[trigger] normal_only(segs)[k])
                && segs.contains(normal_only(segs)[k]),
    decreases segs.len(),
{
    if segs.len() > 0 {
        let init = segs.drop_last();
        lemma_normal_only_members(init);
        assert forall|k: int| 0 <= k < normal_only(segs).len() implies is_normal(
            #[trigger] normal_only(segs)[k],
        ) && segs.contains(normal_only(segs)[k]) by {
            if k < normal_only(init).len() {
                let j = choose|j: int| 0 <= j < init.len() && init[j] == normal_only(init)[k];
                assert(segs[j] == normal_only(init)[k]);
            } else {
                assert(segs[segs.len() - 1] == segs.last());
            }
        }
    }
}

/// Splits `s` at every `/`.
pub fn split_segments(s: &Vec<char>) -> (r: Vec<Vec<char>>)
    ensures
        texts(r@) == segments(s@),
{
    split_on(s, '/')
}

/// Executable form of [`is_normal`].
pub fn segment_is_normal(seg: &Vec<char>) -> (r: bool)
    ensures
        r == is_normal(seg@),
{
    if seg.len() == 0 {
        false
    } else if seg.len() == 1 && seg[0] == '.' {
        assert(seg@ =~= seq!['.']);
        false
    } else if seg.len() == 2 && seg[0] == '.' && seg[1] == '.' {
        assert(seg@ =~= seq!['.', '.']);
        false
    } else {
        assert(seg@ != seq!['.']) by {
            if seg@ == seq!['.'] {
                assert(seg@.len() == 1 && seg@[0] == '.');
            }
        }
        assert(seg@ != seq!['.', '.']) by {
            if seg@ == seq!['.', '.'] {
                assert(seg@.len() == 2 && seg@[0] == '.' && seg@[1] == '.');
            }
        }
        true
    }
}

fn copy_chars(v: &Vec<char>) -> (r: Vec<char>)
    ensures
        r@ == v@,
{
    let mut out: Vec<char> = Vec::new();
    push_chars(&mut out, v);
    assert(out@ =~= v@);
    out
}

/// The normal segments of `segs`, in their order.
pub fn keep_normal(segs: &Vec<Vec<char>>) -> (r: Vec<Vec<char>>)
    ensures
        texts(r@) == normal_only(texts(segs@)),
{
    let mut out: Vec<Vec<char>> = Vec::new();
    let mut i: usize = 0;
    assert(texts(segs@).take(0) =~= Seq::<Seq<char>>::empty());
    assert(texts(out@) =~= Seq::<Seq<char>>::empty());
    while i < segs.len()
        invariant
            i <= segs.len(),
            texts(out@) == normal_only(texts(segs@).take(i as int)),
        decreases segs.len() - i,
    {
        proof {
            assert(texts(segs@).take(i + 1).drop_last() =~= texts(segs@).take(i as int));
            assert(texts(segs@).take(i + 1).last() == segs@[i as int]@);
        }
        if segment_is_normal(&segs[i]) {
            let piece = copy_chars(&segs[i]);
            proof {
                lemma_texts_push(out@, piece);
            }
            out.push(piece);
        }
        i += 1;
    }
    assert(texts(segs@).take(segs.len() as int) =~= texts(segs@));
    out
}

/// Writes `segs` out with one `/` between neighbours.
pub fn join_with_separator(segs: &Vec<Vec<char>>) -> (r: Vec<char>)
    ensures
        r@ == join_segments(texts(segs@)),
{
    let mut out: Vec<char> = Vec::new();
    let mut i: usize = 0;
    assert(texts(segs@).take(0) =~= Seq::<Seq<char>>::empty());
    while i < segs.len()
        invariant
            i <= segs.len(),
            out@ == join_segments(texts(segs@).take(i as int)),
        decreases segs.len() - i,
    {
        proof {
            assert(texts(segs@).take(i + 1).drop_last() =~= texts(segs@).take(i as int));
            assert(texts(segs@).take(i + 1).last() == segs@[i as int]@);
        }
        if i > 0 {
            out.push('/');
        }
        let ghost before = out@;
        push_chars(&mut out, &segs[i]);
        proof {
            if i == 0 {
                assert(texts(segs@).take(1)[0] == segs@[0]@);
                assert(out@ =~= segs@[0]@);
            } else {
                assert(out@ =~= join_segments(texts(segs@).take(i as int)) + seq!['/']
                    + segs@[i as int]@);
            }
        }
        i += 1;
    }
    assert(texts(segs@).take(segs.len() as int) =~= texts(segs@));
    out
}

/// A relative path placed below the directory `dest`: the two are joined by
/// one `/` unless `dest` is empty or already ends with one.
pub open spec fn under(dest: Seq<char>, rel: Seq<char>) -> Seq<char> {
    if dest.len() == 0 || dest.last() == '/' {
        dest + rel
    } else {
        dest + seq!['/'] + rel
    }
}

/// Whether `target` lies inside `dest`: it is `dest` followed by a relative
/// path made only of normal, separator-free segments, so that no step of it
/// climbs out of `dest` or restarts at the root.
pub open spec fn confined(dest: Seq<char>, target: Seq<char>) -> bool {
    exists|segs: Seq<Seq<char>>|
        #![auto]
        target == under(dest, join_segments(segs)) && forall|k: int|
            0 <= k < segs.len() ==> is_normal(#[trigger] segs[k]) && separator_free(segs[k])
}

/// Places `rel` below `dest`.
pub fn place_under(dest: &Vec<char>, rel: &Vec<char>) -> (r: Vec<char>)
    ensures
        r@ == under(dest@, rel@),
{
    let mut out = copy_chars(dest);
    if dest.len() > 0 && dest[dest.len() - 1] != '/' {
        out.push('/');
    }
    push_chars(&mut out, rel);
    assert(out@ =~= under(dest@, rel@));
    out
}

/// The last meaningful segment: trailing empty and `.` segments are passed
/// over, and a path that ends in `..` has none.
pub open spec fn final_component(segs: Seq<Seq<char>>) -> Option<Seq<char>>
    decreases segs.len(),
{
    if segs.len() == 0 {
        None
    } else if segs.last().len() == 0 || segs.last() == seq!['.'] {
        final_component(segs.drop_last())
    } else if segs.last() == seq!['.', '.'] {
        None
    } else {
        Some(segs.last())
    }
}

/// The name of the file or directory that `path` ends in, if it has one.
pub open spec fn file_name(path: Seq<char>) -> Option<Seq<char>> {
    final_component(segments(path))
}

/// The name of the file or directory that `path` ends in, if it has one.
pub fn file_name_of(path: &Vec<char>) -> (r: Option<Vec<char>>)
    ensures
        r is Some <==> file_name(path@) is Some,
        r is Some ==> r->Some_0@ == file_name(path@)->Some_0,
{
    let segs = split_segments(path);
    let mut i: usize = segs.len();
    assert(texts(segs@).take(i as int) =~= texts(segs@));
    while i > 0
        invariant
            i <= segs.len(),
            texts(segs@) == segments(path@),
            final_component(texts(segs@).take(i as int)) == file_name(path@),
        decreases i,
    {
        let seg = &segs[i - 1];
        proof {
            assert(texts(segs@).take(i as int).drop_last() =~= texts(segs@).take(i - 1));
            assert(texts(segs@).take(i as int).last() == seg@);
        }
        if seg.len() == 0 {
            i -= 1;
        } else if seg.len() == 1 && seg[0] == '.' {
            assert(seg@ =~= seq!['.']);
            i -= 1;
        } else if seg.len() == 2 && seg[0] == '.' && seg[1] == '.' {
            assert(seg@ =~= seq!['.', '.']);
            return None;
        } else {
            assert(is_normal(seg@)) by {
                if seg@ == seq!['.'] {
                    assert(seg@.len() == 1 && seg@[0] == '.');
                }
                if seg@ == seq!['.', '.'] {
                    assert(seg@.len() == 2 && seg@[0] == '.' && seg@[1] == '.');
                }
            }
            return Some(copy_chars(seg));
        }
    }
    None
}

/// The part of `name` before its first NUL character.
pub open spec fn until_nul(name: Seq<char>) -> Seq<char>
    decreases name.len(),
{
    if name.len() == 0 {
        name
    } else if name[0] == '\0' {
        Seq::<char>::empty()
    } else {
        seq![name[0]] + until_nul(name.drop_first())
    }
}

/// `s` with every backslash turned into `/`.
pub open spec fn unify_separators(s: Seq<char>) -> Seq<char> {
    Seq::new(s.len(), |i: int| if s[i] == '\\' { '/' } else { s[i] })
}

/// The normal segments that an archive entry name keeps: the name is cut at
/// its first NUL, both kinds of slash count as separators, and empty, `.` and
/// `..` segments are dropped.
pub open spec fn entry_segments(name: Seq<char>) -> Seq<Seq<char>> {
    normal_segments(unify_separators(until_nul(name)))
}

/// The cleaned form of an archive entry name: a relative path without `.`
/// or `..` steps.
pub open spec fn sanitized(name: Seq<char>) -> Seq<char> {
    join_segments(entry_segments(name))
}

proof fn lemma_until_nul_prefix(name: Seq<char>, k: int)
    requires
        0 <= k <= name.len(),
        forall|j: int| 0 <= j < k ==> name[j] != '\0',
        k == name.len() || name[k] == '\0',
    ensures
        until_nul(name) == name.take(k),
    decreases k,
{
    if k == 0 {
        assert(name.take(0) =~= Seq::<char>::empty());
        if name.len() == 0 {
            assert(name =~= Seq::<char>::empty());
        }
    } else {
        let rest = name.drop_first();
        assert forall|j: int| 0 <= j < k - 1 implies rest[j] != '\0' by {
            assert(rest[j] == name[j + 1]);
        }
        lemma_until_nul_prefix(rest, k - 1);
        assert(name.take(k) =~= seq![name[0]] + rest.take(k - 1));
    }
}

/// Cleans an archive entry name (see [`sanitized`]).
pub fn sanitize_entry_name(name: &Vec<char>) -> (r: Vec<char>)
    ensures
        r@ == sanitized(name@),
{
    let mut cleaned: Vec<char> = Vec::new();
    let mut i: usize = 0;
    while i < name.len() && name[i] != '\0'
        invariant
            i <= name.len(),
            forall|j: int| 0 <= j < i ==> name@[j] != '\0',
            cleaned@ == unify_separators(name@.take(i as int)),
        decreases name.len() - i,
    {
        let c = name[i];
        cleaned.push(if c == '\\' { '/' } else { c });
        assert(cleaned@ =~= unify_separators(name@.take(i + 1)));
        i += 1;
    }
    proof {
        lemma_until_nul_prefix(name@, i as int);
    }
    let segs = split_segments(&cleaned);
    let kept = keep_normal(&segs);
    join_with_separator(&kept)
}

/// A cleaned entry name placed below `dest` lies inside `dest`.
pub proof fn lemma_sanitized_is_confined(dest: Seq<char>, name: Seq<char>)
    ensures
        confined(dest, under(dest, sanitized(name))),
{
    let all = segments(unify_separators(until_nul(name)));
    let segs = entry_segments(name);
    lemma_segments_separator_free(unify_separators(until_nul(name)));
    lemma_normal_only_members(all);
    assert forall|k: int| 0 <= k < segs.len() implies is_normal(#[trigger] segs[k])
        && separator_free(segs[k]) by {
        let j = choose|j: int| 0 <= j < all.len() && all[j] == segs[k];
        assert(separator_free(all[j]));
    }
}

/// The path of `path` relative to the directory `root`, when the normal
/// segments of `root` begin those of `path`.
pub open spec fn relative_name(root: Seq<char>, path: Seq<char>) -> Option<Seq<char>> {
    let r = normal_segments(root);
    let p = normal_segments(path);
    if r.len() <= p.len() && p.take(r.len() as int) == r {
        Some(join_segments(p.skip(r.len() as int)))
    } else {
        None
    }
}

/// Executable form of [`relative_name`].
pub fn relative_name_of(root: &Vec<char>, path: &Vec<char>) -> (r: Option<Vec<char>>)
    ensures
        r is Some <==> relative_name(root@, path@) is Some,
        r is Some ==> r->Some_0@ == relative_name(root@, path@)->Some_0,
{
    let r = keep_normal(&split_segments(root));
    let p = keep_normal(&split_segments(path));
    if r.len() > p.len() {
        return None;
    }
    let mut i: usize = 0;
    while i < r.len()
        invariant
            i <= r.len(),
            r.len() <= p.len(),
            texts(r@) == normal_segments(root@),
            texts(p@) == normal_segments(path@),
            forall|j: int| 0 <= j < i ==> r@[j]@ == p@[j]@,
        decreases r.len() - i,
    {
        if !same_chars(&r[i], &p[i]) {
            proof {
                let cut = texts(p@).take(r.len() as int);
                assert(cut[i as int] == p@[i as int]@);
                assert(texts(r@)[i as int] == r@[i as int]@);
                assert(cut != texts(r@));
            }
            return None;
        }
        i += 1;
    }
    assert(texts(p@).take(r.len() as int) =~= texts(r@));
    let mut rest: Vec<Vec<char>> = Vec::new();
    let mut k: usize = r.len();
    assert(texts(rest@) =~= texts(p@).subrange(r.len() as int, k as int));
    while k < p.len()
        invariant
            r.len() <= k <= p.len(),
            texts(rest@) == texts(p@).subrange(r.len() as int, k as int),
        decreases p.len() - k,
    {
        let piece = copy_chars(&p[k]);
        proof {
            lemma_texts_push(rest@, piece);
            assert(texts(p@).subrange(r.len() as int, k as int).push(piece@) =~= texts(
                p@,
            ).subrange(r.len() as int, k + 1));
        }
        rest.push(piece);
        k += 1;
    }
    assert(texts(p@).subrange(r.len() as int, p.len() as int) =~= texts(p@).skip(r.len() as int));
    Some(join_with_separator(&rest))
}

/// Splitting what was joined gives the segments back.
pub proof fn lemma_segments_of_join(segs: Seq<Seq<char>>)
    requires
        segs.len() > 0,
        forall|k: int| 0 <= k < segs.len() ==> separator_free(#[trigger] segs[k]),
    ensures
        segments(join_segments(segs)) == segs,
    decreases segs.len(),
{
    if segs.len() == 1 {
        assert(separator_free(segs[0]));
        crate::text::lemma_pieces_single(segs[0], '/');
        assert(seq![segs[0]] =~= segs);
    } else {
        let init = segs.drop_last();
        assert forall|k: int| 0 <= k < init.len() implies separator_free(#[trigger] init[k]) by {
            assert(init[k] == segs[k]);
        }
        lemma_segments_of_join(init);
        assert(separator_free(segs[segs.len() - 1]));
        crate::text::lemma_pieces_append(join_segments(init), segs.last(), '/');
        assert(init.push(segs.last()) =~= segs);
    }
}

/// A list of normal segments passes the filter whole.
pub proof fn lemma_normal_only_identity(segs: Seq<Seq<char>>)
    requires
        forall|k: int| 0 <= k < segs.len() ==> is_normal(#[trigger] segs[k]),
    ensures
        normal_only(segs) == segs,
    decreases segs.len(),
{
    if segs.len() > 0 {
        let init = segs.drop_last();
        assert forall|k: int| 0 <= k < init.len() implies is_normal(#[trigger] init[k]) by {
            assert(init[k] == segs[k]);
        }
        lemma_normal_only_identity(init);
        assert(is_normal(segs[segs.len() - 1]));
        assert(init.push(segs.last()) =~= segs);
    } else {
        assert(normal_only(segs) =~= segs);
    }
}

/// Whether `s` holds neither a backslash nor a NUL character.
pub open spec fn is_plain(s: Seq<char>) -> bool {
    forall|i: int| 0 <= i < s.len() ==> s[i] != '\\' && s[i] != '\0'
}

proof fn lemma_until_nul_identity(s: Seq<char>)
    requires
        is_plain(s),
    ensures
        until_nul(s) == s,
{
    lemma_until_nul_prefix(s, s.len() as int);
    assert(s.take(s.len() as int) =~= s);
}

proof fn lemma_join_is_plain(segs: Seq<Seq<char>>)
    requires
        forall|k: int| 0 <= k < segs.len() ==> is_plain(#[trigger] segs[k]),
    ensures
        is_plain(join_segments(segs)),
    decreases segs.len(),
{
    if segs.len() == 1 {
        assert(is_plain(segs[0]));
    } else if segs.len() > 1 {
        let init = segs.drop_last();
        assert forall|k: int| 0 <= k < init.len() implies is_plain(#[trigger] init[k]) by {
            assert(init[k] == segs[k]);
        }
        lemma_join_is_plain(init);
        assert(is_plain(segs[segs.len() - 1]));
    }
}

/// Cleaning leaves a clean relative path as it is: a path made of normal
/// segments, without backslash or NUL, is its own cleaned form.
pub proof fn lemma_sanitized_keeps_clean_path(segs: Seq<Seq<char>>)
    requires
        forall|k: int|
            0 <= k < segs.len() ==> is_normal(#[trigger] segs[k]) && separator_free(segs[k])
                && is_plain(segs[k]),
    ensures
        sanitized(join_segments(segs)) == join_segments(segs),
{
    let path = join_segments(segs);
    lemma_join_is_plain(segs);
    lemma_until_nul_identity(path);
    assert(unify_separators(path) =~= path);
    if segs.len() == 0 {
        let one = seq![Seq::<char>::empty()];
        assert(path =~= Seq::<char>::empty());
        assert(segments(path) == one);
        assert(one.last().len() == 0);
        assert(one.drop_last() =~= Seq::<Seq<char>>::empty());
        assert(normal_only(one) == normal_only(one.drop_last()));
        assert(normal_only(one.drop_last()) =~= Seq::<Seq<char>>::empty());
        assert(segs =~= Seq::<Seq<char>>::empty());
    } else {
        lemma_segments_of_join(segs);
        lemma_normal_only_identity(segs);
    }
}

/// The file name of a path is one of its segments, and a normal one.
pub proof fn lemma_file_name_is_normal(path: Seq<char>)
    ensures
        file_name(path) matches Some(name) ==> is_normal(name) && separator_free(name),
{
    lemma_segments_separator_free(path);
    lemma_final_component(segments(path));
}

proof fn lemma_final_component(segs: Seq<Seq<char>>)
    ensures
        final_component(segs) matches Some(name) ==> is_normal(name) && segs.contains(name),
    decreases segs.len(),
{
    if segs.len() > 0 {
        if segs.last().len() == 0 || segs.last() == seq!['.'] {
            lemma_final_component(segs.drop_last());
            if final_component(segs) is Some {
                let name = final_component(segs)->Some_0;
                let j = choose|j: int| 0 <= j < segs.drop_last().len() && segs.drop_last()[j] == name;
                assert(segs[j] == name);
            }
        } else if segs.last() != seq!['.', '.'] {
            assert(segs[segs.len() - 1] == segs.last());
        }
    }
}

/// The normal segments of a path without backslash and NUL are normal,
/// separator-free, and without backslash and NUL themselves.
pub proof fn lemma_normal_segments_are_clean(path: Seq<char>)
    requires
        is_plain(path),
    ensures
        forall|k: int|
            0 <= k < normal_segments(path).len() ==> is_normal(#[trigger] normal_segments(path)[k])
                && separator_free(normal_segments(path)[k]) && is_plain(normal_segments(path)[k]),
{
    let all = segments(path);
    lemma_segments_separator_free(path);
    lemma_segments_plain(path);
    lemma_normal_only_members(all);
    assert forall|k: int| 0 <= k < normal_segments(path).len() implies is_normal(
        #[trigger] normal_segments(path)[k],
    ) && separator_free(normal_segments(path)[k]) && is_plain(normal_segments(path)[k]) by {
        let seg = normal_segments(path)[k];
        let j = choose|j: int| 0 <= j < all.len() && all[j] == seg;
        assert(separator_free(all[j]));
        assert(is_plain(all[j]));
    }
}

proof fn lemma_segments_plain(s: Seq<char>)
    requires
        is_plain(s),
    ensures
        forall|k: int| 0 <= k < segments(s).len() ==> is_plain(#[trigger] segments(s)[k]),
    decreases s.len(),
{
    if s.len() > 0 {
        let t = s.drop_last();
        assert(is_plain(t)) by {
            assert forall|i: int| 0 <= i < t.len() implies t[i] != '\\' && t[i] != '\0' by {
                assert(t[i] == s[i]);
            }
        }
        lemma_segments_plain(t);
        lemma_segments_nonempty(t);
        let init = segments(t);
        assert(s.last() == s[s.len() - 1]);
        assert forall|k: int| 0 <= k < segments(s).len() implies is_plain(
            #[trigger] segments(s)[k],
        ) by {
            if s.last() == '/' {
                if k < init.len() {
                    assert(segments(s)[k] == init[k]);
                }
            } else {
                if k < init.len() - 1 {
                    assert(segments(s)[k] == init[k]);
                } else {
                    assert(is_plain(init[init.len() - 1]));
                }
            }
        }
    }
}

} // verus!
