//! Directory listings: the entries shown to the user, their order, and the
//! search filter.

use vstd::prelude::*;
use vstd::string::StringExecFns;
use crate::text::{chars_of, decimal, push_decimal};

verus! {

/// One entry of a directory as it is shown.
pub struct FileEntry {
    /// The name shown.
    pub display: String,
    /// The path of the entry.
    pub path: String,
    /// The size in bytes.
    pub size: u64,
    /// The time of the last change, as text.
    pub modified: String,
    /// Whether the entry is a directory.
    pub is_dir: bool,
    /// Whether the entry is hidden.
    pub hidden: bool,
}

/// A [`FileEntry`] as a mathematical value.
pub struct FileEntryView {
    pub display: Seq<char>,
    pub path: Seq<char>,
    pub size: nat,
    pub modified: Seq<char>,
    pub is_dir: bool,
    pub hidden: bool,
}

impl View for FileEntry {
    type V = FileEntryView;

    open spec fn view(&self) -> FileEntryView {
        FileEntryView {
            display: self.display@,
            path: self.path@,
            size: self.size as nat,
            modified: self.modified@,
            is_dir: self.is_dir,
            hidden: self.hidden,
        }
    }
}

/// The views of a list of entries.
pub open spec fn entries_of(v: Seq<FileEntry>) -> Seq<FileEntryView> {
    Seq::new(v.len(), |i: int| v[i]@)
}

/// What a listing is ordered by.
#[derive(Clone, Copy, Debug, PartialEq, Eq, Structural)]
pub enum SortMode {
    /// The name, letter case aside.
    Name,
    /// The size, smallest first.
    Size,
    /// The time of the last change, as text.
    Date,
}

/// The lower-case form of a text, as `str::to_lowercase` gives it.
pub uninterp spec fn lowercase(text: Seq<char>) -> Seq<char>;

/// `str::to_lowercase`: the text with every character replaced by its
/// lower-case form.
#[verifier::external_body]
pub(crate) fn lowercase_of(text: &str) -> (r: String)
    ensures
        r@ == lowercase(text@),
{
    text.to_lowercase()
}

/// Whether `a` comes before `b` or is `b`, character by character in the
/// order of their code points; a text comes before its extensions.
pub open spec fn text_le(a: Seq<char>, b: Seq<char>) -> bool
    decreases a.len(),
{
    if a.len() == 0 {
        true
    } else if b.len() == 0 {
        false
    } else if a[0] != b[0] {
        a[0] < b[0]
    } else {
        text_le(a.drop_first(), b.drop_first())
    }
}

/// Of two texts one comes before the other, or they are the same.
pub proof fn lemma_text_le_total(a: Seq<char>, b: Seq<char>)
    ensures
        text_le(a, b) || text_le(b, a),
    decreases a.len(),
{
    if a.len() > 0 && b.len() > 0 && a[0] == b[0] {
        lemma_text_le_total(a.drop_first(), b.drop_first());
    }
}

/// The order of texts is transitive.
pub proof fn lemma_text_le_transitive(a: Seq<char>, b: Seq<char>, c: Seq<char>)
    requires
        text_le(a, b),
        text_le(b, c),
    ensures
        text_le(a, c),
    decreases a.len(),
{
    if a.len() > 0 && b.len() > 0 && c.len() > 0 && a[0] == b[0] && b[0] == c[0] {
        lemma_text_le_transitive(a.drop_first(), b.drop_first(), c.drop_first());
    }
}

/// Executable form of [`text_le`].
pub fn text_precedes(a: &Vec<char>, b: &Vec<char>) -> (r: bool)
    ensures
        r == text_le(a@, b@),
{
    let mut i: usize = 0;
    assert(a@.skip(0) =~= a@);
    assert(b@.skip(0) =~= b@);
    while i < a.len() && i < b.len()
        invariant
            i <= a.len(),
            i <= b.len(),
            text_le(a@, b@) == text_le(a@.skip(i as int), b@.skip(i as int)),
        decreases a.len() - i,
    {
        proof {
            assert(a@.skip(i as int).drop_first() =~= a@.skip(i + 1));
            assert(b@.skip(i as int).drop_first() =~= b@.skip(i + 1));
        }
        if a[i] != b[i] {
            return a[i] < b[i];
        }
        i += 1;
    }
    i == a.len()
}

/// Whether `a` may stand before `b` in a listing ordered by `mode`.
pub open spec fn in_order(mode: SortMode, a: FileEntryView, b: FileEntryView) -> bool {
    match mode {
        SortMode::Name => text_le(lowercase(a.display), lowercase(b.display)),
        SortMode::Size => a.size <= b.size,
        SortMode::Date => text_le(a.modified, b.modified),
    }
}

/// Executable form of [`in_order`].
pub fn precedes(mode: SortMode, a: &FileEntry, b: &FileEntry) -> (r: bool)
    ensures
        r == in_order(mode, a@, b@),
{
    match mode {
        SortMode::Name => text_precedes(
            &chars_of(lowercase_of(a.display.as_str()).as_str()),
            &chars_of(lowercase_of(b.display.as_str()).as_str()),
        ),
        SortMode::Size => a.size <= b.size,
        SortMode::Date => text_precedes(
            &chars_of(a.modified.as_str()),
            &chars_of(b.modified.as_str()),
        ),
    }
}

/// The place at which `entry` is put into an ordered listing: behind every
/// entry that may stand before it, so that entries of equal rank keep the
/// order in which they came.
pub open spec fn insertion_point(mode: SortMode, sorted: Seq<FileEntryView>, entry: FileEntryView) -> int
    decreases sorted.len(),
{
    if sorted.len() == 0 {
        0
    } else if in_order(mode, sorted.last(), entry) {
        sorted.len() as int
    } else {
        insertion_point(mode, sorted.drop_last(), entry)
    }
}

/// The listing in the order of `mode`. Entries of equal rank keep the
/// order in which they stood.
pub open spec fn sorted_by(mode: SortMode, entries: Seq<FileEntryView>) -> Seq<FileEntryView>
    decreases entries.len(),
{
    if entries.len() == 0 {
        entries
    } else {
        let before = sorted_by(mode, entries.drop_last());
        before.insert(insertion_point(mode, before, entries.last()), entries.last())
    }
}

/// Whether every entry of `entries` may stand before all that follow it.
pub open spec fn is_ordered(mode: SortMode, entries: Seq<FileEntryView>) -> bool {
    forall|i: int, j: int|
        0 <= i < j < entries.len() ==> in_order(mode, #[trigger] entries[i], #[trigger] entries[j])
}

/// The order of entries is total.
pub proof fn lemma_in_order_total(mode: SortMode, a: FileEntryView, b: FileEntryView)
    ensures
        in_order(mode, a, b) || in_order(mode, b, a),
{
    match mode {
        SortMode::Name => lemma_text_le_total(lowercase(a.display), lowercase(b.display)),
        SortMode::Size => {},
        SortMode::Date => lemma_text_le_total(a.modified, b.modified),
    }
}

/// The order of entries is transitive.
pub proof fn lemma_in_order_transitive(
    mode: SortMode,
    a: FileEntryView,
    b: FileEntryView,
    c: FileEntryView,
)
    requires
        in_order(mode, a, b),
        in_order(mode, b, c),
    ensures
        in_order(mode, a, c),
{
    match mode {
        SortMode::Name => lemma_text_le_transitive(
            lowercase(a.display),
            lowercase(b.display),
            lowercase(c.display),
        ),
        SortMode::Size => {},
        SortMode::Date => lemma_text_le_transitive(a.modified, b.modified, c.modified),
    }
}

proof fn lemma_insertion_point(mode: SortMode, sorted: Seq<FileEntryView>, entry: FileEntryView)
    requires
        is_ordered(mode, sorted),
    ensures
        0 <= insertion_point(mode, sorted, entry) <= sorted.len(),
        forall|i: int|
            0 <= i < insertion_point(mode, sorted, entry) ==> in_order(
                mode,
                #[trigger] sorted[i],
                entry,
            ),
        forall|i: int|
            insertion_point(mode, sorted, entry) <= i < sorted.len() ==> !in_order(
                mode,
                #[trigger] sorted[i],
                entry,
            ),
    decreases sorted.len(),
{
    if sorted.len() > 0 {
        let init = sorted.drop_last();
        assert forall|i: int, j: int| 0 <= i < j < init.len() implies in_order(
            mode,
            #[trigger] init[i],
            #[trigger] init[j],
        ) by {
            assert(init[i] == sorted[i] && init[j] == sorted[j]);
        }
        if in_order(mode, sorted.last(), entry) {
            assert forall|i: int| 0 <= i < sorted.len() implies in_order(
                mode,
                #[trigger] sorted[i],
                entry,
            ) by {
                if i < sorted.len() - 1 {
                    assert(in_order(mode, sorted[i], sorted[sorted.len() - 1]));
                    lemma_in_order_transitive(mode, sorted[i], sorted.last(), entry);
                }
            }
        } else {
            lemma_insertion_point(mode, init, entry);
            let p = insertion_point(mode, init, entry);
            assert forall|i: int| 0 <= i < p implies in_order(mode, #[trigger] sorted[i], entry) by {
                assert(sorted[i] == init[i]);
            }
            assert forall|i: int| p <= i < sorted.len() implies !in_order(
                mode,
                #[trigger] sorted[i],
                entry,
            ) by {
                if i < sorted.len() - 1 {
                    assert(sorted[i] == init[i]);
                }
            }
        }
    }
}

/// A sorted listing is in order.
pub proof fn lemma_sorted_is_ordered(mode: SortMode, entries: Seq<FileEntryView>)
    ensures
        is_ordered(mode, sorted_by(mode, entries)),
        sorted_by(mode, entries).len() == entries.len(),
    decreases entries.len(),
{
    if entries.len() > 0 {
        let before = sorted_by(mode, entries.drop_last());
        let entry = entries.last();
        lemma_sorted_is_ordered(mode, entries.drop_last());
        lemma_insertion_point(mode, before, entry);
        let p = insertion_point(mode, before, entry);
        let after = before.insert(p, entry);
        assert forall|i: int, j: int| 0 <= i < j < after.len() implies in_order(
            mode,
            #[trigger] after[i],
            #[trigger] after[j],
        ) by {
            if j < p {
                assert(after[i] == before[i] && after[j] == before[j]);
            } else if j == p {
                assert(after[i] == before[i]);
            } else if i == p {
                assert(after[j] == before[j - 1]);
                lemma_in_order_total(mode, before[j - 1], entry);
            } else if i < p {
                assert(after[i] == before[i] && after[j] == before[j - 1]);
            } else {
                assert(after[i] == before[i - 1] && after[j] == before[j - 1]);
            }
        }
    }
}

/// A sorted listing holds the same entries as the listing it was made
/// from, each as often.
pub proof fn lemma_sorted_is_permutation(mode: SortMode, entries: Seq<FileEntryView>)
    ensures
        sorted_by(mode, entries).to_multiset() == entries.to_multiset(),
    decreases entries.len(),
{
    broadcast use vstd::seq_lib::group_to_multiset_ensures;

    if entries.len() > 0 {
        let init = entries.drop_last();
        let before = sorted_by(mode, init);
        let entry = entries.last();
        lemma_sorted_is_permutation(mode, init);
        lemma_sorted_is_ordered(mode, init);
        lemma_insertion_point(mode, before, entry);
        let p = insertion_point(mode, before, entry);
        assert(init.push(entry) =~= entries);
        assert(before.insert(p, entry).to_multiset() == before.to_multiset().insert(entry));
        assert(init.push(entry).to_multiset() == init.to_multiset().insert(entry));
    }
}

/// Whether a name marks its file as hidden: it begins with a dot.
pub open spec fn is_dot_name(name: Seq<char>) -> bool {
    name.len() > 0 && name[0] == '.'
}

/// Executable form of [`is_dot_name`].
pub fn is_hidden(name: &str) -> (r: bool)
    ensures
        r == is_dot_name(name@),
{
    let chars = chars_of(name);
    chars.len() > 0 && chars[0] == '.'
}

/// Whether `needle` occurs in `haystack`.
pub open spec fn occurs_in(needle: Seq<char>, haystack: Seq<char>) -> bool {
    exists|at: int|
        0 <= at <= haystack.len() - needle.len() && #[trigger] haystack.subrange(
            at,
            at + needle.len(),
        ) == needle
}

fn occurs_at(needle: &Vec<char>, haystack: &Vec<char>, at: usize) -> (r: bool)
    requires
        at + needle.len() <= haystack.len(),
    ensures
        r == (haystack@.subrange(at as int, at + needle.len()) == needle@),
{
    let mut i: usize = 0;
    while i < needle.len()
        invariant
            i <= needle.len(),
            at + needle.len() <= haystack.len(),
            forall|j: int| 0 <= j < i ==> haystack@[at + j] == needle@[j],
        decreases needle.len() - i,
    {
        if haystack[at + i] != needle[i] {
            assert(haystack@.subrange(at as int, at + needle.len())[i as int] != needle@[i as int]);
            return false;
        }
        i += 1;
    }
    assert(haystack@.subrange(at as int, at + needle.len()) =~= needle@);
    true
}

/// Executable form of [`occurs_in`].
pub fn contains_text(needle: &Vec<char>, haystack: &Vec<char>) -> (r: bool)
    ensures
        r == occurs_in(needle@, haystack@),
{
    if needle.len() > haystack.len() {
        return false;
    }
    let last: usize = haystack.len() - needle.len();
    let mut at: usize = 0;
    while at < last
        invariant
            at <= last,
            last + needle.len() == haystack.len(),
            forall|k: int|
                0 <= k < at ==> #[trigger] haystack@.subrange(k, k + needle.len()) != needle@,
        decreases last - at,
    {
        if occurs_at(needle, haystack, at) {
            return true;
        }
        at += 1;
    }
    occurs_at(needle, haystack, last)
}

/// Whether the entry called `name` is among the results of a search for
/// `query`: the query occurs in the name, both taken in lower case.
pub open spec fn is_match(name: Seq<char>, query: Seq<char>) -> bool {
    occurs_in(lowercase(query), lowercase(name))
}

/// Executable form of [`is_match`].
pub fn matches_search(name: &str, query: &str) -> (r: bool)
    ensures
        r == is_match(name@, query@),
{
    contains_text(
        &chars_of(lowercase_of(query).as_str()),
        &chars_of(lowercase_of(name).as_str()),
    )
}

/// The line that shows one entry of a listing.
pub open spec fn entry_line(
    name: Seq<char>,
    hidden: bool,
    is_dir: bool,
    size: nat,
    modified: Seq<char>,
    readonly: bool,
) -> Seq<char> {
    name + (if hidden {
        " (hidden)"@
    } else {
        ""@
    }) + " | "@ + (if is_dir {
        "Directory"@
    } else {
        "File"@
    }) + " | "@ + decimal(size) + " bytes | modified "@ + modified + " | readonly: "@ + (if readonly {
        "true"@
    } else {
        "false"@
    })
}

/// Writes the line that shows one entry (see [`entry_line`]).
pub fn entry_line_of(
    name: &str,
    hidden: bool,
    is_dir: bool,
    size: u64,
    modified: &str,
    readonly: bool,
) -> (r: String)
    ensures
        r@ == entry_line(name@, hidden, is_dir, size as nat, modified@, readonly),
{
    let mut out = String::from_str(name);
    out.append(if hidden {
        " (hidden)"
    } else {
        ""
    });
    out.append(" | ");
    out.append(if is_dir {
        "Directory"
    } else {
        "File"
    });
    out.append(" | ");
    push_decimal(&mut out, size);
    out.append(" bytes | modified ");
    out.append(modified);
    out.append(" | readonly: ");
    out.append(if readonly {
        "true"
    } else {
        "false"
    });
    out
}

/// Puts `files` into the order of `mode` (see [`sorted_by`]).
pub fn sort_files(files: &mut Vec<FileEntry>, mode: SortMode)
    ensures
        entries_of(final(files)@) == sorted_by(mode, entries_of(old(files)@)),
{
    let mut rest: Vec<FileEntry> = Vec::new();
    core::mem::swap(files, &mut rest);
    let ghost input = entries_of(old(files)@);
    let total = rest.len();
    assert(input.take(0) =~= Seq::<FileEntryView>::empty());
    assert(input.skip(0) =~= input);
    assert(entries_of(files@) =~= Seq::<FileEntryView>::empty());
    while rest.len() > 0
        invariant
            input == entries_of(old(files)@),
            total == input.len(),
            rest.len() <= total,
            entries_of(rest@) == input.skip(total - rest.len()),
            entries_of(files@) == sorted_by(mode, input.take(total - rest.len())),
        decreases rest.len(),
    {
        let ghost done = (total - rest.len()) as int;
        let ghost before = entries_of(files@);
        let ghost remaining = entries_of(rest@);
        let ghost held = rest@;
        let entry = rest.remove(0);
        proof {
            assert(entry@ == remaining[0]);
            assert(remaining[0] == input[done]);
            assert forall|k: int| 0 <= k < rest@.len() implies entries_of(rest@)[k] == input.skip(
                done + 1,
            )[k] by {
                assert(rest@[k] == held[k + 1]);
                assert(remaining[k + 1] == held[k + 1]@);
                assert(remaining[k + 1] == input[done + k + 1]);
            }
            assert(entries_of(rest@) =~= input.skip(done + 1));
            assert(input.take(done + 1).drop_last() =~= input.take(done));
            assert(input.take(done + 1).last() == input[done]);
            lemma_sorted_is_ordered(mode, input.take(done));
            lemma_insertion_point(mode, before, entry@);
        }
        let mut at: usize = files.len();
        assert(before.take(at as int) =~= before);
        while at > 0 && !precedes(mode, &files[at - 1], &entry)
            invariant
                at <= files.len(),
                entries_of(files@) == before,
                insertion_point(mode, before.take(at as int), entry@) == insertion_point(
                    mode,
                    before,
                    entry@,
                ),
            decreases at,
        {
            proof {
                assert(before.take(at as int).drop_last() =~= before.take(at - 1));
                assert(before.take(at as int).last() == files@[at - 1]@);
            }
            at -= 1;
        }
        proof {
            if at > 0 {
                assert(before.take(at as int).last() == files@[at - 1]@);
            }
            assert(at == insertion_point(mode, before, entry@));
        }
        files.insert(at, entry);
        assert(entries_of(files@) =~= before.insert(at as int, entry@));
    }
    assert(input.take(total as int) =~= input);
}

} // verus!
