//! The text that users type for batch operations: lists separated by
//! commas, `old:new` pairs, and answers to a confirmation.

use vstd::prelude::*;
use crate::paths::{file_name, file_name_of, place_under, under};
use crate::text::{
    chars_of,
    eq_ignoring_ascii_case,
    pieces,
    same_ignoring_ascii_case,
    split_on,
    string_of,
    texts,
};

verus! {

/// Whether `c` is white space in the sense of Unicode.
pub open spec fn is_space(c: char) -> bool {
    let n = c as u32;
    ||| 0x09 <= n <= 0x0d
    ||| n == 0x20
    ||| n == 0x85
    ||| n == 0xa0
    ||| n == 0x1680
    ||| 0x2000 <= n <= 0x200a
    ||| n == 0x2028
    ||| n == 0x2029
    ||| n == 0x202f
    ||| n == 0x205f
    ||| n == 0x3000
}

/// Executable form of [`is_space`].
pub fn is_whitespace(c: char) -> (r: bool)
    ensures
        r == is_space(c),
{
    let n: u32 = c as u32;
    (0x09 <= n && n <= 0x0d) || n == 0x20 || n == 0x85 || n == 0xa0 || n == 0x1680 || (0x2000 <= n
        && n <= 0x200a) || n == 0x2028 || n == 0x2029 || n == 0x202f || n == 0x205f || n == 0x3000
}

/// `s` without the white space at its start.
pub open spec fn trim_start(s: Seq<char>) -> Seq<char>
    decreases s.len(),
{
    if s.len() > 0 && is_space(s[0]) {
        trim_start(s.drop_first())
    } else {
        s
    }
}

/// `s` without the white space at its end.
pub open spec fn trim_end(s: Seq<char>) -> Seq<char>
    decreases s.len(),
{
    if s.len() > 0 && is_space(s.last()) {
        trim_end(s.drop_last())
    } else {
        s
    }
}

/// `s` without the white space at its start and at its end.
pub open spec fn trimmed(s: Seq<char>) -> Seq<char> {
    trim_end(trim_start(s))
}

proof fn lemma_trim_start(s: Seq<char>, k: int)
    requires
        0 <= k <= s.len(),
        forall|j: int| 0 <= j < k ==> is_space(s[j]),
        k == s.len() || !is_space(s[k]),
    ensures
        trim_start(s) == s.skip(k),
    decreases k,
{
    if k == 0 {
        assert(s.skip(0) =~= s);
    } else {
        let rest = s.drop_first();
        assert forall|j: int| 0 <= j < k - 1 implies is_space(rest[j]) by {
            assert(rest[j] == s[j + 1]);
        }
        lemma_trim_start(rest, k - 1);
        assert(rest.skip(k - 1) =~= s.skip(k));
    }
}

proof fn lemma_trim_end(s: Seq<char>, k: int)
    requires
        0 <= k <= s.len(),
        forall|j: int| k <= j < s.len() ==> is_space(s[j]),
        k == 0 || !is_space(s[k - 1]),
    ensures
        trim_end(s) == s.take(k),
    decreases s.len() - k,
{
    if k == s.len() {
        assert(s.take(k) =~= s);
    } else {
        let init = s.drop_last();
        assert forall|j: int| k <= j < init.len() implies is_space(init[j]) by {
            assert(init[j] == s[j]);
        }
        lemma_trim_end(init, k);
        assert(init.take(k) =~= s.take(k));
    }
}

/// Removes the white space at both ends (see [`trimmed`]).
pub fn trim(s: &Vec<char>) -> (r: Vec<char>)
    ensures
        r@ == trimmed(s@),
{
    let mut start: usize = 0;
    while start < s.len() && is_whitespace(s[start])
        invariant
            start <= s.len(),
            forall|j: int| 0 <= j < start ==> is_space(s@[j]),
        decreases s.len() - start,
    {
        start += 1;
    }
    let mut end: usize = s.len();
    while end > start && is_whitespace(s[end - 1])
        invariant
            start <= end <= s.len(),
            forall|j: int| end <= j < s.len() ==> is_space(s@[j]),
        decreases end,
    {
        end -= 1;
    }
    proof {
        lemma_trim_start(s@, start as int);
        let cut = s@.skip(start as int);
        assert forall|j: int| end - start <= j < cut.len() implies is_space(cut[j]) by {
            assert(cut[j] == s@[j + start]);
        }
        if end > start {
            assert(cut[end - start - 1] == s@[end - 1]);
        }
        lemma_trim_end(cut, end - start);
    }
    let mut out: Vec<char> = Vec::new();
    let mut i: usize = start;
    while i < end
        invariant
            start <= i <= end <= s.len(),
            out@ == s@.subrange(start as int, i as int),
        decreases end - i,
    {
        out.push(s[i]);
        assert(out@ =~= s@.subrange(start as int, i + 1));
        i += 1;
    }
    assert(s@.subrange(start as int, end as int) =~= s@.skip(start as int).take(end - start));
    out
}

/// The items among `items`, each trimmed; empty ones are left out unless
/// `keep_empty` is set.
pub open spec fn cleaned_items(items: Seq<Seq<char>>, keep_empty: bool) -> Seq<Seq<char>>
    decreases items.len(),
{
    if items.len() == 0 {
        Seq::<Seq<char>>::empty()
    } else {
        let item = trimmed(items.last());
        if keep_empty || item.len() > 0 {
            cleaned_items(items.drop_last(), keep_empty).push(item)
        } else {
            cleaned_items(items.drop_last(), keep_empty)
        }
    }
}

/// The names in a list typed by the user: the line is trimmed and split at
/// every comma, and every item is trimmed. Empty items are left out unless
/// `keep_empty` is set.
pub open spec fn listed(input: Seq<char>, keep_empty: bool) -> Seq<Seq<char>> {
    cleaned_items(pieces(trimmed(input), ','), keep_empty)
}

/// Reads a list typed by the user (see [`listed`]).
pub fn parse_list(input: &str, keep_empty: bool) -> (r: Vec<String>)
    ensures
        crate::text::lines_of(r@) == listed(input@, keep_empty),
{
    let items = split_on(&trim(&chars_of(input)), ',');
    let mut out: Vec<String> = Vec::new();
    let mut i: usize = 0;
    assert(texts(items@).take(0) =~= Seq::<Seq<char>>::empty());
    assert(crate::text::lines_of(out@) =~= Seq::<Seq<char>>::empty());
    while i < items.len()
        invariant
            i <= items.len(),
            crate::text::lines_of(out@) == cleaned_items(texts(items@).take(i as int), keep_empty),
        decreases items.len() - i,
    {
        proof {
            assert(texts(items@).take(i + 1).drop_last() =~= texts(items@).take(i as int));
            assert(texts(items@).take(i + 1).last() == items@[i as int]@);
        }
        let item = trim(&items[i]);
        if keep_empty || item.len() > 0 {
            let text = string_of(&item);
            proof {
                crate::text::lemma_lines_push(out@, text);
            }
            out.push(text);
        }
        i += 1;
    }
    assert(texts(items@).take(items.len() as int) =~= texts(items@));
    out
}

/// The position of the first `c` in `s`, or the length of `s` when there is
/// none.
pub open spec fn first_of(s: Seq<char>, c: char) -> int
    decreases s.len(),
{
    if s.len() == 0 {
        0
    } else if s[0] == c {
        0
    } else {
        1 + first_of(s.drop_first(), c)
    }
}

proof fn lemma_first_of(s: Seq<char>, c: char, k: int)
    requires
        0 <= k <= s.len(),
        forall|j: int| 0 <= j < k ==> s[j] != c,
        k == s.len() || s[k] == c,
    ensures
        first_of(s, c) == k,
    decreases k,
{
    if k > 0 {
        let rest = s.drop_first();
        assert forall|j: int| 0 <= j < k - 1 implies rest[j] != c by {
            assert(rest[j] == s[j + 1]);
        }
        if k < s.len() {
            assert(rest[k - 1] == s[k]);
        }
        lemma_first_of(rest, c, k - 1);
    }
}

/// The two names of an `old:new` pair, each trimmed: the text before the
/// first colon and the text after it. A text without a colon is no pair.
pub open spec fn pair_of(text: Seq<char>) -> Option<(Seq<char>, Seq<char>)> {
    let at = first_of(text, ':');
    if at < text.len() {
        Some((trimmed(text.take(at)), trimmed(text.skip(at + 1))))
    } else {
        None
    }
}

/// Reads an `old:new` pair (see [`pair_of`]).
pub fn parse_pair(text: &str) -> (r: Option<(String, String)>)
    ensures
        r is Some <==> pair_of(text@) is Some,
        r matches Some(p) ==> pair_of(text@) == Some((p.0@, p.1@)),
{
    let chars = chars_of(text);
    let mut at: usize = 0;
    while at < chars.len() && chars[at] != ':'
        invariant
            at <= chars.len(),
            forall|j: int| 0 <= j < at ==> chars@[j] != ':',
        decreases chars.len() - at,
    {
        at += 1;
    }
    proof {
        lemma_first_of(chars@, ':', at as int);
    }
    if at >= chars.len() {
        return None;
    }
    let mut old_name: Vec<char> = Vec::new();
    let mut i: usize = 0;
    while i < at
        invariant
            i <= at < chars.len(),
            old_name@ == chars@.take(i as int),
        decreases at - i,
    {
        old_name.push(chars[i]);
        assert(old_name@ =~= chars@.take(i + 1));
        i += 1;
    }
    let mut new_name: Vec<char> = Vec::new();
    let mut k: usize = at + 1;
    while k < chars.len()
        invariant
            at < k <= chars.len(),
            new_name@ == chars@.subrange(at + 1, k as int),
        decreases chars.len() - k,
    {
        new_name.push(chars[k]);
        assert(new_name@ =~= chars@.subrange(at + 1, k + 1));
        k += 1;
    }
    assert(chars@.subrange(at + 1, chars.len() as int) =~= chars@.skip(at + 1));
    Some((string_of(&trim(&old_name)), string_of(&trim(&new_name))))
}

/// Whether an answer to "are you sure?" means yes: trimmed, it is `y` or
/// `yes` in any letter case.
pub open spec fn means_yes(answer: Seq<char>) -> bool {
    same_ignoring_ascii_case(trimmed(answer), seq!['y']) || same_ignoring_ascii_case(
        trimmed(answer),
        seq!['y', 'e', 's'],
    )
}

/// Reads an answer to "are you sure?" (see [`means_yes`]).
pub fn confirms(answer: &str) -> (r: bool)
    ensures
        r == means_yes(answer@),
{
    let word = trim(&chars_of(answer));
    let y: Vec<char> = vec!['y'];
    let yes: Vec<char> = vec!['y', 'e', 's'];
    assert(y@ =~= seq!['y']);
    assert(yes@ =~= seq!['y', 'e', 's']);
    eq_ignoring_ascii_case(&word, &y) || eq_ignoring_ascii_case(&word, &yes)
}

/// Where a file goes when it is copied into the directory `dir`: the
/// directory followed by the file's name. A path without a file name is
/// used whole, and stands for itself when it starts at the root.
pub open spec fn copy_target(file: Seq<char>, dir: Seq<char>) -> Seq<char> {
    let name = match file_name(file) {
        Some(n) => n,
        None => file,
    };
    if name.len() > 0 && name[0] == '/' {
        name
    } else {
        under(dir, name)
    }
}

/// The destination of a file copied into `dir` (see [`copy_target`]).
pub fn copy_destination(file: &str, dir: &str) -> (r: String)
    ensures
        r@ == copy_target(file@, dir@),
{
    let chars = chars_of(file);
    let name = match file_name_of(&chars) {
        Some(n) => n,
        None => chars,
    };
    if name.len() > 0 && name[0] == '/' {
        string_of(&name)
    } else {
        string_of(&place_under(&chars_of(dir), &name))
    }
}

} // verus!
