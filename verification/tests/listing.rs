use file_manager::listing::{
    contains_text, entry_line_of, is_hidden, matches_search, precedes, sort_files, text_precedes,
    FileEntry, SortMode,
};

fn entry(display: &str, size: u64, modified: &str) -> FileEntry {
    FileEntry {
        display: display.to_string(),
        path: format!("./{}", display),
        size,
        modified: modified.to_string(),
        is_dir: false,
        hidden: display.starts_with('.'),
    }
}

fn names(files: &Vec<FileEntry>) -> Vec<&str> {
    files.iter().map(|f| f.display.as_str()).collect()
}

fn chars(s: &str) -> Vec<char> {
    s.chars().collect()
}

#[test]
fn names_are_ordered_without_regard_to_letter_case() {
    let mut files = vec![entry("b", 1, "1"), entry("C", 1, "1"), entry("a", 1, "1"), entry("B2", 1, "1")];
    sort_files(&mut files, SortMode::Name);
    assert_eq!(names(&files), vec!["a", "b", "B2", "C"]);
}

#[test]
fn names_that_differ_only_in_case_keep_their_order() {
    let mut files = vec![entry("readme", 1, "1"), entry("README", 2, "1"), entry("Readme", 3, "1")];
    sort_files(&mut files, SortMode::Name);
    assert_eq!(names(&files), vec!["readme", "README", "Readme"]);
    let mut files = vec![entry("README", 2, "1"), entry("readme", 1, "1")];
    sort_files(&mut files, SortMode::Name);
    assert_eq!(names(&files), vec!["README", "readme"]);
}

#[test]
fn sizes_are_ordered_smallest_first_and_ties_keep_their_order() {
    let mut files =
        vec![entry("big", 30, "1"), entry("x", 10, "1"), entry("mid", 20, "1"), entry("y", 10, "1")];
    sort_files(&mut files, SortMode::Size);
    assert_eq!(names(&files), vec!["x", "y", "mid", "big"]);
}

#[test]
fn dates_are_ordered_as_text() {
    let mut files = vec![entry("a", 1, "200"), entry("b", 1, "1000"), entry("c", 1, "30")];
    sort_files(&mut files, SortMode::Date);
    assert_eq!(names(&files), vec!["b", "a", "c"]);
}

#[test]
fn sorting_agrees_with_the_standard_stable_sort() {
    let words = ["pear", "Apple", "fig", "apple", "Zebra", "éclair", "Éclair", "fig", "", "a"];
    let mut files: Vec<FileEntry> =
        words.iter().enumerate().map(|(i, w)| entry(w, (i % 3) as u64, w)).collect();
    for mode in [SortMode::Name, SortMode::Size, SortMode::Date] {
        let mut expected: Vec<(String, u64)> =
            files.iter().map(|f| (f.display.clone(), f.size)).collect();
        match mode {
            SortMode::Name => expected.sort_by(|a, b| a.0.to_lowercase().cmp(&b.0.to_lowercase())),
            SortMode::Size => expected.sort_by(|a, b| a.1.cmp(&b.1)),
            SortMode::Date => expected.sort_by(|a, b| a.0.cmp(&b.0)),
        }
        sort_files(&mut files, mode);
        let got: Vec<(String, u64)> = files.iter().map(|f| (f.display.clone(), f.size)).collect();
        assert_eq!(got, expected);
    }
}

#[test]
fn an_empty_listing_and_a_single_entry_stay_as_they_are() {
    let mut files: Vec<FileEntry> = Vec::new();
    sort_files(&mut files, SortMode::Name);
    assert!(files.is_empty());
    let mut files = vec![entry("only", 1, "1")];
    sort_files(&mut files, SortMode::Size);
    assert_eq!(names(&files), vec!["only"]);
}

#[test]
fn texts_are_compared_by_code_points() {
    assert!(text_precedes(&chars(""), &chars("")));
    assert!(text_precedes(&chars(""), &chars("a")));
    assert!(!text_precedes(&chars("a"), &chars("")));
    assert!(text_precedes(&chars("a"), &chars("ab")));
    assert!(text_precedes(&chars("B"), &chars("a")));
    assert!(!text_precedes(&chars("b"), &chars("a")));
    assert!(text_precedes(&chars("z"), &chars("é")));
    for (a, b) in [("abc", "abd"), ("é", "z"), ("10", "9"), ("same", "same")] {
        assert_eq!(text_precedes(&chars(a), &chars(b)), a <= b);
    }
    assert!(precedes(SortMode::Name, &entry("A", 9, "9"), &entry("b", 1, "1")));
    assert!(!precedes(SortMode::Size, &entry("A", 9, "9"), &entry("b", 1, "1")));
}

#[test]
fn dot_names_are_hidden() {
    assert!(is_hidden(".bashrc"));
    assert!(is_hidden("."));
    assert!(!is_hidden("visible"));
    assert!(!is_hidden(""));
    assert!(!is_hidden("a.b"));
}

#[test]
fn a_search_matches_in_any_letter_case() {
    assert!(matches_search("ReadMe.TXT", "readme"));
    assert!(matches_search("ReadMe.TXT", "ME.t"));
    assert!(matches_search("anything", ""));
    assert!(matches_search("", ""));
    assert!(!matches_search("ReadMe.TXT", "readmes"));
    assert!(!matches_search("", "a"));
    assert!(matches_search("ÉCLAIR", "éclair"));
    assert!(contains_text(&chars("lo w"), &chars("hello world")));
    assert!(contains_text(&chars("world"), &chars("hello world")));
    assert!(!contains_text(&chars("worlds"), &chars("hello world")));
}

#[test]
fn an_entry_is_shown_on_one_line() {
    assert_eq!(
        entry_line_of("notes.txt", false, false, 12, "SystemTime { .. }", false),
        "notes.txt | File | 12 bytes | modified SystemTime { .. } | readonly: false"
    );
    assert_eq!(
        entry_line_of(".git", true, true, 4096, "t", true),
        ".git (hidden) | Directory | 4096 bytes | modified t | readonly: true"
    );
}
