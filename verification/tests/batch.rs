use file_manager::batch::{
    confirms, copy_destination, is_whitespace, parse_list, parse_pair, trim,
};
use file_manager::errors::{handle_error, IoProblem};
use file_manager::text::split_on;

fn chars(s: &str) -> Vec<char> {
    s.chars().collect()
}

fn text(v: &Vec<char>) -> String {
    v.iter().collect()
}

#[test]
fn white_space_is_what_the_standard_library_says() {
    for n in 0..=0x10ffffu32 {
        if let Some(c) = char::from_u32(n) {
            assert_eq!(is_whitespace(c), c.is_whitespace(), "for U+{:04X}", n);
        }
    }
}

#[test]
fn trimming_removes_white_space_at_both_ends_only() {
    for s in ["", " ", "a", "  a b \t\n", "\u{a0}x\u{3000}", "no-space", " \r\n "] {
        assert_eq!(text(&trim(&chars(s))), s.trim(), "for {:?}", s);
    }
}

#[test]
fn splitting_agrees_with_the_standard_library() {
    for s in ["", ",", "a,b", ",a,,b,", "no comma"] {
        let expected: Vec<String> = s.split(',').map(|p| p.to_string()).collect();
        let got: Vec<String> = split_on(&chars(s), ',').iter().map(text).collect();
        assert_eq!(got, expected, "for {:?}", s);
    }
}

#[test]
fn lists_are_split_at_commas_and_trimmed() {
    assert_eq!(parse_list(" a.txt, b.txt ,c.txt\n", false), vec!["a.txt", "b.txt", "c.txt"]);
    assert_eq!(parse_list("a,,b, ,", false), vec!["a", "b"]);
    assert_eq!(parse_list("", false), Vec::<String>::new());
    assert_eq!(parse_list("a,,b, ,", true), vec!["a", "", "b", "", ""]);
    assert_eq!(parse_list("", true), vec![""]);
    assert_eq!(parse_list("one", true), vec!["one"]);
}

#[test]
fn pairs_are_split_at_the_first_colon() {
    assert_eq!(parse_pair("a.txt:b.txt"), Some(("a.txt".to_string(), "b.txt".to_string())));
    assert_eq!(parse_pair(" a : b:c "), Some(("a".to_string(), "b:c".to_string())));
    assert_eq!(parse_pair(":"), Some(("".to_string(), "".to_string())));
    assert_eq!(parse_pair("no colon"), None);
    assert_eq!(parse_pair(""), None);
}

#[test]
fn yes_is_y_or_yes_in_any_case() {
    for answer in ["y", "Y", "yes", "YES", " Yes \n", "yEs"] {
        assert!(confirms(answer), "for {:?}", answer);
    }
    for answer in ["", "n", "no", "yess", "ye", "y e s", "ja"] {
        assert!(!confirms(answer), "for {:?}", answer);
    }
}

#[test]
fn copies_go_into_the_directory_under_their_file_name() {
    let cases = [
        ("a.txt", "dest"),
        ("dir/a.txt", "dest"),
        ("dir/a.txt", "dest/"),
        ("/abs/a.txt", ""),
        ("dir/sub/", "dest"),
        ("..", "dest"),
        ("/", "dest"),
        ("", "dest"),
    ];
    for (file, dir) in cases {
        let name = std::path::Path::new(file)
            .file_name()
            .map(|s| s.to_string_lossy().to_string())
            .unwrap_or_else(|| file.to_string());
        let expected = std::path::Path::new(dir).join(&name).to_string_lossy().to_string();
        assert_eq!(copy_destination(file, dir), expected, "for {:?} into {:?}", file, dir);
    }
    assert_eq!(copy_destination("dir/a.txt", "dest"), "dest/a.txt");
}

#[test]
fn every_problem_has_its_message() {
    assert_eq!(handle_error(IoProblem::NotFound, "a.txt", ""), "Error: a.txt not found.");
    assert_eq!(
        handle_error(IoProblem::PermissionDenied, "a.txt", ""),
        "Error: Permission denied while accessing a.txt."
    );
    assert_eq!(handle_error(IoProblem::AlreadyExists, "d", ""), "Error: d already exists.");
    assert_eq!(
        handle_error(IoProblem::InvalidInput, "d", ""),
        "Error: Invalid input provided for d."
    );
    assert_eq!(
        handle_error(IoProblem::UnexpectedEof, "d", ""),
        "Error: Unexpected end of file while reading d."
    );
    assert_eq!(handle_error(IoProblem::WriteZero, "d", ""), "Error: Failed to write data to d.");
    assert_eq!(
        handle_error(IoProblem::Interrupted, "d", ""),
        "Error: Operation interrupted while working with d."
    );
    assert_eq!(
        handle_error(IoProblem::Other, "d", "device busy"),
        "Unexpected error with d: device busy"
    );
}
