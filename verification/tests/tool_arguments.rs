use file_manager::errors::ErrorKind;
use file_manager::tool::{
    capture, create_command, extract_command, list_command, probe_arguments, tool_program,
};

#[test]
fn the_archiver_is_started_as_7z_with_help() {
    assert_eq!(tool_program(), "7z");
    assert_eq!(probe_arguments(), vec!["--help"]);
}

#[test]
fn list_arguments_are_the_verb_and_the_archive() {
    assert_eq!(list_command("my archive.7z"), vec!["l", "my archive.7z"]);
}

#[test]
fn extract_arguments_carry_destination_and_overwrite() {
    assert_eq!(extract_command("a.7z", "/tmp/out", None), vec!["x", "a.7z", "-o/tmp/out", "-y"]);
    assert_eq!(extract_command("a.7z", "", None), vec!["x", "a.7z", "-o", "-y"]);
}

#[test]
fn extract_password_flag_only_for_a_password_that_is_not_empty() {
    assert_eq!(
        extract_command("a.7z", "out", Some("p w")),
        vec!["x", "a.7z", "-oout", "-y", "-pp w"]
    );
    assert_eq!(extract_command("a.7z", "out", Some("")), vec!["x", "a.7z", "-oout", "-y"]);
}

#[test]
fn create_arguments_put_options_before_sources() {
    let sources = vec!["one".to_string(), "two".to_string()];
    assert_eq!(create_command(&sources, "o.7z", None, None), vec!["a", "o.7z", "one", "two"]);
    assert_eq!(
        create_command(&sources, "o.zip", Some("zip"), None),
        vec!["a", "o.zip", "-tzip", "one", "two"]
    );
    assert_eq!(
        create_command(&sources, "o.7z", None, Some("pw")),
        vec!["a", "o.7z", "-ppw", "-mhe=on", "one", "two"]
    );
    assert_eq!(
        create_command(&sources, "o.7z", Some("7z"), Some("pw")),
        vec!["a", "o.7z", "-t7z", "-ppw", "-mhe=on", "one", "two"]
    );
    assert_eq!(
        create_command(&sources, "o.7z", Some(""), Some("")),
        vec!["a", "o.7z", "one", "two"]
    );
}

#[test]
fn create_arguments_without_sources_hold_the_options_only() {
    let none: Vec<String> = Vec::new();
    assert_eq!(create_command(&none, "o.7z", None, None), vec!["a", "o.7z"]);
}

#[test]
fn the_answer_of_the_archiver_is_read_by_its_exit() {
    assert_eq!(capture(true, "out".to_string(), "err".to_string()).unwrap(), "out");
    let failure = capture(false, "out".to_string(), "err".to_string()).unwrap_err();
    assert_eq!(failure.kind, ErrorKind::ToolInvocation);
    assert_eq!(failure.message, "err");
}
