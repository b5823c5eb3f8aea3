use file_manager::host::{Action, Event};
use file_manager::runner::{start, TaskRequest};
use file_manager::task::{archive_create_progress, archive_extract_progress, TaskStep};
use std::io::{Cursor, Write};

fn zip_of(entries: &[(&str, &[u8])]) -> Vec<u8> {
    let mut writer = zip::ZipWriter::new(Cursor::new(Vec::new()));
    for (name, data) in entries {
        writer.start_file(*name, zip::write::FileOptions::default()).unwrap();
        writer.write_all(data).unwrap();
    }
    writer.finish().unwrap().into_inner()
}

fn lines(step: &TaskStep) -> Vec<&str> {
    step.lines.iter().map(|l| l.as_str()).collect()
}

#[test]
fn an_extract_task_announces_itself_and_looks_for_cancellation() {
    let mut task = archive_extract_progress("a.zip", "out", None);
    let step = task.advance(Event::Start);
    assert_eq!(lines(&step), vec!["Starting extract: a.zip -> out"]);
    assert!(matches!(step.next, Some(Action::CheckCancel)));
}

#[test]
fn an_extract_task_cancelled_before_start_does_nothing_else() {
    let mut task = archive_extract_progress("a.zip", "out", None);
    let _ = task.advance(Event::Start);
    let step = task.advance(Event::Cancel { requested: true });
    assert_eq!(lines(&step), vec!["Canceled before start"]);
    assert!(step.next.is_none());
    let step = task.advance(Event::Exists { exists: true });
    assert!(step.lines.is_empty());
    assert!(step.next.is_none());
}

#[test]
fn an_extract_task_reports_the_end_of_its_job() {
    let bytes = zip_of(&[("one.txt", b"1")]);
    let mut task = archive_extract_progress("a.zip", "out", None);
    let _ = task.advance(Event::Start);
    let step = task.advance(Event::Cancel { requested: false });
    assert!(step.lines.is_empty());
    assert!(matches!(step.next, Some(Action::CheckExists { .. })));
    let step = task.advance(Event::Exists { exists: true });
    assert!(matches!(step.next, Some(Action::ProbeTool)));
    let step = task.advance(Event::ToolProbed { available: false });
    assert!(matches!(step.next, Some(Action::ReadFile { .. })));
    let step = task.advance(Event::Bytes { data: bytes });
    match &step.next {
        Some(Action::WriteFile { path, data, parents }) => {
            assert_eq!(path, "out/one.txt");
            assert_eq!(data, b"1");
            assert!(*parents);
        }
        _ => panic!("expected a write"),
    }
    let step = task.advance(Event::Done);
    assert_eq!(lines(&step), vec!["Finished: Extraction complete"]);
    assert!(step.next.is_none());
}

#[test]
fn an_extract_task_reports_a_failure_as_an_error_line() {
    let mut task = archive_extract_progress("gone.zip", "out", None);
    let _ = task.advance(Event::Start);
    let _ = task.advance(Event::Cancel { requested: false });
    let step = task.advance(Event::Exists { exists: false });
    assert_eq!(lines(&step), vec!["Error: Archive not found: gone.zip"]);
    assert!(step.next.is_none());
}

#[test]
fn an_extract_task_passes_the_answer_of_the_tool_on() {
    let mut task = archive_extract_progress("a.7z", "out", Some("pw"));
    let _ = task.advance(Event::Start);
    let _ = task.advance(Event::Cancel { requested: false });
    let _ = task.advance(Event::Exists { exists: true });
    let step = task.advance(Event::ToolProbed { available: true });
    match &step.next {
        Some(Action::RunTool { arguments }) => {
            assert_eq!(arguments, &vec!["x", "a.7z", "-oout", "-y", "-ppw"])
        }
        _ => panic!("expected the tool"),
    }
    let step = task.advance(Event::ToolRan {
        success: true,
        stdout: "Everything is Ok".to_string(),
        stderr: String::new(),
    });
    assert_eq!(lines(&step), vec!["Finished: Everything is Ok"]);
}

#[test]
fn a_create_task_announces_itself_and_runs_its_job() {
    let sources = vec!["a.txt".to_string()];
    let mut task = archive_create_progress(&sources, "out.tar.gz", None, None);
    let step = task.advance(Event::Start);
    assert_eq!(lines(&step), vec!["Starting archive create -> out.tar.gz"]);
    assert!(matches!(step.next, Some(Action::CheckCancel)));
    let step = task.advance(Event::Cancel { requested: false });
    assert!(matches!(step.next, Some(Action::ProbeTool)));
    let step = task.advance(Event::ToolProbed { available: false });
    match &step.next {
        Some(Action::PackTar { sources, output, gzip }) => {
            assert_eq!(sources, &vec!["a.txt"]);
            assert_eq!(output, "out.tar.gz");
            assert!(*gzip);
        }
        _ => panic!("expected packing"),
    }
    let step = task.advance(Event::Done);
    assert_eq!(lines(&step), vec!["Finished: Archive created"]);
    assert!(step.next.is_none());
}

#[test]
fn a_create_task_without_sources_ends_with_an_error_line() {
    let mut task = archive_create_progress(&[], "out.zip", None, None);
    let _ = task.advance(Event::Start);
    let step = task.advance(Event::Cancel { requested: false });
    assert_eq!(lines(&step), vec!["Error: No sources provided"]);
    assert!(step.next.is_none());
}

#[test]
fn a_create_task_cancelled_before_start_never_asks_for_the_tool() {
    let sources = vec!["a.txt".to_string()];
    let mut task = archive_create_progress(&sources, "out.zip", None, None);
    let _ = task.advance(Event::Start);
    let step = task.advance(Event::Cancel { requested: true });
    assert_eq!(lines(&step), vec!["Canceled before start"]);
    assert!(step.next.is_none());
}

#[test]
fn a_task_answers_an_event_out_of_turn_with_an_error_line() {
    let mut task = archive_extract_progress("a.zip", "out", None);
    let step = task.advance(Event::Done);
    assert_eq!(lines(&step), vec!["Error: Unexpected event"]);
    assert!(step.next.is_none());
}

#[test]
fn every_kind_of_task_announces_itself_and_looks_for_cancellation() {
    let requests = vec![
        (
            TaskRequest::Extract {
                path: "a.zip".to_string(),
                dest: "out".to_string(),
                password: None,
            },
            "Starting extract: a.zip -> out",
            "Canceled before start",
        ),
        (
            TaskRequest::Create {
                sources: vec!["a".to_string()],
                output: "o.zip".to_string(),
                format: None,
                password: Some("pw".to_string()),
            },
            "Starting archive create -> o.zip",
            "Canceled before start",
        ),
        (
            TaskRequest::FindDuplicates { dir: "d".to_string() },
            "Scanning directory: d",
            "Canceled before scan",
        ),
        (
            TaskRequest::SecureDelete { path: "f".to_string() },
            "Secure deleting: f",
            "Canceled before start",
        ),
    ];
    for (request, first, canceled) in requests {
        let mut task = start(&request);
        let step = task.advance(Event::Start);
        assert_eq!(lines(&step), vec![first]);
        assert!(matches!(step.next, Some(Action::CheckCancel)));
        let step = task.advance(Event::Cancel { requested: true });
        assert_eq!(lines(&step), vec![canceled]);
        assert!(step.next.is_none());
        let step = task.advance(Event::Done);
        assert!(step.lines.is_empty());
        assert!(step.next.is_none());
    }
}
