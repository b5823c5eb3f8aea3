use file_manager::duplicates::{
    duplicates_in, find_duplicates_noninteractive, find_duplicates_progress, record, Group,
};
use file_manager::errors::ErrorKind;
use file_manager::host::{Action, Event, Step};
use std::collections::BTreeMap;

fn files_of(entries: &[(&str, &[u8])]) -> BTreeMap<String, Vec<u8>> {
    entries.iter().map(|(p, d)| (p.to_string(), d.to_vec())).collect()
}

fn answer(files: &BTreeMap<String, Vec<u8>>, action: Action, cancel: bool) -> Event {
    match action {
        Action::CheckCancel => Event::Cancel { requested: cancel },
        Action::ListFiles { dir } => {
            let prefix = format!("{}/", dir);
            Event::Files {
                paths: files.keys().filter(|k| k.starts_with(&prefix)).cloned().collect(),
            }
        }
        Action::ReadFile { path } => match files.get(&path) {
            Some(data) if data != b"unreadable" => Event::Bytes { data: data.clone() },
            _ => Event::Failed { message: "cannot read".to_string() },
        },
        _ => panic!("unexpected action"),
    }
}

#[test]
fn files_with_the_same_content_form_a_group() {
    let files = files_of(&[
        ("d/a", b"same"),
        ("d/b", b"other"),
        ("d/c", b"same"),
        ("d/e", b"third"),
        ("d/f", b"other"),
        ("d/g", b"same"),
    ]);
    let mut job = find_duplicates_noninteractive("d");
    let mut event = Event::Start;
    let groups = loop {
        match job.advance(event) {
            Step::Finished(result) => break result.unwrap(),
            Step::Perform(action) => event = answer(&files, action, false),
        }
    };
    assert_eq!(groups, vec![vec!["d/a", "d/c", "d/g"], vec!["d/b", "d/f"]]);
}

#[test]
fn a_directory_without_duplicates_gives_no_group() {
    let files = files_of(&[("d/a", b"1"), ("d/b", b"2")]);
    let mut job = find_duplicates_noninteractive("d");
    let mut event = Event::Start;
    let groups = loop {
        match job.advance(event) {
            Step::Finished(result) => break result.unwrap(),
            Step::Perform(action) => event = answer(&files, action, false),
        }
    };
    assert!(groups.is_empty());
}

#[test]
fn a_directory_that_cannot_be_listed_fails_the_plain_scan() {
    let mut job = find_duplicates_noninteractive("nowhere");
    let step = job.advance(Event::Start);
    assert!(matches!(step, Step::Perform(Action::ListFiles { .. })));
    match job.advance(Event::Failed { message: "x".to_string() }) {
        Step::Finished(Err(f)) => {
            assert_eq!(f.kind, ErrorKind::Io);
            assert_eq!(f.message, "Unable to read directory: nowhere");
        }
        _ => panic!("expected a failure"),
    }
}

#[test]
fn a_file_that_cannot_be_read_joins_no_group() {
    let files = files_of(&[("d/a", b"unreadable"), ("d/b", b"unreadable"), ("d/c", b"x")]);
    let mut job = find_duplicates_noninteractive("d");
    let mut event = Event::Start;
    let groups = loop {
        match job.advance(event) {
            Step::Finished(result) => break result.unwrap(),
            Step::Perform(action) => event = answer(&files, action, false),
        }
    };
    assert!(groups.is_empty());
}

fn run_task(files: &BTreeMap<String, Vec<u8>>, dir: &str, cancel_at: Option<usize>) -> Vec<String> {
    let mut task = find_duplicates_progress(dir);
    let mut seen = Vec::new();
    let mut event = Event::Start;
    let mut checks = 0;
    for _ in 0..1000 {
        let step = task.advance(event);
        seen.extend(step.lines);
        match step.next {
            None => return seen,
            Some(action) => {
                let cancel = matches!(action, Action::CheckCancel) && cancel_at == Some(checks);
                if matches!(action, Action::CheckCancel) {
                    checks += 1;
                }
                event = answer(files, action, cancel);
            }
        }
    }
    panic!("the task did not end");
}

#[test]
fn a_scan_task_reports_every_file_and_the_groups() {
    let files = files_of(&[("d/a", b"same"), ("d/b", b"other"), ("d/c", b"same")]);
    assert_eq!(
        run_task(&files, "d", None),
        vec![
            "Scanning directory: d",
            "Found 3 files, hashing...",
            "Hashed 1/3: d/a",
            "Hashed 2/3: d/b",
            "Hashed 3/3: d/c",
            "Duplicate group (2 files)",
            "Found 1 duplicate groups",
        ]
    );
}

#[test]
fn a_scan_task_without_duplicates_says_so() {
    let files = files_of(&[("d/a", b"1"), ("d/b", b"unreadable")]);
    assert_eq!(
        run_task(&files, "d", None),
        vec![
            "Scanning directory: d",
            "Found 2 files, hashing...",
            "Hashed 1/2: d/a",
            "Hashed 2/2: d/b",
            "No duplicates found.",
        ]
    );
}

#[test]
fn a_scan_task_of_an_empty_directory() {
    let files = files_of(&[]);
    assert_eq!(
        run_task(&files, "d", None),
        vec!["Scanning directory: d", "Found 0 files, hashing...", "No duplicates found."]
    );
}

#[test]
fn a_scan_task_treats_an_unlistable_directory_as_empty() {
    let mut task = find_duplicates_progress("d");
    let _ = task.advance(Event::Start);
    let _ = task.advance(Event::Cancel { requested: false });
    let step = task.advance(Event::Failed { message: "denied".to_string() });
    assert_eq!(step.lines, vec!["Found 0 files, hashing...", "No duplicates found."]);
    assert!(step.next.is_none());
}

#[test]
fn a_scan_task_can_be_cancelled_before_and_during_hashing() {
    let files = files_of(&[("d/a", b"same"), ("d/b", b"same"), ("d/c", b"same")]);
    assert_eq!(run_task(&files, "d", Some(0)), vec!["Scanning directory: d", "Canceled before scan"]);
    assert_eq!(
        run_task(&files, "d", Some(2)),
        vec![
            "Scanning directory: d",
            "Found 3 files, hashing...",
            "Hashed 1/3: d/a",
            "Canceled during hashing",
        ]
    );
}

#[test]
fn groups_stand_in_the_order_of_first_sight() {
    let mut groups: Vec<Group> = Vec::new();
    record(&mut groups, "h1".to_string(), "a".to_string());
    record(&mut groups, "h2".to_string(), "b".to_string());
    record(&mut groups, "h1".to_string(), "c".to_string());
    record(&mut groups, "h3".to_string(), "d".to_string());
    record(&mut groups, "h2".to_string(), "e".to_string());
    let seen: Vec<(String, Vec<String>)> =
        groups.iter().map(|g| (g.hash.clone(), g.paths.clone())).collect();
    assert_eq!(
        seen,
        vec![
            ("h1".to_string(), vec!["a".to_string(), "c".to_string()]),
            ("h2".to_string(), vec!["b".to_string(), "e".to_string()]),
            ("h3".to_string(), vec!["d".to_string()]),
        ]
    );
    assert_eq!(duplicates_in(&groups), vec![vec!["a", "c"], vec!["b", "e"]]);
}
