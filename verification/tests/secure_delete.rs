use file_manager::errors::ErrorKind;
use file_manager::host::{Action, Event, Step};
use file_manager::secure::{
    progress_line_of, secure_delete_noninteractive, secure_delete_progress,
};

const MIB: usize = 1024 * 1024;

/// A file in memory, overwritten in place by a secure-delete task.
struct Disk {
    content: Option<Vec<u8>>,
    position: usize,
    cancel_at_check: Option<usize>,
    checks: usize,
    writes: Vec<usize>,
    removed: bool,
}

impl Disk {
    fn holding(content: Vec<u8>) -> Self {
        Disk {
            content: Some(content),
            position: 0,
            cancel_at_check: None,
            checks: 0,
            writes: Vec::new(),
            removed: false,
        }
    }

    fn perform(&mut self, action: Action) -> Event {
        match action {
            Action::CheckCancel => {
                let requested = self.cancel_at_check == Some(self.checks);
                self.checks += 1;
                Event::Cancel { requested }
            }
            Action::CheckExists { .. } => Event::Exists { exists: self.content.is_some() },
            Action::FileSize { .. } => {
                Event::Size { bytes: self.content.as_ref().unwrap().len() as u64 }
            }
            Action::OpenOutput { create, .. } => {
                assert!(!create);
                self.position = 0;
                Event::Done
            }
            Action::WriteOutput { data } => {
                let content = self.content.as_mut().unwrap();
                content[self.position..self.position + data.len()].copy_from_slice(&data);
                self.position += data.len();
                self.writes.push(data.len());
                Event::Done
            }
            Action::WriteFile { data, parents, .. } => {
                assert!(!parents);
                self.writes.push(data.len());
                self.content = Some(data);
                Event::Done
            }
            Action::RemoveFile { .. } => {
                self.content = None;
                self.removed = true;
                Event::Done
            }
            _ => panic!("unexpected action"),
        }
    }
}

fn run_task(disk: &mut Disk, path: &str) -> Vec<String> {
    let mut task = secure_delete_progress(path);
    let mut seen = Vec::new();
    let mut event = Event::Start;
    for _ in 0..1000 {
        let step = task.advance(event);
        seen.extend(step.lines);
        match step.next {
            None => return seen,
            Some(action) => event = disk.perform(action),
        }
    }
    panic!("the task did not end");
}

#[test]
fn a_file_is_overwritten_in_chunks_of_one_mebibyte_and_removed() {
    let mut disk = Disk::holding(vec![0xaa; 2 * MIB + 512 * 1024]);
    let seen = run_task(&mut disk, "secret.bin");
    assert_eq!(
        seen,
        vec![
            "Secure deleting: secret.bin",
            "Overwrite progress: 40.0%",
            "Overwrite progress: 80.0%",
            "Overwrite progress: 100.0%",
            "Secure delete complete",
        ]
    );
    assert_eq!(disk.writes, vec![MIB, MIB, 512 * 1024]);
    assert!(disk.removed);
    assert_eq!(disk.checks, 4);
}

#[test]
fn cancellation_during_the_overwrite_stops_writes_and_skips_the_removal() {
    let original = vec![0xaa; 3 * MIB];
    let mut disk = Disk::holding(original.clone());
    disk.cancel_at_check = Some(2);
    let seen = run_task(&mut disk, "secret.bin");
    assert_eq!(
        seen,
        vec![
            "Secure deleting: secret.bin",
            "Overwrite progress: 33.3%",
            "Canceled during overwrite",
        ]
    );
    assert_eq!(seen.last().unwrap(), "Canceled during overwrite");
    assert_eq!(disk.writes, vec![MIB]);
    assert!(!disk.removed);
    let content = disk.content.unwrap();
    assert_eq!(content.len(), 3 * MIB);
    assert_eq!(&content[MIB..], &original[MIB..]);
}

#[test]
fn cancellation_before_the_start_touches_nothing() {
    let mut disk = Disk::holding(vec![1, 2, 3]);
    disk.cancel_at_check = Some(0);
    let seen = run_task(&mut disk, "f");
    assert_eq!(seen, vec!["Secure deleting: f", "Canceled before start"]);
    assert!(disk.writes.is_empty());
    assert_eq!(disk.content, Some(vec![1, 2, 3]));
}

#[test]
fn an_ended_task_stays_silent() {
    let mut task = secure_delete_progress("f");
    let _ = task.advance(Event::Start);
    let step = task.advance(Event::Cancel { requested: true });
    assert!(step.next.is_none());
    for event in [Event::Start, Event::Done, Event::Cancel { requested: false }] {
        let step = task.advance(event);
        assert!(step.lines.is_empty());
        assert!(step.next.is_none());
    }
}

#[test]
fn an_empty_file_is_removed_without_a_write() {
    let mut disk = Disk::holding(Vec::new());
    let seen = run_task(&mut disk, "empty");
    assert_eq!(seen, vec!["Secure deleting: empty", "Secure delete complete"]);
    assert!(disk.writes.is_empty());
    assert!(disk.removed);
}

#[test]
fn a_missing_file_is_reported() {
    let mut disk = Disk::holding(Vec::new());
    disk.content = None;
    let seen = run_task(&mut disk, "gone");
    assert_eq!(seen, vec!["Secure deleting: gone", "File not found: gone"]);
}

#[test]
fn failures_of_the_host_are_reported_in_their_own_lines() {
    let mut task = secure_delete_progress("f");
    let _ = task.advance(Event::Start);
    let _ = task.advance(Event::Cancel { requested: false });
    let _ = task.advance(Event::Exists { exists: true });
    let step = task.advance(Event::Failed { message: "x".to_string() });
    assert_eq!(step.lines, vec!["Unable to read metadata for f"]);
    assert!(step.next.is_none());

    let mut task = secure_delete_progress("f");
    let _ = task.advance(Event::Start);
    let _ = task.advance(Event::Cancel { requested: false });
    let _ = task.advance(Event::Exists { exists: true });
    let _ = task.advance(Event::Size { bytes: 10 });
    let step = task.advance(Event::Failed { message: "denied".to_string() });
    assert_eq!(step.lines, vec!["Error opening file: denied"]);

    let mut task = secure_delete_progress("f");
    let _ = task.advance(Event::Start);
    let _ = task.advance(Event::Cancel { requested: false });
    let _ = task.advance(Event::Exists { exists: true });
    let _ = task.advance(Event::Size { bytes: 10 });
    let _ = task.advance(Event::Done);
    let step = task.advance(Event::Cancel { requested: false });
    match &step.next {
        Some(Action::WriteOutput { data }) => assert_eq!(data.len(), 10),
        _ => panic!("expected a write"),
    }
    let step = task.advance(Event::Failed { message: "disk error".to_string() });
    assert_eq!(step.lines, vec!["Error writing: disk error"]);

    let mut task = secure_delete_progress("f");
    let _ = task.advance(Event::Start);
    let _ = task.advance(Event::Cancel { requested: false });
    let _ = task.advance(Event::Exists { exists: true });
    let _ = task.advance(Event::Size { bytes: 0 });
    let step = task.advance(Event::Done);
    assert!(matches!(step.next, Some(Action::RemoveFile { .. })));
    let step = task.advance(Event::Failed { message: "busy".to_string() });
    assert_eq!(step.lines, vec!["Error deleting file: busy"]);
}

#[test]
fn progress_is_written_with_one_decimal_place() {
    assert_eq!(progress_line_of(0, 3), "Overwrite progress: 0.0%");
    assert_eq!(progress_line_of(1, 3), "Overwrite progress: 33.3%");
    assert_eq!(progress_line_of(2, 3), "Overwrite progress: 66.7%");
    assert_eq!(progress_line_of(3, 3), "Overwrite progress: 100.0%");
    assert_eq!(progress_line_of(1, 2000), "Overwrite progress: 0.1%");
    assert_eq!(progress_line_of(1, 2001), "Overwrite progress: 0.0%");
    assert_eq!(progress_line_of(u64::MAX, u64::MAX), "Overwrite progress: 100.0%");
}

#[test]
fn progress_agrees_with_floating_point_away_from_ties() {
    for (written, size) in [(1u64, 3u64), (2, 3), (1, 7), (5, 7), (1048576, 3145728), (999, 1000)] {
        let pct = (written as f64 / size as f64) * 100.0;
        assert_eq!(progress_line_of(written, size), format!("Overwrite progress: {:.1}%", pct));
    }
}

#[test]
fn the_random_bytes_are_not_the_old_content() {
    let mut disk = Disk::holding(vec![0u8; 4096]);
    let _ = run_task(&mut disk, "f");
    assert_eq!(disk.writes, vec![4096]);
    let mut job = secure_delete_noninteractive("f");
    let _ = job.advance(Event::Start);
    let _ = job.advance(Event::Exists { exists: true });
    match job.advance(Event::Size { bytes: 4096 }) {
        Step::Perform(Action::WriteFile { data, .. }) => {
            assert_eq!(data.len(), 4096);
            assert!(data.iter().any(|b| *b != 0));
        }
        _ => panic!("expected a write"),
    }
}

#[test]
fn a_plain_secure_delete_overwrites_and_removes() {
    let mut disk = Disk::holding(vec![9u8; 100]);
    let mut job = secure_delete_noninteractive("f");
    let mut event = Event::Start;
    let result = loop {
        match job.advance(event) {
            Step::Finished(result) => break result,
            Step::Perform(action) => event = disk.perform(action),
        }
    };
    assert!(result.is_ok());
    assert_eq!(disk.writes, vec![100]);
    assert!(disk.removed);
}

#[test]
fn a_plain_secure_delete_of_a_missing_file_is_not_found() {
    let mut job = secure_delete_noninteractive("gone");
    let _ = job.advance(Event::Start);
    match job.advance(Event::Exists { exists: false }) {
        Step::Finished(Err(f)) => {
            assert_eq!(f.kind, ErrorKind::NotFound);
            assert_eq!(f.message, "File not found: gone");
        }
        _ => panic!("expected a failure"),
    }
}

#[test]
fn a_plain_secure_delete_reports_failures() {
    let mut job = secure_delete_noninteractive("f");
    let _ = job.advance(Event::Start);
    let _ = job.advance(Event::Exists { exists: true });
    let _ = job.advance(Event::Size { bytes: 1 });
    match job.advance(Event::Failed { message: "ro".to_string() }) {
        Step::Finished(Err(f)) => assert_eq!(f.message, "Error overwriting file: ro"),
        _ => panic!("expected a failure"),
    }
    let mut job = secure_delete_noninteractive("f");
    let _ = job.advance(Event::Start);
    let _ = job.advance(Event::Exists { exists: true });
    let step = job.advance(Event::Failed { message: "no metadata".to_string() });
    assert!(matches!(step, Step::Perform(Action::RemoveFile { .. })));
    match job.advance(Event::Failed { message: "busy".to_string() }) {
        Step::Finished(Err(f)) => assert_eq!(f.message, "Error deleting file: busy"),
        _ => panic!("expected a failure"),
    }
}
