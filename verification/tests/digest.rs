use file_manager::digest::{calculate_hash_noninteractive, hash_report_of};
use file_manager::errors::ErrorKind;
use file_manager::host::{Action, Event, Step};

#[test]
fn sha256_is_the_default() {
    assert_eq!(
        hash_report_of("sha256", "f.txt", &b"abc".to_vec()),
        "SHA256: ba7816bf8f01cfea414140de5dae2223b00361a396177a9cb410ff61f20015ad\n File: f.txt"
    );
    assert_eq!(
        hash_report_of("", "f.txt", &Vec::new()),
        "SHA256: e3b0c44298fc1c149afbf4c8996fb92427ae41e4649b934ca495991b7852b855\n File: f.txt"
    );
    assert_eq!(
        hash_report_of("md5", "f", &Vec::new()),
        "SHA256: e3b0c44298fc1c149afbf4c8996fb92427ae41e4649b934ca495991b7852b855\n File: f"
    );
}

#[test]
fn blake3_is_chosen_in_any_letter_case() {
    let empty = "af1349b9f5f9a1a6a0404dea36dcc9499bcb25c9adc112b7cc9a93cae41f3262";
    for algo in ["blake3", "BLAKE3", "Blake3"] {
        assert_eq!(
            hash_report_of(algo, "f", &Vec::new()),
            format!("BLAKE3: {}\n File: f", empty)
        );
    }
    assert_eq!(
        hash_report_of("blake3", "f", &b"abc".to_vec()),
        format!("BLAKE3: {}\n File: f", blake3::hash(b"abc").to_hex())
    );
    assert!(hash_report_of("blake3 ", "f", &Vec::new()).starts_with("SHA256: "));
}

#[test]
fn a_hash_job_reads_the_file_and_reports() {
    let mut job = calculate_hash_noninteractive("data.bin", "blake3");
    match job.advance(Event::Start) {
        Step::Perform(Action::ReadFile { path }) => assert_eq!(path, "data.bin"),
        _ => panic!("expected a read"),
    }
    match job.advance(Event::Bytes { data: b"abc".to_vec() }) {
        Step::Finished(Ok(report)) => assert_eq!(
            report,
            format!("BLAKE3: {}\n File: data.bin", blake3::hash(b"abc").to_hex())
        ),
        _ => panic!("expected a report"),
    }
}

#[test]
fn a_file_that_cannot_be_read_fails_the_hash() {
    let mut job = calculate_hash_noninteractive("gone", "sha256");
    let _ = job.advance(Event::Start);
    match job.advance(Event::Failed { message: "No such file".to_string() }) {
        Step::Finished(Err(f)) => {
            assert_eq!(f.kind, ErrorKind::Io);
            assert_eq!(f.message, "Error reading file: No such file");
        }
        _ => panic!("expected a failure"),
    }
}
