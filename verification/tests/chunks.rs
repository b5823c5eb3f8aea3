use file_manager::chunks::{
    chunk_bytes_of, chunk_path_of, copy_chunk, count_chunks, join_files_noninteractive,
    split_file_noninteractive,
};
use file_manager::errors::ErrorKind;
use file_manager::host::{Action, Event, Step};
use std::collections::BTreeMap;

const MIB: usize = 1024 * 1024;

fn split_in_memory(
    files: &mut BTreeMap<String, Vec<u8>>,
    path: &str,
    chunk_size_mb: u64,
) -> Result<usize, String> {
    let mut job = split_file_noninteractive(path, chunk_size_mb);
    let mut event = Event::Start;
    loop {
        match job.advance(event) {
            Step::Finished(result) => return result.map_err(|f| f.message),
            Step::Perform(Action::ReadFile { path }) => {
                event = match files.get(&path) {
                    Some(data) => Event::Bytes { data: data.clone() },
                    None => Event::Failed { message: "not there".to_string() },
                }
            }
            Step::Perform(Action::WriteFile { path, data, parents }) => {
                assert!(!parents);
                files.insert(path, data);
                event = Event::Done;
            }
            Step::Perform(_) => panic!("unexpected action"),
        }
    }
}

fn join_in_memory(
    files: &mut BTreeMap<String, Vec<u8>>,
    base: &str,
    output: &str,
) -> Result<usize, String> {
    let mut job = join_files_noninteractive(base, output);
    let mut event = Event::Start;
    let mut open: Option<String> = None;
    loop {
        match job.advance(event) {
            Step::Finished(result) => return result.map_err(|f| f.message),
            Step::Perform(Action::OpenOutput { path, create }) => {
                assert!(create);
                files.insert(path.clone(), Vec::new());
                open = Some(path);
                event = Event::Done;
            }
            Step::Perform(Action::ReadFile { path }) => {
                event = match files.get(&path) {
                    Some(data) => Event::Bytes { data: data.clone() },
                    None => Event::Failed { message: "not there".to_string() },
                }
            }
            Step::Perform(Action::WriteOutput { data }) => {
                files.get_mut(open.as_ref().unwrap()).unwrap().extend_from_slice(&data);
                event = Event::Done;
            }
            Step::Perform(_) => panic!("unexpected action"),
        }
    }
}

#[test]
fn ten_mebibytes_in_chunks_of_four_give_four_four_two() {
    let data: Vec<u8> = (0..10 * MIB).map(|i| (i % 253) as u8).collect();
    let mut files = BTreeMap::new();
    files.insert("big.bin".to_string(), data.clone());
    assert_eq!(split_in_memory(&mut files, "big.bin", 4), Ok(3));
    assert_eq!(files.get("big.bin.0").unwrap().len(), 4 * MIB);
    assert_eq!(files.get("big.bin.1").unwrap().len(), 4 * MIB);
    assert_eq!(files.get("big.bin.2").unwrap().len(), 2 * MIB);
    assert!(!files.contains_key("big.bin.3"));
    assert_eq!(join_in_memory(&mut files, "big.bin", "whole.bin"), Ok(3));
    assert_eq!(files.get("whole.bin").unwrap(), &data);
}

#[test]
fn a_file_of_exactly_one_chunk_and_an_empty_file() {
    let mut files = BTreeMap::new();
    files.insert("one".to_string(), vec![7u8; MIB]);
    files.insert("none".to_string(), Vec::new());
    assert_eq!(split_in_memory(&mut files, "one", 1), Ok(1));
    assert_eq!(files.get("one.0").unwrap().len(), MIB);
    assert_eq!(split_in_memory(&mut files, "none", 1), Ok(0));
    assert!(!files.contains_key("none.0"));
    assert_eq!(join_in_memory(&mut files, "none", "joined"), Ok(0));
    assert_eq!(files.get("joined").unwrap().len(), 0);
}

#[test]
fn chunk_numbers_are_written_without_padding() {
    assert_eq!(chunk_path_of("f.bin", 0), "f.bin.0");
    assert_eq!(chunk_path_of("f.bin", 9), "f.bin.9");
    assert_eq!(chunk_path_of("f.bin", 10), "f.bin.10");
    assert_eq!(chunk_path_of("dir/f", 123), "dir/f.123");
}

#[test]
fn chunk_sizes_are_counted_in_mebibytes() {
    assert_eq!(chunk_bytes_of(1), Some(1048576));
    assert_eq!(chunk_bytes_of(100), Some(104857600));
    assert_eq!(chunk_bytes_of(0), None);
    assert_eq!(chunk_bytes_of(u64::MAX), None);
    assert_eq!(chunk_bytes_of(u64::MAX / 1048576 + 1), None);
}

#[test]
fn chunks_are_counted_by_rounding_up() {
    assert_eq!(count_chunks(0, 4), 0);
    assert_eq!(count_chunks(1, 4), 1);
    assert_eq!(count_chunks(4, 4), 1);
    assert_eq!(count_chunks(5, 4), 2);
    assert_eq!(count_chunks(10, 4), 3);
    assert_eq!(count_chunks(usize::MAX, 1), usize::MAX);
}

#[test]
fn a_chunk_is_a_slice_of_the_data() {
    let data: Vec<u8> = (0..10u8).collect();
    assert_eq!(copy_chunk(&data, 4, 0), vec![0, 1, 2, 3]);
    assert_eq!(copy_chunk(&data, 4, 1), vec![4, 5, 6, 7]);
    assert_eq!(copy_chunk(&data, 4, 2), vec![8, 9]);
}

#[test]
fn a_chunk_size_of_zero_is_an_invalid_argument() {
    let mut job = split_file_noninteractive("f", 0);
    match job.advance(Event::Start) {
        Step::Finished(Err(f)) => {
            assert_eq!(f.kind, ErrorKind::InvalidArgument);
            assert_eq!(f.message, "Invalid chunk size");
        }
        _ => panic!("expected a failure"),
    }
}

#[test]
fn a_file_that_cannot_be_read_fails_the_split() {
    let mut files = BTreeMap::new();
    assert_eq!(
        split_in_memory(&mut files, "gone", 1),
        Err("Error reading file: not there".to_string())
    );
}

#[test]
fn a_chunk_that_cannot_be_written_fails_the_split() {
    let mut job = split_file_noninteractive("f", 1);
    let _ = job.advance(Event::Start);
    let step = job.advance(Event::Bytes { data: vec![1, 2, 3] });
    assert!(matches!(step, Step::Perform(Action::WriteFile { .. })));
    match job.advance(Event::Failed { message: "disk full".to_string() }) {
        Step::Finished(Err(f)) => {
            assert_eq!(f.kind, ErrorKind::Io);
            assert_eq!(f.message, "Error creating chunk: disk full");
        }
        _ => panic!("expected a failure"),
    }
}

#[test]
fn joining_stops_with_success_at_the_first_missing_part() {
    let mut files = BTreeMap::new();
    files.insert("p.0".to_string(), b"ab".to_vec());
    files.insert("p.1".to_string(), b"cd".to_vec());
    files.insert("p.3".to_string(), b"zz".to_vec());
    assert_eq!(join_in_memory(&mut files, "p", "out"), Ok(2));
    assert_eq!(files.get("out").unwrap(), b"abcd");
}

#[test]
fn an_output_that_cannot_be_created_fails_the_join() {
    let mut job = join_files_noninteractive("p", "out");
    let step = job.advance(Event::Start);
    assert!(matches!(step, Step::Perform(Action::OpenOutput { .. })));
    match job.advance(Event::Failed { message: "denied".to_string() }) {
        Step::Finished(Err(f)) => {
            assert_eq!(f.kind, ErrorKind::Io);
            assert_eq!(f.message, "Error creating output file: denied");
        }
        _ => panic!("expected a failure"),
    }
}

#[test]
fn a_part_that_cannot_be_added_fails_the_join() {
    let mut job = join_files_noninteractive("p", "out");
    let _ = job.advance(Event::Start);
    let step = job.advance(Event::Done);
    match step {
        Step::Perform(Action::ReadFile { path }) => assert_eq!(path, "p.0"),
        _ => panic!("expected a read"),
    }
    let _ = job.advance(Event::Bytes { data: vec![1] });
    match job.advance(Event::Failed { message: "disk full".to_string() }) {
        Step::Finished(Err(f)) => {
            assert_eq!(f.message, "Error writing to output file: disk full")
        }
        _ => panic!("expected a failure"),
    }
}
