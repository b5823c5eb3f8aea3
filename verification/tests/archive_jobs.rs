use file_manager::archive::{
    archive_extract_noninteractive, archive_list_noninteractive, extract_archive, list_archive,
};
use file_manager::errors::{ErrorKind, Failure};
use file_manager::host::{Action, Event, SourceKind, Step};
use file_manager::packing::{archive_create_noninteractive, create_archive};
use std::collections::BTreeMap;
use std::io::{Cursor, Read, Write};

/// A host that keeps its files in memory.
struct MemoryHost {
    files: BTreeMap<String, Vec<u8>>,
    dirs: Vec<String>,
    tool: Option<(bool, String, String)>,
    tool_fails_to_start: bool,
    output: Option<String>,
    asked: Vec<String>,
    ran: Vec<Vec<String>>,
}

impl MemoryHost {
    fn new() -> Self {
        MemoryHost {
            files: BTreeMap::new(),
            dirs: Vec::new(),
            tool: None,
            tool_fails_to_start: false,
            output: None,
            asked: Vec::new(),
            ran: Vec::new(),
        }
    }

    fn with_file(mut self, path: &str, data: &[u8]) -> Self {
        self.files.insert(path.to_string(), data.to_vec());
        self
    }

    fn perform(&mut self, action: Action) -> Event {
        match action {
            Action::CheckCancel => {
                self.asked.push("cancel".to_string());
                Event::Cancel { requested: false }
            }
            Action::CheckExists { path } => {
                self.asked.push(format!("exists {}", path));
                Event::Exists { exists: self.files.contains_key(&path) }
            }
            Action::ProbeTool => {
                self.asked.push("probe".to_string());
                Event::ToolProbed { available: self.tool.is_some() || self.tool_fails_to_start }
            }
            Action::RunTool { arguments } => {
                self.asked.push("run".to_string());
                self.ran.push(arguments);
                if self.tool_fails_to_start {
                    return Event::Failed { message: "cannot start".to_string() };
                }
                let (success, stdout, stderr) = self.tool.clone().unwrap();
                Event::ToolRan { success, stdout, stderr }
            }
            Action::ReadFile { path } => {
                self.asked.push(format!("read {}", path));
                match self.files.get(&path) {
                    Some(data) => Event::Bytes { data: data.clone() },
                    None => Event::Failed { message: format!("no such file: {}", path) },
                }
            }
            Action::FileSize { path } => match self.files.get(&path) {
                Some(data) => Event::Size { bytes: data.len() as u64 },
                None => Event::Failed { message: "no such file".to_string() },
            },
            Action::ListFiles { dir } => {
                let prefix = format!("{}/", dir);
                let paths = self
                    .files
                    .keys()
                    .filter(|k| k.starts_with(&prefix) && !k[prefix.len()..].contains('/'))
                    .cloned()
                    .collect();
                Event::Files { paths }
            }
            Action::InspectSource { path } => {
                self.asked.push(format!("inspect {}", path));
                if self.files.contains_key(&path) {
                    return Event::Source { kind: SourceKind::File };
                }
                let prefix = format!("{}/", path.trim_end_matches('/'));
                let files: Vec<String> =
                    self.files.keys().filter(|k| k.starts_with(&prefix)).cloned().collect();
                if files.is_empty() {
                    Event::Source { kind: SourceKind::Other }
                } else {
                    Event::Source { kind: SourceKind::Directory { files } }
                }
            }
            Action::MakeDirs { path } => {
                self.asked.push(format!("mkdirs {}", path));
                self.dirs.push(path);
                Event::Done
            }
            Action::WriteFile { path, data, parents } => {
                self.asked.push(format!("write {} parents={}", path, parents));
                self.files.insert(path, data);
                Event::Done
            }
            Action::OpenOutput { path, create } => {
                self.asked.push(format!("open {} create={}", path, create));
                if path.is_empty() {
                    return Event::Failed { message: "cannot create".to_string() };
                }
                if create {
                    self.files.insert(path.clone(), Vec::new());
                }
                self.output = Some(path);
                Event::Done
            }
            Action::WriteOutput { data } => {
                self.asked.push("append".to_string());
                let path = self.output.clone().unwrap();
                self.files.get_mut(&path).unwrap().extend_from_slice(&data);
                Event::Done
            }
            Action::RemoveFile { path } => {
                self.files.remove(&path);
                Event::Done
            }
            Action::PackTar { sources, output, gzip } => {
                self.asked.push(format!("pack {} gzip={}", output, gzip));
                let mut builder = tar::Builder::new(Vec::new());
                for source in sources.iter() {
                    let data = match self.files.get(source) {
                        Some(data) => data.clone(),
                        None => return Event::Failed { message: "missing source".to_string() },
                    };
                    let mut header = tar::Header::new_gnu();
                    header.set_size(data.len() as u64);
                    header.set_mode(0o644);
                    header.set_cksum();
                    builder.append_data(&mut header, source, Cursor::new(data)).unwrap();
                }
                let plain = builder.into_inner().unwrap();
                let bytes = if gzip {
                    let mut encoder = flate2::write::GzEncoder::new(
                        Vec::new(),
                        flate2::Compression::default(),
                    );
                    encoder.write_all(&plain).unwrap();
                    encoder.finish().unwrap()
                } else {
                    plain
                };
                self.files.insert(output, bytes);
                Event::Done
            }
            Action::UnpackTar { archive, dest, gzip } => {
                self.asked.push(format!("unpack {} gzip={}", archive, gzip));
                let bytes = self.files.get(&archive).unwrap().clone();
                let reader: Box<dyn Read> = if gzip {
                    Box::new(flate2::read::GzDecoder::new(Cursor::new(bytes)))
                } else {
                    Box::new(Cursor::new(bytes))
                };
                let mut tar = tar::Archive::new(reader);
                let entries = match tar.entries() {
                    Ok(entries) => entries,
                    Err(e) => return Event::Failed { message: e.to_string() },
                };
                for entry in entries {
                    let mut entry = match entry {
                        Ok(entry) => entry,
                        Err(e) => return Event::Failed { message: e.to_string() },
                    };
                    let name = entry.path().unwrap().display().to_string();
                    let mut data = Vec::new();
                    if let Err(e) = entry.read_to_end(&mut data) {
                        return Event::Failed { message: e.to_string() };
                    }
                    self.files.insert(format!("{}/{}", dest, name), data);
                }
                Event::Done
            }
        }
    }
}

fn drive<T>(host: &mut MemoryHost, mut advance: impl FnMut(Event) -> Step<T>) -> Result<T, Failure> {
    let mut event = Event::Start;
    for _ in 0..10_000 {
        match advance(event) {
            Step::Finished(result) => return result,
            Step::Perform(action) => event = host.perform(action),
        }
    }
    panic!("the job did not end");
}

fn zip_of(entries: &[(&str, &[u8])]) -> Vec<u8> {
    let mut writer = zip::ZipWriter::new(Cursor::new(Vec::new()));
    for (name, data) in entries {
        if name.ends_with('/') {
            writer.add_directory(*name, zip::write::FileOptions::default()).unwrap();
        } else {
            writer.start_file(*name, zip::write::FileOptions::default()).unwrap();
            writer.write_all(data).unwrap();
        }
    }
    writer.finish().unwrap().into_inner()
}

fn tar_of(entries: &[(&str, &[u8])]) -> Vec<u8> {
    let mut builder = tar::Builder::new(Vec::new());
    for (name, data) in entries {
        let mut header = tar::Header::new_gnu();
        header.set_size(data.len() as u64);
        header.set_mode(0o644);
        header.set_cksum();
        builder.append_data(&mut header, name, Cursor::new(data.to_vec())).unwrap();
    }
    builder.into_inner().unwrap()
}

fn gzip_of(data: &[u8]) -> Vec<u8> {
    let mut encoder = flate2::write::GzEncoder::new(Vec::new(), flate2::Compression::default());
    encoder.write_all(data).unwrap();
    encoder.finish().unwrap()
}

fn names_in_zip(bytes: &[u8]) -> Vec<String> {
    let mut archive = zip::ZipArchive::new(Cursor::new(bytes.to_vec())).unwrap();
    (0..archive.len()).map(|i| archive.by_index(i).unwrap().name().to_string()).collect()
}

fn content_in_zip(bytes: &[u8], name: &str) -> Vec<u8> {
    let mut archive = zip::ZipArchive::new(Cursor::new(bytes.to_vec())).unwrap();
    let mut file = archive.by_name(name).unwrap();
    let mut data = Vec::new();
    file.read_to_end(&mut data).unwrap();
    data
}

#[test]
fn list_of_a_missing_archive_is_not_found() {
    let mut host = MemoryHost::new();
    let mut job = list_archive("gone.zip");
    let failure = drive(&mut host, |e| job.advance(e)).unwrap_err();
    assert_eq!(failure.kind, ErrorKind::NotFound);
    assert_eq!(failure.message, "Archive not found: gone.zip");
    assert_eq!(host.asked, vec!["exists gone.zip"]);
}

#[test]
fn list_goes_to_the_tool_when_it_is_there() {
    let mut host = MemoryHost::new().with_file("a.zip", b"whatever");
    host.tool = Some((true, "listing from tool".to_string(), "".to_string()));
    let mut job = list_archive("a.zip");
    assert_eq!(drive(&mut host, |e| job.advance(e)).unwrap(), "listing from tool");
    assert_eq!(host.ran, vec![vec!["l".to_string(), "a.zip".to_string()]]);
    assert_eq!(host.asked, vec!["exists a.zip", "probe", "run"]);
}

#[test]
fn a_failing_tool_gives_its_standard_error() {
    let mut host = MemoryHost::new().with_file("a.zip", b"whatever");
    host.tool = Some((false, "ignored".to_string(), "tool says no".to_string()));
    let mut job = list_archive("a.zip");
    let failure = drive(&mut host, |e| job.advance(e)).unwrap_err();
    assert_eq!(failure.kind, ErrorKind::ToolInvocation);
    assert_eq!(failure.message, "tool says no");
}

#[test]
fn a_tool_that_cannot_be_started_is_a_tool_failure() {
    let mut host = MemoryHost::new().with_file("a.zip", b"whatever");
    host.tool_fails_to_start = true;
    let mut job = list_archive("a.zip");
    let failure = drive(&mut host, |e| job.advance(e)).unwrap_err();
    assert_eq!(failure.kind, ErrorKind::ToolInvocation);
    assert_eq!(failure.message, "cannot start");
}

#[test]
fn builtin_list_of_a_zip_names_every_entry_once() {
    let bytes = zip_of(&[("one.txt", b"1"), ("dir/", b""), ("dir/two.txt", b"22")]);
    let mut host = MemoryHost::new().with_file("a.zip", &bytes);
    let mut job = archive_list_noninteractive("a.zip");
    let text = drive(&mut host, |e| job.advance(e)).unwrap();
    assert_eq!(text, "one.txt\ndir/\ndir/two.txt\n");
    assert_eq!(host.asked, vec!["exists a.zip", "probe", "read a.zip"]);
}

#[test]
fn builtin_list_of_an_empty_zip_is_empty() {
    let bytes = zip_of(&[]);
    let mut host = MemoryHost::new().with_file("empty.zip", &bytes);
    let mut job = list_archive("empty.zip");
    assert_eq!(drive(&mut host, |e| job.advance(e)).unwrap(), "");
}

#[test]
fn builtin_list_of_a_tar_and_of_a_gzipped_tar() {
    let plain = tar_of(&[("a.txt", b"alpha"), ("sub/b.txt", b"beta")]);
    let mut host = MemoryHost::new()
        .with_file("x.tar", &plain)
        .with_file("x.tar.gz", &gzip_of(&plain))
        .with_file("x.tgz", &gzip_of(&plain));
    for name in ["x.tar", "x.tar.gz", "x.tgz"] {
        let mut job = list_archive(name);
        assert_eq!(drive(&mut host, |e| job.advance(e)).unwrap(), "a.txt\nsub/b.txt\n");
    }
}

#[test]
fn builtin_list_of_an_unknown_kind_is_unsupported() {
    let mut host = MemoryHost::new().with_file("a.rar", b"Rar!");
    let mut job = list_archive("a.rar");
    let failure = drive(&mut host, |e| job.advance(e)).unwrap_err();
    assert_eq!(failure.kind, ErrorKind::Unsupported);
    assert_eq!(failure.message, "Unsupported archive format and 7z not available");
    assert_eq!(host.asked, vec!["exists a.rar", "probe"]);
}

#[test]
fn a_malformed_zip_is_a_container_failure() {
    let mut host = MemoryHost::new().with_file("bad.zip", b"this is no zip file at all");
    let mut job = list_archive("bad.zip");
    let failure = drive(&mut host, |e| job.advance(e)).unwrap_err();
    assert_eq!(failure.kind, ErrorKind::ContainerFormat);
    assert!(failure.message.starts_with("invalid Zip archive"));
}

#[test]
fn a_malformed_tar_is_a_container_failure() {
    let mut bytes = tar_of(&[("a.txt", b"alpha")]);
    bytes[0] ^= 0xff;
    let mut host = MemoryHost::new().with_file("bad.tar", &bytes);
    let mut job = list_archive("bad.tar");
    let failure = drive(&mut host, |e| job.advance(e)).unwrap_err();
    assert_eq!(failure.kind, ErrorKind::ContainerFormat);
    assert!(!failure.message.is_empty());
}

#[test]
fn a_gzip_stream_that_is_none_is_a_container_failure() {
    let mut host = MemoryHost::new().with_file("bad.tgz", b"plainly not gzip");
    let mut job = list_archive("bad.tgz");
    let failure = drive(&mut host, |e| job.advance(e)).unwrap_err();
    assert_eq!(failure.kind, ErrorKind::ContainerFormat);
}

#[test]
fn an_archive_that_cannot_be_read_is_an_io_failure() {
    let mut host = MemoryHost::new().with_file("a.zip", b"");
    let mut job = list_archive("a.zip");
    let mut step = job.advance(Event::Start);
    assert!(matches!(step, Step::Perform(Action::CheckExists { .. })));
    step = job.advance(Event::Exists { exists: true });
    assert!(matches!(step, Step::Perform(Action::ProbeTool)));
    step = job.advance(Event::ToolProbed { available: false });
    assert!(matches!(step, Step::Perform(Action::ReadFile { .. })));
    step = job.advance(Event::Failed { message: "permission denied".to_string() });
    match step {
        Step::Finished(Err(f)) => {
            assert_eq!(f.kind, ErrorKind::Io);
            assert_eq!(f.message, "permission denied");
        }
        _ => panic!("expected a failure"),
    }
    let _ = host.perform(Action::CheckCancel);
}

#[test]
fn an_event_out_of_turn_ends_the_job() {
    let mut job = list_archive("a.zip");
    match job.advance(Event::Done) {
        Step::Finished(Err(f)) => {
            assert_eq!(f.kind, ErrorKind::InvalidArgument);
            assert_eq!(f.message, "Unexpected event");
        }
        _ => panic!("expected a failure"),
    }
    assert!(matches!(job.advance(Event::Start), Step::Finished(Err(_))));
}

#[test]
fn extract_hands_the_tool_its_arguments() {
    let mut host = MemoryHost::new().with_file("a.7z", b"x");
    host.tool = Some((true, "Everything is Ok".to_string(), "".to_string()));
    let mut job = extract_archive("a.7z", "out", Some("secret"));
    assert_eq!(drive(&mut host, |e| job.advance(e)).unwrap(), "Everything is Ok");
    assert_eq!(host.ran, vec![vec!["x", "a.7z", "-oout", "-y", "-psecret"]]);

    let mut job = extract_archive("a.7z", "out", Some(""));
    drive(&mut host, |e| job.advance(e)).unwrap();
    assert_eq!(host.ran[1], vec!["x", "a.7z", "-oout", "-y"]);

    let mut job = archive_extract_noninteractive("a.7z", "out", None);
    drive(&mut host, |e| job.advance(e)).unwrap();
    assert_eq!(host.ran[2], vec!["x", "a.7z", "-oout", "-y"]);
}

#[test]
fn builtin_extract_of_a_zip_writes_every_entry_below_dest() {
    let bytes = zip_of(&[("one.txt", b"1"), ("dir/", b""), ("dir/two.txt", b"22")]);
    let mut host = MemoryHost::new().with_file("a.zip", &bytes);
    let mut job = extract_archive("a.zip", "out", Some("ignored"));
    assert_eq!(drive(&mut host, |e| job.advance(e)).unwrap(), "Extraction complete");
    assert_eq!(host.files.get("out/one.txt").unwrap(), b"1");
    assert_eq!(host.files.get("out/dir/two.txt").unwrap(), b"22");
    assert_eq!(host.dirs, vec!["out/dir"]);
    assert_eq!(
        host.asked,
        vec![
            "exists a.zip",
            "probe",
            "read a.zip",
            "write out/one.txt parents=true",
            "mkdirs out/dir",
            "write out/dir/two.txt parents=true",
        ]
    );
}

#[test]
fn a_crafted_entry_name_is_not_written_outside_dest() {
    let bytes = zip_of(&[
        ("../../escape.txt", b"gotcha"),
        ("/etc/passwd", b"root"),
        ("a/../../b.txt", b"b"),
        ("..\\..\\win.txt", b"w"),
        ("./c/./d.txt", b"d"),
    ]);
    let mut host = MemoryHost::new().with_file("evil.zip", &bytes);
    let mut job = extract_archive("evil.zip", "safe/dest", None);
    assert_eq!(drive(&mut host, |e| job.advance(e)).unwrap(), "Extraction complete");
    let written: Vec<&String> = host.files.keys().filter(|k| *k != "evil.zip").collect();
    assert_eq!(
        written,
        vec![
            "safe/dest/a/b.txt",
            "safe/dest/c/d.txt",
            "safe/dest/escape.txt",
            "safe/dest/etc/passwd",
            "safe/dest/win.txt",
        ]
    );
    for path in written {
        assert!(path.starts_with("safe/dest/"));
        assert!(!path.split('/').any(|segment| segment == ".."));
    }
    assert_eq!(host.files.get("safe/dest/escape.txt").unwrap(), b"gotcha");
}

#[test]
fn cleaned_names_agree_with_the_zip_crate() {
    let names = ["../../escape.txt", "/abs/x", "a/./b", "a//b", "x\\y", "..", "plain.txt", "a/b/"];
    let entries: Vec<(&str, &[u8])> = names.iter().map(|n| (*n, b"x" as &[u8])).collect();
    let mut writer = zip::ZipWriter::new(Cursor::new(Vec::new()));
    for (name, data) in entries.iter() {
        writer.start_file(*name, zip::write::FileOptions::default()).unwrap();
        writer.write_all(data).unwrap();
    }
    let bytes = writer.finish().unwrap().into_inner();
    let mut archive = zip::ZipArchive::new(Cursor::new(bytes.clone())).unwrap();
    let mut job = extract_archive("n.zip", "d", None);
    let _ = job.advance(Event::Start);
    let _ = job.advance(Event::Exists { exists: true });
    let _ = job.advance(Event::ToolProbed { available: false });
    let mut step = job.advance(Event::Bytes { data: bytes });
    for i in 0..names.len() {
        let expected = std::path::Path::new("d")
            .join(archive.by_index(i).unwrap().mangled_name())
            .to_string_lossy()
            .to_string();
        match step {
            Step::Perform(Action::WriteFile { path, .. }) => assert_eq!(path, expected),
            Step::Perform(Action::MakeDirs { path }) => {
                assert_eq!(path, expected.trim_end_matches('/'))
            }
            _ => panic!("expected an action for entry {}", i),
        }
        step = job.advance(Event::Done);
    }
    assert!(matches!(step, Step::Finished(Ok(_))));
}

#[test]
fn extraction_stops_at_the_first_write_that_fails() {
    let bytes = zip_of(&[("one.txt", b"1"), ("two.txt", b"2")]);
    let mut job = extract_archive("a.zip", "out", None);
    let _ = job.advance(Event::Start);
    let _ = job.advance(Event::Exists { exists: true });
    let _ = job.advance(Event::ToolProbed { available: false });
    let step = job.advance(Event::Bytes { data: bytes });
    assert!(matches!(step, Step::Perform(Action::WriteFile { .. })));
    match job.advance(Event::Failed { message: "disk full".to_string() }) {
        Step::Finished(Err(f)) => {
            assert_eq!(f.kind, ErrorKind::Io);
            assert_eq!(f.message, "disk full");
        }
        _ => panic!("expected a failure"),
    }
}

#[test]
fn an_entry_that_asks_for_a_password_is_a_container_failure() {
    let mut bytes = zip_of(&[("secret.txt", b"0123456789abcdef")]);
    // Set the "encrypted" bit of the general-purpose flags in the central
    // directory header, which starts with the signature PK\x01\x02.
    let at = bytes.windows(4).position(|w| w == [0x50, 0x4b, 0x01, 0x02]).unwrap();
    bytes[at + 8] |= 1;
    let mut host = MemoryHost::new().with_file("locked.zip", &bytes);
    let mut job = list_archive("locked.zip");
    let failure = drive(&mut host, |e| job.advance(e)).unwrap_err();
    assert_eq!(failure.kind, ErrorKind::ContainerFormat);
    assert_eq!(failure.message, "unsupported Zip archive: Password required to decrypt file");

    let mut job = extract_archive("locked.zip", "out", Some("pw"));
    let failure = drive(&mut host, |e| job.advance(e)).unwrap_err();
    assert_eq!(failure.kind, ErrorKind::ContainerFormat);
    assert!(host.files.keys().all(|k| !k.starts_with("out/")));
}

#[test]
fn an_entry_with_a_stray_encryption_record_is_refused_without_aborting() {
    let record = [0x77u8, 0x99, 0x07, 0x00, 0x02, 0x00, 0x41, 0x45, 0x03, 0x00, 0x00];
    let mut writer = zip::ZipWriter::new(Cursor::new(Vec::new()));
    let options =
        zip::write::FileOptions::default().compression_method(zip::CompressionMethod::Stored);
    writer.start_file_with_extra_data("odd.txt", options).unwrap();
    writer.write_all(&record).unwrap();
    writer.end_extra_data().unwrap();
    writer.write_all(b"payload").unwrap();
    let mut bytes = writer.finish().unwrap().into_inner();
    let mut patched = 0;
    for i in 0..bytes.len() - record.len() {
        if bytes[i..i + record.len()] == record {
            bytes[i] = 0x01;
            patched += 1;
        }
    }
    assert!(patched >= 1);
    let mut host = MemoryHost::new().with_file("odd.zip", &bytes);
    let mut job = list_archive("odd.zip");
    let failure = drive(&mut host, |e| job.advance(e)).unwrap_err();
    assert_eq!(failure.kind, ErrorKind::ContainerFormat);
    assert_eq!(failure.message, "unsupported Zip archive: Password required to decrypt file");
}

#[test]
fn builtin_extract_of_tar_kinds_is_handed_to_the_host() {
    let plain = tar_of(&[("a.txt", b"alpha"), ("sub/b.txt", b"beta")]);
    let mut host = MemoryHost::new()
        .with_file("x.tar", &plain)
        .with_file("x.tar.gz", &gzip_of(&plain));
    let mut job = extract_archive("x.tar", "out1", None);
    assert_eq!(drive(&mut host, |e| job.advance(e)).unwrap(), "Extraction complete");
    let mut job = extract_archive("x.tar.gz", "out2", None);
    assert_eq!(drive(&mut host, |e| job.advance(e)).unwrap(), "Extraction complete");
    assert!(host.asked.contains(&"unpack x.tar gzip=false".to_string()));
    assert!(host.asked.contains(&"unpack x.tar.gz gzip=true".to_string()));
    assert_eq!(host.files.get("out1/sub/b.txt").unwrap(), b"beta");
    assert_eq!(host.files.get("out2/a.txt").unwrap(), b"alpha");
}

#[test]
fn builtin_extract_of_an_unknown_kind_is_unsupported() {
    let mut host = MemoryHost::new().with_file("a.rar", b"Rar!");
    let mut job = extract_archive("a.rar", "out", None);
    let failure = drive(&mut host, |e| job.advance(e)).unwrap_err();
    assert_eq!(failure.kind, ErrorKind::Unsupported);
}

#[test]
fn create_without_sources_is_an_invalid_argument() {
    let mut host = MemoryHost::new();
    host.tool = Some((true, "".to_string(), "".to_string()));
    let mut job = create_archive(&[], "out.zip", None, None);
    let failure = drive(&mut host, |e| job.advance(e)).unwrap_err();
    assert_eq!(failure.kind, ErrorKind::InvalidArgument);
    assert_eq!(failure.message, "No sources provided");
    assert!(host.asked.is_empty());
}

#[test]
fn create_hands_the_tool_its_arguments() {
    let mut host = MemoryHost::new();
    host.tool = Some((true, "done".to_string(), "".to_string()));
    let mut job = create_archive(&["a.txt", "dir"], "out.7z", Some("7z"), Some("pw"));
    assert_eq!(drive(&mut host, |e| job.advance(e)).unwrap(), "done");
    assert_eq!(host.ran[0], vec!["a", "out.7z", "-t7z", "-ppw", "-mhe=on", "a.txt", "dir"]);

    let mut job = create_archive(&["a.txt"], "out.7z", Some(""), Some(""));
    drive(&mut host, |e| job.advance(e)).unwrap();
    assert_eq!(host.ran[1], vec!["a", "out.7z", "a.txt"]);

    let sources = vec!["a.txt".to_string()];
    let mut job = archive_create_noninteractive(&sources, "out.7z", None, Some("pw"));
    drive(&mut host, |e| job.advance(e)).unwrap();
    assert_eq!(host.ran[2], vec!["a", "out.7z", "-ppw", "-mhe=on", "a.txt"]);
}

#[test]
fn builtin_create_of_a_zip_names_files_and_walked_files() {
    let mut host = MemoryHost::new()
        .with_file("docs/readme.md", b"read me")
        .with_file("tree/a.txt", b"A")
        .with_file("tree/sub/b.txt", b"BB")
        .with_file("loose.bin", &[0u8, 1, 2, 3]);
    let mut job = create_archive(&["docs/readme.md", "tree", "nowhere", "loose.bin"], "out.zip", None, None);
    assert_eq!(drive(&mut host, |e| job.advance(e)).unwrap(), "Archive created");
    let bytes = host.files.get("out.zip").unwrap().clone();
    assert_eq!(names_in_zip(&bytes), vec!["readme.md", "a.txt", "sub/b.txt", "loose.bin"]);
    assert_eq!(content_in_zip(&bytes, "readme.md"), b"read me");
    assert_eq!(content_in_zip(&bytes, "sub/b.txt"), b"BB");
    assert_eq!(content_in_zip(&bytes, "loose.bin"), vec![0u8, 1, 2, 3]);
}

#[test]
fn list_of_a_created_zip_gives_exactly_the_written_names() {
    let mut host = MemoryHost::new()
        .with_file("one.txt", b"1")
        .with_file("two.txt", b"2")
        .with_file("d/three.txt", b"3");
    let mut job = create_archive(&["one.txt", "two.txt", "d"], "made.zip", None, None);
    drive(&mut host, |e| job.advance(e)).unwrap();
    let mut job = list_archive("made.zip");
    assert_eq!(drive(&mut host, |e| job.advance(e)).unwrap(), "one.txt\ntwo.txt\nthree.txt\n");
}

#[test]
fn create_then_extract_gives_every_file_back() {
    let big: Vec<u8> = (0..200_000u32).map(|i| (i * 7 % 251) as u8).collect();
    for output in ["round.zip", "round.tar", "round.tar.gz", "round.tgz"] {
        let mut host = MemoryHost::new()
            .with_file("alpha.txt", b"alpha")
            .with_file("empty.bin", b"")
            .with_file("big.bin", &big);
        let mut job = create_archive(&["alpha.txt", "empty.bin", "big.bin"], output, None, None);
        assert_eq!(drive(&mut host, |e| job.advance(e)).unwrap(), "Archive created");
        let mut job = extract_archive(output, "fresh", None);
        assert_eq!(drive(&mut host, |e| job.advance(e)).unwrap(), "Extraction complete");
        assert_eq!(host.files.get("fresh/alpha.txt").unwrap(), b"alpha");
        assert_eq!(host.files.get("fresh/empty.bin").unwrap(), b"");
        assert_eq!(host.files.get("fresh/big.bin").unwrap(), &big);
        let mut job = list_archive(output);
        assert_eq!(
            drive(&mut host, |e| job.advance(e)).unwrap(),
            "alpha.txt\nempty.bin\nbig.bin\n"
        );
    }
}

#[test]
fn a_plain_tar_is_not_gzipped_and_a_gzipped_one_is() {
    let mut host = MemoryHost::new().with_file("a.txt", b"alpha");
    let mut job = create_archive(&["a.txt"], "p.tar", None, None);
    drive(&mut host, |e| job.advance(e)).unwrap();
    let mut job = create_archive(&["a.txt"], "p.tar.gz", None, None);
    drive(&mut host, |e| job.advance(e)).unwrap();
    assert!(host.asked.contains(&"pack p.tar gzip=false".to_string()));
    assert!(host.asked.contains(&"pack p.tar.gz gzip=true".to_string()));
    assert_eq!(&host.files.get("p.tar.gz").unwrap()[..2], &[0x1f, 0x8b]);
    assert_ne!(&host.files.get("p.tar").unwrap()[..2], &[0x1f, 0x8b]);
}

#[test]
fn builtin_create_of_an_unknown_kind_is_unsupported() {
    let mut host = MemoryHost::new().with_file("a.txt", b"alpha");
    let mut job = create_archive(&["a.txt"], "out.rar", Some("rar"), None);
    let failure = drive(&mut host, |e| job.advance(e)).unwrap_err();
    assert_eq!(failure.kind, ErrorKind::Unsupported);
    assert_eq!(failure.message, "Unsupported output format and 7z not available");
}

#[test]
fn a_source_that_cannot_be_read_fails_the_creation() {
    let mut job = create_archive(&["a.txt"], "out.zip", None, None);
    let _ = job.advance(Event::Start);
    let _ = job.advance(Event::ToolProbed { available: false });
    let _ = job.advance(Event::Done);
    let step = job.advance(Event::Source { kind: SourceKind::File });
    assert!(matches!(step, Step::Perform(Action::ReadFile { .. })));
    match job.advance(Event::Failed { message: "denied".to_string() }) {
        Step::Finished(Err(f)) => {
            assert_eq!(f.kind, ErrorKind::Io);
            assert_eq!(f.message, "denied");
        }
        _ => panic!("expected a failure"),
    }
}

#[test]
fn a_walked_file_outside_its_directory_is_refused() {
    let mut job = create_archive(&["tree"], "out.zip", None, None);
    let _ = job.advance(Event::Start);
    let _ = job.advance(Event::ToolProbed { available: false });
    let _ = job.advance(Event::Done);
    let files = vec!["elsewhere/a.txt".to_string()];
    match job.advance(Event::Source { kind: SourceKind::Directory { files } }) {
        Step::Finished(Err(f)) => {
            assert_eq!(f.kind, ErrorKind::InvalidArgument);
            assert_eq!(f.message, "prefix not found");
        }
        _ => panic!("expected a failure"),
    }
}

#[test]
fn a_source_without_a_file_name_is_stored_as_file() {
    let mut host = MemoryHost::new().with_file("..", b"odd");
    let mut job = create_archive(&[".."], "out.zip", None, None);
    drive(&mut host, |e| job.advance(e)).unwrap();
    assert_eq!(names_in_zip(host.files.get("out.zip").unwrap()), vec!["file"]);
}

#[test]
fn the_tool_is_asked_for_afresh_on_every_call() {
    let bytes = zip_of(&[("one.txt", b"1")]);
    let mut host = MemoryHost::new().with_file("a.zip", &bytes);
    let mut job = list_archive("a.zip");
    assert_eq!(drive(&mut host, |e| job.advance(e)).unwrap(), "one.txt\n");
    host.tool = Some((true, "from tool".to_string(), "".to_string()));
    let mut job = list_archive("a.zip");
    assert_eq!(drive(&mut host, |e| job.advance(e)).unwrap(), "from tool");
    host.tool = None;
    let mut job = list_archive("a.zip");
    assert_eq!(drive(&mut host, |e| job.advance(e)).unwrap(), "one.txt\n");
    assert_eq!(host.asked.iter().filter(|a| *a == "probe").count(), 3);
}

#[test]
fn names_beyond_ascii_survive_the_round_trip() {
    let mut host = MemoryHost::new()
        .with_file("données/été.txt", "contenu".as_bytes())
        .with_file("日本語.txt", "内容".as_bytes());
    let mut job = create_archive(&["données", "日本語.txt"], "u.zip", None, None);
    assert_eq!(drive(&mut host, |e| job.advance(e)).unwrap(), "Archive created");
    let mut job = list_archive("u.zip");
    assert_eq!(drive(&mut host, |e| job.advance(e)).unwrap(), "été.txt\n日本語.txt\n");
    let mut job = extract_archive("u.zip", "sortie", None);
    assert_eq!(drive(&mut host, |e| job.advance(e)).unwrap(), "Extraction complete");
    assert_eq!(host.files.get("sortie/été.txt").unwrap(), "contenu".as_bytes());
    assert_eq!(host.files.get("sortie/日本語.txt").unwrap(), "内容".as_bytes());
}

#[test]
fn a_backslash_in_a_stored_name_becomes_a_separator_on_unpacking() {
    let mut host = MemoryHost::new().with_file("odd\\name.txt", b"x");
    let mut job = create_archive(&["odd\\name.txt"], "b.zip", None, None);
    drive(&mut host, |e| job.advance(e)).unwrap();
    assert_eq!(names_in_zip(host.files.get("b.zip").unwrap()), vec!["odd\\name.txt"]);
    let mut job = extract_archive("b.zip", "out", None);
    drive(&mut host, |e| job.advance(e)).unwrap();
    assert_eq!(host.files.get("out/odd/name.txt").unwrap(), b"x");
    assert!(!host.files.contains_key("out/odd\\name.txt"));
}

#[test]
fn sources_of_the_same_name_are_stored_twice_and_listed_twice() {
    let mut host = MemoryHost::new().with_file("a/x.txt", b"1").with_file("b/x.txt", b"2");
    let mut job = create_archive(&["a/x.txt", "b/x.txt"], "twice.zip", None, None);
    drive(&mut host, |e| job.advance(e)).unwrap();
    let mut job = list_archive("twice.zip");
    assert_eq!(drive(&mut host, |e| job.advance(e)).unwrap(), "x.txt\nx.txt\n");
}

#[test]
fn a_malformed_zip_fails_with_the_words_of_the_reader() {
    let bytes = b"this is no zip file at all".to_vec();
    let words = zip::ZipArchive::new(Cursor::new(bytes.clone())).err().unwrap().to_string();
    assert_eq!(words, "invalid Zip archive: Could not find central directory end");
    let mut host = MemoryHost::new().with_file("bad.zip", &bytes);
    let mut job = list_archive("bad.zip");
    let failure = drive(&mut host, |e| job.advance(e)).unwrap_err();
    assert_eq!(failure.kind, ErrorKind::ContainerFormat);
    assert_eq!(failure.message, words);
    let mut job = extract_archive("bad.zip", "out", None);
    let failure = drive(&mut host, |e| job.advance(e)).unwrap_err();
    assert_eq!(failure.kind, ErrorKind::ContainerFormat);
    assert_eq!(failure.message, words);
}

#[test]
fn a_malformed_tar_fails_with_the_words_of_the_reader() {
    let mut bytes = tar_of(&[("a.txt", b"alpha")]);
    bytes[0] ^= 0xff;
    let mut reader = tar::Archive::new(Cursor::new(bytes.clone()));
    let words = reader.entries().unwrap().next().unwrap().err().unwrap().to_string();
    assert!(!words.is_empty());
    let mut host = MemoryHost::new().with_file("bad.tar", &bytes);
    let mut job = list_archive("bad.tar");
    let failure = drive(&mut host, |e| job.advance(e)).unwrap_err();
    assert_eq!(failure.kind, ErrorKind::ContainerFormat);
    assert_eq!(failure.message, words);
}

#[test]
fn an_entry_with_a_wrong_checksum_fails_with_the_words_of_the_reader() {
    let mut bytes = zip_of(&[("a.txt", b"alpha alpha alpha")]);
    let at = bytes.windows(4).position(|w| w == b"PK\x01\x02").unwrap();
    bytes[at + 16] ^= 0xff;
    let mut host = MemoryHost::new().with_file("sum.zip", &bytes);
    let mut job = extract_archive("sum.zip", "out", None);
    let failure = drive(&mut host, |e| job.advance(e)).unwrap_err();
    assert_eq!(failure.kind, ErrorKind::ContainerFormat);
    assert_eq!(failure.message, "Invalid checksum");
    assert!(!host.files.contains_key("out/a.txt"));
}

#[test]
fn a_single_file_becomes_a_zip_file_of_exactly_that_entry() {
    let mut host = MemoryHost::new().with_file("f.txt", b"hi");
    let mut job = create_archive(&["f.txt"], "a.zip", None, None);
    assert_eq!(drive(&mut host, |e| job.advance(e)).unwrap(), "Archive created");
    let bytes = host.files.get("a.zip").unwrap().clone();
    assert_eq!(&bytes[..4], b"PK\x03\x04");
    assert_eq!(names_in_zip(&bytes), vec!["f.txt"]);
    assert_eq!(content_in_zip(&bytes, "f.txt"), b"hi");
    assert_eq!(host.files.get("f.txt").unwrap(), b"hi");
}

#[test]
fn two_files_are_listed_in_the_order_given() {
    let mut host = MemoryHost::new().with_file("a.txt", b"1").with_file("b.txt", b"2");
    let mut job = create_archive(&["a.txt", "b.txt"], "o.zip", None, None);
    assert_eq!(drive(&mut host, |e| job.advance(e)).unwrap(), "Archive created");
    let mut job = list_archive("o.zip");
    assert_eq!(drive(&mut host, |e| job.advance(e)).unwrap(), "a.txt\nb.txt\n");
}

#[test]
fn files_below_a_directory_are_stored_under_their_relative_paths() {
    let mut host = MemoryHost::new().with_file("d/a/f.txt", b"1").with_file("d/b/f.txt", b"2");
    let mut job = create_archive(&["d"], "o.zip", None, None);
    assert_eq!(drive(&mut host, |e| job.advance(e)).unwrap(), "Archive created");
    let bytes = host.files.get("o.zip").unwrap().clone();
    assert_eq!(names_in_zip(&bytes), vec!["a/f.txt", "b/f.txt"]);
    assert_eq!(content_in_zip(&bytes, "a/f.txt"), b"1");
    assert_eq!(content_in_zip(&bytes, "b/f.txt"), b"2");
}

#[test]
fn a_nested_file_is_stored_under_its_base_name() {
    let mut host = MemoryHost::new().with_file("x/y/f.txt", b"abc");
    let mut job = create_archive(&["x/y/f.txt"], "o.zip", None, None);
    assert_eq!(drive(&mut host, |e| job.advance(e)).unwrap(), "Archive created");
    let bytes = host.files.get("o.zip").unwrap().clone();
    assert_eq!(names_in_zip(&bytes), vec!["f.txt"]);
    assert_eq!(content_in_zip(&bytes, "f.txt"), b"abc");
    assert_eq!(host.files.get("x/y/f.txt").unwrap(), b"abc");
}

#[test]
fn a_password_makes_no_difference_to_a_built_in_zip() {
    let mut plain = MemoryHost::new().with_file("a.txt", b"alpha").with_file("b.txt", b"beta");
    let mut job = create_archive(&["a.txt", "b.txt"], "o.zip", None, None);
    let first = drive(&mut plain, |e| job.advance(e));
    let mut keyed = MemoryHost::new().with_file("a.txt", b"alpha").with_file("b.txt", b"beta");
    let mut job = create_archive(&["a.txt", "b.txt"], "o.zip", None, Some("secret"));
    let second = drive(&mut keyed, |e| job.advance(e));
    assert_eq!(first.unwrap(), "Archive created");
    assert_eq!(second.unwrap(), "Archive created");
    assert_eq!(plain.asked, keyed.asked);
    let one = plain.files.get("o.zip").unwrap().clone();
    let two = keyed.files.get("o.zip").unwrap().clone();
    assert_eq!(names_in_zip(&one), names_in_zip(&two));
    assert_eq!(content_in_zip(&two, "a.txt"), b"alpha");
    assert_eq!(content_in_zip(&two, "b.txt"), b"beta");
    let mut job = extract_archive("o.zip", "out", None);
    assert_eq!(drive(&mut keyed, |e| job.advance(e)).unwrap(), "Extraction complete");
    assert_eq!(keyed.files.get("out/a.txt").unwrap(), b"alpha");
    assert_eq!(keyed.files.get("out/b.txt").unwrap(), b"beta");
}

#[test]
fn a_file_without_content_is_stored_as_an_empty_entry() {
    let mut host = MemoryHost::new().with_file("void.bin", b"");
    let mut job = create_archive(&["void.bin"], "v.zip", None, None);
    assert_eq!(drive(&mut host, |e| job.advance(e)).unwrap(), "Archive created");
    let bytes = host.files.get("v.zip").unwrap().clone();
    assert_eq!(names_in_zip(&bytes), vec!["void.bin"]);
    assert_eq!(content_in_zip(&bytes, "void.bin"), b"");
}

#[test]
fn a_last_name_that_ends_like_the_locator_mark_is_written_but_not_read_back() {
    let name = "xPK\u{6}\u{7}aaaaaaaaaaaaaaaa";
    let mut host = MemoryHost::new().with_file(name, b"data");
    let mut job = create_archive(&[name], "odd.zip", None, None);
    assert_eq!(drive(&mut host, |e| job.advance(e)).unwrap(), "Archive created");
    let bytes = host.files.get("odd.zip").unwrap().clone();
    assert_eq!(&bytes[bytes.len() - 42..bytes.len() - 38], b"PK\x06\x07");
    let words = zip::ZipArchive::new(Cursor::new(bytes)).err().unwrap().to_string();
    assert_eq!(words, "unsupported Zip archive: Support for multi-disk files is not implemented");
    let mut job = list_archive("odd.zip");
    let failure = drive(&mut host, |e| job.advance(e)).unwrap_err();
    assert_eq!(failure.kind, ErrorKind::ContainerFormat);
    assert_eq!(failure.message, words);
}

#[test]
fn the_locator_mark_inside_an_earlier_name_does_no_harm() {
    let marked = "xPK\u{6}\u{7}aaaaaaaaaaaaaaaa";
    let mut host = MemoryHost::new().with_file(marked, b"first").with_file("last.txt", b"second");
    let mut job = create_archive(&[marked, "last.txt"], "fine.zip", None, None);
    assert_eq!(drive(&mut host, |e| job.advance(e)).unwrap(), "Archive created");
    let mut job = list_archive("fine.zip");
    assert_eq!(
        drive(&mut host, |e| job.advance(e)).unwrap(),
        format!("{}\nlast.txt\n", marked)
    );
    let mut job = extract_archive("fine.zip", "out", None);
    assert_eq!(drive(&mut host, |e| job.advance(e)).unwrap(), "Extraction complete");
    assert_eq!(host.files.get(&format!("out/{}", marked)).unwrap(), b"first");
    assert_eq!(host.files.get("out/last.txt").unwrap(), b"second");
}

#[test]
fn names_of_every_short_length_read_back() {
    for length in 1..=24usize {
        let name: String = "n".repeat(length);
        let mut host = MemoryHost::new().with_file(&name, b"content");
        let mut job = create_archive(&[name.as_str()], "short.zip", None, None);
        assert_eq!(drive(&mut host, |e| job.advance(e)).unwrap(), "Archive created");
        let mut job = list_archive("short.zip");
        assert_eq!(drive(&mut host, |e| job.advance(e)).unwrap(), format!("{}\n", name));
        let mut job = extract_archive("short.zip", "out", None);
        assert_eq!(drive(&mut host, |e| job.advance(e)).unwrap(), "Extraction complete");
        assert_eq!(host.files.get(&format!("out/{}", name)).unwrap(), b"content");
    }
}

fn next_draw(state: &mut u64) -> usize {
    *state = state.wrapping_mul(6364136223846793005).wrapping_add(1442695040888963407);
    (*state >> 33) as usize
}

#[test]
fn created_files_read_back_unless_they_show_the_locator_mark() {
    let alphabet = ['P', 'K', '\u{1}', '\u{5}', '\u{6}', '\u{7}', '\u{8}', 'a', ' ', 'é', '漢'];
    let mut state = 7u64;
    let mut marked = 0;
    for round in 0..1500 {
        let count = 1 + next_draw(&mut state) % 3;
        let mut names: Vec<String> = Vec::new();
        let mut host = MemoryHost::new();
        for at in 0..count {
            let length = 1 + next_draw(&mut state) % 30;
            let mut name = String::new();
            for _ in 0..length {
                name.push(alphabet[next_draw(&mut state) % alphabet.len()]);
            }
            let size = next_draw(&mut state) % 40;
            let data: Vec<u8> = (0..size).map(|i| (i * 31 + round + at) as u8).collect();
            host.files.insert(name.clone(), data);
            names.push(name);
        }
        let sources: Vec<&str> = names.iter().map(|n| n.as_str()).collect();
        let mut job = create_archive(&sources, "made.zip", None, None);
        assert_eq!(drive(&mut host, |e| job.advance(e)).unwrap(), "Archive created");
        let bytes = host.files.get("made.zip").unwrap().clone();
        let shows = &bytes[bytes.len() - 42..bytes.len() - 38] == b"PK\x06\x07";
        let mut job = list_archive("made.zip");
        let listed = drive(&mut host, |e| job.advance(e));
        if shows {
            marked += 1;
            assert!(names.iter().any(|n| n.contains('\u{6}') || n.contains('\u{7}')));
            continue;
        }
        let expected: String = names.iter().map(|n| format!("{}\n", n)).collect();
        assert_eq!(listed.unwrap(), expected);
        let mut job = extract_archive("made.zip", "out", None);
        assert_eq!(drive(&mut host, |e| job.advance(e)).unwrap(), "Extraction complete");
        for name in names.iter() {
            let stored = host.files.get(name).unwrap().clone();
            assert_eq!(host.files.get(&format!("out/{}", name)).unwrap(), &stored);
        }
    }
    assert!(marked < 1500);
}

#[test]
fn the_mark_shows_only_twenty_bytes_before_the_end_of_the_last_name() {
    for length in 4..=40usize {
        for at in 0..=(length - 4) {
            let mut name = "a".repeat(at);
            name.push_str("PK\u{6}\u{7}");
            name.push_str(&"a".repeat(length - 4 - at));
            let mut host = MemoryHost::new().with_file(&name, b"some content");
            let mut job = create_archive(&[name.as_str()], "m.zip", None, None);
            assert_eq!(drive(&mut host, |e| job.advance(e)).unwrap(), "Archive created");
            let bytes = host.files.get("m.zip").unwrap().clone();
            let shows = &bytes[bytes.len() - 42..bytes.len() - 38] == b"PK\x06\x07";
            assert_eq!(shows, length >= 20 && at == length - 20);
            let mut job = list_archive("m.zip");
            let listed = drive(&mut host, |e| job.advance(e));
            if shows {
                assert_eq!(listed.unwrap_err().kind, ErrorKind::ContainerFormat);
            } else {
                assert_eq!(listed.unwrap(), format!("{}\n", name));
            }
        }
    }
    for name in ["\u{7}aaaaaaaaaaaaaaaa", "\u{6}\u{7}aaaaaaaaaaaaaaaa", "K\u{6}\u{7}aaaaaaaaaaaaaaaa"] {
        let mut host = MemoryHost::new().with_file(name, b"x");
        let mut job = create_archive(&[name], "m.zip", None, None);
        assert_eq!(drive(&mut host, |e| job.advance(e)).unwrap(), "Archive created");
        let mut job = list_archive("m.zip");
        assert_eq!(drive(&mut host, |e| job.advance(e)).unwrap(), format!("{}\n", name));
    }
}
