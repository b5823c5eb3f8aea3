use file_manager::format::{detect_format, ArchiveFormat};

#[test]
fn detects_the_listed_names() {
    assert_eq!(detect_format("a.tar.gz"), ArchiveFormat::TarGz);
    assert_eq!(detect_format("a.tgz"), ArchiveFormat::TarGz);
    assert_eq!(detect_format("a.zip"), ArchiveFormat::Zip);
    assert_eq!(detect_format("a.tar"), ArchiveFormat::Tar);
    assert_eq!(detect_format("a.rar"), ArchiveFormat::Unknown);
}

#[test]
fn extension_is_matched_in_any_case() {
    assert_eq!(detect_format("backup.ZIP"), ArchiveFormat::Zip);
    assert_eq!(detect_format("backup.Tar"), ArchiveFormat::Tar);
    assert_eq!(detect_format("notes.GZ"), ArchiveFormat::TarGz);
    assert_eq!(detect_format("notes.gz"), ArchiveFormat::TarGz);
}

#[test]
fn suffix_rule_is_case_sensitive() {
    assert_eq!(detect_format("a.TGZ"), ArchiveFormat::Unknown);
    assert_eq!(detect_format("a.TAR.GZ"), ArchiveFormat::TarGz);
}

#[test]
fn names_without_extension_are_unknown() {
    assert_eq!(detect_format(""), ArchiveFormat::Unknown);
    assert_eq!(detect_format("zip"), ArchiveFormat::Unknown);
    assert_eq!(detect_format(".zip"), ArchiveFormat::Unknown);
    assert_eq!(detect_format("dir.zip/file"), ArchiveFormat::Unknown);
    assert_eq!(detect_format("a.zip/.."), ArchiveFormat::Unknown);
}

#[test]
fn trailing_separators_are_passed_over() {
    assert_eq!(detect_format("a.zip/"), ArchiveFormat::Zip);
    assert_eq!(detect_format("a.zip/."), ArchiveFormat::Zip);
    assert_eq!(detect_format("dir/.tgz"), ArchiveFormat::TarGz);
}

#[test]
fn extension_rule_agrees_with_the_standard_path_type() {
    let samples = [
        "a.zip", "a.b.zip", ".zip", "a.", "a..zip", "dir/a.tar", "dir.tar/a", "a.zip/", "a.zip//",
        "a.zip/.", "./a.zip", "../a.zip", "a.zip/..", "/", "", ".", "..", "x/.hidden.zip", "..zip",
    ];
    for s in samples {
        let std_ext = std::path::Path::new(s)
            .extension()
            .and_then(|e| e.to_str())
            .unwrap_or("")
            .to_lowercase();
        let expected = if s.ends_with(".tar.gz") || s.ends_with(".tgz") || std_ext == "gz" {
            ArchiveFormat::TarGz
        } else if std_ext == "zip" {
            ArchiveFormat::Zip
        } else if std_ext == "tar" {
            ArchiveFormat::Tar
        } else {
            ArchiveFormat::Unknown
        };
        assert_eq!(detect_format(s), expected);
    }
}
