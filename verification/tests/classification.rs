use decrypt_files::FileType;

#[test]
fn test_from_path_gpg() {
    let path = String::from("test.gpg");
    assert_eq!(FileType::from_path(&path), Some(FileType::Gpg));
}

#[test]
fn test_from_path_age() {
    let path = String::from("test.age");
    assert_eq!(FileType::from_path(&path), Some(FileType::Age));
}

#[test]
fn test_from_path_unsupported() {
    let path = String::from("test.txt");
    assert_eq!(FileType::from_path(&path), None);
}

#[test]
fn test_extension() {
    assert_eq!(FileType::Gpg.extension(), "gpg");
    assert_eq!(FileType::Age.extension(), "age");
}

#[test]
fn test_display() {
    assert_eq!(FileType::Gpg.display_string(), "gpg");
    assert_eq!(FileType::Age.display_string(), "age");
}

#[test]
fn classification_is_case_sensitive() {
    assert_eq!(FileType::from_path("test.GPG"), None);
    assert_eq!(FileType::from_path("test.Age"), None);
}

#[test]
fn classification_uses_last_extension() {
    assert_eq!(FileType::from_path("archive.tar.gpg"), Some(FileType::Gpg));
    assert_eq!(FileType::from_path("report.gpg.txt"), None);
}

#[test]
fn classification_handles_degenerate_paths() {
    assert_eq!(FileType::from_path(""), None);
    assert_eq!(FileType::from_path("noextension"), None);
    assert_eq!(FileType::from_path(".gpg"), None);
    assert_eq!(FileType::from_path("dir/.age"), None);
    assert_eq!(FileType::from_path("trailing."), None);
    assert_eq!(FileType::from_path("dir.gpg/name"), None);
    assert_eq!(FileType::from_path("sp\u{e9}cial/caf\u{e9}.age"), Some(FileType::Age));
}

#[test]
fn classification_sees_only_the_file_name() {
    assert_eq!(FileType::from_path("in/a.gpg"), Some(FileType::Gpg));
    assert_eq!(FileType::from_path("/abs/path/b.age"), Some(FileType::Age));
}

#[test]
fn extension_round_trips_through_classification() {
    for ft in [FileType::Gpg, FileType::Age] {
        let path = format!("file.{}", ft.extension());
        assert_eq!(FileType::from_path(&path), Some(ft));
        assert_eq!(FileType::from_path(&path).unwrap().extension(), ft.extension());
    }
}
