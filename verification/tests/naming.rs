use zip_easy::error::ArchiveError;
use zip_easy::names::archive_path;
use zip_easy::names::entry_path;
use zip_easy::names::is_directory_name;
use zip_easy::names::parent_path;
use zip_easy::names::relative_name;
use zip_easy::request::plan_job;
use zip_easy::request::Job;
use zip_easy::request::Mode;

#[test]
fn archive_path_appends_the_suffix() {
    assert_eq!(archive_path("backup"), "backup.zip");
    assert_eq!(archive_path("/tmp/out.zip"), "/tmp/out.zip.zip");
    assert_eq!(archive_path(""), ".zip");
}

#[test]
fn directory_names_end_with_the_separator() {
    assert!(is_directory_name("sub/"));
    assert!(is_directory_name("/"));
    assert!(is_directory_name("a/b/"));
    assert!(!is_directory_name("sub"));
    assert!(!is_directory_name(""));
    assert!(!is_directory_name("sub\\"));
    assert!(!is_directory_name("a/b"));
    assert!(!is_directory_name("é"));
}

#[test]
fn entry_path_joins_with_one_separator() {
    assert_eq!(entry_path("out", "a.txt"), "out/a.txt");
    assert_eq!(entry_path("out/", "a.txt"), "out/a.txt");
    assert_eq!(entry_path("", "a.txt"), "a.txt");
    assert_eq!(entry_path("out", "sub/"), "out/sub/");
    assert_eq!(entry_path("out", ""), "out/");
    assert_eq!(entry_path("out", "/abs"), "out//abs");
    assert_eq!(entry_path("ö", "ü"), "ö/ü");
}

#[test]
fn parent_path_cuts_at_the_last_separator() {
    assert_eq!(parent_path("out/a.txt"), Some("out".to_string()));
    assert_eq!(parent_path("out/d/e/f.txt"), Some("out/d/e".to_string()));
    assert_eq!(parent_path("out/"), Some("out".to_string()));
    assert_eq!(parent_path("/a"), Some(String::new()));
    assert_eq!(parent_path("a.txt"), None);
    assert_eq!(parent_path(""), None);
    assert_eq!(parent_path("ä/ö/ü"), Some("ä/ö".to_string()));
}

#[test]
fn relative_name_strips_the_root() {
    assert_eq!(relative_name("src", "src/a.txt", '/'), Some("a.txt".to_string()));
    assert_eq!(relative_name("src/", "src/a.txt", '/'), Some("a.txt".to_string()));
    assert_eq!(relative_name("src", "src//a.txt", '/'), Some("a.txt".to_string()));
    assert_eq!(relative_name("/home/me/dir", "/home/me/dir/sub", '/'), Some("sub".to_string()));
    assert_eq!(relative_name(".", "./a.txt", '/'), Some("a.txt".to_string()));
    assert_eq!(relative_name("", "a.txt", '/'), Some("a.txt".to_string()));
    assert_eq!(relative_name("src", "src", '/'), Some(String::new()));
    assert_eq!(relative_name("src", "src/", '/'), Some(String::new()));
    assert_eq!(relative_name("ß", "ß/ä", '/'), Some("ä".to_string()));
}

#[test]
fn relative_name_refuses_paths_outside_the_root() {
    assert_eq!(relative_name("src", "other/a.txt", '/'), None);
    assert_eq!(relative_name("src", "srcs/a.txt", '/'), None);
    assert_eq!(relative_name("src/a.txt", "src", '/'), None);
    assert_eq!(relative_name("src", "sr", '/'), None);
    assert_eq!(relative_name("src", "", '/'), None);
}

#[test]
fn a_fresh_selection_compresses() {
    assert_eq!(Mode::default(), Mode::Compress);
}

#[test]
fn a_job_needs_both_paths() {
    assert_eq!(plan_job("", "out", Mode::Compress), None);
    assert_eq!(plan_job("src", "", Mode::Compress), None);
    assert_eq!(plan_job("", "", Mode::Extract), None);
    assert_eq!(plan_job("a.zip", "", Mode::Extract), None);
}

#[test]
fn a_compress_job_writes_to_the_target_with_the_suffix() {
    assert_eq!(
        plan_job("photos", "backup", Mode::Compress),
        Some(Job::Compress {
            source_dir: "photos".to_string(),
            archive_path: "backup.zip".to_string()
        })
    );
}

#[test]
fn an_extract_job_takes_the_target_as_root() {
    assert_eq!(
        plan_job("backup.zip", "restored", Mode::Extract),
        Some(Job::Extract {
            archive_path: "backup.zip".to_string(),
            target_root: "restored".to_string()
        })
    );
}

#[test]
fn relative_name_goes_by_the_given_separator() {
    assert_eq!(relative_name("C:\\dir", "C:\\dir\\a.txt", '\\'), Some("a.txt".to_string()));
    assert_eq!(relative_name("C:\\dir", "C:\\dir\\a.txt", '/'), None);
    assert_eq!(relative_name("dir", "dir/\\odd", '/'), Some("\\odd".to_string()));
}

#[test]
fn each_kind_of_failure_has_its_own_label() {
    assert_eq!(ArchiveError::SourceUnreadable.label(), "source unreadable");
    assert_eq!(ArchiveError::TargetUnwritable.label(), "target unwritable");
    assert_eq!(ArchiveError::ArchiveCorrupt.label(), "archive corrupt");
    assert_eq!(ArchiveError::EntryWriteFailed.label(), "entry write failed");
}
