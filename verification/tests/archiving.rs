use std::io::Cursor;
use std::io::Read;
use zip_easy::archiver::compress;
use zip_easy::archiver::Archiving;
use zip_easy::archiver::Child;
use zip_easy::archiver::Listing;
use zip_easy::archiver::ENTRY_PERMISSIONS;
use zip_easy::error::ArchiveError;
use zip_easy::error::Failure;

/// Archives a listing that is expected to fail nowhere.
fn archive_of(children: Vec<Child>) -> Vec<u8> {
    let archiving = compress(&Listing::Children(children));
    assert_eq!(archiving.failure, None);
    archiving.archive.unwrap()
}

fn file(name: &str, content: &[u8]) -> Child {
    Child::File { name: name.to_string(), content: content.to_vec() }
}

fn directory(name: &str) -> Child {
    Child::Directory { name: name.to_string() }
}

/// Reads an archive back with the codec itself: name, unix mode, method and
/// bytes of each entry, in container order.
fn read_back(bytes: Vec<u8>) -> Vec<(String, Option<u32>, bool, Vec<u8>)> {
    let mut archive = zip::ZipArchive::new(Cursor::new(bytes)).unwrap();
    let mut out = Vec::new();
    for i in 0..archive.len() {
        let mut entry = archive.by_index(i).unwrap();
        let mut data = Vec::new();
        entry.read_to_end(&mut data).unwrap();
        let stored = entry.compression() == zip::CompressionMethod::Stored;
        out.push((entry.name().to_string(), entry.unix_mode(), stored, data));
    }
    out
}

#[test]
fn entry_permissions_are_rwxr_xr_x() {
    assert_eq!(ENTRY_PERMISSIONS, 0o755);
}

#[test]
fn one_file_becomes_one_stored_entry() {
    let bytes = archive_of(vec![file("a.txt", b"hello")]);
    let entries = read_back(bytes);
    assert_eq!(entries, vec![("a.txt".to_string(), Some(0o100755), true, b"hello".to_vec())]);
}

#[test]
fn file_bytes_are_kept_verbatim_in_the_container() {
    let payload = b"payload that is long enough to be found again: 0123456789";
    let bytes = archive_of(vec![file("p.bin", payload)]);
    assert!(bytes.windows(payload.len()).any(|w| w == payload));
    assert!(bytes.len() > payload.len());
}

#[test]
fn one_directory_becomes_one_marker_entry() {
    let bytes = archive_of(vec![directory("sub")]);
    let entries = read_back(bytes);
    assert_eq!(entries, vec![("sub/".to_string(), Some(0o40755), true, Vec::new())]);
}

#[test]
fn every_directory_gets_a_marker_that_ends_with_the_separator() {
    let bytes = archive_of(vec![directory("sub/"), directory("win\\")]);
    let names: Vec<String> = read_back(bytes).into_iter().map(|e| e.0).collect();
    assert_eq!(names, vec!["sub/".to_string(), "win\\/".to_string()]);
}

#[test]
fn entries_follow_the_order_of_the_children() {
    let bytes = archive_of(vec![
        file("b.txt", b"second letter"),
        directory("docs"),
        Child::Other,
        file("a.txt", b""),
    ]);
    let entries = read_back(bytes);
    assert_eq!(
        entries,
        vec![
            ("b.txt".to_string(), Some(0o100755), true, b"second letter".to_vec()),
            ("docs/".to_string(), Some(0o40755), true, Vec::new()),
            ("a.txt".to_string(), Some(0o100755), true, Vec::new()),
        ]
    );
}

#[test]
fn an_empty_directory_gives_an_archive_without_entries() {
    let bytes = archive_of(Vec::new());
    assert_eq!(bytes.len(), 22);
    assert!(read_back(bytes).is_empty());
}

#[test]
fn children_that_are_neither_file_nor_directory_are_skipped() {
    let bytes = archive_of(vec![Child::Other, Child::Other]);
    assert!(read_back(bytes).is_empty());
}

#[test]
fn same_children_give_the_same_bytes() {
    let first = archive_of(vec![file("a.txt", b"hello"), directory("d")]);
    let second = archive_of(vec![file("a.txt", b"hello"), directory("d")]);
    assert_eq!(first, second);
    let other = archive_of(vec![file("a.txt", b"hullo"), directory("d")]);
    assert_ne!(first, other);
}

#[test]
fn unreadable_source_gives_no_archive() {
    let r = compress(&Listing::Unreadable);
    assert_eq!(
        r,
        Archiving {
            archive: None,
            failure: Some(Failure { kind: ArchiveError::SourceUnreadable, entry: None })
        }
    );
}

#[test]
fn first_unreadable_child_is_reported_and_the_entries_before_it_stay() {
    let listing = Listing::Children(vec![
        file("a.txt", b"hello"),
        Child::Other,
        directory("d"),
        Child::Unreadable,
        file("b.txt", b"world"),
        Child::Unreadable,
    ]);
    let r = compress(&listing);
    assert_eq!(r.failure, Some(Failure { kind: ArchiveError::SourceUnreadable, entry: Some(3) }));
    let entries = read_back(r.archive.unwrap());
    assert_eq!(
        entries,
        vec![
            ("a.txt".to_string(), Some(0o100755), true, b"hello".to_vec()),
            ("d/".to_string(), Some(0o40755), true, Vec::new()),
        ]
    );
}

#[test]
fn an_unreadable_first_child_leaves_an_archive_without_entries() {
    let r = compress(&Listing::Children(vec![Child::Unreadable, file("a.txt", b"x")]));
    assert_eq!(r.failure, Some(Failure { kind: ArchiveError::SourceUnreadable, entry: Some(0) }));
    assert!(read_back(r.archive.unwrap()).is_empty());
}

#[test]
fn a_target_that_cannot_be_written_comes_before_any_other_failure() {
    let unwritable = Some(Failure { kind: ArchiveError::TargetUnwritable, entry: None });
    let clean = compress(&Listing::Children(vec![file("a.txt", b"x")]));
    assert_eq!(clean.after_write(Some(true)), None);
    assert_eq!(clean.after_write(Some(false)), unwritable);
    let cut = compress(&Listing::Children(vec![Child::Unreadable]));
    assert_eq!(cut.after_write(Some(true)), cut.failure);
    assert_eq!(cut.after_write(Some(false)), unwritable);
    let none = compress(&Listing::Unreadable);
    assert_eq!(none.archive, None);
    assert_eq!(
        none.after_write(None),
        Some(Failure { kind: ArchiveError::SourceUnreadable, entry: None })
    );
}
