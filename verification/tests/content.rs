use beam::content::{
    archive_outcome, entry_plan, file_name_string, forward_chunk, ArchiveFormat, ArchiveWriter,
    ContentError, ContentKind, ContentSource, DiskEntry, DiskKind, EntryPlan, StreamPlan,
    CLIENT_DISCONNECTED, RANGE_UNSUPPORTED,
};

fn entry(name: &str, kind: DiskKind) -> DiskEntry {
    DiskEntry { raw_name: name.as_bytes().to_vec(), name: name.to_string(), kind }
}

fn file(name: &str, size: u64, handle: u64) -> DiskEntry {
    entry(name, DiskKind::File { size, handle })
}

fn dir(name: &str, children: Vec<DiskEntry>) -> DiskEntry {
    entry(name, DiskKind::Directory { children })
}

fn inspect(name: &str, kind: DiskKind) -> Result<ContentSource, ContentError> {
    ContentSource::inspect(
        format!("/tmp/{name}"),
        Some(name.to_string()),
        &kind,
        ArchiveFormat::Zip,
    )
}

fn paths(source: &ContentSource) -> Vec<String> {
    match &source.kind {
        ContentKind::DirectoryZip { entries } => {
            entries.iter().map(|entry| entry.archive_path.clone()).collect()
        }
        ContentKind::File { .. } => panic!("not an archive"),
    }
}

#[test]
fn names_directory_archives() {
    let folder = DiskKind::Directory {
        children: vec![dir("nested", vec![file("a.txt", 4, 1)])],
    };
    let source = inspect("assets", folder).unwrap();
    assert_eq!(source.download_name(), "assets-beam.zip");
    assert_eq!(source.kind_label(), "zip archive");
}

#[test]
fn warns_about_symlinks_in_directories() {
    let folder = DiskKind::Directory {
        children: vec![file("file.txt", 2, 1), entry("alias.txt", DiskKind::Symlink)],
    };
    let source = inspect("bundle", folder).unwrap();
    assert_eq!(source.warnings().len(), 1);
    assert_eq!(source.warnings()[0], "Skipping symlink alias.txt");
}

#[test]
fn walks_in_name_order_and_below_the_root() {
    let folder = DiskKind::Directory {
        children: vec![
            file("z.txt", 1, 1),
            dir("m", vec![file("b", 2, 2), file("a", 4, 3)]),
            file("A.txt", 8, 4),
        ],
    };
    let source = inspect("root", folder).unwrap();
    assert_eq!(paths(&source), vec!["root/A.txt", "root/m/a", "root/m/b", "root/z.txt"]);
    assert_eq!(source.input_size(), 15);
    assert!(source.warnings().is_empty());
}

#[test]
fn empty_directories_get_an_entry() {
    let folder = DiskKind::Directory {
        children: vec![dir("empty", vec![]), dir("links", vec![entry("l", DiskKind::Symlink)])],
    };
    let source = inspect("root", folder).unwrap();
    assert_eq!(paths(&source), vec!["root/empty/", "root/links/"]);
    assert_eq!(source.warnings(), &vec!["Skipping symlink links/l".to_string()]);
}

#[test]
fn an_empty_root_stands_for_itself() {
    let source = inspect("root", DiskKind::Directory { children: vec![] }).unwrap();
    assert_eq!(paths(&source), vec!["root/"]);
    let odd = DiskKind::Directory { children: vec![entry("pipe", DiskKind::Other)] };
    let source = inspect("root", odd).unwrap();
    assert_eq!(paths(&source), vec!["root/"]);
    assert_eq!(source.warnings(), &vec!["Skipping unsupported entry pipe".to_string()]);
}

#[test]
fn files_are_sent_under_their_own_name() {
    let source = inspect("hello.txt", DiskKind::File { size: 10, handle: 0 }).unwrap();
    assert_eq!(source.path(), "/tmp/hello.txt");
    assert_eq!(source.display_name(), "hello.txt");
    assert_eq!(source.download_name(), "hello.txt");
    assert_eq!(source.input_size(), 10);
    assert_eq!(source.content_length(), Some(10));
    assert_eq!(source.kind_label(), "file");
    assert!(source.supports_range());
}

#[test]
fn other_things_are_refused() {
    let link = inspect("l", DiskKind::Symlink).unwrap_err();
    assert_eq!(link, ContentError::Symlink);
    assert_eq!(link.message(), "Beam does not send symlinks directly in v1");
    let pipe = inspect("p", DiskKind::Other).unwrap_err();
    assert_eq!(pipe, ContentError::Unsupported);
    assert_eq!(pipe.message(), "Beam only supports regular files and directories in v1");
    let huge = DiskKind::Directory {
        children: vec![file("a", u64::MAX, 1), file("b", 1, 2)],
    };
    assert_eq!(inspect("h", huge).unwrap_err(), ContentError::TooLarge);
}

#[test]
fn a_path_without_a_name_is_called_beam() {
    assert_eq!(file_name_string(None), "beam");
    assert_eq!(file_name_string(Some("x".to_string())), "x");
}

#[test]
fn archives_have_no_length_and_no_ranges() {
    let source = inspect("d", DiskKind::Directory { children: vec![file("f", 3, 9)] }).unwrap();
    assert_eq!(source.content_length(), None);
    assert!(!source.supports_range());
    assert!(matches!(source.stream_plan(None), StreamPlan::Archive));
    assert!(matches!(
        source.stream_plan(Some((0, 1))),
        StreamPlan::Refused { reason } if reason == RANGE_UNSUPPORTED
    ));
    let file = inspect("f", DiskKind::File { size: 3, handle: 0 }).unwrap();
    assert!(matches!(file.stream_plan(None), StreamPlan::WholeFile));
    assert!(matches!(
        file.stream_plan(Some((1, 2))),
        StreamPlan::FileRange { start: 1, length: 2 }
    ));
}

#[test]
fn archive_entries_are_stored_or_deflated() {
    let folder = DiskKind::Directory { children: vec![dir("e", vec![]), file("f", 3, 9)] };
    let source = inspect("d", folder).unwrap();
    match &source.kind {
        ContentKind::DirectoryZip { entries } => {
            assert_eq!(entry_plan(&entries[0]), EntryPlan::EmptyDirectory);
            assert_eq!(entry_plan(&entries[1]), EntryPlan::DeflatedFile(9));
        }
        ContentKind::File { .. } => panic!("not an archive"),
    }
}

#[test]
fn chunks_add_up_until_the_client_leaves() {
    assert_eq!(forward_chunk(10, 5, true), Ok(15));
    assert_eq!(forward_chunk(10, 5, false), Err(CLIENT_DISCONNECTED));
}

#[test]
fn failures_of_an_archive_are_ranked() {
    assert_eq!(archive_outcome(Ok(7), ArchiveWriter::Finished), Ok::<u64, &str>(7));
    assert_eq!(archive_outcome(Ok(7), ArchiveWriter::Failed("w")), Err("w"));
    assert_eq!(archive_outcome(Err("s"), ArchiveWriter::Failed("w")), Err("s"));
    assert_eq!(archive_outcome(Err("s"), ArchiveWriter::Crashed("c")), Err("c"));
    assert_eq!(archive_outcome(Ok(7), ArchiveWriter::Crashed("c")), Err("c"));
}

#[test]
fn no_path_comes_twice() {
    let folder = DiskKind::Directory {
        children: vec![
            dir("a", vec![dir("b", vec![]), file("c", 1, 1)]),
            dir("a-b", vec![]),
            file("a.b", 1, 2),
            file("b", 1, 3),
        ],
    };
    let source = inspect("root", folder).unwrap();
    let mut all = paths(&source);
    assert_eq!(all, vec!["root/a/b/", "root/a/c", "root/a-b/", "root/a.b", "root/b"]);
    all.sort();
    all.dedup();
    assert_eq!(all.len(), 5);
}
