use std::collections::HashMap;

use photo_catalog::{
    hash_bytes, photos_from_rows, Action, DirEntry, EntryKind, Event, IndexError, IndexRun,
    Photo, RootStatus, SkipReason,
};

const HELLO_DIGEST: &str = "2cf24dba5fb0a30e26e83b2ac5b9e29e1b161e5c1fa7425e73043362938b9824";
const EMPTY_DIGEST: &str = "e3b0c44298fc1c149afbf4c8996fb92427ae41e4649b934ca495991b7852b855";

/// A directory tree held in memory: listings by directory path, contents by
/// file path. A file without contents cannot be read.
struct Tree {
    dirs: HashMap<String, Vec<(String, EntryKind)>>,
    files: HashMap<String, Vec<u8>>,
    refuse_insert: Vec<String>,
}

impl Tree {
    fn new() -> Self {
        Tree { dirs: HashMap::new(), files: HashMap::new(), refuse_insert: Vec::new() }
    }

    fn dir(&mut self, path: &str, entries: &[(&str, EntryKind)]) {
        let list = entries.iter().map(|(p, k)| (p.to_string(), copy_kind(k))).collect();
        self.dirs.insert(path.to_string(), list);
    }

    fn file(&mut self, path: &str, bytes: &[u8]) {
        self.files.insert(path.to_string(), bytes.to_vec());
    }
}

fn copy_kind(k: &EntryKind) -> EntryKind {
    match k {
        EntryKind::File => EntryKind::File,
        EntryKind::Directory => EntryKind::Directory,
        EntryKind::SymlinkToFile => EntryKind::SymlinkToFile,
        EntryKind::SymlinkToDirectory => EntryKind::SymlinkToDirectory,
        EntryKind::Other => EntryKind::Other,
    }
}

/// Drives a run over the tree; returns the run and the records inserted.
fn drive(tree: &Tree, root: &str) -> (IndexRun, Vec<(i64, String, String)>) {
    let (mut run, mut action) = IndexRun::start(root.to_string(), RootStatus::Directory).unwrap();
    let mut store: Vec<(i64, String, String)> = Vec::new();
    let mut steps = 0;
    loop {
        steps += 1;
        assert!(steps < 10_000, "the run does not end");
        let event = match action {
            Action::ListDirectory(d) => match tree.dirs.get(&d) {
                Some(list) => Event::Listed(
                    list.iter()
                        .map(|(p, k)| DirEntry { path: p.clone(), kind: copy_kind(k) })
                        .collect(),
                ),
                None => Event::ListFailed,
            },
            Action::ReadFile(f) => match tree.files.get(&f) {
                Some(bytes) => Event::FileRead(bytes.clone()),
                None => Event::FileFailed,
            },
            Action::Insert(p, h) => {
                if tree.refuse_insert.contains(&p) {
                    Event::InsertFailed
                } else {
                    let id = store.len() as i64 + 1;
                    store.push((id, p, h));
                    Event::Inserted(id)
                }
            }
            Action::Finished => break,
        };
        action = run.step(event);
    }
    assert!(run.is_finished());
    (run, store)
}

#[test]
fn photo_new_keeps_fields() {
    let p = Photo::new(7, "a/b.jpg".to_string(), HELLO_DIGEST.to_string());
    assert_eq!(p.id, 7);
    assert_eq!(p.path, "a/b.jpg");
    assert_eq!(p.hash, HELLO_DIGEST);
}

#[test]
fn hash_of_known_bytes() {
    assert_eq!(hash_bytes(&b"hello".to_vec()), HELLO_DIGEST);
    assert_eq!(hash_bytes(&Vec::new()), EMPTY_DIGEST);
}

#[test]
fn equal_bytes_give_equal_hash() {
    let a = b"same bytes, other path".to_vec();
    let b = a.clone();
    assert_eq!(hash_bytes(&a), hash_bytes(&b));
    assert_ne!(hash_bytes(&a), hash_bytes(&b"other bytes".to_vec()));
    assert_eq!(hash_bytes(&a).len(), 64);
}

#[test]
fn missing_root_is_path_not_found() {
    let r = IndexRun::start("/does/not/exist".to_string(), RootStatus::Missing);
    assert!(matches!(r, Err(IndexError::PathNotFound)));
}

#[test]
fn file_root_is_not_a_directory() {
    let r = IndexRun::start("/etc/hosts".to_string(), RootStatus::NotADirectory);
    assert!(matches!(r, Err(IndexError::NotADirectory)));
}

#[test]
fn run_starts_by_listing_root() {
    let (run, a) = IndexRun::start("/photos".to_string(), RootStatus::Directory).unwrap();
    assert!(matches!(a, Action::ListDirectory(ref d) if d == "/photos"));
    assert!(!run.is_finished());
    assert_eq!(run.indexed_count(), 0);
}

#[test]
fn empty_root_inserts_nothing() {
    let mut tree = Tree::new();
    tree.dir("/r", &[]);
    let (run, store) = drive(&tree, "/r");
    assert!(store.is_empty());
    assert_eq!(run.indexed_count(), 0);
    assert!(run.skipped_files().is_empty());
    assert!(run.skipped_dirs().is_empty());
}

#[test]
fn nested_tree_indexes_every_file() {
    let mut tree = Tree::new();
    tree.dir("/r", &[("/r/a.jpg", EntryKind::File), ("/r/sub", EntryKind::Directory), ("/r/empty", EntryKind::Directory)]);
    tree.dir("/r/sub", &[("/r/sub/b.jpg", EntryKind::File), ("/r/sub/deeper", EntryKind::Directory)]);
    tree.dir("/r/sub/deeper", &[("/r/sub/deeper/c.png", EntryKind::File), ("/r/sub/deeper/d.png", EntryKind::File)]);
    tree.dir("/r/empty", &[]);
    tree.file("/r/a.jpg", b"a");
    tree.file("/r/sub/b.jpg", b"b");
    tree.file("/r/sub/deeper/c.png", b"c");
    tree.file("/r/sub/deeper/d.png", b"d");
    let (run, store) = drive(&tree, "/r");
    assert_eq!(store.len(), 4);
    assert_eq!(run.indexed_count(), 4);
    assert_eq!(run.inserted_ids(), &vec![1, 2, 3, 4]);
    let mut paths: Vec<String> = store.iter().map(|r| r.1.clone()).collect();
    paths.sort();
    assert_eq!(paths, vec!["/r/a.jpg", "/r/sub/b.jpg", "/r/sub/deeper/c.png", "/r/sub/deeper/d.png"]);
}

#[test]
fn link_to_ancestor_is_not_followed() {
    let mut tree = Tree::new();
    tree.dir("/r", &[("/r/a.jpg", EntryKind::File), ("/r/sub", EntryKind::Directory)]);
    tree.dir("/r/sub", &[("/r/sub/up", EntryKind::SymlinkToDirectory), ("/r/sub/b.jpg", EntryKind::SymlinkToFile)]);
    tree.dir("/r/sub/up", &[("/r/sub/up/a.jpg", EntryKind::File), ("/r/sub/up/sub", EntryKind::Directory)]);
    tree.file("/r/a.jpg", b"a");
    tree.file("/r/sub/b.jpg", b"b");
    let (run, store) = drive(&tree, "/r");
    assert_eq!(store.len(), 2);
    assert_eq!(run.indexed_count(), 2);
}

#[test]
fn other_entries_are_ignored() {
    let mut tree = Tree::new();
    tree.dir("/r", &[("/r/fifo", EntryKind::Other), ("/r/x.jpg", EntryKind::File)]);
    tree.file("/r/x.jpg", b"x");
    let (_, store) = drive(&tree, "/r");
    assert_eq!(store.len(), 1);
    assert_eq!(store[0].1, "/r/x.jpg");
}

#[test]
fn one_unreadable_file_is_skipped() {
    let mut tree = Tree::new();
    tree.dir("/r", &[("/r/a.jpg", EntryKind::File), ("/r/b.jpg", EntryKind::File), ("/r/c.jpg", EntryKind::File)]);
    tree.file("/r/a.jpg", b"a");
    tree.file("/r/c.jpg", b"c");
    let (run, store) = drive(&tree, "/r");
    assert_eq!(store.len(), 2);
    assert_eq!(run.skipped_files().len(), 1);
    assert_eq!(run.skipped_files()[0].path, "/r/b.jpg");
    assert_eq!(run.skipped_files()[0].reason, SkipReason::Unreadable);
}

#[test]
fn failed_insert_is_skipped() {
    let mut tree = Tree::new();
    tree.dir("/r", &[("/r/a.jpg", EntryKind::File), ("/r/b.jpg", EntryKind::File)]);
    tree.file("/r/a.jpg", b"a");
    tree.file("/r/b.jpg", b"b");
    tree.refuse_insert.push("/r/a.jpg".to_string());
    let (run, store) = drive(&tree, "/r");
    assert_eq!(store.len(), 1);
    assert_eq!(store[0].1, "/r/b.jpg");
    assert_eq!(run.skipped_files().len(), 1);
    assert_eq!(run.skipped_files()[0].reason, SkipReason::InsertFailed);
}

#[test]
fn unreadable_directory_is_skipped() {
    let mut tree = Tree::new();
    tree.dir("/r", &[("/r/locked", EntryKind::Directory), ("/r/open", EntryKind::Directory)]);
    tree.dir("/r/open", &[("/r/open/a.jpg", EntryKind::File)]);
    tree.file("/r/open/a.jpg", b"a");
    let (run, store) = drive(&tree, "/r");
    assert_eq!(store.len(), 1);
    assert_eq!(run.skipped_dirs(), &vec!["/r/locked".to_string()]);
}

#[test]
fn inserted_record_carries_digest_of_bytes() {
    let mut tree = Tree::new();
    tree.dir("/r", &[("/r/h.jpg", EntryKind::File), ("/r/dup.jpg", EntryKind::File)]);
    tree.file("/r/h.jpg", b"hello");
    tree.file("/r/dup.jpg", b"hello");
    let (_, store) = drive(&tree, "/r");
    assert_eq!(store.len(), 2);
    for (_, _, h) in &store {
        assert_eq!(h, HELLO_DIGEST);
    }
}

#[test]
fn event_out_of_turn_changes_nothing() {
    let (mut run, _) = IndexRun::start("/r".to_string(), RootStatus::Directory).unwrap();
    let a = run.step(Event::Inserted(3));
    assert!(matches!(a, Action::ListDirectory(ref d) if d == "/r"));
    assert_eq!(run.indexed_count(), 0);
    let a = run.step(Event::Listed(Vec::new()));
    assert!(matches!(a, Action::Finished));
    let a = run.step(Event::FileFailed);
    assert!(matches!(a, Action::Finished));
    assert!(run.skipped_files().is_empty());
}

#[test]
fn rows_become_records_in_order() {
    let rows = vec![
        (1, "/r/a.jpg".to_string(), HELLO_DIGEST.to_string()),
        (2, "/r/b.jpg".to_string(), EMPTY_DIGEST.to_string()),
    ];
    let photos = photos_from_rows(rows);
    assert_eq!(photos.len(), 2);
    assert_eq!(photos[0].id, 1);
    assert_eq!(photos[0].path, "/r/a.jpg");
    assert_eq!(photos[0].hash, HELLO_DIGEST);
    assert_eq!(photos[1].id, 2);
    assert_eq!(photos[1].path, "/r/b.jpg");
    assert_eq!(photos[1].hash, EMPTY_DIGEST);
}

#[test]
fn empty_catalog_lists_nothing() {
    assert!(photos_from_rows(Vec::new()).is_empty());
}
