use gilber::fs::{FileType, FsError, GilberFS};
use gilber::git::{EntryKind, GitTree, TreeEntry};
use gilber::inode::Ino;
use std::path::PathBuf;

/// Writes a repository with one commit whose tree holds `hello.txt` and a
/// directory `sub` holding the same blob, and returns the commit's hash.
fn make_repo(dir: &str) -> String {
    let repo = git2::Repository::init(dir).unwrap();
    let blob = repo.blob(b"Hello World!\n").unwrap();
    let mut sub = repo.treebuilder(None).unwrap();
    sub.insert("again.txt", blob, 0o100644).unwrap();
    let sub_id = sub.write().unwrap();
    let mut tb = repo.treebuilder(None).unwrap();
    tb.insert("hello.txt", blob, 0o100644).unwrap();
    tb.insert("sub", sub_id, 0o040000).unwrap();
    let tree = repo.find_tree(tb.write().unwrap()).unwrap();
    let sig = git2::Signature::new("A", "a@example.com", &git2::Time::new(1_600_000_000, 0)).unwrap();
    let commit = repo.commit(None, &sig, &sig, "first", &tree, &[]).unwrap();
    commit.to_string()
}

/// Writes a repository with one commit whose tree holds only `hello.txt`.
fn make_hello_repo(dir: &str) -> String {
    let repo = git2::Repository::init(dir).unwrap();
    let blob = repo.blob(b"Hello World!\n").unwrap();
    let mut tb = repo.treebuilder(None).unwrap();
    tb.insert("hello.txt", blob, 0o100644).unwrap();
    let tree = repo.find_tree(tb.write().unwrap()).unwrap();
    let sig = git2::Signature::new("A", "a@example.com", &git2::Time::new(1_600_000_000, 0)).unwrap();
    let commit = repo.commit(None, &sig, &sig, "first", &tree, &[]).unwrap();
    commit.to_string()
}

#[test]
fn hello_world_scenario() {
    let dir = "/tmp/gilber_tests/hello_world";
    let hash = make_hello_repo(dir);
    let mut fs = GilberFS::new(PathBuf::from(dir), 501, 20).unwrap();

    let root = fs.lookup(1, hash.as_bytes()).unwrap();
    assert_eq!(root.kind, FileType::Directory);
    assert_eq!(root.nlink, 3);
    assert_eq!(root.ino, 2);
    assert_eq!(root.uid, 501);
    assert_eq!(root.gid, 20);

    let list = fs.readdir(root.ino, 0).unwrap();
    assert_eq!(list.len(), 1);
    assert_eq!(list[0].next_offset, 1);
    assert_eq!(list[0].kind, FileType::RegularFile);
    assert_eq!(list[0].name, b"hello.txt".to_vec());
    let blob = list[0].ino;
    assert_eq!(blob, 3);

    assert_eq!(fs.read(blob, 0, 13).unwrap(), b"Hello World!\n".to_vec());
    assert_eq!(fs.read(blob, 7, 100).unwrap(), b"orld!\n".to_vec());
    assert!(fs.read(blob, 13, 10).unwrap().is_empty());
    assert_eq!(fs.lookup(root.ino, b"missing.txt"), Err(FsError::NotFound));

    let attr = fs.getattr(blob).unwrap();
    assert_eq!(attr.kind, FileType::RegularFile);
    assert_eq!(attr.size, 13);
    assert_eq!(attr.nlink, 2);
    assert_eq!(attr.perm, 0o644);
}

#[test]
fn resolving_twice_gives_the_same_identifier() {
    let dir = "/tmp/gilber_tests/twice";
    let hash = make_repo(dir);
    let mut fs = GilberFS::new(PathBuf::from(dir), 0, 0).unwrap();
    let first = fs.lookup(1, hash.as_bytes()).unwrap();
    let second = fs.lookup(1, hash.as_bytes()).unwrap();
    assert_eq!(first, second);
    let a = fs.lookup(first.ino, b"hello.txt").unwrap();
    let b = fs.lookup(first.ino, b"hello.txt").unwrap();
    assert_eq!(a, b);
    assert_eq!(fs.getattr(first.ino).unwrap(), first);
}

#[test]
fn two_paths_to_one_blob_share_an_identifier() {
    let dir = "/tmp/gilber_tests/two_paths";
    let hash = make_repo(dir);
    let mut fs = GilberFS::new(PathBuf::from(dir), 0, 0).unwrap();
    let root = fs.lookup(1, hash.as_bytes()).unwrap();
    assert_eq!(root.nlink, 4);
    let direct = fs.lookup(root.ino, b"hello.txt").unwrap();
    let sub = fs.lookup(root.ino, b"sub").unwrap();
    assert_eq!(sub.kind, FileType::Directory);
    assert_eq!(sub.nlink, 3);
    let nested = fs.lookup(sub.ino, b"again.txt").unwrap();
    assert_eq!(direct, nested);
}

#[test]
fn chained_listing_shows_each_entry_once() {
    let dir = "/tmp/gilber_tests/chained";
    let hash = make_repo(dir);
    let mut fs = GilberFS::new(PathBuf::from(dir), 0, 0).unwrap();
    let root = fs.lookup(1, hash.as_bytes()).unwrap();
    let all = fs.readdir(root.ino, 0).unwrap();
    assert_eq!(all.len(), 2);
    assert_eq!(all[0].name, b"hello.txt".to_vec());
    assert_eq!(all[1].name, b"sub".to_vec());
    assert_eq!(all[1].kind, FileType::Directory);
    let rest = fs.readdir(root.ino, all[0].next_offset as i64).unwrap();
    assert_eq!(rest.len(), 1);
    assert_eq!(rest[0].name, all[1].name);
    assert_eq!(rest[0].ino, all[1].ino);
    let done = fs.readdir(root.ino, rest[0].next_offset as i64).unwrap();
    assert!(done.is_empty());
    assert!(fs.readdir(root.ino, -1).unwrap().is_empty());
}

#[test]
fn unknown_names_and_identifiers_are_not_found() {
    let dir = "/tmp/gilber_tests/unknown";
    let hash = make_repo(dir);
    let mut fs = GilberFS::new(PathBuf::from(dir), 7, 8).unwrap();
    let before = fs.getattr(1).unwrap();
    assert_eq!(before, fs.root_attr());
    assert_eq!(before.kind, FileType::Directory);
    assert_eq!(before.nlink, 2);
    assert_eq!(before.ino, 1);
    assert_eq!(before.uid, 7);
    assert_eq!(fs.lookup(1, b"not-a-hash"), Err(FsError::NotFound));
    assert_eq!(fs.lookup(1, b"0000000000000000000000000000000000000000"), Err(FsError::NotFound));
    assert_eq!(fs.lookup(999, b"hello.txt"), Err(FsError::NotFound));
    assert_eq!(fs.getattr(999), Err(FsError::NotFound));
    assert_eq!(fs.read(999, 0, 1), Err(FsError::NotFound));
    assert!(matches!(fs.readdir(1, 0), Err(FsError::NotFound)));
    assert!(matches!(fs.readdir(999, 0), Err(FsError::NotFound)));
    let root = fs.lookup(1, hash.as_bytes()).unwrap();
    assert_eq!(fs.read(root.ino, 0, 1), Err(FsError::IsADirectory));
    assert_eq!(fs.read(1, 0, 1), Err(FsError::IsADirectory));
    let blob = fs.lookup(root.ino, b"hello.txt").unwrap();
    assert_eq!(fs.read(blob.ino, -1, 1), Err(FsError::InvalidArgument));
    assert!(matches!(fs.readdir(blob.ino, 0), Err(FsError::NotFound)));
    assert_eq!(fs.lookup(blob.ino, b"x"), Err(FsError::NotFound));
    assert_eq!(fs.getattr(1).unwrap(), before);
}

#[test]
fn opening_a_missing_repository_fails() {
    assert!(GilberFS::new(PathBuf::from("/tmp/gilber_tests/does/not/exist"), 0, 0).is_err());
}

#[test]
fn listing_skips_what_does_not_resolve() {
    let dir = "/tmp/gilber_tests/skips";
    let repo = git2::Repository::init(dir).unwrap();
    let blob = repo.blob(b"Hello World!\n").unwrap();
    let mut fs = GilberFS::new(PathBuf::from(dir), 0, 0).unwrap();
    let tree = GitTree {
        ino: Ino::new(99),
        entries: vec![
            TreeEntry { name: b"ghost".to_vec(), id: vec![7u8; 20], kind: EntryKind::Blob },
            TreeEntry { name: b"module".to_vec(), id: blob.as_bytes().to_vec(), kind: EntryKind::Other },
            TreeEntry { name: b"hello.txt".to_vec(), id: blob.as_bytes().to_vec(), kind: EntryKind::Blob },
        ],
    };
    let list = fs.list_tree(&tree, 0);
    assert_eq!(list.len(), 1);
    assert_eq!(list[0].name, b"hello.txt".to_vec());
    assert_eq!(list[0].next_offset, 3);
    assert_eq!(list[0].kind, FileType::RegularFile);
    assert_eq!(fs.lookup_in_tree(&tree, b"module"), Err(FsError::NotFound));
    assert_eq!(fs.lookup_in_tree(&tree, b"ghost"), Err(FsError::NotFound));
    let hello = fs.lookup_in_tree(&tree, b"hello.txt").unwrap();
    assert_eq!(hello.ino, list[0].ino);
    assert_eq!(hello.size, 13);
    assert!(fs.list_tree(&tree, 3).is_empty());
}
