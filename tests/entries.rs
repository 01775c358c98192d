use gilber::fs::find_entry;
use gilber::git::{EntryKind, TreeEntry};

fn entry(name: &str, kind: EntryKind) -> TreeEntry {
    TreeEntry { name: name.as_bytes().to_vec(), id: vec![0u8; 20], kind }
}

#[test]
fn finds_the_named_entry() {
    let es = vec![entry("a.txt", EntryKind::Blob), entry("dir", EntryKind::Tree), entry("hello.txt", EntryKind::Blob)];
    assert_eq!(find_entry(&es, b"hello.txt"), Some(2));
    assert_eq!(find_entry(&es, b"dir"), Some(1));
}

#[test]
fn missing_name_is_not_found() {
    let es = vec![entry("hello.txt", EntryKind::Blob)];
    assert_eq!(find_entry(&es, b"missing.txt"), None);
    assert_eq!(find_entry(&es, b"hello.tx"), None);
    assert_eq!(find_entry(&Vec::new(), b"hello.txt"), None);
}
