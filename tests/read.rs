use gilber::fs::{read_blob, read_range, FsError};
use gilber::git::GitBlob;
use gilber::inode::Ino;

const HELLO: &[u8] = b"Hello World!\n";

#[test]
fn whole_content_from_the_start() {
    assert_eq!(read_range(HELLO, 0, 13), HELLO.to_vec());
}

#[test]
fn read_past_the_end_is_clamped() {
    assert_eq!(read_range(HELLO, 7, 100), b"orld!\n".to_vec());
    assert_eq!(read_range(HELLO, 0, u64::MAX), HELLO.to_vec());
    assert_eq!(read_range(HELLO, 12, u64::MAX), b"\n".to_vec());
}

#[test]
fn read_at_or_after_the_end_is_empty() {
    assert!(read_range(HELLO, 13, 5).is_empty());
    assert!(read_range(HELLO, 1000, 5).is_empty());
    assert!(read_range(b"", 0, 5).is_empty());
}

#[test]
fn read_inside_the_content() {
    assert_eq!(read_range(HELLO, 6, 5), b"World".to_vec());
    assert!(read_range(HELLO, 3, 0).is_empty());
}

#[test]
fn read_blob_refuses_a_negative_offset() {
    use_blob(|b| {
        assert_eq!(read_blob(b, -1, 4), Err(FsError::InvalidArgument));
        assert_eq!(read_blob(b, 7, 100), Ok(b"orld!\n".to_vec()));
        assert_eq!(read_blob(b, 0, 13), Ok(HELLO.to_vec()));
        assert_eq!(read_blob(b, 20, 1), Ok(Vec::new()));
    });
}

fn use_blob(f: impl Fn(&GitBlob)) {
    f(&GitBlob { ino: Ino::new(5), content: HELLO.to_vec() });
}
