use gilber::fs::{FileAttrBuilder, FileType, Timespec};
use gilber::inode::Ino;

#[test]
fn default_builder_is_a_plain_file() {
    let a = FileAttrBuilder::new().build();
    assert_eq!(a.ino, 0);
    assert_eq!(a.size, 0);
    assert_eq!(a.kind, FileType::RegularFile);
    assert_eq!(a.perm, 0o644);
    assert_eq!(a.nlink, 1);
    assert_eq!(a.atime, Timespec::new(0, 0));
    let d: FileAttrBuilder = Default::default();
    assert_eq!(d.build(), a);
}

#[test]
fn builder_sets_each_field() {
    let a = FileAttrBuilder::new()
        .ino(Ino::new(12))
        .directory()
        .size(34)
        .blocks(5)
        .time(Timespec::new(1_600_000_000, 0))
        .nlink(6)
        .owner(501, 20)
        .build();
    assert_eq!(a.ino, 12);
    assert_eq!(a.kind, FileType::Directory);
    assert_eq!(a.perm, 0o755);
    assert_eq!(a.size, 34);
    assert_eq!(a.blocks, 5);
    assert_eq!(a.mtime.sec, 1_600_000_000);
    assert_eq!(a.crtime, a.atime);
    assert_eq!(a.nlink, 6);
    assert_eq!(a.uid, 501);
    assert_eq!(a.gid, 20);
}

#[test]
fn file_after_directory_is_a_file_again() {
    let a = FileAttrBuilder::new().directory().file().build();
    assert_eq!(a.kind, FileType::RegularFile);
    assert_eq!(a.perm, 0o644);
}
