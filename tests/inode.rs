use gilber::inode::{Ino, InodeGen, FIRST_INO, ROOT_INO};

#[test]
fn ino_new_has_root_parent() {
    let ino = Ino::new(42);
    assert_eq!(ino.value(), 42);
    assert_eq!(ino.parent(), ROOT_INO);
}

#[test]
fn ino_set_parent_keeps_number() {
    let mut ino = Ino::new(7);
    ino.set_parent(Ino::new(3));
    assert_eq!(ino.value(), 7);
    assert_eq!(ino.parent(), 3);
}

#[test]
fn ino_from_u64() {
    let ino: Ino = 9u64.into();
    assert_eq!(ino, Ino::new(9));
}

#[test]
fn generator_counts_up_from_two() {
    let mut gen = InodeGen::new();
    assert_eq!(gen.peek(), FIRST_INO);
    assert!(gen.can_issue());
    assert_eq!(gen.next().value(), 2);
    assert_eq!(gen.next().value(), 3);
    assert_eq!(gen.next().value(), 4);
    assert_eq!(gen.peek(), 5);
}
