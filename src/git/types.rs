use crate::fs::attr::{FileAttr, FileAttrBuilder, FileType, Timespec, ToFileAttr, DIR_PERM, FILE_PERM};
use crate::inode::{Ino, Inode};
use vstd::prelude::*;

verus! {

/// The three kinds of stored object that the filesystem shows.
#[derive(Copy, Clone, PartialEq, Eq, Hash, Debug, Structural)]
pub enum ObjectKind {
    Commit,
    Tree,
    Blob,
}

/// What a tree entry points at.
#[derive(Copy, Clone, PartialEq, Eq, Hash, Debug, Structural)]
pub enum EntryKind {
    Blob,
    Tree,
    /// Anything else (a submodule commit, ...): not shown.
    Other,
}

/// One named entry of a tree, copied out of the store.
#[derive(Clone, Debug)]
pub struct TreeEntry {
    pub name: Vec<u8>,
    pub id: Vec<u8>,
    pub kind: EntryKind,
}

/// A commit, with the identifier it was given.
#[derive(Clone, Debug)]
pub struct GitCommit {
    pub ino: Ino,
    /// The identity of the commit's root tree.
    pub tree_id: Vec<u8>,
    /// The commit's time, in seconds since the epoch.
    pub time: i64,
}

/// A tree, with the identifier it was given and its entries in stored order.
#[derive(Clone, Debug)]
pub struct GitTree {
    pub ino: Ino,
    pub entries: Vec<TreeEntry>,
}

/// A blob, with the identifier it was given and its bytes.
#[derive(Clone, Debug)]
pub struct GitBlob {
    pub ino: Ino,
    pub content: Vec<u8>,
}

/// A resolved object of any kind.
#[derive(Clone, Debug)]
pub enum GitObject {
    Commit(GitCommit),
    Tree(GitTree),
    Blob(GitBlob),
}

impl GitObject {
    pub open spec fn kind(&self) -> ObjectKind {
        match self {
            GitObject::Commit(_) => ObjectKind::Commit,
            GitObject::Tree(_) => ObjectKind::Tree,
            GitObject::Blob(_) => ObjectKind::Blob,
        }
    }
}

impl Inode for GitObject {
    open spec fn spec_ino(&self) -> Ino {
        match self {
            GitObject::Commit(c) => c.ino,
            GitObject::Tree(t) => t.ino,
            GitObject::Blob(b) => b.ino,
        }
    }

    fn ino(&self) -> (r: Ino) {
        match self {
            GitObject::Commit(c) => c.ino,
            GitObject::Tree(t) => t.ino,
            GitObject::Blob(b) => b.ino,
        }
    }
}

impl Inode for GitCommit {
    open spec fn spec_ino(&self) -> Ino {
        self.ino
    }

    fn ino(&self) -> (r: Ino) {
        self.ino
    }
}

impl Inode for GitTree {
    open spec fn spec_ino(&self) -> Ino {
        self.ino
    }

    fn ino(&self) -> (r: Ino) {
        self.ino
    }
}

impl Inode for GitBlob {
    open spec fn spec_ino(&self) -> Ino {
        self.ino
    }

    fn ino(&self) -> (r: Ino) {
        self.ino
    }
}

/// The link count of a directory with `n` entries: two plus the entries,
/// held at `u32::MAX` where that does not fit.
pub open spec fn tree_nlink(n: nat) -> u32 {
    if n <= u32::MAX - 2 {
        (n + 2) as u32
    } else {
        u32::MAX
    }
}

/// The link count of every commit directory and every blob.
pub const FIXED_NLINK: u32 = 2;

impl ToFileAttr for GitCommit {
    /// A directory stamped with the commit's time.
    open spec fn spec_file_attr(&self, builder: FileAttrBuilder) -> FileAttr {
        (FileAttrBuilder {
            ino: self.ino.no,
            kind: FileType::Directory,
            perm: DIR_PERM,
            atime: Timespec { sec: self.time, nsec: 0 },
            mtime: Timespec { sec: self.time, nsec: 0 },
            ctime: Timespec { sec: self.time, nsec: 0 },
            crtime: Timespec { sec: self.time, nsec: 0 },
            nlink: FIXED_NLINK,
            ..builder
        }).spec_build()
    }

    fn to_file_attr(&self, builder: FileAttrBuilder) -> (r: FileAttr) {
        builder.ino(self.ino).directory().time(Timespec::new(self.time, 0)).nlink(FIXED_NLINK).build()
    }
}

impl ToFileAttr for GitTree {
    /// A directory linked from itself, its parent and each of its entries.
    open spec fn spec_file_attr(&self, builder: FileAttrBuilder) -> FileAttr {
        (FileAttrBuilder {
            ino: self.ino.no,
            kind: FileType::Directory,
            perm: DIR_PERM,
            nlink: tree_nlink(self.entries@.len()),
            ..builder
        }).spec_build()
    }

    fn to_file_attr(&self, builder: FileAttrBuilder) -> (r: FileAttr) {
        let n = self.entries.len();
        let nlink: u32 = if n <= (u32::MAX - 2) as usize {
            (n + 2) as u32
        } else {
            u32::MAX
        };
        builder.ino(self.ino).directory().nlink(nlink).build()
    }
}

impl ToFileAttr for GitBlob {
    /// A regular file as long as the blob's content.
    open spec fn spec_file_attr(&self, builder: FileAttrBuilder) -> FileAttr {
        (FileAttrBuilder {
            ino: self.ino.no,
            kind: FileType::RegularFile,
            perm: FILE_PERM,
            size: self.content@.len() as u64,
            nlink: FIXED_NLINK,
            ..builder
        }).spec_build()
    }

    fn to_file_attr(&self, builder: FileAttrBuilder) -> (r: FileAttr) {
        builder.ino(self.ino).file().size(self.content.len()).nlink(FIXED_NLINK).build()
    }
}

/// A tree shows as a directory whose link count is two plus its entries.
pub proof fn lemma_tree_nlink(t: GitTree, builder: FileAttrBuilder)
    requires
        t.entries@.len() <= u32::MAX - 2,
    ensures
        t.spec_file_attr(builder).kind == FileType::Directory,
        t.spec_file_attr(builder).nlink == t.entries@.len() + 2,
        t.spec_file_attr(builder).ino == t.ino.no,
        t.spec_file_attr(builder).perm == DIR_PERM,
        t.spec_file_attr(builder).size == builder.size,
{
}

/// A tree's record depends on its identifier and its number of entries
/// alone, so the same tree reached by two paths shows the same record.
pub proof fn lemma_tree_attr_determined(t1: GitTree, t2: GitTree, builder: FileAttrBuilder)
    requires
        t1.ino.no == t2.ino.no,
        t1.entries@.len() == t2.entries@.len(),
    ensures
        t1.spec_file_attr(builder) == t2.spec_file_attr(builder),
{
}

/// A blob's record depends on its identifier and its length alone, so the
/// same blob reached by two paths shows the same record.
pub proof fn lemma_blob_attr_determined(b1: GitBlob, b2: GitBlob, builder: FileAttrBuilder)
    requires
        b1.ino.no == b2.ino.no,
        b1.content@.len() == b2.content@.len(),
    ensures
        b1.spec_file_attr(builder) == b2.spec_file_attr(builder),
{
}

} // verus!
