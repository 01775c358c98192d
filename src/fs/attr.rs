use crate::inode::Ino;
use vstd::prelude::*;

verus! {

/// A point in time: seconds and nanoseconds since the Unix epoch.
#[derive(Copy, Clone, PartialEq, Eq, Hash, Debug, Structural)]
pub struct Timespec {
    pub sec: i64,
    pub nsec: i32,
}

impl Timespec {
    pub fn new(sec: i64, nsec: i32) -> (r: Timespec)
        ensures
            r == (Timespec { sec, nsec }),
    {
        Timespec { sec, nsec }
    }

    pub fn epoch() -> (r: Timespec)
        ensures
            r == unix_epoch(),
    {
        Timespec { sec: 0, nsec: 0 }
    }
}

/// 1970-01-01 00:00:00.
pub open spec fn unix_epoch() -> Timespec {
    Timespec { sec: 0, nsec: 0 }
}

/// Permission bits of every directory.
pub const DIR_PERM: u16 = 0o755;

/// Permission bits of every regular file.
pub const FILE_PERM: u16 = 0o644;

/// The kinds of node this filesystem shows.
#[derive(Copy, Clone, PartialEq, Eq, Hash, Debug, Structural)]
pub enum FileType {
    Directory,
    RegularFile,
}

/// The attribute record of one node.
#[derive(Copy, Clone, PartialEq, Eq, Hash, Debug, Structural)]
pub struct FileAttr {
    pub ino: u64,
    pub size: u64,
    pub blocks: u64,
    pub atime: Timespec,
    pub mtime: Timespec,
    pub ctime: Timespec,
    pub crtime: Timespec,
    pub kind: FileType,
    pub perm: u16,
    pub nlink: u32,
    pub uid: u32,
    pub gid: u32,
    pub rdev: u32,
    pub flags: u32,
}

/// Anything that can describe itself as an attribute record, starting from
/// the fields already set on `builder` (owner, group, ...).
pub trait ToFileAttr {
    spec fn spec_file_attr(&self, builder: FileAttrBuilder) -> FileAttr;

    fn to_file_attr(&self, builder: FileAttrBuilder) -> (r: FileAttr)
        ensures
            r == self.spec_file_attr(builder),
    ;
}

/// Collects the fields of a [`FileAttr`] one at a time.
#[derive(Copy, Clone)]
pub struct FileAttrBuilder {
    pub ino: u64,
    pub size: u64,
    pub blocks: u64,
    pub atime: Timespec,
    pub mtime: Timespec,
    pub ctime: Timespec,
    pub crtime: Timespec,
    pub kind: FileType,
    pub perm: u16,
    pub nlink: u32,
    pub uid: u32,
    pub gid: u32,
    pub rdev: u32,
    pub flags: u32,
}

/// The builder that `new` and `default` return.
pub open spec fn default_builder() -> FileAttrBuilder {
    FileAttrBuilder {
        ino: 0,
        size: 0,
        blocks: 0,
        atime: unix_epoch(),
        mtime: unix_epoch(),
        ctime: unix_epoch(),
        crtime: unix_epoch(),
        kind: FileType::RegularFile,
        perm: FILE_PERM,
        nlink: 1,
        uid: 0,
        gid: 0,
        rdev: 0,
        flags: 0,
    }
}

impl FileAttrBuilder {
    /// The record that `build` makes of this builder: each field copied.
    pub open spec fn spec_build(self) -> FileAttr {
        FileAttr {
            ino: self.ino,
            size: self.size,
            blocks: self.blocks,
            atime: self.atime,
            mtime: self.mtime,
            ctime: self.ctime,
            crtime: self.crtime,
            kind: self.kind,
            perm: self.perm,
            nlink: self.nlink,
            uid: self.uid,
            gid: self.gid,
            rdev: self.rdev,
            flags: self.flags,
        }
    }

    pub fn new() -> (r: Self)
        ensures
            r == default_builder(),
    {
        let epoch = Timespec::epoch();
        FileAttrBuilder {
            ino: 0,
            size: 0,
            blocks: 0,
            atime: epoch,
            mtime: epoch,
            ctime: epoch,
            crtime: epoch,
            kind: FileType::RegularFile,
            perm: FILE_PERM,
            nlink: 1,
            uid: 0,
            gid: 0,
            rdev: 0,
            flags: 0,
        }
    }

    pub fn ino(self, ino: Ino) -> (r: Self)
        ensures
            r == (FileAttrBuilder { ino: ino.no, ..self }),
    {
        let mut b = self;
        b.ino = ino.no;
        b
    }

    pub fn size(self, size: usize) -> (r: Self)
        ensures
            r == (FileAttrBuilder { size: size as u64, ..self }),
    {
        let mut b = self;
        b.size = size as u64;
        b
    }

    pub fn blocks(self, blocks: usize) -> (r: Self)
        ensures
            r == (FileAttrBuilder { blocks: blocks as u64, ..self }),
    {
        let mut b = self;
        b.blocks = blocks as u64;
        b
    }

    /// Sets all four timestamps to `time`.
    pub fn time(self, time: Timespec) -> (r: Self)
        ensures
            r == (FileAttrBuilder { atime: time, mtime: time, ctime: time, crtime: time, ..self }),
    {
        let mut b = self;
        b.atime = time;
        b.mtime = time;
        b.ctime = time;
        b.crtime = time;
        b
    }

    pub fn file(self) -> (r: Self)
        ensures
            r == (FileAttrBuilder { kind: FileType::RegularFile, perm: FILE_PERM, ..self }),
    {
        let mut b = self;
        b.kind = FileType::RegularFile;
        b.perm = FILE_PERM;
        b
    }

    pub fn directory(self) -> (r: Self)
        ensures
            r == (FileAttrBuilder { kind: FileType::Directory, perm: DIR_PERM, ..self }),
    {
        let mut b = self;
        b.kind = FileType::Directory;
        b.perm = DIR_PERM;
        b
    }

    pub fn nlink(self, nlink: u32) -> (r: Self)
        ensures
            r == (FileAttrBuilder { nlink, ..self }),
    {
        let mut b = self;
        b.nlink = nlink;
        b
    }

    /// Sets the owner and group.
    pub fn owner(self, uid: u32, gid: u32) -> (r: Self)
        ensures
            r == (FileAttrBuilder { uid, gid, ..self }),
    {
        let mut b = self;
        b.uid = uid;
        b.gid = gid;
        b
    }

    pub fn build(self) -> (r: FileAttr)
        ensures
            r == self.spec_build(),
    {
        FileAttr {
            ino: self.ino,
            size: self.size,
            blocks: self.blocks,
            atime: self.atime,
            mtime: self.mtime,
            ctime: self.ctime,
            crtime: self.crtime,
            kind: self.kind,
            perm: self.perm,
            nlink: self.nlink,
            uid: self.uid,
            gid: self.gid,
            rdev: self.rdev,
            flags: self.flags,
        }
    }
}

impl Default for FileAttrBuilder {
    fn default() -> (r: Self)
        ensures
            r == default_builder(),
    {
        FileAttrBuilder::new()
    }
}

} // verus!
