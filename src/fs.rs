use crate::git::oid::{oid_from_hex, parse_oid_hex};
use crate::git::{one_to_one, GitBlob, GitCommit, GitError, GitRepo, GitTree, EntryKind, TreeEntry};
use crate::inode::{Ino, InodeGen, FIRST_INO, ROOT_INO};
use vstd::prelude::*;

pub mod attr;
pub mod listing;

pub use attr::{FileAttr, FileAttrBuilder, FileType, Timespec, ToFileAttr};
pub use listing::DirEntry;

use listing::{item_at, lemma_listing_extend, lemma_listing_none_resolved, listing, resolved_ino, resolved_kind};

use attr::{default_builder, unix_epoch, DIR_PERM};

verus! {

/// Why a filesystem request failed.
#[derive(Copy, Clone, PartialEq, Eq, Hash, Debug, Structural)]
pub enum FsError {
    /// No such identifier, name or object.
    NotFound,
    /// Bytes were asked of a directory.
    IsADirectory,
    /// The byte range asked for is malformed.
    InvalidArgument,
}

/// Link count of the root directory.
pub const ROOT_NLINK: u32 = 2;

/// A fresh builder that carries the owner and group of every record.
pub open spec fn owner_builder(uid: u32, gid: u32) -> FileAttrBuilder {
    FileAttrBuilder { uid, gid, ..default_builder() }
}

/// The record of the synthetic root directory, starting from `builder`.
pub open spec fn root_attr_spec(builder: FileAttrBuilder) -> FileAttr {
    (FileAttrBuilder { ino: ROOT_INO, kind: FileType::Directory, perm: DIR_PERM, nlink: ROOT_NLINK, ..builder }).spec_build()
}

/// The bytes of `content` from `offset` on, at most `size` of them; none where
/// `offset` lies at or past the end.
pub open spec fn byte_range(content: Seq<u8>, offset: int, size: int) -> Seq<u8> {
    if offset >= content.len() {
        Seq::empty()
    } else if offset + size >= content.len() {
        content.subrange(offset, content.len() as int)
    } else {
        content.subrange(offset, offset + size)
    }
}

/// Reading from the start with the full length gives the whole content;
/// reading at or past the end gives nothing; a read that would run past the
/// end gives exactly the bytes from `offset` to the end.
pub proof fn lemma_byte_range_clamps(content: Seq<u8>, offset: int, size: int)
    requires
        0 <= offset,
        0 <= size,
    ensures
        byte_range(content, 0, content.len() as int) == content,
        offset >= content.len() ==> byte_range(content, offset, size).len() == 0,
        offset < content.len() && offset + size > content.len() ==> byte_range(content, offset, size).len() == content.len() - offset,
        offset + size <= content.len() ==> byte_range(content, offset, size).len() == size,
        forall|k: int| 0 <= k < byte_range(content, offset, size).len() ==> #[trigger] byte_range(content, offset, size)[k] == content[offset + k],
{
    assert(content.subrange(0, content.len() as int) =~= content);
}

/// Copies the requested part of `content` (see [`byte_range`]).
pub fn read_range(content: &[u8], offset: u64, size: u64) -> (r: Vec<u8>)
    ensures
        r@ == byte_range(content@, offset as int, size as int),
{
    let n = content.len();
    let mut out: Vec<u8> = Vec::new();
    if offset >= n as u64 {
        return out;
    }
    let start = offset as usize;
    let end: usize = if size >= (n - start) as u64 {
        n
    } else {
        start + size as usize
    };
    let mut i: usize = start;
    while i < end
        invariant
            start <= i <= end <= n,
            n == content@.len(),
            out@ == content@.subrange(start as int, i as int),
        decreases end - i,
    {
        out.push(content[i]);
        i = i + 1;
        assert(out@ =~= content@.subrange(start as int, i as int));
    }
    out
}

/// Up to `size` bytes of `blob` from `offset` on (see [`byte_range`]); a
/// negative offset is refused.
pub fn read_blob(blob: &GitBlob, offset: i64, size: u32) -> (r: Result<Vec<u8>, FsError>)
    ensures
        offset < 0 ==> r == Err::<Vec<u8>, FsError>(FsError::InvalidArgument),
        offset >= 0 ==> (r matches Ok(d) && d@ == byte_range(blob.content@, offset as int, size as int)),
{
    if offset < 0 {
        Err(FsError::InvalidArgument)
    } else {
        Ok(read_range(blob.content.as_slice(), offset as u64, size as u64))
    }
}

/// Whether two byte strings are equal.
fn bytes_equal(a: &[u8], b: &[u8]) -> (r: bool)
    ensures
        r == (a@ == b@),
{
    if a.len() != b.len() {
        return false;
    }
    let mut i: usize = 0;
    while i < a.len()
        invariant
            0 <= i <= a@.len(),
            a@.len() == b@.len(),
            forall|j: int| 0 <= j < i ==> a@[j] == b@[j],
        decreases a@.len() - i,
    {
        if a[i] != b[i] {
            return false;
        }
        i = i + 1;
    }
    assert(a@ =~= b@);
    true
}

/// The position of the first entry called `name`.
pub fn find_entry(entries: &Vec<TreeEntry>, name: &[u8]) -> (r: Option<usize>)
    ensures
        r matches Some(k) ==> k < entries@.len() && entries@[k as int].name@ == name@
            && forall|j: int| 0 <= j < k ==> #[trigger] entries@[j].name@ != name@,
        r is None ==> forall|j: int| 0 <= j < entries@.len() ==> #[trigger] entries@[j].name@ != name@,
{
    let mut i: usize = 0;
    while i < entries.len()
        invariant
            0 <= i <= entries@.len(),
            forall|j: int| 0 <= j < i ==> #[trigger] entries@[j].name@ != name@,
        decreases entries@.len() - i,
    {
        if bytes_equal(entries[i].name.as_slice(), name) {
            return Some(i);
        }
        i = i + 1;
    }
    None
}

/// The file type that an entry of kind `kind` shows as.
pub open spec fn shown_kind(kind: EntryKind) -> FileType {
    match kind {
        EntryKind::Tree => FileType::Directory,
        _ => FileType::RegularFile,
    }
}

/// Where a listing asked for at `offset` starts in a tree of `n` entries: a
/// negative offset lies past every entry.
pub open spec fn start_index(offset: i64, n: nat) -> nat {
    if offset < 0 {
        n
    } else {
        offset as nat
    }
}

/// `k` is the position of the first entry of `es` called `name`.
pub open spec fn first_named(es: Seq<TreeEntry>, name: Seq<u8>, k: int) -> bool {
    &&& 0 <= k < es.len()
    &&& es[k].name@ == name
    &&& forall|j: int| 0 <= j < k ==> #[trigger] es[j].name@ != name
}

/// `a` is the record that looking up `name` among `es` shows: that of the
/// object of the first entry so called, a blob or a tree, whose identity the
/// identifier `a.ino` stands for in `inodes`.
pub open spec fn is_entry_record(es: Seq<TreeEntry>, name: Seq<u8>, inodes: Map<u64, Seq<u8>>, builder: FileAttrBuilder, a: FileAttr) -> bool {
    exists|k: int| #[trigger] first_named(es, name, k) && inodes.contains_key(a.ino) && inodes[a.ino] == es[k].id@ && {
        ||| es[k].kind == EntryKind::Blob && exists|b: GitBlob| b.ino.no == a.ino && a == #[trigger] b.spec_file_attr(builder)
        ||| es[k].kind == EntryKind::Tree && exists|t: GitTree| t.ino.no == a.ino && a == #[trigger] t.spec_file_attr(builder)
    }
}

/// `list` is the listing of the entries `es` asked for at `offset`, for
/// some outcome `res` of resolving each entry: an entry of another kind than
/// blob or tree never resolves, one that does shows the identifier that
/// `after` pairs with its identity, and every pair that `after` has beyond
/// `before` is that of a listed entry.
pub open spec fn is_listing(es: Seq<TreeEntry>, offset: i64, before: Map<u64, Seq<u8>>, after: Map<u64, Seq<u8>>, list: Seq<DirEntry>) -> bool {
    exists|res: Seq<Option<(u64, FileType)>>| {
        &&& res.len() == es.len()
        &&& list.map_values(|d: DirEntry| d@) == #[trigger] listing(es, res, start_index(offset, es.len()))
        &&& forall|i: int| 0 <= i < es.len() && #[trigger] res[i] is Some ==> {
            &&& es[i].kind != EntryKind::Other
            &&& resolved_kind(res[i]) == shown_kind(es[i].kind)
            &&& after.contains_key(resolved_ino(res[i]))
            &&& after[resolved_ino(res[i])] == es[i].id@
        }
        &&& new_pairs_listed(before, after, es, res, start_index(offset, es.len()) as int)
    }
}

/// Going from `before` to `after`, the map gained only pairs for the
/// identities of entries from position `from` on that resolved.
pub open spec fn new_pairs_listed(before: Map<u64, Seq<u8>>, after: Map<u64, Seq<u8>>, es: Seq<TreeEntry>, res: Seq<Option<(u64, FileType)>>, from: int) -> bool {
    forall|k: u64| #[trigger] after.contains_key(k) && !before.contains_key(k) ==>
        exists|j: int| from <= j < es.len() && res[j] is Some && #[trigger] es[j].id@ == after[k]
}

/// What listing the entries `es` from `offset` does to the map and shows:
/// the listing (see [`is_listing`]), and no change at all when `offset`
/// lies past the last entry.
pub open spec fn is_listing_step(es: Seq<TreeEntry>, offset: i64, before: Map<u64, Seq<u8>>, after: Map<u64, Seq<u8>>, list: Seq<DirEntry>) -> bool {
    &&& is_listing(es, offset, before, after, list)
    &&& (start_index(offset, es.len()) >= es.len() ==> after == before)
}

/// `list` is a listing step (see [`is_listing_step`]) of a tree that `ino` stands for.
pub open spec fn lists_tree_of(ino: u64, offset: i64, before: Map<u64, Seq<u8>>, after: Map<u64, Seq<u8>>, list: Seq<DirEntry>) -> bool {
    exists|t: GitTree| t.ino.no == ino && #[trigger] is_listing_step(t.entries@, offset, before, after, list)
}

/// The record that looking up a commit under the root shows for its root
/// tree `t`: a directory owned by the filesystem's owner, of size zero, with
/// epoch timestamps and a link count of two plus the tree's entries.
pub proof fn lemma_commit_record(fs: &GilberFS, t: GitTree)
    requires
        t.entries@.len() <= u32::MAX - 2,
    ensures
        t.spec_file_attr(fs.spec_builder()).kind == FileType::Directory,
        t.spec_file_attr(fs.spec_builder()).perm == DIR_PERM,
        t.spec_file_attr(fs.spec_builder()).nlink == t.entries@.len() + 2,
        t.spec_file_attr(fs.spec_builder()).size == 0,
        t.spec_file_attr(fs.spec_builder()).mtime == unix_epoch(),
        t.spec_file_attr(fs.spec_builder()).uid == fs.owner_uid(),
        t.spec_file_attr(fs.spec_builder()).gid == fs.owner_gid(),
{
}

/// The filesystem: four requests answered from the object store, with
/// identifiers handed out on first sight and kept for the mount's lifetime.
pub struct GilberFS {
    repo: GitRepo,
    uid: u32,
    gid: u32,
}

impl GilberFS {
    /// Each identifier handed out so far, with the object identity it stands for.
    pub closed spec fn inodes(&self) -> Map<u64, Seq<u8>> {
        self.repo.inodes()
    }

    /// The identifier that the next new identity gets.
    pub closed spec fn next_ino(&self) -> u64 {
        self.repo.next_ino()
    }

    /// The owner of every record.
    pub closed spec fn owner_uid(&self) -> u32 {
        self.uid
    }

    /// The group of every record.
    pub closed spec fn owner_gid(&self) -> u32 {
        self.gid
    }

    /// The builder that every record starts from.
    pub open spec fn spec_builder(&self) -> FileAttrBuilder {
        owner_builder(self.owner_uid(), self.owner_gid())
    }

    /// The identifiers in use lie in `[FIRST_INO, next_ino)`, so the root's is
    /// never among them, and no identity has two of them.
    pub open spec fn wf(&self) -> bool {
        &&& forall|i: u64| #[trigger] self.inodes().contains_key(i) ==> FIRST_INO <= i < self.next_ino()
        &&& one_to_one(self.inodes())
    }

    /// Opens the repository at `repo`; every record is owned by `uid` and `gid`.
    pub fn new(repo: std::path::PathBuf, uid: u32, gid: u32) -> (r: Result<Self, GitError>)
        ensures
            r matches Ok(fs) ==> fs.wf() && fs.inodes() == Map::<u64, Seq<u8>>::empty() && fs.next_ino() == FIRST_INO
                && fs.spec_builder() == owner_builder(uid, gid),
            r is Err ==> r == Err::<Self, GitError>(GitError::Open),
    {
        match GitRepo::new(repo, InodeGen::new()) {
            Ok(g) => Ok(GilberFS { repo: g, uid, gid }),
            Err(e) => Err(e),
        }
    }

    fn builder(&self) -> (r: FileAttrBuilder)
        ensures
            r == self.spec_builder(),
    {
        FileAttrBuilder::new().owner(self.uid, self.gid)
    }

    /// The record of the root directory.
    pub fn root_attr(&self) -> (r: FileAttr)
        ensures
            r == root_attr_spec(self.spec_builder()),
    {
        self.builder().ino(Ino::new(ROOT_INO)).directory().nlink(ROOT_NLINK).build()
    }

    /// The record of the root tree of the commit whose textual hash is `hash`.
    fn lookup_commit(&mut self, hash: &[u8]) -> (r: Result<FileAttr, FsError>)
        requires
            old(self).wf(),
        ensures
            final(self).wf(),
            final(self).spec_builder() == old(self).spec_builder(),
            old(self).inodes().submap_of(final(self).inodes()),
            r is Err ==> r == Err::<FileAttr, FsError>(FsError::NotFound) && final(self).inodes() == old(self).inodes(),
            oid_from_hex(hash@) is None ==> r is Err,
            r matches Ok(a) ==> final(self).inodes().contains_key(a.ino)
                && exists|t: GitTree| t.ino.no == a.ino && a == #[trigger] t.spec_file_attr(old(self).spec_builder()),
    {
        let oid = match parse_oid_hex(hash) {
            Some(oid) => oid,
            None => return Err(FsError::NotFound),
        };
        match self.repo.get_tree_by_commit(&oid) {
            Ok(tree) => Ok(tree.to_file_attr(self.builder())),
            Err(_) => Err(FsError::NotFound),
        }
    }

    /// The record of the first entry of `tree` called `name`.
    pub fn lookup_in_tree(&mut self, tree: &GitTree, name: &[u8]) -> (r: Result<FileAttr, FsError>)
        requires
            old(self).wf(),
        ensures
            final(self).wf(),
            final(self).spec_builder() == old(self).spec_builder(),
            old(self).inodes().submap_of(final(self).inodes()),
            r is Err ==> r == Err::<FileAttr, FsError>(FsError::NotFound) && final(self).inodes() == old(self).inodes(),
            (forall|j: int| 0 <= j < tree.entries@.len() ==> #[trigger] tree.entries@[j].name@ != name@) ==> r is Err,
            r matches Ok(a) ==> is_entry_record(tree.entries@, name@, final(self).inodes(), old(self).spec_builder(), a),
    {
        let k = match find_entry(&tree.entries, name) {
            Some(k) => k,
            None => return Err(FsError::NotFound),
        };
        let entry = &tree.entries[k];
        let ghost es = tree.entries@;
        let b = self.builder();
        proof {
            assert(first_named(es, name@, k as int));
        }
        match entry.kind {
            EntryKind::Blob => match self.repo.get_blob(&entry.id) {
                Ok(blob) => Ok(blob.to_file_attr(b)),
                Err(_) => Err(FsError::NotFound),
            },
            EntryKind::Tree => match self.repo.get_tree(&entry.id) {
                Ok(sub) => Ok(sub.to_file_attr(b)),
                Err(_) => Err(FsError::NotFound),
            },
            EntryKind::Other => Err(FsError::NotFound),
        }
    }

    /// Resolves `name` under `parent`. Under the root, `name` is the textual
    /// hash of a commit, which shows as its root tree; elsewhere it is the
    /// name of an entry of the tree that `parent` stands for.
    pub fn lookup(&mut self, parent: u64, name: &[u8]) -> (r: Result<FileAttr, FsError>)
        requires
            old(self).wf(),
        ensures
            final(self).wf(),
            final(self).spec_builder() == old(self).spec_builder(),
            old(self).inodes().submap_of(final(self).inodes()),
            r is Err ==> r == Err::<FileAttr, FsError>(FsError::NotFound) && final(self).inodes() == old(self).inodes(),
            parent == ROOT_INO && oid_from_hex(name@) is None ==> r is Err,
            parent == ROOT_INO ==> (r matches Ok(a) ==> final(self).inodes().contains_key(a.ino)
                && exists|t: GitTree| t.ino.no == a.ino && a == #[trigger] t.spec_file_attr(old(self).spec_builder())),
            parent != ROOT_INO && !old(self).inodes().contains_key(parent) ==> r is Err,
            parent != ROOT_INO ==> (r matches Ok(a) ==> exists|t: GitTree| t.ino.no == parent
                && #[trigger] is_entry_record(t.entries@, name@, final(self).inodes(), old(self).spec_builder(), a)),
    {
        if parent == ROOT_INO {
            return self.lookup_commit(name);
        }
        let tree = match self.repo.get_tree_by_inode(Ino::new(parent)) {
            Ok(tree) => tree,
            Err(_) => return Err(FsError::NotFound),
        };
        self.lookup_in_tree(&tree, name)
    }

    /// The record of `ino`: the root's own, or that of the commit, tree or
    /// blob it stands for, tried in that order.
    pub fn getattr(&self, ino: u64) -> (r: Result<FileAttr, FsError>)
        ensures
            ino == ROOT_INO ==> r == Ok::<FileAttr, FsError>(root_attr_spec(self.spec_builder())),
            ino != ROOT_INO && !self.inodes().contains_key(ino) ==> r is Err,
            r is Err ==> r == Err::<FileAttr, FsError>(FsError::NotFound),
            ino != ROOT_INO ==> (r matches Ok(a) ==> a.ino == ino && {
                ||| exists|c: GitCommit| c.ino.no == ino && a == #[trigger] c.spec_file_attr(self.spec_builder())
                ||| exists|t: GitTree| t.ino.no == ino && a == #[trigger] t.spec_file_attr(self.spec_builder())
                ||| exists|b: GitBlob| b.ino.no == ino && a == #[trigger] b.spec_file_attr(self.spec_builder())
            }),
    {
        if ino == ROOT_INO {
            return Ok(self.root_attr());
        }
        let b = self.builder();
        if let Ok(commit) = self.repo.get_commit_by_inode(Ino::new(ino)) {
            Ok(commit.to_file_attr(b))
        } else if let Ok(tree) = self.repo.get_tree_by_inode(Ino::new(ino)) {
            Ok(tree.to_file_attr(b))
        } else if let Ok(blob) = self.repo.get_blob_by_inode(Ino::new(ino)) {
            Ok(blob.to_file_attr(b))
        } else {
            Err(FsError::NotFound)
        }
    }

    /// Up to `size` bytes of the blob that `ino` stands for, from `offset` on
    /// (see [`byte_range`]).
    pub fn read(&self, ino: u64, offset: i64, size: u32) -> (r: Result<Vec<u8>, FsError>)
        ensures
            ino == ROOT_INO ==> r == Err::<Vec<u8>, FsError>(FsError::IsADirectory),
            ino != ROOT_INO && !self.inodes().contains_key(ino) ==> r == Err::<Vec<u8>, FsError>(FsError::NotFound),
            r == Err::<Vec<u8>, FsError>(FsError::InvalidArgument) ==> offset < 0,
            r matches Ok(d) ==> offset >= 0 && self.inodes().contains_key(ino)
                && exists|b: GitBlob| b.ino.no == ino && d@ == byte_range(#[trigger] b.content@, offset as int, size as int),
    {
        if ino == ROOT_INO {
            Err(FsError::IsADirectory)
        } else if let Ok(blob) = self.repo.get_blob_by_inode(Ino::new(ino)) {
            read_blob(&blob, offset, size)
        } else if let Ok(_) = self.repo.get_tree_by_inode(Ino::new(ino)) {
            Err(FsError::IsADirectory)
        } else {
            Err(FsError::NotFound)
        }
    }

    /// Lists `tree` from entry `offset` on: each entry that resolves, with
    /// its identifier, the offset to resume at after it, its kind and its
    /// name. Entries that do not resolve are left out.
    pub fn list_tree(&mut self, tree: &GitTree, offset: i64) -> (r: Vec<DirEntry>)
        requires
            old(self).wf(),
        ensures
            final(self).wf(),
            final(self).spec_builder() == old(self).spec_builder(),
            old(self).inodes().submap_of(final(self).inodes()),
            is_listing_step(tree.entries@, offset, old(self).inodes(), final(self).inodes(), r@),
            start_index(offset, tree.entries@.len()) >= tree.entries@.len() ==> final(self).next_ino() == old(self).next_ino(),
    {
        let entries = &tree.entries;
        let n = entries.len();
        let start: usize = if offset < 0 || offset as u64 >= n as u64 {
            n
        } else {
            offset as usize
        };
        let ghost es = entries@;
        let ghost mut res: Seq<Option<(u64, FileType)>> = Seq::new(n as nat, |i: int| None);
        let mut out: Vec<DirEntry> = Vec::new();
        let mut i: usize = start;
        proof {
            assert forall|j: int| i <= j < n implies #[trigger] res[j] is None by {
                assert(res[j] == None::<(u64, FileType)>);
            }
            lemma_listing_none_resolved(es, res, start as nat);
            assert(out@.map_values(|d: DirEntry| d@) =~= listing(es, res, start as nat));
        }
        while i < n
            invariant
                start <= i <= n,
                n == es.len(),
                es == entries@,
                res.len() == n,
                self.wf(),
                self.uid == old(self).uid,
                self.gid == old(self).gid,
                old(self).inodes().submap_of(self.inodes()),
                forall|k: u64| #[trigger] self.inodes().contains_key(k) && !old(self).inodes().contains_key(k) ==>
                    exists|j: int| start <= j < i && res[j] is Some && #[trigger] es[j].id@ == self.inodes()[k],
                start == n ==> self.inodes() == old(self).inodes() && self.next_ino() == old(self).next_ino(),
                forall|j: int| i <= j < n ==> #[trigger] res[j] is None,
                out@.map_values(|d: DirEntry| d@) == listing(es, res, start as nat),
                forall|j: int| 0 <= j < n && #[trigger] res[j] is Some ==> {
                    &&& es[j].kind != EntryKind::Other
                    &&& resolved_kind(res[j]) == shown_kind(es[j].kind)
                    &&& self.inodes().contains_key(resolved_ino(res[j]))
                    &&& self.inodes()[resolved_ino(res[j])] == es[j].id@
                },
            decreases n - i,
        {
            let entry = &entries[i];
            let ghost inodes_before = self.inodes();
            let resolved: Option<(u64, FileType)> = match entry.kind {
                EntryKind::Blob => match self.repo.get_blob(&entry.id) {
                    Ok(blob) => Some((blob.ino.no, FileType::RegularFile)),
                    Err(_) => None,
                },
                EntryKind::Tree => match self.repo.get_tree(&entry.id) {
                    Ok(sub) => Some((sub.ino.no, FileType::Directory)),
                    Err(_) => None,
                },
                EntryKind::Other => None,
            };
            proof {
                vstd::map_lib::lemma_submap_of_trans(old(self).inodes(), inodes_before, self.inodes());
            }
            let ghost before = res;
            let ghost out_before = out@;
            proof {
                res = res.update(i as int, resolved);
                lemma_listing_extend(es, before, start as nat, i as nat, resolved);
                assert forall|k: u64| #[trigger] self.inodes().contains_key(k) && !old(self).inodes().contains_key(k) implies
                    exists|j: int| start <= j < i + 1 && res[j] is Some && #[trigger] es[j].id@ == self.inodes()[k] by {
                    if inodes_before.contains_key(k) {
                        let j = choose|j: int| start <= j < i && before[j] is Some && #[trigger] es[j].id@ == inodes_before[k];
                        assert(res[j] == before[j]);
                        assert(es[j].id@ == self.inodes()[k]);
                    } else {
                        assert(resolved is Some);
                        assert(res[i as int] is Some);
                        assert(es[i as int].id@ == self.inodes()[k]);
                    }
                }
                assert forall|j: int| 0 <= j < n && #[trigger] res[j] is Some implies {
                    &&& es[j].kind != EntryKind::Other
                    &&& resolved_kind(res[j]) == shown_kind(es[j].kind)
                    &&& self.inodes().contains_key(resolved_ino(res[j]))
                    &&& self.inodes()[resolved_ino(res[j])] == es[j].id@
                } by {
                    if j != i {
                        assert(before[j] == res[j]);
                        assert(inodes_before.contains_key(resolved_ino(res[j])));
                    }
                }
            }
            if let Some((child, kind)) = resolved {
                out.push(DirEntry { ino: child, next_offset: (i + 1) as u64, kind, name: entry.name.clone() });
                assert(out@.map_values(|d: DirEntry| d@) =~= out_before.map_values(|d: DirEntry| d@) + seq![item_at(es, res, i as nat)]);
                assert(out@.map_values(|d: DirEntry| d@) =~= listing(es, res, start as nat));
            } else {
                assert(out@ == out_before);
                assert(out@.map_values(|d: DirEntry| d@) =~= listing(es, res, start as nat));
            }
            i = i + 1;
        }
        proof {
            assert(listing(es, res, start as nat) == listing(es, res, start_index(offset, es.len())));
            assert(new_pairs_listed(old(self).inodes(), self.inodes(), es, res, start_index(offset, es.len()) as int));
        }
        out
    }

    /// Lists the tree that `ino` stands for (see `list_tree`).
    pub fn readdir(&mut self, ino: u64, offset: i64) -> (r: Result<Vec<DirEntry>, FsError>)
        requires
            old(self).wf(),
        ensures
            final(self).wf(),
            final(self).spec_builder() == old(self).spec_builder(),
            old(self).inodes().submap_of(final(self).inodes()),
            r is Err ==> r == Err::<Vec<DirEntry>, FsError>(FsError::NotFound) && final(self).inodes() == old(self).inodes(),
            ino == ROOT_INO ==> r is Err,
            !old(self).inodes().contains_key(ino) ==> r is Err,
            r matches Ok(list) ==> lists_tree_of(ino, offset, old(self).inodes(), final(self).inodes(), list@),
    {
        if ino == ROOT_INO {
            return Err(FsError::NotFound);
        }
        let tree = match self.repo.get_tree_by_inode(Ino::new(ino)) {
            Ok(tree) => tree,
            Err(_) => return Err(FsError::NotFound),
        };
        let list = self.list_tree(&tree, offset);
        assert(tree.ino.no == ino && is_listing_step(tree.entries@, offset, old(self).inodes(), self.inodes(), list@));
        assert(lists_tree_of(ino, offset, old(self).inodes(), self.inodes(), list@));
        Ok(list)
    }
}

} // verus!
