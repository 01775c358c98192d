use crate::inode::{Ino, Inode, InodeGen, FIRST_INO, ROOT_INO};
use bimap::BiHashMap;
use git2::Repository;
use vstd::prelude::*;

pub mod oid;
pub mod types;

pub use types::{EntryKind, GitBlob, GitCommit, GitObject, GitTree, ObjectKind, TreeEntry};

verus! {

#[verifier::external_type_specification]
#[verifier::external_body]
pub struct ExRepository(git2::Repository);

#[verifier::external_type_specification]
#[verifier::external_body]
pub struct ExGitError(git2::Error);

#[verifier::external_type_specification]
#[verifier::external_body]
pub struct ExPathBuf(std::path::PathBuf);

#[verifier::external_type_specification]
#[verifier::external_body]
#[verifier::reject_recursive_types(L)]
#[verifier::reject_recursive_types(R)]
#[verifier::reject_recursive_types(LS)]
#[verifier::reject_recursive_types(RS)]
pub struct ExBiHashMap<L, R, LS, RS>(bimap::BiHashMap<L, R, LS, RS>);

/// The pairs held by an identifier table: each identifier with the object
/// identity it stands for.
pub uninterp spec fn table_pairs(t: BiHashMap<u64, Vec<u8>>) -> Map<u64, Seq<u8>>;

/// Relies on `BiHashMap::new`: the new table holds no pair.
#[verifier::external_body]
fn table_new() -> (r: BiHashMap<u64, Vec<u8>>)
    ensures
        table_pairs(r).dom() == Set::<u64>::empty(),
{
    BiHashMap::new()
}

/// Relies on `BiHashMap::get_by_left`: the identity paired with `ino`, if any.
#[verifier::external_body]
fn table_get_by_left(t: &BiHashMap<u64, Vec<u8>>, ino: u64) -> (r: Option<Vec<u8>>)
    ensures
        r is Some <==> table_pairs(*t).contains_key(ino),
        r matches Some(v) ==> v@ == table_pairs(*t)[ino],
{
    t.get_by_left(&ino).cloned()
}

/// Relies on `BiHashMap::get_by_right`: the identifier paired with `id`, if any.
#[verifier::external_body]
fn table_get_by_right(t: &BiHashMap<u64, Vec<u8>>, id: &Vec<u8>) -> (r: Option<u64>)
    ensures
        r matches Some(i) ==> table_pairs(*t).contains_key(i) && table_pairs(*t)[i] == id@,
        r is None ==> forall|i: u64| #[trigger] table_pairs(*t).contains_key(i) ==> table_pairs(*t)[i] != id@,
{
    t.get_by_right(id).copied()
}

/// Relies on `BiHashMap::insert_no_overwrite`: the pair goes in exactly when
/// neither of its sides is in the table yet; otherwise nothing changes.
#[verifier::external_body]
fn table_insert_no_overwrite(t: &mut BiHashMap<u64, Vec<u8>>, ino: u64, id: Vec<u8>) -> (r: bool)
    ensures
        r <==> (!table_pairs(*old(t)).contains_key(ino) && forall|i: u64| #[trigger] table_pairs(*old(t)).contains_key(i) ==> table_pairs(*old(t))[i] != id@),
        r ==> table_pairs(*final(t)) == table_pairs(*old(t)).insert(ino, id@),
        !r ==> table_pairs(*final(t)) == table_pairs(*old(t)),
{
    t.insert_no_overwrite(ino, id).is_ok()
}

/// Relies on `Repository::open_ext` with `NO_SEARCH`: opens the repository at
/// `path` itself, without searching parent directories.
#[verifier::external_body]
fn open_repository(path: &std::path::PathBuf) -> (r: Result<Repository, git2::Error>) {
    Repository::open_ext(path, git2::RepositoryOpenFlags::NO_SEARCH, Vec::<&str>::new())
}

/// Relies on `Repository::find_commit`, with `Commit::tree_id` and
/// `Commit::author`: the commit's root tree and its authored time in seconds,
/// or `None` where no commit has this identity.
#[verifier::external_body]
fn find_commit(repo: &Repository, id: &Vec<u8>) -> (r: Option<(Vec<u8>, i64)>) {
    let commit = repo.find_commit(git2::Oid::from_bytes(id).ok()?).ok()?;
    let time = commit.author().when().seconds();
    Some((commit.tree_id().as_bytes().to_vec(), time))
}

/// Relies on `Repository::find_tree` and `Tree::iter`: the tree's entries in
/// stored order, or `None` where no tree has this identity.
#[verifier::external_body]
fn find_tree(repo: &Repository, id: &Vec<u8>) -> (r: Option<Vec<TreeEntry>>) {
    let tree = repo.find_tree(git2::Oid::from_bytes(id).ok()?).ok()?;
    Some(tree.iter().map(|e| TreeEntry {
        name: e.name_bytes().to_vec(),
        id: e.id().as_bytes().to_vec(),
        kind: match e.kind() {
            Some(git2::ObjectType::Blob) => EntryKind::Blob,
            Some(git2::ObjectType::Tree) => EntryKind::Tree,
            _ => EntryKind::Other,
        },
    }).collect())
}

/// Relies on `Repository::find_blob` and `Blob::content`: the blob's bytes, or
/// `None` where no blob has this identity.
#[verifier::external_body]
fn find_blob(repo: &Repository, id: &Vec<u8>) -> (r: Option<Vec<u8>>) {
    let blob = repo.find_blob(git2::Oid::from_bytes(id).ok()?).ok()?;
    Some(blob.content().to_vec())
}

/// Why a resolution failed.
#[derive(Copy, Clone, PartialEq, Eq, Hash, Debug, Structural)]
pub enum GitError {
    /// The repository could not be opened.
    Open,
    /// No object of the asked kind has this identity, or no object this identifier.
    NotFound,
    /// Every identifier has been handed out.
    Exhausted,
}

/// The object store together with the identifiers handed out for its objects.
pub struct GitRepo {
    repo: Repository,
    inode_gen: InodeGen,
    inode_map: BiHashMap<u64, Vec<u8>>,
}

/// No identity is paired with two identifiers.
pub open spec fn one_to_one(m: Map<u64, Seq<u8>>) -> bool {
    forall|i: u64, j: u64| #[trigger] m.contains_key(i) && #[trigger] m.contains_key(j) && m[i] == m[j] ==> i == j
}

/// `after` is `before`, or `before` with the one more pair `(ino, id)`.
pub open spec fn grows_by_at_most(before: Map<u64, Seq<u8>>, after: Map<u64, Seq<u8>>, ino: u64, id: Seq<u8>) -> bool {
    after == before || after == before.insert(ino, id)
}

/// No identifier stands for `id` in `m`.
pub open spec fn is_new_identity(m: Map<u64, Seq<u8>>, id: Seq<u8>) -> bool {
    forall|i: u64| #[trigger] m.contains_key(i) ==> m[i] != id
}

impl GitRepo {
    /// Each identifier handed out so far, with the identity it stands for.
    pub closed spec fn inodes(&self) -> Map<u64, Seq<u8>> {
        table_pairs(self.inode_map)
    }

    /// The identifier that the next new identity gets.
    pub closed spec fn next_ino(&self) -> u64 {
        self.inode_gen@
    }

    /// The identifiers in use lie in `[FIRST_INO, next_ino)`, and no identity
    /// has two of them.
    pub open spec fn wf(&self) -> bool {
        &&& forall|i: u64| #[trigger] self.inodes().contains_key(i) ==> FIRST_INO <= i < self.next_ino()
        &&& one_to_one(self.inodes())
    }

    pub fn new(path: std::path::PathBuf, inode_gen: InodeGen) -> (r: Result<Self, GitError>)
        ensures
            r matches Ok(g) ==> g.wf() && g.inodes() == Map::<u64, Seq<u8>>::empty() && g.next_ino() == inode_gen@,
            r is Err ==> r == Err::<Self, GitError>(GitError::Open),
    {
        match open_repository(&path) {
            Ok(repo) => Ok(GitRepo { repo, inode_gen, inode_map: table_new() }),
            Err(_) => Err(GitError::Open),
        }
    }

    /// Reads the object of the given kind with this identity from the store.
    fn load(&self, hash: &Vec<u8>, kind: ObjectKind, ino: Ino) -> (r: Option<GitObject>)
        ensures
            r matches Some(o) ==> o.kind() == kind && o.spec_ino() == ino,
    {
        match kind {
            ObjectKind::Commit => match find_commit(&self.repo, hash) {
                Some((tree_id, time)) => Some(GitObject::Commit(GitCommit { ino, tree_id, time })),
                None => None,
            },
            ObjectKind::Tree => match find_tree(&self.repo, hash) {
                Some(entries) => Some(GitObject::Tree(GitTree { ino, entries })),
                None => None,
            },
            ObjectKind::Blob => match find_blob(&self.repo, hash) {
                Some(content) => Some(GitObject::Blob(GitBlob { ino, content })),
                None => None,
            },
        }
    }

    /// Reads an object of the given kind and hands back the identifier of its
    /// identity: the one it already has, or else the next fresh one.
    pub fn get_object(&mut self, hash: &Vec<u8>, kind: ObjectKind) -> (r: Result<GitObject, GitError>)
        requires
            old(self).wf(),
        ensures
            final(self).wf(),
            old(self).inodes().submap_of(final(self).inodes()),
            r is Err ==> final(self).inodes() == old(self).inodes() && final(self).next_ino() == old(self).next_ino(),
            r matches Ok(o) ==> o.kind() == kind && o.spec_ino().parent == ROOT_INO
                && final(self).inodes().contains_key(o.spec_ino().no)
                && final(self).inodes()[o.spec_ino().no] == hash@,
            // an identity that has an identifier keeps it
            forall|i: u64| #[trigger] old(self).inodes().contains_key(i) && old(self).inodes()[i] == hash@ ==> {
                &&& final(self).inodes() == old(self).inodes()
                &&& final(self).next_ino() == old(self).next_ino()
                &&& (r matches Ok(o) ==> o.spec_ino().no == i)
            },
            // a new identity gets the next identifier
            is_new_identity(old(self).inodes(), hash@) ==> {
                &&& (r matches Ok(o) ==> {
                    &&& o.spec_ino().no == old(self).next_ino()
                    &&& final(self).inodes() == old(self).inodes().insert(old(self).next_ino(), hash@)
                    &&& final(self).next_ino() == old(self).next_ino() + 1
                })
            },
            r matches Ok(o) ==> grows_by_at_most(old(self).inodes(), final(self).inodes(), o.spec_ino().no, hash@),
            r == Err::<GitObject, GitError>(GitError::Exhausted) <==> (is_new_identity(old(self).inodes(), hash@) && old(self).next_ino() == u64::MAX),
    {
        let known = table_get_by_right(&self.inode_map, hash);
        let no = match known {
            Some(i) => i,
            None => {
                if !self.inode_gen.can_issue() {
                    return Err(GitError::Exhausted);
                }
                self.inode_gen.peek()
            },
        };
        let object = match self.load(hash, kind, Ino::new(no)) {
            Some(o) => o,
            None => return Err(GitError::NotFound),
        };
        if known.is_none() {
            let ghost before = self.inodes();
            let ino = self.inode_gen.next();
            let inserted = table_insert_no_overwrite(&mut self.inode_map, ino.no, hash.clone());
            assert(inserted);
            assert(self.inodes() == before.insert(no, hash@));
        }
        Ok(object)
    }

    /// Reads the object of the given kind that `ino` stands for.
    pub fn get_object_by_inode(&self, ino: Ino, kind: ObjectKind) -> (r: Result<GitObject, GitError>)
        ensures
            !self.inodes().contains_key(ino.no) ==> r == Err::<GitObject, GitError>(GitError::NotFound),
            r is Err ==> r == Err::<GitObject, GitError>(GitError::NotFound),
            r matches Ok(o) ==> o.kind() == kind && o.spec_ino() == ino && self.inodes().contains_key(ino.no),
    {
        match table_get_by_left(&self.inode_map, ino.no) {
            Some(hash) => match self.load(&hash, kind, ino) {
                Some(o) => Ok(o),
                None => Err(GitError::NotFound),
            },
            None => Err(GitError::NotFound),
        }
    }

    /// Reads the tree with this identity (see `get_object`).
    pub fn get_tree(&mut self, hash: &Vec<u8>) -> (r: Result<GitTree, GitError>)
        requires
            old(self).wf(),
        ensures
            final(self).wf(),
            old(self).inodes().submap_of(final(self).inodes()),
            r is Err ==> final(self).inodes() == old(self).inodes() && final(self).next_ino() == old(self).next_ino(),
            r == Err::<GitTree, GitError>(GitError::Exhausted) <==> (is_new_identity(old(self).inodes(), hash@) && old(self).next_ino() == u64::MAX),
            r matches Ok(t) ==> final(self).inodes().contains_key(t.ino.no) && final(self).inodes()[t.ino.no] == hash@,
            r matches Ok(t) ==> grows_by_at_most(old(self).inodes(), final(self).inodes(), t.ino.no, hash@),
            forall|i: u64| #[trigger] old(self).inodes().contains_key(i) && old(self).inodes()[i] == hash@
                ==> (r matches Ok(t) ==> t.ino.no == i),
    {
        match self.get_object(hash, ObjectKind::Tree) {
            Ok(GitObject::Tree(t)) => Ok(t),
            Ok(_) => Err(GitError::NotFound),
            Err(e) => Err(e),
        }
    }

    /// Reads the blob with this identity (see `get_object`).
    pub fn get_blob(&mut self, hash: &Vec<u8>) -> (r: Result<GitBlob, GitError>)
        requires
            old(self).wf(),
        ensures
            final(self).wf(),
            old(self).inodes().submap_of(final(self).inodes()),
            r is Err ==> final(self).inodes() == old(self).inodes() && final(self).next_ino() == old(self).next_ino(),
            r == Err::<GitBlob, GitError>(GitError::Exhausted) <==> (is_new_identity(old(self).inodes(), hash@) && old(self).next_ino() == u64::MAX),
            r matches Ok(b) ==> final(self).inodes().contains_key(b.ino.no) && final(self).inodes()[b.ino.no] == hash@,
            r matches Ok(b) ==> grows_by_at_most(old(self).inodes(), final(self).inodes(), b.ino.no, hash@),
            forall|i: u64| #[trigger] old(self).inodes().contains_key(i) && old(self).inodes()[i] == hash@
                ==> (r matches Ok(b) ==> b.ino.no == i),
    {
        match self.get_object(hash, ObjectKind::Blob) {
            Ok(GitObject::Blob(b)) => Ok(b),
            Ok(_) => Err(GitError::NotFound),
            Err(e) => Err(e),
        }
    }

    /// Reads the root tree of the commit with this identity: the commit itself
    /// gets no identifier, its tree does.
    pub fn get_tree_by_commit(&mut self, hash: &Vec<u8>) -> (r: Result<GitTree, GitError>)
        requires
            old(self).wf(),
        ensures
            final(self).wf(),
            old(self).inodes().submap_of(final(self).inodes()),
            r is Err ==> final(self).inodes() == old(self).inodes() && final(self).next_ino() == old(self).next_ino(),
            r == Err::<GitTree, GitError>(GitError::Exhausted) ==> old(self).next_ino() == u64::MAX,
            r matches Ok(t) ==> final(self).inodes().contains_key(t.ino.no),
            // one hop: only the root tree's pair can be new
            r matches Ok(t) ==> grows_by_at_most(old(self).inodes(), final(self).inodes(), t.ino.no, final(self).inodes()[t.ino.no]),
    {
        let tree_id = match find_commit(&self.repo, hash) {
            Some((tree_id, _)) => tree_id,
            None => return Err(GitError::NotFound),
        };
        self.get_tree(&tree_id)
    }

    /// Reads the commit that `ino` stands for.
    pub fn get_commit_by_inode(&self, ino: Ino) -> (r: Result<GitCommit, GitError>)
        ensures
            !self.inodes().contains_key(ino.no) ==> r is Err,
            r matches Ok(c) ==> c.ino == ino && self.inodes().contains_key(ino.no),
    {
        match self.get_object_by_inode(ino, ObjectKind::Commit) {
            Ok(GitObject::Commit(c)) => Ok(c),
            Ok(_) => Err(GitError::NotFound),
            Err(e) => Err(e),
        }
    }

    /// Reads the tree that `ino` stands for.
    pub fn get_tree_by_inode(&self, ino: Ino) -> (r: Result<GitTree, GitError>)
        ensures
            !self.inodes().contains_key(ino.no) ==> r is Err,
            r matches Ok(t) ==> t.ino == ino && self.inodes().contains_key(ino.no),
    {
        match self.get_object_by_inode(ino, ObjectKind::Tree) {
            Ok(GitObject::Tree(t)) => Ok(t),
            Ok(_) => Err(GitError::NotFound),
            Err(e) => Err(e),
        }
    }

    /// Reads the blob that `ino` stands for.
    pub fn get_blob_by_inode(&self, ino: Ino) -> (r: Result<GitBlob, GitError>)
        ensures
            !self.inodes().contains_key(ino.no) ==> r is Err,
            r matches Ok(b) ==> b.ino == ino && self.inodes().contains_key(ino.no),
    {
        match self.get_object_by_inode(ino, ObjectKind::Blob) {
            Ok(GitObject::Blob(b)) => Ok(b),
            Ok(_) => Err(GitError::NotFound),
            Err(e) => Err(e),
        }
    }
}

/// Once an identity has an identifier, every later table that the resolver
/// grows out of it pairs that identity with that identifier and no other: a
/// second resolution, by any path, gives the same identifier.
pub proof fn lemma_identifier_is_kept(before: &GitRepo, after: &GitRepo, ino: u64)
    requires
        before.inodes().contains_key(ino),
        before.inodes().submap_of(after.inodes()),
        after.wf(),
    ensures
        after.inodes().contains_key(ino),
        after.inodes()[ino] == before.inodes()[ino],
        forall|j: u64| #[trigger] after.inodes().contains_key(j) && after.inodes()[j] == before.inodes()[ino] ==> j == ino,
{
    assert(after.inodes().contains_key(ino));
    assert forall|j: u64| #[trigger] after.inodes().contains_key(j) && after.inodes()[j] == before.inodes()[ino] implies j == ino by {
        assert(after.inodes().contains_key(ino) && after.inodes().contains_key(j));
    }
}

/// The root identifier never stands for an object.
pub proof fn lemma_root_is_never_mapped(g: &GitRepo)
    requires
        g.wf(),
    ensures
        !g.inodes().contains_key(ROOT_INO),
{
}

} // verus!
