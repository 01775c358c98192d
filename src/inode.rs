use vstd::prelude::*;

verus! {

/// A filesystem identifier together with the identifier of its parent.
///
/// New identifiers have the synthetic root (`1`) as their parent.
#[derive(Copy, Clone, PartialEq, Eq, Hash, Debug, Structural)]
pub struct Ino {
    pub no: u64,
    pub parent: u64,
}

/// The identifier reserved for the synthetic root directory.
pub const ROOT_INO: u64 = 1;

/// The first identifier handed out by a fresh [`InodeGen`].
pub const FIRST_INO: u64 = 2;

impl Ino {
    pub fn new(no: u64) -> (r: Ino)
        ensures
            r.no == no,
            r.parent == ROOT_INO,
    {
        Ino { no, parent: ROOT_INO }
    }

    pub fn set_parent(&mut self, parent: Ino)
        ensures
            final(self).no == old(self).no,
            final(self).parent == parent.no,
    {
        self.parent = parent.no;
    }

    pub fn value(&self) -> (r: u64)
        ensures
            r == self.no,
    {
        self.no
    }

    pub fn parent(&self) -> (r: u64)
        ensures
            r == self.parent,
    {
        self.parent
    }
}

impl From<u64> for Ino {
    fn from(i: u64) -> (r: Ino) {
        Ino::new(i)
    }
}

impl vstd::std_specs::convert::FromSpecImpl<u64> for Ino {
    open spec fn obeys_from_spec() -> bool {
        true
    }

    open spec fn from_spec(i: u64) -> Ino {
        Ino { no: i, parent: ROOT_INO }
    }
}

/// Anything that carries a filesystem identifier.
pub trait Inode {
    spec fn spec_ino(&self) -> Ino;

    fn ino(&self) -> (r: Ino)
        ensures
            r == self.spec_ino(),
    ;
}

/// Issues filesystem identifiers: starting at [`FIRST_INO`], increasing by one
/// on each call, never handing out the same value twice.
pub struct InodeGen {
    next_ino: u64,
}

impl View for InodeGen {
    /// The identifier that the next call of `next` hands out.
    type V = u64;

    closed spec fn view(&self) -> u64 {
        self.next_ino
    }
}

impl InodeGen {
    #[verifier::type_invariant]
    spec fn never_below_first(&self) -> bool {
        self.next_ino >= FIRST_INO
    }

    pub fn new() -> (r: Self)
        ensures
            r@ == FIRST_INO,
    {
        InodeGen { next_ino: FIRST_INO }
    }

    /// Whether another identifier can be issued.
    pub fn can_issue(&self) -> (r: bool)
        ensures
            r == (self@ < u64::MAX),
    {
        self.next_ino < u64::MAX
    }

    /// The identifier that `next` would hand out, without handing it out.
    pub fn peek(&self) -> (r: u64)
        ensures
            r == self@,
            r >= FIRST_INO,
    {
        proof {
            use_type_invariant(self);
        }
        self.next_ino
    }

    pub fn next(&mut self) -> (r: Ino)
        requires
            old(self)@ < u64::MAX,
        ensures
            r.no == old(self)@,
            r.parent == ROOT_INO,
            final(self)@ == old(self)@ + 1,
    {
        proof {
            use_type_invariant(&*self);
        }
        let ino = Ino::new(self.next_ino);
        self.next_ino = self.next_ino + 1;
        ino
    }
}

} // verus!
