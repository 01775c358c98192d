use crate::fs::attr::FileType;
use crate::git::TreeEntry;
use vstd::prelude::*;

verus! {

/// One item of a directory listing.
#[derive(Clone, Debug)]
pub struct DirEntry {
    pub ino: u64,
    /// Where a later listing resumes to come after this item.
    pub next_offset: u64,
    pub kind: FileType,
    pub name: Vec<u8>,
}

impl View for DirEntry {
    type V = (u64, u64, FileType, Seq<u8>);

    open spec fn view(&self) -> (u64, u64, FileType, Seq<u8>) {
        (self.ino, self.next_offset, self.kind, self.name@)
    }
}

/// The identifier in a resolution.
pub open spec fn resolved_ino(o: Option<(u64, FileType)>) -> u64 {
    match o {
        Some((ino, _)) => ino,
        None => 0,
    }
}

/// The kind in a resolution.
pub open spec fn resolved_kind(o: Option<(u64, FileType)>) -> FileType {
    match o {
        Some((_, kind)) => kind,
        None => FileType::RegularFile,
    }
}

/// The item that entry `i` contributes to a listing, where it resolved.
pub open spec fn item_at(es: Seq<TreeEntry>, res: Seq<Option<(u64, FileType)>>, i: nat) -> (u64, u64, FileType, Seq<u8>) {
    match res[i as int] {
        Some((ino, kind)) => (ino, (i + 1) as u64, kind, es[i as int].name@),
        None => (0, (i + 1) as u64, FileType::RegularFile, es[i as int].name@),
    }
}

/// The listing of a tree with entries `es` from position `from` on, where
/// `res[i]` is the identifier and kind that entry `i` resolved to, or `None`
/// where it could not be resolved and is left out.
pub open spec fn listing(es: Seq<TreeEntry>, res: Seq<Option<(u64, FileType)>>, from: nat) -> Seq<(u64, u64, FileType, Seq<u8>)>
    decreases es.len() - from,
{
    if from >= es.len() {
        Seq::empty()
    } else {
        let rest = listing(es, res, from + 1);
        if res[from as int] is Some {
            seq![item_at(es, res, from)] + rest
        } else {
            rest
        }
    }
}

/// Every item of a listing from `from` comes from a position at or after
/// `from`, and the items come in stored order, so no entry is listed twice.
pub proof fn lemma_listing_ordered(es: Seq<TreeEntry>, res: Seq<Option<(u64, FileType)>>, from: nat)
    requires
        es.len() <= u64::MAX,
    ensures
        forall|k: int| 0 <= k < listing(es, res, from).len() ==> from < #[trigger] listing(es, res, from)[k].1 <= es.len(),
        forall|a: int, b: int| 0 <= a < b < listing(es, res, from).len() ==> #[trigger] listing(es, res, from)[a].1 < #[trigger] listing(es, res, from)[b].1,
    decreases es.len() - from,
{
    if from < es.len() {
        lemma_listing_ordered(es, res, from + 1);
        let l = listing(es, res, from);
        let rest = listing(es, res, from + 1);
        if res[from as int] is Some {
            assert(l[0].1 == from + 1);
            assert forall|k: int| 0 <= k < l.len() implies from < #[trigger] l[k].1 <= es.len() by {
                if k > 0 {
                    assert(l[k] == rest[k - 1]);
                }
            }
            assert forall|a: int, b: int| 0 <= a < b < l.len() implies #[trigger] l[a].1 < #[trigger] l[b].1 by {
                assert(l[b] == rest[b - 1]);
                if a > 0 {
                    assert(l[a] == rest[a - 1]);
                }
            }
        }
    }
}

/// Every entry at or after `from` that resolved is in the listing from
/// `from`, at the item whose resume offset is one past its position.
pub proof fn lemma_listing_complete(es: Seq<TreeEntry>, res: Seq<Option<(u64, FileType)>>, from: nat, i: nat)
    requires
        es.len() <= u64::MAX,
        from <= i < es.len(),
        res[i as int] is Some,
    ensures
        exists|k: int| 0 <= k < listing(es, res, from).len() && #[trigger] listing(es, res, from)[k] == item_at(es, res, i),
    decreases i - from,
{
    let l = listing(es, res, from);
    if from == i {
        assert(l[0] == item_at(es, res, i));
    } else {
        lemma_listing_complete(es, res, from + 1, i);
        let rest = listing(es, res, from + 1);
        let k = choose|k: int| 0 <= k < rest.len() && #[trigger] rest[k] == item_at(es, res, i);
        if res[from as int] is Some {
            assert(l[k + 1] == rest[k]);
        } else {
            assert(l[k] == rest[k]);
        }
    }
}

/// Resuming at the offset that the `j`-th item of a listing handed back lists
/// exactly the items after it: listings chained this way show each entry once.
pub proof fn lemma_listing_resumes(es: Seq<TreeEntry>, res: Seq<Option<(u64, FileType)>>, from: nat, j: int)
    requires
        es.len() <= u64::MAX,
        0 <= j < listing(es, res, from).len(),
    ensures
        listing(es, res, listing(es, res, from)[j].1 as nat) == listing(es, res, from).subrange(j + 1, listing(es, res, from).len() as int),
    decreases es.len() - from,
{
    let l = listing(es, res, from);
    let rest = listing(es, res, from + 1);
    if res[from as int] is Some {
        if j == 0 {
            assert(rest =~= l.subrange(1, l.len() as int));
        } else {
            lemma_listing_resumes(es, res, from + 1, j - 1);
            assert(l[j] == rest[j - 1]);
            assert(rest.subrange(j, rest.len() as int) =~= l.subrange(j + 1, l.len() as int));
        }
    } else {
        lemma_listing_resumes(es, res, from + 1, j);
    }
}

/// Where no entry from `from` on resolved, the listing from `from` is empty.
pub proof fn lemma_listing_none_resolved(es: Seq<TreeEntry>, res: Seq<Option<(u64, FileType)>>, from: nat)
    requires
        forall|j: int| from <= j < es.len() ==> #[trigger] res[j] is None,
    ensures
        listing(es, res, from).len() == 0,
    decreases es.len() - from,
{
    if from < es.len() {
        lemma_listing_none_resolved(es, res, from + 1);
    }
}

/// Resolving entry `i`, where nothing from `i` on had resolved yet, adds its
/// item at the end of the listing.
pub proof fn lemma_listing_extend(es: Seq<TreeEntry>, res: Seq<Option<(u64, FileType)>>, from: nat, i: nat, x: Option<(u64, FileType)>)
    requires
        from <= i < es.len(),
        res.len() == es.len(),
        forall|j: int| i <= j < es.len() ==> #[trigger] res[j] is None,
    ensures
        listing(es, res.update(i as int, x), from) == listing(es, res, from) + (if x is Some {
            seq![item_at(es, res.update(i as int, x), i)]
        } else {
            Seq::empty()
        }),
    decreases i - from,
{
    let r2 = res.update(i as int, x);
    if from == i {
        lemma_listing_none_resolved(es, res, from);
        lemma_listing_none_resolved(es, r2, from + 1);
        assert(listing(es, r2, from + 1) =~= Seq::<(u64, u64, FileType, Seq<u8>)>::empty());
        assert(listing(es, res, from) =~= Seq::<(u64, u64, FileType, Seq<u8>)>::empty());
        if x is Some {
            assert(listing(es, r2, from) =~= seq![item_at(es, r2, i)]);
        } else {
            assert(listing(es, r2, from) =~= Seq::<(u64, u64, FileType, Seq<u8>)>::empty());
        }
    } else {
        lemma_listing_extend(es, res, from + 1, i, x);
        assert(r2[from as int] == res[from as int]);
        assert(item_at(es, r2, from) == item_at(es, res, from));
        let tail: Seq<(u64, u64, FileType, Seq<u8>)> = if x is Some {
            seq![item_at(es, r2, i)]
        } else {
            Seq::empty()
        };
        if res[from as int] is Some {
            assert(listing(es, r2, from) =~= listing(es, res, from) + tail);
        } else {
            assert(listing(es, r2, from) =~= listing(es, res, from) + tail);
        }
    }
}

/// A listing from `from` depends only on how the entries from `from` on
/// resolved.
pub proof fn lemma_listing_depends_on_rest(es: Seq<TreeEntry>, res1: Seq<Option<(u64, FileType)>>, res2: Seq<Option<(u64, FileType)>>, from: nat)
    requires
        forall|i: int| from <= i < es.len() ==> #[trigger] res1[i] == res2[i],
    ensures
        listing(es, res1, from) == listing(es, res2, from),
    decreases es.len() - from,
{
    if from < es.len() {
        lemma_listing_depends_on_rest(es, res1, res2, from + 1);
        assert(res1[from as int] == res2[from as int]);
    }
}

/// Two listings of one tree chained through the resume offset of the `j`-th
/// item of the first: where every later entry resolves the second time as it
/// did the first, the second listing is exactly what followed that item, so
/// together they show each resolved entry once, in stored order.
pub proof fn lemma_listing_chained(es: Seq<TreeEntry>, res1: Seq<Option<(u64, FileType)>>, res2: Seq<Option<(u64, FileType)>>, from: nat, j: int)
    requires
        es.len() <= u64::MAX,
        0 <= j < listing(es, res1, from).len(),
        forall|i: int| listing(es, res1, from)[j].1 <= i < es.len() ==> #[trigger] res1[i] == res2[i],
    ensures
        listing(es, res2, listing(es, res1, from)[j].1 as nat) == listing(es, res1, from).subrange(j + 1, listing(es, res1, from).len() as int),
{
    lemma_listing_resumes(es, res1, from, j);
    lemma_listing_depends_on_rest(es, res1, res2, listing(es, res1, from)[j].1 as nat);
}

/// A listing that reaches past the last entry is empty.
pub proof fn lemma_listing_past_end(es: Seq<TreeEntry>, res: Seq<Option<(u64, FileType)>>, from: nat)
    requires
        from >= es.len(),
    ensures
        listing(es, res, from).len() == 0,
{
}

} // verus!
