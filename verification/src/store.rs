use crate::lookup::{
    first_match, lemma_first_match_at, lemma_first_match_none, lemma_first_match_push_other,
    lemma_first_match_remove_only, lemma_first_match_remove_other, lemma_first_match_update_other,
};
use vstd::prelude::*;

verus! {

/// A hashed proof: the 256-bit output of the canonical hash applied to the
/// secret proof bytes.  Used only as a lookup key; the preimage is never
/// stored.
pub type HashedProof = [u8; 32];

/// One outstanding swap: who committed the resources, the action that moves
/// them, and the block from which the source may cancel.
pub struct PendingSwap<A> {
    /// Source of the swap.
    pub source: u64,
    /// Action of this swap.
    pub action: A,
    /// End block of the lock.
    pub end_block: u64,
}

struct SwapEntry<A> {
    target: u64,
    hashed_proof: HashedProof,
    swap: PendingSwap<A>,
}

/// The pending-swap store: a map from (target account, hashed proof) to a
/// [`PendingSwap`] record, held as a list with unique keys.
pub struct PendingSwaps<A> {
    entries: Vec<SwapEntry<A>>,
}

/// Element-wise comparison of two hashed proofs.
fn hash_eq(a: &HashedProof, b: &HashedProof) -> (r: bool)
    ensures
        r == (a@ == b@),
{
    let mut i: usize = 0;
    while i < 32
        invariant
            i <= 32,
            forall|j: int| 0 <= j < i ==> a@[j] == b@[j],
        decreases 32 - i,
    {
        if a[i] != b[i] {
            assert(a@[i as int] != b@[i as int]);
            return false;
        }
        i += 1;
    }
    assert(a@ =~= b@);
    true
}

impl<A> PendingSwaps<A> {
    /// The predicate selecting the entry keyed by (target, hash).
    spec fn is_entry_at(target: u64, hash: Seq<u8>) -> spec_fn(SwapEntry<A>) -> bool {
        |e: SwapEntry<A>| e.target == target && e.hashed_proof@ == hash
    }

    /// At most one entry per (target, hash) key.
    #[verifier::type_invariant]
    spec fn keys_unique(self) -> bool {
        forall|i: int, j: int|
            0 <= i < j < self.entries@.len() ==> !(#[trigger] self.entries@[i].target
                == #[trigger] self.entries@[j].target && self.entries@[i].hashed_proof@
                == self.entries@[j].hashed_proof@)
    }

    /// The record stored at (target, hash), if any.
    pub closed spec fn spec_get(self, target: u64, hash: Seq<u8>) -> Option<PendingSwap<A>> {
        match first_match(self.entries@, Self::is_entry_at(target, hash)) {
            Some(e) => Some(e.swap),
            None => None,
        }
    }

    /// The index of the entry keyed by (target, hash), with the facts a
    /// caller needs about the scan.
    fn find(&self, target: u64, hashed_proof: &HashedProof) -> (r: Option<usize>)
        ensures
            match r {
                Some(i) => {
                    &&& i < self.entries@.len()
                    &&& self.entries@[i as int].target == target
                    &&& self.entries@[i as int].hashed_proof@ == hashed_proof@
                    &&& forall|j: int|
                        0 <= j < i ==> !(#[trigger] self.entries@[j].target == target
                            && self.entries@[j].hashed_proof@ == hashed_proof@)
                    &&& self.spec_get(target, hashed_proof@) == Some(
                        self.entries@[i as int].swap,
                    )
                },
                None => {
                    &&& forall|j: int|
                        0 <= j < self.entries@.len() ==> !(#[trigger] self.entries@[j].target
                            == target && self.entries@[j].hashed_proof@ == hashed_proof@)
                    &&& self.spec_get(target, hashed_proof@) is None
                },
            },
    {
        let n = self.entries.len();
        let mut i: usize = 0;
        while i < n
            invariant
                i <= n,
                n == self.entries@.len(),
                forall|j: int|
                    0 <= j < i ==> !(#[trigger] self.entries@[j].target == target
                        && self.entries@[j].hashed_proof@ == hashed_proof@),
            decreases n - i,
        {
            let e = &self.entries[i];
            if e.target == target && hash_eq(&e.hashed_proof, hashed_proof) {
                proof {
                    lemma_first_match_at(
                        self.entries@,
                        Self::is_entry_at(target, hashed_proof@),
                        i as int,
                    );
                }
                return Some(i);
            }
            i += 1;
        }
        proof {
            lemma_first_match_none(self.entries@, Self::is_entry_at(target, hashed_proof@));
        }
        None
    }

    pub fn new() -> (s: Self)
        ensures
            forall|t: u64, h: Seq<u8>| s.spec_get(t, h) is None,
    {
        let s = PendingSwaps { entries: Vec::new() };
        proof {
            assert forall|t: u64, h: Seq<u8>| s.spec_get(t, h) is None by {
                lemma_first_match_none(s.entries@, Self::is_entry_at(t, h));
            }
        }
        s
    }

    pub fn contains(&self, target: u64, hashed_proof: HashedProof) -> (r: bool)
        ensures
            r == (self.spec_get(target, hashed_proof@) is Some),
    {
        match self.find(target, &hashed_proof) {
            Some(_) => true,
            None => false,
        }
    }

    pub fn get(&self, target: u64, hashed_proof: HashedProof) -> (r: Option<&PendingSwap<A>>)
        ensures
            match r {
                Some(p) => self.spec_get(target, hashed_proof@) == Some(*p),
                None => self.spec_get(target, hashed_proof@) is None,
            },
    {
        match self.find(target, &hashed_proof) {
            Some(i) => Some(&self.entries[i].swap),
            None => None,
        }
    }

    /// Store `swap` at (target, hashed_proof), replacing any record already
    /// there.
    pub fn insert(&mut self, target: u64, hashed_proof: HashedProof, swap: PendingSwap<A>)
        ensures
            final(self).spec_get(target, hashed_proof@) == Some(swap),
            forall|t: u64, h: Seq<u8>|
                !(t == target && h == hashed_proof@) ==> final(self).spec_get(t, h) == old(
                    self,
                ).spec_get(t, h),
    {
        proof {
            use_type_invariant(&*self);
        }
        let ghost pre = self.entries@;
        let entry = SwapEntry { target, hashed_proof, swap };
        let found = self.find(target, &hashed_proof);
        let mut es: Vec<SwapEntry<A>> = Vec::new();
        std::mem::swap(&mut es, &mut self.entries);
        match found {
            Some(i) => {
                es.set(i, entry);
                proof {
                    assert forall|x: int, y: int| 0 <= x < y < es@.len() implies !(
                    #[trigger] es@[x].target == #[trigger] es@[y].target && es@[x].hashed_proof@
                        == es@[y].hashed_proof@) by {
                        assert(es@[x].target == pre[x].target && es@[x].hashed_proof@
                            == pre[x].hashed_proof@);
                        assert(es@[y].target == pre[y].target && es@[y].hashed_proof@
                            == pre[y].hashed_proof@);
                    }
                }
                self.entries = es;
                proof {
                    lemma_first_match_at(
                        self.entries@,
                        Self::is_entry_at(target, hashed_proof@),
                        i as int,
                    );
                    assert forall|t: u64, h: Seq<u8>| !(t == target && h == hashed_proof@) implies
                        self.spec_get(t, h) == old(self).spec_get(t, h) by {
                        lemma_first_match_update_other(
                            pre,
                            i as int,
                            entry,
                            Self::is_entry_at(t, h),
                        );
                    }
                }
            },
            None => {
                es.push(entry);
                self.entries = es;
                proof {
                    lemma_first_match_at(
                        self.entries@,
                        Self::is_entry_at(target, hashed_proof@),
                        pre.len() as int,
                    );
                    assert forall|t: u64, h: Seq<u8>| !(t == target && h == hashed_proof@) implies
                        self.spec_get(t, h) == old(self).spec_get(t, h) by {
                        lemma_first_match_push_other(pre, entry, Self::is_entry_at(t, h));
                    }
                }
            },
        }
    }

    /// Drop the record at (target, hashed_proof), if one is there.
    pub fn remove(&mut self, target: u64, hashed_proof: HashedProof)
        ensures
            final(self).spec_get(target, hashed_proof@) is None,
            forall|t: u64, h: Seq<u8>|
                !(t == target && h == hashed_proof@) ==> final(self).spec_get(t, h) == old(
                    self,
                ).spec_get(t, h),
    {
        proof {
            use_type_invariant(&*self);
        }
        let ghost pre = self.entries@;
        match self.find(target, &hashed_proof) {
            Some(i) => {
                let mut es: Vec<SwapEntry<A>> = Vec::new();
                std::mem::swap(&mut es, &mut self.entries);
                es.remove(i);
                proof {
                    pre.remove_ensures(i as int);
                    assert forall|x: int, y: int| 0 <= x < y < es@.len() implies !(
                    #[trigger] es@[x].target == #[trigger] es@[y].target && es@[x].hashed_proof@
                        == es@[y].hashed_proof@) by {
                        if x < i {
                            assert(es@[x] == pre[x]);
                        } else {
                            assert(es@[x] == pre[x + 1]);
                        }
                        if y < i {
                            assert(es@[y] == pre[y]);
                        } else {
                            assert(es@[y] == pre[y + 1]);
                        }
                    }
                }
                self.entries = es;
                proof {
                    assert forall|j: int| 0 <= j < pre.len() && j != i implies !(
                    #[trigger] pre[j].target == target && pre[j].hashed_proof@
                        == hashed_proof@) by {}
                    lemma_first_match_remove_only(
                        pre,
                        i as int,
                        Self::is_entry_at(target, hashed_proof@),
                    );
                    assert forall|t: u64, h: Seq<u8>| !(t == target && h == hashed_proof@) implies
                        self.spec_get(t, h) == old(self).spec_get(t, h) by {
                        lemma_first_match_remove_other(pre, i as int, Self::is_entry_at(t, h));
                    }
                }
            },
            None => {},
        }
    }
}

} // verus!
