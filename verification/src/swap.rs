use crate::action::SwapAction;
use crate::errors::Error;
use crate::ledger::Ledger;
use crate::store::{HashedProof, PendingSwap, PendingSwaps};
use vstd::prelude::*;

verus! {

/// A name for what the canonical hash returns: the 256-bit BLAKE2b digest of
/// the input bytes.
pub uninterp spec fn hash_of(data: Seq<u8>) -> Seq<u8>;

/// Relies on blake2b_simd::Params::hash with hash_length 32: the unkeyed
/// BLAKE2b-256 digest of the input, a function of the bytes alone.
#[verifier::external_body]
fn blake2_256(data: &Vec<u8>) -> (r: HashedProof)
    ensures
        r@ == hash_of(data@),
{
    let digest = blake2b_simd::Params::new().hash_length(32).hash(data.as_slice());
    let mut out = [0u8; 32];
    out.copy_from_slice(digest.as_bytes());
    out
}

/// Facts the lifecycle controller emits for external consumption; the
/// controller never reads them back.
pub enum Event<A> {
    /// Swap created: target account, hashed proof, and the stored record.
    NewSwap(u64, HashedProof, PendingSwap<A>),
    /// Swap claimed: target account, hashed proof, and whether the resource
    /// transfer succeeded.
    SwapClaimed(u64, HashedProof, bool),
    /// Swap cancelled: target account and hashed proof.
    SwapCancelled(u64, HashedProof),
}

/// The swap lifecycle controller: the pending-swap store, the events emitted
/// so far, and the configured proof-size limit.
pub struct Module<A> {
    /// Outstanding swaps.
    pub swaps: PendingSwaps<A>,
    /// Everything emitted so far, oldest first.
    pub events: Vec<Event<A>>,
    /// Limit of proof size, in bytes.
    pub proof_limit: u32,
}

/// The full effect of one `create_swap` call: either the key is taken
/// (`AlreadyExist`), or the action cannot reserve (its own error), or the
/// record is stored with deadline `current_block + duration` and a `NewSwap`
/// event is emitted.  Failures change nothing.
pub open spec fn create_swap_transition<A: SwapAction>(
    pre: Module<A>,
    pre_ledger: Ledger,
    post: Module<A>,
    post_ledger: Ledger,
    source: u64,
    target: u64,
    hashed_proof: HashedProof,
    action: A,
    duration: u64,
    current_block: u64,
    r: Result<(), Error>,
) -> bool {
    if pre.swaps.spec_get(target, hashed_proof@) is Some {
        &&& r == Err::<(), Error>(Error::AlreadyExist)
        &&& post == pre
        &&& post_ledger == pre_ledger
    } else if !action.can_reserve(pre_ledger, source) {
        &&& r == Err::<(), Error>(action.reserve_error())
        &&& post == pre
        &&& post_ledger == pre_ledger
    } else {
        let swap = (PendingSwap {
            source,
            action,
            end_block: (current_block + duration) as u64,
        });
        &&& r == Ok::<(), Error>(())
        &&& action.reserve_post(pre_ledger, post_ledger, source)
        &&& post.swaps.spec_get(target, hashed_proof@) == Some(swap)
        &&& forall|t: u64, h: Seq<u8>|
            !(t == target && h == hashed_proof@) ==> post.swaps.spec_get(t, h)
                == pre.swaps.spec_get(t, h)
        &&& post.events@ == pre.events@.push(Event::NewSwap(target, hashed_proof, swap))
        &&& post.proof_limit == pre.proof_limit
    }
}

/// The full effect of one `claim_swap` call: an oversized proof, an unknown
/// hash, or a mismatched action fail without side effects; otherwise the
/// transfer is attempted, the record is removed whatever the transfer
/// reported, and a `SwapClaimed` event carries the outcome.
pub open spec fn claim_swap_transition<A: SwapAction>(
    pre: Module<A>,
    pre_ledger: Ledger,
    post: Module<A>,
    post_ledger: Ledger,
    target: u64,
    proof_bytes: Seq<u8>,
    action: A,
    r: Result<(), Error>,
) -> bool {
    if proof_bytes.len() > pre.proof_limit {
        &&& r == Err::<(), Error>(Error::ProofTooLarge)
        &&& post == pre
        &&& post_ledger == pre_ledger
    } else {
        match pre.swaps.spec_get(target, hash_of(proof_bytes)) {
            None => {
                &&& r == Err::<(), Error>(Error::InvalidProof)
                &&& post == pre
                &&& post_ledger == pre_ledger
            },
            Some(swap) => {
                if swap.action != action {
                    &&& r == Err::<(), Error>(Error::ClaimActionMismatch)
                    &&& post == pre
                    &&& post_ledger == pre_ledger
                } else {
                    &&& r == Ok::<(), Error>(())
                    &&& swap.action.claim_post(pre_ledger, post_ledger, swap.source, target)
                    &&& post.swaps.spec_get(target, hash_of(proof_bytes)) is None
                    &&& forall|t: u64, h: Seq<u8>|
                        !(t == target && h == hash_of(proof_bytes)) ==> post.swaps.spec_get(t, h)
                            == pre.swaps.spec_get(t, h)
                    &&& post.events@.len() == pre.events@.len() + 1
                    &&& post.events@.take(pre.events@.len() as int) == pre.events@
                    &&& (post.events@.last() matches Event::SwapClaimed(t, hp, ok) && t == target
                        && hp@ == hash_of(proof_bytes) && ok == swap.action.claim_outcome(
                        pre_ledger,
                        swap.source,
                        target,
                    ))
                    &&& post.proof_limit == pre.proof_limit
                }
            },
        }
    }
}

/// The full effect of one `cancel_swap` call: a missing record, a caller
/// other than the source, or an unreached deadline fail without side
/// effects; otherwise the reservation is released, the record removed, and a
/// `SwapCancelled` event emitted.
pub open spec fn cancel_swap_transition<A: SwapAction>(
    pre: Module<A>,
    pre_ledger: Ledger,
    post: Module<A>,
    post_ledger: Ledger,
    source: u64,
    target: u64,
    hashed_proof: HashedProof,
    current_block: u64,
    r: Result<(), Error>,
) -> bool {
    match pre.swaps.spec_get(target, hashed_proof@) {
        None => {
            &&& r == Err::<(), Error>(Error::NotExist)
            &&& post == pre
            &&& post_ledger == pre_ledger
        },
        Some(swap) => {
            if swap.source != source {
                &&& r == Err::<(), Error>(Error::SourceMismatch)
                &&& post == pre
                &&& post_ledger == pre_ledger
            } else if current_block < swap.end_block {
                &&& r == Err::<(), Error>(Error::DurationNotPassed)
                &&& post == pre
                &&& post_ledger == pre_ledger
            } else {
                &&& r == Ok::<(), Error>(())
                &&& swap.action.cancel_post(pre_ledger, post_ledger, source)
                &&& post.swaps.spec_get(target, hashed_proof@) is None
                &&& forall|t: u64, h: Seq<u8>|
                    !(t == target && h == hashed_proof@) ==> post.swaps.spec_get(t, h)
                        == pre.swaps.spec_get(t, h)
                &&& post.events@ == pre.events@.push(Event::SwapCancelled(target, hashed_proof))
                &&& post.proof_limit == pre.proof_limit
            }
        },
    }
}

impl<A: SwapAction> Module<A> {
    /// A fresh controller with the given proof-size limit: no pending swaps,
    /// no events.
    pub fn new(proof_limit: u32) -> (m: Module<A>)
        ensures
            forall|t: u64, h: Seq<u8>| m.swaps.spec_get(t, h) is None,
            m.events@ == Seq::<Event<A>>::empty(),
            m.proof_limit == proof_limit,
    {
        Module { swaps: PendingSwaps::new(), events: Vec::new(), proof_limit }
    }

    /// Register a new atomic swap: reserve the action's resources from
    /// `source` and store the record under (target, hashed_proof) with
    /// deadline `current_block + duration`.  The target can later claim with
    /// the revealed proof; once the deadline passes, the source can cancel.
    pub fn create_swap(
        &mut self,
        ledger: &mut Ledger,
        source: u64,
        target: u64,
        hashed_proof: HashedProof,
        action: A,
        duration: u64,
        current_block: u64,
    ) -> (r: Result<(), Error>)
        requires
            old(self).swaps.spec_get(target, hashed_proof@) is None && action.can_reserve(
                *old(ledger),
                source,
            ) ==> current_block + duration <= u64::MAX,
        ensures
            create_swap_transition(
                *old(self),
                *old(ledger),
                *final(self),
                *final(ledger),
                source,
                target,
                hashed_proof,
                action,
                duration,
                current_block,
                r,
            ),
    {
        if self.swaps.contains(target, hashed_proof) {
            return Err(Error::AlreadyExist);
        }
        match action.reserve(ledger, source) {
            Err(e) => {
                return Err(e);
            },
            Ok(()) => {},
        }
        let end_block = current_block + duration;
        let stored = PendingSwap { source, action: action.clone_action(), end_block };
        self.swaps.insert(target, hashed_proof, stored);
        self.events.push(Event::NewSwap(target, hashed_proof, PendingSwap {
            source,
            action,
            end_block,
        }));
        Ok(())
    }

    /// Claim an atomic swap: hash the revealed proof, match it and the
    /// supplied action against the stored record, attempt the transfer, and
    /// resolve the swap whatever the transfer reported.
    pub fn claim_swap(
        &mut self,
        ledger: &mut Ledger,
        target: u64,
        proof: &Vec<u8>,
        action: A,
    ) -> (r: Result<(), Error>)
        ensures
            claim_swap_transition(
                *old(self),
                *old(ledger),
                *final(self),
                *final(ledger),
                target,
                proof@,
                action,
                r,
            ),
    {
        if proof.len() > self.proof_limit as usize {
            return Err(Error::ProofTooLarge);
        }
        let hashed_proof = blake2_256(proof);
        let succeeded = match self.swaps.get(target, hashed_proof) {
            None => {
                return Err(Error::InvalidProof);
            },
            Some(swap) => {
                if !swap.action.eq_action(&action) {
                    return Err(Error::ClaimActionMismatch);
                }
                swap.action.claim(ledger, swap.source, target)
            },
        };
        self.swaps.remove(target, hashed_proof);
        self.events.push(Event::SwapClaimed(target, hashed_proof, succeeded));
        proof {
            assert(self.events@.take(old(self).events@.len() as int) =~= old(self).events@);
        }
        Ok(())
    }

    /// Cancel an atomic swap: only the original source may cancel, and only
    /// once the deadline has been reached.
    pub fn cancel_swap(
        &mut self,
        ledger: &mut Ledger,
        source: u64,
        target: u64,
        hashed_proof: HashedProof,
        current_block: u64,
    ) -> (r: Result<(), Error>)
        ensures
            cancel_swap_transition(
                *old(self),
                *old(ledger),
                *final(self),
                *final(ledger),
                source,
                target,
                hashed_proof,
                current_block,
                r,
            ),
    {
        match self.swaps.get(target, hashed_proof) {
            None => {
                return Err(Error::NotExist);
            },
            Some(swap) => {
                if swap.source != source {
                    return Err(Error::SourceMismatch);
                }
                if current_block < swap.end_block {
                    return Err(Error::DurationNotPassed);
                }
                swap.action.cancel(ledger, swap.source);
            },
        }
        self.swaps.remove(target, hashed_proof);
        self.events.push(Event::SwapCancelled(target, hashed_proof));
        Ok(())
    }
}

} // verus!
