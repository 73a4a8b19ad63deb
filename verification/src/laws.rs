use crate::action::SwapAction;
use crate::errors::Error;
use crate::ledger::Ledger;
use crate::store::{HashedProof, PendingSwap};
use crate::swap::{
    cancel_swap_transition, claim_swap_transition, create_swap_transition, hash_of, Event, Module,
};
use vstd::prelude::*;

verus! {

/// A valid creation at a fresh (target, hash) key succeeds and stores a
/// record whose deadline is the creation-time counter plus the requested
/// duration, so a subsequent lookup at that key finds it.
pub proof fn lemma_create_fresh_key_stores_record<A: SwapAction>(
    pre: Module<A>,
    pre_ledger: Ledger,
    post: Module<A>,
    post_ledger: Ledger,
    source: u64,
    target: u64,
    hashed_proof: HashedProof,
    action: A,
    duration: u64,
    current_block: u64,
    r: Result<(), Error>,
)
    requires
        pre.swaps.spec_get(target, hashed_proof@) is None,
        action.can_reserve(pre_ledger, source),
        create_swap_transition(
            pre,
            pre_ledger,
            post,
            post_ledger,
            source,
            target,
            hashed_proof,
            action,
            duration,
            current_block,
            r,
        ),
    ensures
        r == Ok::<(), Error>(()),
        post.swaps.spec_get(target, hashed_proof@) == Some(
            PendingSwap { source, action, end_block: (current_block + duration) as u64 },
        ),
{
}

/// Creating at an occupied (target, hash) key always fails with
/// `AlreadyExist` and leaves the original record, and everything else,
/// unchanged.
pub proof fn lemma_create_existing_key_fails<A: SwapAction>(
    pre: Module<A>,
    pre_ledger: Ledger,
    post: Module<A>,
    post_ledger: Ledger,
    source: u64,
    target: u64,
    hashed_proof: HashedProof,
    action: A,
    duration: u64,
    current_block: u64,
    r: Result<(), Error>,
)
    requires
        pre.swaps.spec_get(target, hashed_proof@) is Some,
        create_swap_transition(
            pre,
            pre_ledger,
            post,
            post_ledger,
            source,
            target,
            hashed_proof,
            action,
            duration,
            current_block,
            r,
        ),
    ensures
        r == Err::<(), Error>(Error::AlreadyExist),
        post == pre,
        post_ledger == pre_ledger,
        post.swaps.spec_get(target, hashed_proof@) == pre.swaps.spec_get(target, hashed_proof@),
{
}

/// A claim whose hash matches a stored key and whose action equals the
/// stored action removes the record exactly once, whatever the resource
/// transfer reported: the claim succeeds, the record is gone, and a second
/// identical claim fails with `InvalidProof` without further change.
pub proof fn lemma_claim_resolves_exactly_once<A: SwapAction>(
    pre: Module<A>,
    pre_ledger: Ledger,
    mid: Module<A>,
    mid_ledger: Ledger,
    post: Module<A>,
    post_ledger: Ledger,
    target: u64,
    proof_bytes: Seq<u8>,
    action: A,
    swap: PendingSwap<A>,
    r1: Result<(), Error>,
    r2: Result<(), Error>,
)
    requires
        proof_bytes.len() <= pre.proof_limit,
        pre.swaps.spec_get(target, hash_of(proof_bytes)) == Some(swap),
        swap.action == action,
        claim_swap_transition(pre, pre_ledger, mid, mid_ledger, target, proof_bytes, action, r1),
        claim_swap_transition(mid, mid_ledger, post, post_ledger, target, proof_bytes, action, r2),
    ensures
        r1 == Ok::<(), Error>(()),
        mid.swaps.spec_get(target, hash_of(proof_bytes)) is None,
        r2 == Err::<(), Error>(Error::InvalidProof),
        post == mid,
        post_ledger == mid_ledger,
{
}

/// A proof longer than the configured limit is rejected with
/// `ProofTooLarge`; no record is touched and the ledger stays as it was.
pub proof fn lemma_claim_oversized_proof_rejected<A: SwapAction>(
    pre: Module<A>,
    pre_ledger: Ledger,
    post: Module<A>,
    post_ledger: Ledger,
    target: u64,
    proof_bytes: Seq<u8>,
    action: A,
    r: Result<(), Error>,
)
    requires
        proof_bytes.len() > pre.proof_limit,
        claim_swap_transition(pre, pre_ledger, post, post_ledger, target, proof_bytes, action, r),
    ensures
        r == Err::<(), Error>(Error::ProofTooLarge),
        post == pre,
        post_ledger == pre_ledger,
{
}

/// A proof within the limit whose hash matches no stored key fails with
/// `InvalidProof`; every record under any other hash remains untouched.
pub proof fn lemma_claim_unknown_proof_rejected<A: SwapAction>(
    pre: Module<A>,
    pre_ledger: Ledger,
    post: Module<A>,
    post_ledger: Ledger,
    target: u64,
    proof_bytes: Seq<u8>,
    action: A,
    r: Result<(), Error>,
)
    requires
        proof_bytes.len() <= pre.proof_limit,
        pre.swaps.spec_get(target, hash_of(proof_bytes)) is None,
        claim_swap_transition(pre, pre_ledger, post, post_ledger, target, proof_bytes, action, r),
    ensures
        r == Err::<(), Error>(Error::InvalidProof),
        post == pre,
        post_ledger == pre_ledger,
{
}

/// For a cancellation by the original source, the deadline decides: before
/// `end_block` it fails with `DurationNotPassed` and changes nothing; at or
/// after `end_block` it succeeds and removes the record.
pub proof fn lemma_cancel_deadline_gates_resolution<A: SwapAction>(
    pre: Module<A>,
    pre_ledger: Ledger,
    post: Module<A>,
    post_ledger: Ledger,
    source: u64,
    target: u64,
    hashed_proof: HashedProof,
    current_block: u64,
    swap: PendingSwap<A>,
    r: Result<(), Error>,
)
    requires
        pre.swaps.spec_get(target, hashed_proof@) == Some(swap),
        swap.source == source,
        cancel_swap_transition(
            pre,
            pre_ledger,
            post,
            post_ledger,
            source,
            target,
            hashed_proof,
            current_block,
            r,
        ),
    ensures
        current_block < swap.end_block ==> r == Err::<(), Error>(Error::DurationNotPassed) && post
            == pre && post_ledger == pre_ledger,
        current_block >= swap.end_block ==> r == Ok::<(), Error>(()) && post.swaps.spec_get(
            target,
            hashed_proof@,
        ) is None,
{
}

/// Cancelling by any account other than the original source fails with
/// `SourceMismatch` and changes nothing, deadline passed or not.
pub proof fn lemma_cancel_foreign_source_rejected<A: SwapAction>(
    pre: Module<A>,
    pre_ledger: Ledger,
    post: Module<A>,
    post_ledger: Ledger,
    source: u64,
    target: u64,
    hashed_proof: HashedProof,
    current_block: u64,
    swap: PendingSwap<A>,
    r: Result<(), Error>,
)
    requires
        pre.swaps.spec_get(target, hashed_proof@) == Some(swap),
        swap.source != source,
        cancel_swap_transition(
            pre,
            pre_ledger,
            post,
            post_ledger,
            source,
            target,
            hashed_proof,
            current_block,
            r,
        ),
    ensures
        r == Err::<(), Error>(Error::SourceMismatch),
        post == pre,
        post_ledger == pre_ledger,
{
}

/// Round trip: a swap created for `target` under the hash of `proof_bytes`
/// and then claimed by `target` with that proof (within the limit) and an
/// equal action resolves successfully: no record is left at the key and the
/// claimed event reports the transfer's real outcome.
pub proof fn lemma_create_then_claim_round_trip<A: SwapAction>(
    s0: Module<A>,
    l0: Ledger,
    s1: Module<A>,
    l1: Ledger,
    s2: Module<A>,
    l2: Ledger,
    source: u64,
    target: u64,
    hashed_proof: HashedProof,
    action: A,
    duration: u64,
    current_block: u64,
    proof_bytes: Seq<u8>,
    claim_action: A,
    r2: Result<(), Error>,
)
    requires
        hashed_proof@ == hash_of(proof_bytes),
        create_swap_transition(
            s0,
            l0,
            s1,
            l1,
            source,
            target,
            hashed_proof,
            action,
            duration,
            current_block,
            Ok(()),
        ),
        proof_bytes.len() <= s1.proof_limit,
        claim_action == action,
        claim_swap_transition(s1, l1, s2, l2, target, proof_bytes, claim_action, r2),
    ensures
        r2 == Ok::<(), Error>(()),
        s2.swaps.spec_get(target, hashed_proof@) is None,
        s2.events@.len() == s1.events@.len() + 1,
        (s2.events@.last() matches Event::SwapClaimed(t, hp, ok) && t == target && hp@
            == hashed_proof@ && ok == action.claim_outcome(l1, source, target)),
{
}

} // verus!
