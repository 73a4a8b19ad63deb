use atomic_swap::action::BalanceSwapAction;
use atomic_swap::errors::Error;
use atomic_swap::ledger::Ledger;
use atomic_swap::swap::{Event, Module};

fn hash(data: &[u8]) -> [u8; 32] {
    let digest = blake2b_simd::Params::new().hash_length(32).hash(data);
    let mut out = [0u8; 32];
    out.copy_from_slice(digest.as_bytes());
    out
}

/// A sender with funds, a target with an (empty) account, and a swap of 100
/// units created at block 5 with duration 10.
fn setup() -> (Module<BalanceSwapAction>, Ledger, [u8; 32]) {
    let mut ledger = Ledger::new();
    assert!(ledger.deposit(1, 500));
    assert!(ledger.deposit(2, 0));
    let mut m = Module::new(1024);
    let hp = hash(b"secret");
    let r = m.create_swap(&mut ledger, 1, 2, hp, BalanceSwapAction::new(100), 10, 5);
    assert_eq!(r, Ok(()));
    (m, ledger, hp)
}

#[test]
fn create_stores_record_with_deadline() {
    let (m, ledger, hp) = setup();
    assert!(m.swaps.contains(2, hp));
    let rec = m.swaps.get(2, hp).unwrap();
    assert_eq!(rec.source, 1);
    assert_eq!(rec.end_block, 15);
    assert_eq!(rec.action, BalanceSwapAction::new(100));
    assert_eq!(ledger.free_balance(1), 400);
    assert_eq!(ledger.reserved_balance(1), 100);
    assert_eq!(m.events.len(), 1);
    assert!(matches!(&m.events[0], Event::NewSwap(2, h, rec)
        if *h == hp && rec.source == 1 && rec.end_block == 15));
}

#[test]
fn create_duplicate_key_fails_and_keeps_record() {
    let (mut m, mut ledger, hp) = setup();
    let r = m.create_swap(&mut ledger, 1, 2, hp, BalanceSwapAction::new(7), 3, 6);
    assert_eq!(r, Err(Error::AlreadyExist));
    let rec = m.swaps.get(2, hp).unwrap();
    assert_eq!(rec.end_block, 15);
    assert_eq!(rec.action, BalanceSwapAction::new(100));
    assert_eq!(ledger.free_balance(1), 400);
    assert_eq!(m.events.len(), 1);
}

#[test]
fn create_without_funds_fails_without_record() {
    let mut ledger = Ledger::new();
    assert!(ledger.deposit(1, 50));
    let mut m = Module::new(1024);
    let hp = hash(b"secret");
    let r = m.create_swap(&mut ledger, 1, 2, hp, BalanceSwapAction::new(100), 10, 5);
    assert_eq!(r, Err(Error::ReserveFailed));
    assert!(!m.swaps.contains(2, hp));
    assert_eq!(ledger.free_balance(1), 50);
    assert_eq!(ledger.reserved_balance(1), 0);
    assert!(m.events.is_empty());
}

#[test]
fn claim_with_valid_proof_moves_funds_and_resolves() {
    let (mut m, mut ledger, hp) = setup();
    let r = m.claim_swap(&mut ledger, 2, &b"secret".to_vec(), BalanceSwapAction::new(100));
    assert_eq!(r, Ok(()));
    assert!(!m.swaps.contains(2, hp));
    assert_eq!(ledger.free_balance(1), 400);
    assert_eq!(ledger.reserved_balance(1), 0);
    assert_eq!(ledger.free_balance(2), 100);
    assert!(matches!(m.events.last(), Some(Event::SwapClaimed(2, h, true)) if *h == hp));
}

#[test]
fn claim_resolves_exactly_once() {
    let (mut m, mut ledger, hp) = setup();
    let r = m.claim_swap(&mut ledger, 2, &b"secret".to_vec(), BalanceSwapAction::new(100));
    assert_eq!(r, Ok(()));
    let r = m.claim_swap(&mut ledger, 2, &b"secret".to_vec(), BalanceSwapAction::new(100));
    assert_eq!(r, Err(Error::InvalidProof));
    assert!(!m.swaps.contains(2, hp));
    assert_eq!(ledger.free_balance(2), 100);
    assert_eq!(m.events.len(), 2);
}

#[test]
fn claim_resolves_even_when_transfer_fails() {
    // Target 3 has no account, so the repatriation itself fails; the swap is
    // still resolved and the event reports the failed transfer.
    let mut ledger = Ledger::new();
    assert!(ledger.deposit(1, 500));
    let mut m = Module::new(1024);
    let hp = hash(b"secret");
    let r = m.create_swap(&mut ledger, 1, 3, hp, BalanceSwapAction::new(100), 10, 5);
    assert_eq!(r, Ok(()));
    let r = m.claim_swap(&mut ledger, 3, &b"secret".to_vec(), BalanceSwapAction::new(100));
    assert_eq!(r, Ok(()));
    assert!(!m.swaps.contains(3, hp));
    assert_eq!(ledger.reserved_balance(1), 100);
    assert_eq!(ledger.free_balance(3), 0);
    assert!(matches!(m.events.last(), Some(Event::SwapClaimed(3, h, false)) if *h == hp));
}

#[test]
fn claim_oversized_proof_rejected() {
    let mut ledger = Ledger::new();
    assert!(ledger.deposit(1, 500));
    assert!(ledger.deposit(2, 0));
    let mut m = Module::new(4);
    let hp = hash(b"secret");
    let r = m.create_swap(&mut ledger, 1, 2, hp, BalanceSwapAction::new(100), 10, 5);
    assert_eq!(r, Ok(()));
    let r = m.claim_swap(&mut ledger, 2, &b"secret".to_vec(), BalanceSwapAction::new(100));
    assert_eq!(r, Err(Error::ProofTooLarge));
    assert!(m.swaps.contains(2, hp));
    assert_eq!(ledger.reserved_balance(1), 100);
    assert_eq!(m.events.len(), 1);
}

#[test]
fn claim_with_wrong_proof_rejected() {
    let (mut m, mut ledger, hp) = setup();
    let r = m.claim_swap(&mut ledger, 2, &b"wrong!".to_vec(), BalanceSwapAction::new(100));
    assert_eq!(r, Err(Error::InvalidProof));
    assert!(m.swaps.contains(2, hp));
    assert_eq!(ledger.free_balance(2), 0);
    assert_eq!(m.events.len(), 1);
}

#[test]
fn claim_by_wrong_target_rejected() {
    // Account 9 reveals the right proof, but no swap is keyed to it.
    let (mut m, mut ledger, hp) = setup();
    let r = m.claim_swap(&mut ledger, 9, &b"secret".to_vec(), BalanceSwapAction::new(100));
    assert_eq!(r, Err(Error::InvalidProof));
    assert!(m.swaps.contains(2, hp));
}

#[test]
fn claim_with_mismatched_action_rejected() {
    let (mut m, mut ledger, hp) = setup();
    let r = m.claim_swap(&mut ledger, 2, &b"secret".to_vec(), BalanceSwapAction::new(99));
    assert_eq!(r, Err(Error::ClaimActionMismatch));
    assert!(m.swaps.contains(2, hp));
    assert_eq!(ledger.reserved_balance(1), 100);
    assert_eq!(ledger.free_balance(2), 0);
    assert_eq!(m.events.len(), 1);
}

#[test]
fn cancel_before_deadline_rejected() {
    let (mut m, mut ledger, hp) = setup();
    let r = m.cancel_swap(&mut ledger, 1, 2, hp, 14);
    assert_eq!(r, Err(Error::DurationNotPassed));
    assert!(m.swaps.contains(2, hp));
    assert_eq!(ledger.reserved_balance(1), 100);
}

#[test]
fn cancel_at_deadline_returns_funds() {
    let (mut m, mut ledger, hp) = setup();
    let r = m.cancel_swap(&mut ledger, 1, 2, hp, 15);
    assert_eq!(r, Ok(()));
    assert!(!m.swaps.contains(2, hp));
    assert_eq!(ledger.free_balance(1), 500);
    assert_eq!(ledger.reserved_balance(1), 0);
    assert!(matches!(m.events.last(), Some(Event::SwapCancelled(2, h)) if *h == hp));
}

#[test]
fn cancel_after_deadline_returns_funds() {
    let (mut m, mut ledger, hp) = setup();
    let r = m.cancel_swap(&mut ledger, 1, 2, hp, 20);
    assert_eq!(r, Ok(()));
    assert_eq!(ledger.free_balance(1), 500);
}

#[test]
fn cancel_by_foreign_source_rejected_even_late() {
    let (mut m, mut ledger, hp) = setup();
    let r = m.cancel_swap(&mut ledger, 9, 2, hp, 20);
    assert_eq!(r, Err(Error::SourceMismatch));
    assert!(m.swaps.contains(2, hp));
    assert_eq!(ledger.reserved_balance(1), 100);
}

#[test]
fn cancel_missing_swap_rejected() {
    let (mut m, mut ledger, _) = setup();
    let r = m.cancel_swap(&mut ledger, 1, 2, hash(b"other"), 20);
    assert_eq!(r, Err(Error::NotExist));
}

#[test]
fn swaps_with_colliding_partial_keys_stay_independent() {
    // Same target under two hashes, and the same hash under two targets.
    let mut ledger = Ledger::new();
    assert!(ledger.deposit(1, 500));
    assert!(ledger.deposit(2, 0));
    assert!(ledger.deposit(3, 0));
    let mut m = Module::new(1024);
    let h1 = hash(b"one");
    let h2 = hash(b"two");
    assert_eq!(m.create_swap(&mut ledger, 1, 2, h1, BalanceSwapAction::new(10), 5, 0), Ok(()));
    assert_eq!(m.create_swap(&mut ledger, 1, 2, h2, BalanceSwapAction::new(20), 5, 0), Ok(()));
    assert_eq!(m.create_swap(&mut ledger, 1, 3, h1, BalanceSwapAction::new(30), 5, 0), Ok(()));
    assert_eq!(ledger.reserved_balance(1), 60);
    let r = m.claim_swap(&mut ledger, 2, &b"one".to_vec(), BalanceSwapAction::new(10));
    assert_eq!(r, Ok(()));
    assert!(!m.swaps.contains(2, h1));
    assert!(m.swaps.contains(2, h2));
    assert!(m.swaps.contains(3, h1));
    assert_eq!(ledger.free_balance(2), 10);
    assert_eq!(ledger.reserved_balance(1), 50);
}

#[test]
fn proof_hash_is_blake2b_256() {
    // The BLAKE2b-256 digest of the empty input, from the BLAKE2 reference
    // test vectors.
    let expected: [u8; 32] = [
        0x0e, 0x57, 0x51, 0xc0, 0x26, 0xe5, 0x43, 0xb2, 0xe8, 0xab, 0x2e, 0xb0, 0x60, 0x99,
        0xda, 0xa1, 0xd1, 0xe5, 0xdf, 0x47, 0x77, 0x8f, 0x77, 0x87, 0xfa, 0xab, 0x45, 0xcd,
        0xf1, 0x2f, 0xe3, 0xa8,
    ];
    assert_eq!(hash(b""), expected);
    // And the library's claim path really hashes with it: a swap keyed under
    // this digest is claimable with the empty proof.
    let mut ledger = Ledger::new();
    assert!(ledger.deposit(1, 500));
    assert!(ledger.deposit(2, 0));
    let mut m = Module::new(1024);
    assert_eq!(m.create_swap(&mut ledger, 1, 2, expected, BalanceSwapAction::new(5), 1, 0), Ok(()));
    assert_eq!(m.claim_swap(&mut ledger, 2, &Vec::new(), BalanceSwapAction::new(5)), Ok(()));
    assert_eq!(ledger.free_balance(2), 5);
}
