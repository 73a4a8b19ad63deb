use crate::lookup::{
    first_match, lemma_first_match_at, lemma_first_match_none, lemma_first_match_push_other,
    lemma_first_match_update_other,
};
use vstd::prelude::*;

verus! {

/// One account's balances: the freely spendable part and the part set aside
/// for pending swaps.
#[derive(Clone, Copy, PartialEq, Eq, Structural)]
pub struct Account {
    pub who: u64,
    pub free: u64,
    pub reserved: u64,
}

/// A balance ledger standing in for the external currency engine.  Resources
/// move between the free and reserved part of one account (`reserve`,
/// `unreserve`) or from one account's reserve into another's free balance
/// (`repatriate_reserved`).
pub struct Ledger {
    accounts: Vec<Account>,
}

/// How much of `amount` an unreserve can move back to the free balance:
/// bounded by what is reserved and by the room left before overflow.
pub open spec fn unreservable(free: u64, reserved: u64, amount: u64) -> u64 {
    let m = if amount <= reserved { amount } else { reserved };
    if free + m <= u64::MAX {
        m
    } else {
        (u64::MAX - free) as u64
    }
}

impl Ledger {
    /// The predicate selecting `who`'s entry.
    spec fn is_entry_of(who: u64) -> spec_fn(Account) -> bool {
        |a: Account| a.who == who
    }

    /// The entry recorded for `who`, if any.
    pub closed spec fn account_of(self, who: u64) -> Option<Account> {
        first_match(self.accounts@, Self::is_entry_of(who))
    }

    pub open spec fn has_account(self, who: u64) -> bool {
        self.account_of(who) is Some
    }

    /// `who`'s free balance; an absent account holds nothing.
    pub open spec fn free_of(self, who: u64) -> u64 {
        match self.account_of(who) {
            Some(a) => a.free,
            None => 0,
        }
    }

    /// `who`'s reserved balance; an absent account holds nothing.
    pub open spec fn reserved_of(self, who: u64) -> u64 {
        match self.account_of(who) {
            Some(a) => a.reserved,
            None => 0,
        }
    }

    /// The index of `who`'s entry, together with the facts a caller needs
    /// about the scan.
    fn find(&self, who: u64) -> (r: Option<usize>)
        ensures
            match r {
                Some(i) => {
                    &&& i < self.accounts@.len()
                    &&& self.accounts@[i as int].who == who
                    &&& forall|j: int| 0 <= j < i ==> self.accounts@[j].who != who
                    &&& self.account_of(who) == Some(self.accounts@[i as int])
                },
                None => {
                    &&& forall|j: int|
                        0 <= j < self.accounts@.len() ==> self.accounts@[j].who != who
                    &&& self.account_of(who) is None
                },
            },
    {
        let n = self.accounts.len();
        let mut i: usize = 0;
        while i < n
            invariant
                i <= n,
                n == self.accounts@.len(),
                forall|j: int| 0 <= j < i ==> self.accounts@[j].who != who,
            decreases n - i,
        {
            if self.accounts[i].who == who {
                proof {
                    lemma_first_match_at(self.accounts@, Self::is_entry_of(who), i as int);
                }
                return Some(i);
            }
            i += 1;
        }
        proof {
            lemma_first_match_none(self.accounts@, Self::is_entry_of(who));
        }
        None
    }

    pub fn new() -> (l: Ledger)
        ensures
            forall|w: u64| !l.has_account(w),
            forall|w: u64| l.free_of(w) == 0 && l.reserved_of(w) == 0,
    {
        let l = Ledger { accounts: Vec::new() };
        proof {
            assert forall|w: u64| !l.has_account(w) && l.free_of(w) == 0 && l.reserved_of(w)
                == 0 by {
                lemma_first_match_none(l.accounts@, Self::is_entry_of(w));
            }
        }
        l
    }

    pub fn free_balance(&self, who: u64) -> (r: u64)
        ensures
            r == self.free_of(who),
    {
        match self.find(who) {
            Some(i) => self.accounts[i].free,
            None => 0,
        }
    }

    pub fn reserved_balance(&self, who: u64) -> (r: u64)
        ensures
            r == self.reserved_of(who),
    {
        match self.find(who) {
            Some(i) => self.accounts[i].reserved,
            None => 0,
        }
    }

    /// Add `amount` to `who`'s free balance, creating the account when it is
    /// absent.  Fails, changing nothing, when the balance would overflow.
    pub fn deposit(&mut self, who: u64, amount: u64) -> (r: bool)
        ensures
            r == (old(self).free_of(who) + amount <= u64::MAX),
            r ==> final(self).has_account(who),
            r ==> final(self).free_of(who) == old(self).free_of(who) + amount,
            r ==> final(self).reserved_of(who) == old(self).reserved_of(who),
            !r ==> *final(self) == *old(self),
            forall|w: u64| w != who ==> final(self).account_of(w) == old(self).account_of(w),
    {
        match self.find(who) {
            Some(i) => {
                let a = self.accounts[i];
                if amount <= u64::MAX - a.free {
                    let ghost pre = self.accounts@;
                    let updated = Account { who, free: a.free + amount, reserved: a.reserved };
                    self.accounts.set(i, updated);
                    proof {
                        lemma_first_match_at(self.accounts@, Self::is_entry_of(who), i as int);
                        assert forall|w: u64| w != who implies self.account_of(w)
                            == old(self).account_of(w) by {
                            lemma_first_match_update_other(
                                pre,
                                i as int,
                                updated,
                                Self::is_entry_of(w),
                            );
                        }
                    }
                    true
                } else {
                    false
                }
            },
            None => {
                let ghost pre = self.accounts@;
                let fresh = Account { who, free: amount, reserved: 0 };
                self.accounts.push(fresh);
                proof {
                    lemma_first_match_at(self.accounts@, Self::is_entry_of(who), pre.len() as int);
                    assert forall|w: u64| w != who implies self.account_of(w)
                        == old(self).account_of(w) by {
                        lemma_first_match_push_other(pre, fresh, Self::is_entry_of(w));
                    }
                }
                true
            },
        }
    }

    /// Move `amount` from `who`'s free balance into reserve.  Succeeds exactly
    /// when the free balance covers `amount` and the reserve does not
    /// overflow; a failure changes nothing.
    pub fn reserve(&mut self, who: u64, amount: u64) -> (r: bool)
        ensures
            r == (old(self).free_of(who) >= amount && old(self).reserved_of(who) + amount
                <= u64::MAX),
            r ==> final(self).free_of(who) == old(self).free_of(who) - amount,
            r ==> final(self).reserved_of(who) == old(self).reserved_of(who) + amount,
            r ==> final(self).has_account(who) == old(self).has_account(who),
            !r ==> *final(self) == *old(self),
            forall|w: u64| w != who ==> final(self).account_of(w) == old(self).account_of(w),
    {
        if amount == 0 {
            return true;
        }
        match self.find(who) {
            Some(i) => {
                let a = self.accounts[i];
                if a.free >= amount && amount <= u64::MAX - a.reserved {
                    let ghost pre = self.accounts@;
                    let updated = Account {
                        who,
                        free: a.free - amount,
                        reserved: a.reserved + amount,
                    };
                    self.accounts.set(i, updated);
                    proof {
                        lemma_first_match_at(self.accounts@, Self::is_entry_of(who), i as int);
                        assert forall|w: u64| w != who implies self.account_of(w)
                            == old(self).account_of(w) by {
                            lemma_first_match_update_other(
                                pre,
                                i as int,
                                updated,
                                Self::is_entry_of(w),
                            );
                        }
                    }
                    true
                } else {
                    false
                }
            },
            None => false,
        }
    }

    /// Release up to `amount` of `who`'s reserve back to the free balance and
    /// say how much actually moved.
    pub fn unreserve(&mut self, who: u64, amount: u64) -> (moved: u64)
        ensures
            moved == unreservable(old(self).free_of(who), old(self).reserved_of(who), amount),
            final(self).free_of(who) == old(self).free_of(who) + moved,
            final(self).reserved_of(who) == old(self).reserved_of(who) - moved,
            final(self).has_account(who) == old(self).has_account(who),
            forall|w: u64| w != who ==> final(self).account_of(w) == old(self).account_of(w),
    {
        match self.find(who) {
            Some(i) => {
                let a = self.accounts[i];
                let capped = if amount <= a.reserved {
                    amount
                } else {
                    a.reserved
                };
                let moved = if capped <= u64::MAX - a.free {
                    capped
                } else {
                    u64::MAX - a.free
                };
                let ghost pre = self.accounts@;
                let updated = Account { who, free: a.free + moved, reserved: a.reserved - moved };
                self.accounts.set(i, updated);
                proof {
                    lemma_first_match_at(self.accounts@, Self::is_entry_of(who), i as int);
                    assert forall|w: u64| w != who implies self.account_of(w)
                        == old(self).account_of(w) by {
                        lemma_first_match_update_other(pre, i as int, updated, Self::is_entry_of(w));
                    }
                }
                moved
            },
            None => 0,
        }
    }

    /// Move `amount` out of `source`'s reserve into `target`'s free balance.
    /// Succeeds exactly when the reserve covers `amount`, the target account
    /// exists and its free balance does not overflow; a failure changes
    /// nothing.
    pub fn repatriate_reserved(&mut self, source: u64, target: u64, amount: u64) -> (r: bool)
        ensures
            r == (old(self).reserved_of(source) >= amount && old(self).has_account(target) && old(
                self,
            ).free_of(target) + amount <= u64::MAX),
            r ==> final(self).reserved_of(source) == old(self).reserved_of(source) - amount,
            r ==> final(self).free_of(target) == old(self).free_of(target) + amount,
            r && source != target ==> final(self).free_of(source) == old(self).free_of(source),
            r && source != target ==> final(self).reserved_of(target) == old(self).reserved_of(
                target,
            ),
            r ==> final(self).has_account(source) == old(self).has_account(source),
            r ==> final(self).has_account(target) == old(self).has_account(target),
            !r ==> *final(self) == *old(self),
            forall|w: u64|
                w != source && w != target ==> final(self).account_of(w) == old(self).account_of(w),
    {
        if amount == 0 {
            return match self.find(target) {
                Some(_) => true,
                None => false,
            };
        }
        if source == target {
            match self.find(source) {
                Some(i) => {
                    let a = self.accounts[i];
                    if a.reserved >= amount && amount <= u64::MAX - a.free {
                        let ghost pre = self.accounts@;
                        let updated = Account {
                            who: source,
                            free: a.free + amount,
                            reserved: a.reserved - amount,
                        };
                        self.accounts.set(i, updated);
                        proof {
                            lemma_first_match_at(
                                self.accounts@,
                                Self::is_entry_of(source),
                                i as int,
                            );
                            assert forall|w: u64| w != source implies self.account_of(w)
                                == (Ledger { accounts: old(self).accounts }).account_of(w) by {
                                lemma_first_match_update_other(
                                    pre,
                                    i as int,
                                    updated,
                                    Self::is_entry_of(w),
                                );
                            }
                        }
                        true
                    } else {
                        false
                    }
                },
                None => false,
            }
        } else {
            let si_opt = self.find(source);
            let ti_opt = self.find(target);
            match (si_opt, ti_opt) {
                (Some(si), Some(ti)) => {
                    let sa = self.accounts[si];
                    let ta = self.accounts[ti];
                    if sa.reserved >= amount && amount <= u64::MAX - ta.free {
                        let ghost pre = self.accounts@;
                        let src_updated = Account {
                            who: source,
                            free: sa.free,
                            reserved: sa.reserved - amount,
                        };
                        let tgt_updated = Account {
                            who: target,
                            free: ta.free + amount,
                            reserved: ta.reserved,
                        };
                        self.accounts.set(si, src_updated);
                        let ghost mid = self.accounts@;
                        self.accounts.set(ti, tgt_updated);
                        proof {
                            assert(si != ti);
                            assert forall|j: int| 0 <= j < si implies self.accounts@[j].who
                                != source by {}
                            lemma_first_match_at(
                                self.accounts@,
                                Self::is_entry_of(source),
                                si as int,
                            );
                            assert forall|j: int| 0 <= j < ti implies self.accounts@[j].who
                                != target by {}
                            lemma_first_match_at(
                                self.accounts@,
                                Self::is_entry_of(target),
                                ti as int,
                            );
                            assert forall|w: u64| w != source && w != target implies self.account_of(w)
                                == old(self).account_of(w) by {
                                lemma_first_match_update_other(
                                    pre,
                                    si as int,
                                    src_updated,
                                    Self::is_entry_of(w),
                                );
                                lemma_first_match_update_other(
                                    mid,
                                    ti as int,
                                    tgt_updated,
                                    Self::is_entry_of(w),
                                );
                            }
                        }
                        true
                    } else {
                        false
                    }
                },
                _ => false,
            }
        }
    }
}

} // verus!
