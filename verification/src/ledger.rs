//! The ledger: the custodial value-transfer service the protocol core calls
//! to move collateral between agents' spendable balances and the pooled
//! custody. The core treats it only through this interface; every call is
//! fallible and all-or-nothing.

use vstd::prelude::*;
use crate::types::SentryError;

verus! {

/// One agent's spendable balance outside the custody pool.
#[derive(Clone, Copy, Debug)]
pub struct LedgerAccount {
    pub owner: u64,
    pub balance: u64,
}

/// Custodial pool plus per-agent spendable balances. An agent with no
/// account simply has balance zero.
#[derive(Debug)]
pub struct Ledger {
    pub pool: u64,
    pub accounts: Vec<LedgerAccount>,
}

impl Ledger {
    /// Each agent holds at most one account.
    pub open spec fn owners_unique(self) -> bool {
        forall|i: int, j: int|
            0 <= i < j < self.accounts@.len() ==> (#[trigger] self.accounts@[i]).owner != (
            #[trigger] self.accounts@[j]).owner
    }

    pub open spec fn wf(self) -> bool {
        self.owners_unique()
    }

    pub open spec fn has_account(self, owner: u64) -> bool {
        exists|i: int| 0 <= i < self.accounts@.len() && (#[trigger] self.accounts@[i]).owner == owner
    }

    /// The spendable balance of an agent; zero without an account.
    pub open spec fn balance_of(self, owner: u64) -> u64 {
        if self.has_account(owner) {
            let i = choose|i: int|
                0 <= i < self.accounts@.len() && (#[trigger] self.accounts@[i]).owner == owner;
            self.accounts@[i].balance
        } else {
            0u64
        }
    }

    /// What `deposit` rejects, in the order checked.
    pub open spec fn deposit_error(self, payer: u64, amount: u64) -> Option<SentryError> {
        if self.balance_of(payer) < amount {
            Some(SentryError::InsufficientFunds)
        } else if self.pool + amount > u64::MAX {
            Some(SentryError::Overflow)
        } else {
            None
        }
    }

    /// What `credit` rejects.
    pub open spec fn credit_error(self, recipient: u64, amount: u64) -> Option<SentryError> {
        if self.balance_of(recipient) + amount > u64::MAX {
            Some(SentryError::Overflow)
        } else {
            None
        }
    }

    /// What `debit_pool` rejects.
    pub open spec fn debit_pool_error(self, amount: u64) -> Option<SentryError> {
        if self.pool < amount {
            Some(SentryError::InsufficientFunds)
        } else {
            None
        }
    }

    /// An empty ledger: nothing pooled, no balances.
    pub fn new() -> (l: Ledger)
        ensures
            l.wf(),
            l.pool == 0,
            forall|o: u64| #[trigger] l.balance_of(o) == 0,
    {
        let l = Ledger { pool: 0, accounts: Vec::new() };
        proof {
            assert(forall|o: u64| !(#[trigger] l.has_account(o)));
        }
        l
    }

    /// The unique account index of an owner determines `balance_of`.
    proof fn lemma_account_at(self, i: int)
        requires
            self.owners_unique(),
            0 <= i < self.accounts@.len(),
        ensures
            self.has_account(self.accounts@[i].owner),
            self.balance_of(self.accounts@[i].owner) == self.accounts@[i].balance,
    {
        let o = self.accounts@[i].owner;
        assert(self.has_account(o));
        let j = choose|j: int|
            0 <= j < self.accounts@.len() && (#[trigger] self.accounts@[j]).owner == o;
        if i < j {
            assert(self.accounts@[i].owner != self.accounts@[j].owner);
        } else if j < i {
            assert(self.accounts@[j].owner != self.accounts@[i].owner);
        }
    }

    /// Replacing one account by one of the same owner leaves every other
    /// balance unchanged.
    proof fn lemma_balance_frame(self, other: Ledger, i: int)
        requires
            self.owners_unique(),
            0 <= i < self.accounts@.len(),
            other.accounts@.len() == self.accounts@.len(),
            forall|j: int|
                0 <= j < self.accounts@.len() && j != i ==> (#[trigger] other.accounts@[j])
                    == self.accounts@[j],
            other.accounts@[i].owner == self.accounts@[i].owner,
        ensures
            other.owners_unique(),
            other.balance_of(self.accounts@[i].owner) == other.accounts@[i].balance,
            forall|o: u64|
                o != self.accounts@[i].owner ==> #[trigger] other.balance_of(o)
                    == self.balance_of(o),
    {
        assert forall|p: int, q: int| 0 <= p < q < other.accounts@.len() implies (
        #[trigger] other.accounts@[p]).owner != (#[trigger] other.accounts@[q]).owner by {
            assert(other.accounts@[p].owner == self.accounts@[p].owner);
            assert(other.accounts@[q].owner == self.accounts@[q].owner);
        }
        other.lemma_account_at(i);
        assert forall|o: u64| o != self.accounts@[i].owner implies #[trigger] other.balance_of(o)
            == self.balance_of(o) by {
            if self.has_account(o) {
                let k = choose|k: int|
                    0 <= k < self.accounts@.len() && (#[trigger] self.accounts@[k]).owner == o;
                assert(k != i);
                assert(other.accounts@[k].owner == o);
                self.lemma_account_at(k);
                other.lemma_account_at(k);
            } else {
                if other.has_account(o) {
                    let k = choose|k: int|
                        0 <= k < other.accounts@.len() && (#[trigger] other.accounts@[k]).owner
                            == o;
                    assert(k != i);
                    assert(self.accounts@[k].owner == o);
                }
            }
        }
    }

    /// Opening an account for a fresh owner leaves every other balance
    /// unchanged.
    proof fn lemma_balance_push(self, other: Ledger, entry: LedgerAccount)
        requires
            self.owners_unique(),
            !self.has_account(entry.owner),
            other.accounts@ == self.accounts@.push(entry),
        ensures
            other.owners_unique(),
            other.balance_of(entry.owner) == entry.balance,
            forall|o: u64|
                o != entry.owner ==> #[trigger] other.balance_of(o) == self.balance_of(o),
    {
        let n = self.accounts@.len() as int;
        assert forall|p: int, q: int| 0 <= p < q < other.accounts@.len() implies (
        #[trigger] other.accounts@[p]).owner != (#[trigger] other.accounts@[q]).owner by {
            if q < n {
                assert(other.accounts@[p] == self.accounts@[p]);
                assert(other.accounts@[q] == self.accounts@[q]);
            } else {
                assert(other.accounts@[q] == entry);
                assert(other.accounts@[p] == self.accounts@[p]);
                assert(self.has_account(self.accounts@[p].owner));
            }
        }
        assert(other.accounts@[n] == entry);
        other.lemma_account_at(n);
        assert forall|o: u64| o != entry.owner implies #[trigger] other.balance_of(o)
            == self.balance_of(o) by {
            if self.has_account(o) {
                let k = choose|k: int|
                    0 <= k < self.accounts@.len() && (#[trigger] self.accounts@[k]).owner == o;
                assert(other.accounts@[k].owner == o);
                self.lemma_account_at(k);
                other.lemma_account_at(k);
            } else {
                if other.has_account(o) {
                    let k = choose|k: int|
                        0 <= k < other.accounts@.len() && (#[trigger] other.accounts@[k]).owner
                            == o;
                    assert(k < n);
                    assert(self.accounts@[k].owner == o);
                }
            }
        }
    }

    /// Finds the account of an owner, if one exists.
    fn find_account(&self, owner: u64) -> (r: Option<usize>)
        ensures
            match r {
                Some(i) => i < self.accounts@.len() && self.accounts@[i as int].owner == owner,
                None => !self.has_account(owner),
            },
    {
        let mut k: usize = 0;
        while k < self.accounts.len()
            invariant
                k <= self.accounts@.len(),
                forall|j: int| 0 <= j < k ==> (#[trigger] self.accounts@[j]).owner != owner,
            decreases self.accounts@.len() - k,
        {
            if self.accounts[k].owner == owner {
                return Some(k);
            }
            k += 1;
        }
        None
    }

    /// Reads an agent's spendable balance.
    pub fn balance(&self, owner: u64) -> (r: u64)
        requires
            self.wf(),
        ensures
            r == self.balance_of(owner),
    {
        match self.find_account(owner) {
            Some(i) => {
                proof {
                    self.lemma_account_at(i as int);
                }
                self.accounts[i].balance
            },
            None => 0,
        }
    }

    /// Moves `amount` from the payer's spendable balance into custody.
    /// Fails with `InsufficientFunds` when the payer cannot cover it, and
    /// with `Overflow` when the pool cannot hold it; either way nothing
    /// moves.
    pub fn deposit(&mut self, payer: u64, amount: u64) -> (r: Result<(), SentryError>)
        requires
            old(self).wf(),
        ensures
            final(self).wf(),
            match r {
                Ok(()) => {
                    &&& old(self).deposit_error(payer, amount) is None
                    &&& final(self).pool == old(self).pool + amount
                    &&& final(self).balance_of(payer) == old(self).balance_of(payer) - amount
                    &&& forall|o: u64|
                        o != payer ==> #[trigger] final(self).balance_of(o) == old(self).balance_of(
                            o,
                        )
                },
                Err(e) => {
                    &&& old(self).deposit_error(payer, amount) == Some(e)
                    &&& *final(self) == *old(self)
                },
            },
    {
        match self.find_account(payer) {
            Some(i) => {
                proof {
                    self.lemma_account_at(i as int);
                }
                if self.accounts[i].balance < amount {
                    return Err(SentryError::InsufficientFunds);
                }
                if amount > u64::MAX - self.pool {
                    return Err(SentryError::Overflow);
                }
                let ghost before = *self;
                let updated = LedgerAccount {
                    owner: payer,
                    balance: self.accounts[i].balance - amount,
                };
                self.accounts[i] = updated;
                self.pool = self.pool + amount;
                proof {
                    before.lemma_balance_frame(*self, i as int);
                }
                Ok(())
            },
            None => {
                if amount > 0 {
                    return Err(SentryError::InsufficientFunds);
                }
                Ok(())
            },
        }
    }

    /// Moves `amount` out of custody. Fails with `InsufficientFunds` when
    /// the pool does not hold that much.
    pub fn debit_pool(&mut self, amount: u64) -> (r: Result<(), SentryError>)
        requires
            old(self).wf(),
        ensures
            final(self).wf(),
            final(self).accounts@ == old(self).accounts@,
            forall|o: u64| #[trigger] final(self).balance_of(o) == old(self).balance_of(o),
            match r {
                Ok(()) => {
                    &&& old(self).debit_pool_error(amount) is None
                    &&& final(self).pool == old(self).pool - amount
                },
                Err(e) => {
                    &&& old(self).debit_pool_error(amount) == Some(e)
                    &&& *final(self) == *old(self)
                },
            },
    {
        if self.pool < amount {
            return Err(SentryError::InsufficientFunds);
        }
        self.pool = self.pool - amount;
        Ok(())
    }

    /// Moves `amount` into the recipient's spendable balance, opening an
    /// account if none exists. Fails with `Overflow` when the balance cannot
    /// hold it.
    pub fn credit(&mut self, recipient: u64, amount: u64) -> (r: Result<(), SentryError>)
        requires
            old(self).wf(),
        ensures
            final(self).wf(),
            final(self).pool == old(self).pool,
            match r {
                Ok(()) => {
                    &&& old(self).credit_error(recipient, amount) is None
                    &&& final(self).balance_of(recipient) == old(self).balance_of(recipient)
                        + amount
                    &&& forall|o: u64|
                        o != recipient ==> #[trigger] final(self).balance_of(o) == old(
                            self,
                        ).balance_of(o)
                },
                Err(e) => {
                    &&& old(self).credit_error(recipient, amount) == Some(e)
                    &&& *final(self) == *old(self)
                },
            },
    {
        match self.find_account(recipient) {
            Some(i) => {
                proof {
                    self.lemma_account_at(i as int);
                }
                if amount > u64::MAX - self.accounts[i].balance {
                    return Err(SentryError::Overflow);
                }
                let ghost before = *self;
                let updated = LedgerAccount {
                    owner: recipient,
                    balance: self.accounts[i].balance + amount,
                };
                self.accounts[i] = updated;
                proof {
                    before.lemma_balance_frame(*self, i as int);
                }
                Ok(())
            },
            None => {
                let ghost before = *self;
                let entry = LedgerAccount { owner: recipient, balance: amount };
                self.accounts.push(entry);
                proof {
                    before.lemma_balance_push(*self, entry);
                }
                Ok(())
            },
        }
    }
}

} // verus!
