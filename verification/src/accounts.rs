//! A verified account ledger.
//!
//! The games escrow and release funds through an external transfer
//! adapter: a token contract or a user-balance contract of the host
//! chain.  `Accounts` is the model of that adapter's book: a map from
//! account identifiers to non-negative balances, with a `transfer`
//! operation that fails — leaving every balance untouched — when the
//! source account cannot cover the amount.

use vstd::prelude::*;

use crate::shared::Error;
use crate::table::Table;

verus! {

/// The balance book of the funds-transfer adapter.
pub struct Accounts {
    balances: Table<i128>,
}

impl Accounts {
    /// The balance of `user`; accounts never touched hold zero.
    pub closed spec fn balance(self, user: u64) -> int {
        match self.balances.spec_get(user as u128) {
            Some(b) => b as int,
            None => 0,
        }
    }

    /// Well-formed: no account is listed twice and no balance is
    /// negative.
    pub closed spec fn wf(self) -> bool {
        &&& self.balances.wf()
        &&& forall|k: u128| #[trigger] self.balances.spec_get(k) matches Some(b) ==> b >= 0
    }

    /// The relation between the books before and after a successful
    /// transfer of `amount` from `from` to `to`.
    pub open spec fn transferred(pre: Accounts, post: Accounts, from: u64, to: u64, amount: i128) -> bool {
        if from == to {
            forall|u: u64| post.balance(u) == pre.balance(u)
        } else {
            &&& post.balance(from) == pre.balance(from) - amount
            &&& post.balance(to) == pre.balance(to) + amount
            &&& forall|u: u64| u != from && u != to ==> post.balance(u) == pre.balance(u)
        }
    }

    /// Every balance of a well-formed book is a non-negative `i128`.
    pub proof fn lemma_balance_bounds(self, user: u64)
        requires
            self.wf(),
        ensures
            0 <= self.balance(user) <= i128::MAX,
    {
        match self.balances.spec_get(user as u128) {
            Some(b) => {
                assert(b <= i128::MAX);
            },
            None => {},
        }
    }

    /// An empty book: every account holds zero.
    pub fn new() -> (a: Accounts)
        ensures
            a.wf(),
            forall|u: u64| a.balance(u) == 0,
    {
        Accounts { balances: Table::new() }
    }

    /// The balance of `user`.
    pub fn balance_of(&self, user: u64) -> (r: i128)
        requires
            self.wf(),
        ensures
            r == self.balance(user),
    {
        match self.balances.get(user as u128) {
            Some(b) => *b,
            None => 0,
        }
    }

    /// Sets the balance of `user` outright; the model of minting or
    /// depositing from outside the games.
    pub fn set_balance(&mut self, user: u64, amount: i128)
        requires
            old(self).wf(),
            amount >= 0,
        ensures
            final(self).wf(),
            final(self).balance(user) == amount,
            forall|u: u64| u != user ==> final(self).balance(u) == old(self).balance(u),
    {
        self.balances.put(user as u128, amount);
        proof {
            assert forall|u: u64| u != user implies self.balance(u) == old(self).balance(u) by {
                assert(u as u128 != user as u128);
            }
        }
    }

    /// Moves `amount` from `from` to `to`.  Fails with `InvalidAmount`
    /// on a negative amount, with `InsufficientBalance` when `from`
    /// cannot cover it, and with `Overflow` when the destination
    /// balance would no longer fit; a failed transfer changes nothing.
    pub fn transfer(&mut self, from: u64, to: u64, amount: i128) -> (r: Result<(), Error>)
        requires
            old(self).wf(),
        ensures
            final(self).wf(),
            match r {
                Ok(()) => {
                    &&& amount >= 0
                    &&& old(self).balance(from) >= amount
                    &&& Self::transferred(*old(self), *final(self), from, to, amount)
                },
                Err(e) => {
                    &&& *final(self) == *old(self)
                    &&& if amount < 0 {
                        e == Error::InvalidAmount
                    } else if old(self).balance(from) < amount {
                        e == Error::InsufficientBalance
                    } else {
                        e == Error::Overflow && from != to && old(self).balance(to) + amount
                            > i128::MAX
                    }
                },
            },
    {
        if amount < 0 {
            return Err(Error::InvalidAmount);
        }
        let from_balance: i128 = self.balance_of(from);
        if from_balance < amount {
            return Err(Error::InsufficientBalance);
        }
        if from == to {
            return Ok(());
        }
        let to_balance: i128 = self.balance_of(to);
        match to_balance.checked_add(amount) {
            None => Err(Error::Overflow),
            Some(to_updated) => {
                self.balances.put(from as u128, from_balance - amount);
                self.balances.put(to as u128, to_updated);
                proof {
                    assert(from as u128 != to as u128);
                    assert forall|u: u64| u != from && u != to implies self.balance(u) == old(
                        self,
                    ).balance(u) by {
                        assert(u as u128 != from as u128);
                        assert(u as u128 != to as u128);
                    }
                }
                Ok(())
            },
        }
    }
}

} // verus!
