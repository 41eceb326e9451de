//! What the ledger sees of the world around it: the native balance of a
//! party, and an account of tokens with the delegation on it.

use vstd::prelude::*;
use crate::address::{Address, Identity};

verus! {

/// A party and its native balance.
pub struct Wallet {
    pub identity: Identity,
    pub balance: u64,
}

/// A wallet in contracts.
pub struct WalletView {
    pub identity: Seq<u8>,
    pub balance: u64,
}

impl View for Wallet {
    type V = WalletView;

    open spec fn view(&self) -> WalletView {
        WalletView { identity: self.identity@, balance: self.balance }
    }
}

/// An account of tokens of one mint. Its owner may name a delegate, who may
/// then move up to the delegated amount out of the account.
pub struct TokenAccount {
    pub address: Address,
    pub owner: Address,
    pub mint: Address,
    pub amount: u64,
    pub delegate: Option<Address>,
    pub delegated_amount: u64,
}

/// A token account in contracts.
pub struct TokenAccountView {
    pub address: Seq<u8>,
    pub owner: Seq<u8>,
    pub mint: Seq<u8>,
    pub amount: u64,
    pub delegate: Option<Seq<u8>>,
    pub delegated_amount: u64,
}

impl View for TokenAccount {
    type V = TokenAccountView;

    open spec fn view(&self) -> TokenAccountView {
        TokenAccountView {
            address: self.address@,
            owner: self.owner@,
            mint: self.mint@,
            amount: self.amount,
            delegate: match self.delegate {
                Some(d) => Some(d@),
                None => None,
            },
            delegated_amount: self.delegated_amount,
        }
    }
}

impl TokenAccountView {
    /// Whether `delegate` may move `amount` out of the account now: it is the
    /// delegate, and neither the delegation nor the balance is below `amount`.
    pub open spec fn allows(self, delegate: Seq<u8>, amount: u64) -> bool {
        &&& self.delegate == Some(delegate)
        &&& self.delegated_amount >= amount
        &&& self.amount >= amount
    }

    /// The account once its owner has let `delegate` move up to `amount`.
    pub open spec fn approved(self, delegate: Seq<u8>, amount: u64) -> TokenAccountView {
        TokenAccountView { delegate: Some(delegate), delegated_amount: amount, ..self }
    }

    /// The account once its delegate has moved `amount` out of it.
    pub open spec fn drawn(self, amount: u64) -> TokenAccountView {
        TokenAccountView {
            amount: (self.amount - amount) as u64,
            delegated_amount: (self.delegated_amount - amount) as u64,
            ..self
        }
    }

    /// The account once `amount` has been moved into it.
    pub open spec fn credited(self, amount: u64) -> TokenAccountView {
        TokenAccountView { amount: (self.amount + amount) as u64, ..self }
    }
}

impl TokenAccount {
    /// Whether `delegate` may move `amount` out of the account now.
    pub fn allows(&self, delegate: &Address, amount: u64) -> (r: bool)
        ensures
            r == self@.allows(delegate@, amount),
    {
        match &self.delegate {
            Some(d) => d.same(delegate) && self.delegated_amount >= amount && self.amount
                >= amount,
            None => false,
        }
    }

    /// Lets `delegate` move up to `amount` out of the account, in place of
    /// any delegation made before.
    pub fn approve(&mut self, delegate: Address, amount: u64)
        ensures
            final(self)@ == old(self)@.approved(delegate@, amount),
    {
        self.delegate = Some(delegate);
        self.delegated_amount = amount;
    }

    /// Moves `amount` out of the account on its delegate's word.
    pub fn draw(&mut self, amount: u64)
        requires
            old(self).amount >= amount,
            old(self).delegated_amount >= amount,
        ensures
            final(self)@ == old(self)@.drawn(amount),
    {
        self.amount = self.amount - amount;
        self.delegated_amount = self.delegated_amount - amount;
    }

    /// Moves `amount` into the account.
    pub fn credit(&mut self, amount: u64)
        requires
            old(self).amount + amount <= u64::MAX,
        ensures
            final(self)@ == old(self)@.credited(amount),
    {
        self.amount = self.amount + amount;
    }
}

} // verus!
