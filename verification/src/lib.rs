//! A minimal in-memory ledger: a mapping from account identifiers to
//! non-negative balances, with two primitive accessors (`balance_of`,
//! `set_balance`) and one value-conserving operation (`transfer`) built on
//! top of them. A transfer either fully succeeds — debiting the sender and
//! crediting the recipient by the same amount — or fully fails, leaving
//! every balance exactly as it was.

use vstd::prelude::*;

mod amount;
mod coin;
mod fungible_token;

pub use amount::AccountId;
pub use amount::Amount;
pub use coin::Coin;
pub use fungible_token::FungibleToken;

verus! {

/// Why a transfer was rejected. A rejected transfer mutates nothing.
#[derive(Clone, Copy, Debug, PartialEq, Eq, Structural)]
pub enum TransferError {
    /// The sender's balance is strictly less than the requested amount.
    InsufficientBalance,
    /// Crediting the recipient would exceed the balance type's range.
    BalanceOverflow,
}

impl TransferError {
    /// A short human-readable description of the error.
    pub fn message(&self) -> (s: &'static str)
        ensures
            *self is InsufficientBalance ==> s@ == "Insufficient balance"@,
            *self is BalanceOverflow ==> s@ == "Balance overflow"@,
    {
        match self {
            TransferError::InsufficientBalance => "Insufficient balance",
            TransferError::BalanceOverflow => "Balance overflow",
        }
    }
}

/// The behavior of a fungible-token ledger.
///
/// A ledger is abstracted by the spec function `balance`, a total mapping
/// from identifiers to mathematical integers: an account that was never set
/// has balance zero. The two primitive accessors are implemented per ledger;
/// `transfer` is provided once, here, in terms of them, so the all-or-nothing
/// transfer contract is established in a single place for every implementation.
pub trait Fungible: Sized {
    /// An address in the system.
    type Address: AccountId;

    /// A balance held by an address.
    type Balance: Amount;

    /// The balance of `owner`, as a mathematical integer; zero if `owner`
    /// was never set.
    spec fn balance(&self, owner: Self::Address) -> int;

    /// Retrieves the balance of tokens owned by the specified address.
    fn balance_of(&self, owner: &Self::Address) -> (r: Self::Balance)
        ensures
            r.as_int() == self.balance(*owner),
    ;

    /// Sets the balance of tokens for the specified address, creating the
    /// account if absent and overwriting any prior value; no other account
    /// is touched.
    fn set_balance(&mut self, owner: &Self::Address, amount: Self::Balance)
        ensures
            final(self).balance(*owner) == amount.as_int(),
            forall|x: Self::Address|
                x != *owner ==> final(self).balance(x) == old(self).balance(x),
    ;

    /// Transfers `amount` from `from` to `to`.
    ///
    /// Succeeds exactly when the sender's balance covers the amount and the
    /// credited balance fits the balance type (a self-transfer cannot
    /// overflow). On success with distinct endpoints, the sender is debited
    /// and the recipient credited by exactly `amount`, their sum is
    /// conserved, and no other account changes; a self-transfer changes
    /// nothing. On failure, every balance is exactly as it was before the
    /// call.
    fn transfer(&mut self, from: &Self::Address, to: &Self::Address, amount: Self::Balance) -> (r:
        Result<(), TransferError>)
        ensures
            r is Ok <==> old(self).balance(*from) >= amount.as_int() && (*from == *to || old(
                self,
            ).balance(*to) + amount.as_int() <= <Self::Balance as Amount>::max_int()),
            r matches Err(TransferError::InsufficientBalance) <==> old(self).balance(*from)
                < amount.as_int(),
            r matches Err(TransferError::BalanceOverflow) <==> old(self).balance(*from)
                >= amount.as_int() && *from != *to && old(self).balance(*to) + amount.as_int()
                > <Self::Balance as Amount>::max_int(),
            r is Err ==> forall|x: Self::Address| final(self).balance(x) == old(self).balance(x),
            r is Ok && *from == *to ==> forall|x: Self::Address|
                final(self).balance(x) == old(self).balance(x),
            r is Ok && *from != *to ==> {
                &&& final(self).balance(*from) == old(self).balance(*from) - amount.as_int()
                &&& final(self).balance(*to) == old(self).balance(*to) + amount.as_int()
                &&& final(self).balance(*from) + final(self).balance(*to) == old(self).balance(
                    *from,
                ) + old(self).balance(*to)
                &&& forall|x: Self::Address|
                    x != *from && x != *to ==> final(self).balance(x) == old(self).balance(x)
            },
    {
        let from_balance = self.balance_of(from);
        if from_balance.lt(&amount) {
            return Err(TransferError::InsufficientBalance);
        }
        proof {
            from_balance.lemma_in_range();
        }
        let debited = from_balance.sub(&amount);
        self.set_balance(from, debited);
        let to_balance = self.balance_of(to);
        match to_balance.checked_add(&amount) {
            Some(credited) => {
                self.set_balance(to, credited);
                Ok(())
            },
            None => {
                self.set_balance(from, from_balance);
                Err(TransferError::BalanceOverflow)
            },
        }
    }
}

} // verus!
