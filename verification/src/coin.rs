use vstd::prelude::*;

use std::collections::HashMap;

use crate::amount::Amount;
use crate::Fungible;

verus! {

broadcast use vstd::std_specs::hash::group_hash_axioms;

/// A ledger with 32-bit addresses and 32-bit balances, backed by a hash map.
pub struct Coin {
    balances: HashMap<u32, u32>,
}

impl Coin {
    /// Creates an empty ledger: every address holds balance zero.
    pub fn new() -> (c: Coin)
        ensures
            forall|x: u32| c.balance(x) == 0,
    {
        Coin { balances: HashMap::new() }
    }
}

impl Fungible for Coin {
    type Address = u32;

    type Balance = u32;

    closed spec fn balance(&self, owner: u32) -> int {
        if self.balances@.contains_key(owner) {
            self.balances@[owner] as int
        } else {
            0
        }
    }

    fn balance_of(&self, owner: &u32) -> (r: u32) {
        match self.balances.get(owner) {
            Some(b) => {
                proof {
                    assert(self.balances@.contains_key(*owner) && self.balances@[*owner] == *b);
                    assert(self.balance(*owner) == *b as int);
                    assert((*b).as_int() == *b as int);
                }
                *b
            },
            None => {
                proof {
                    assert(!self.balances@.contains_key(*owner));
                    assert(self.balance(*owner) == 0);
                }
                0
            },
        }
    }

    fn set_balance(&mut self, owner: &u32, amount: u32) {
        self.balances.insert(*owner, amount);
        proof {
            assert(self.balances@ == old(self).balances@.insert(*owner, amount));
            assert(self.balance(*owner) == amount as int);
            assert(amount.as_int() == amount as int);
            assert forall|x: u32| x != *owner implies self.balance(x) == old(self).balance(x) by {
                assert(self.balances@.contains_key(x) == old(self).balances@.contains_key(x));
            }
        }
    }
}

} // verus!
