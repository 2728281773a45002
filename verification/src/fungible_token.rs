use vstd::prelude::*;

use crate::amount::AccountId;
use crate::amount::Amount;
use crate::Fungible;

verus! {

/// The balance recorded for `owner` in an association list: the value of the
/// first entry whose key is `owner`, or zero if there is none.
spec fn lookup<A, B: Amount>(entries: Seq<(A, B)>, owner: A) -> int
    decreases entries.len(),
{
    if entries.len() == 0 {
        0
    } else if entries[0].0 == owner {
        entries[0].1.as_int()
    } else {
        lookup(entries.skip(1), owner)
    }
}

/// A ledger generic over the address and balance types, backed by an
/// association list keyed on the first matching entry.
pub struct FungibleToken<Address, Balance> {
    balances: Vec<(Address, Balance)>,
}

impl<Address: AccountId, Balance: Amount> FungibleToken<Address, Balance> {
    /// Creates an empty ledger: every address holds balance zero.
    pub fn new() -> (t: FungibleToken<Address, Balance>)
        ensures
            forall|x: Address| t.balance(x) == 0,
    {
        FungibleToken { balances: Vec::new() }
    }
}

impl<Address: AccountId, Balance: Amount> Fungible for FungibleToken<Address, Balance> {
    type Address = Address;

    type Balance = Balance;

    closed spec fn balance(&self, owner: Address) -> int {
        lookup(self.balances@, owner)
    }

    fn balance_of(&self, owner: &Address) -> (r: Balance) {
        let mut i: usize = 0;
        while i < self.balances.len()
            invariant
                i <= self.balances.len(),
                forall|j: int| 0 <= j < i ==> self.balances@[j].0 != *owner,
            decreases self.balances.len() - i,
        {
            if self.balances[i].0.addr_eq(owner) {
                proof {
                    lemma_lookup_found(self.balances@, *owner, i as int);
                }
                return self.balances[i].1;
            }
            i += 1;
        }
        proof {
            lemma_lookup_absent(self.balances@, *owner);
        }
        Balance::zero()
    }

    fn set_balance(&mut self, owner: &Address, amount: Balance) {
        let mut i: usize = 0;
        while i < self.balances.len()
            invariant
                i <= self.balances.len(),
                self.balances@ == old(self).balances@,
                forall|j: int| 0 <= j < i ==> self.balances@[j].0 != *owner,
            decreases self.balances.len() - i,
        {
            if self.balances[i].0.addr_eq(owner) {
                proof {
                    lemma_lookup_update(self.balances@, *owner, amount, i as int);
                }
                self.balances.set(i, (*owner, amount));
                return;
            }
            i += 1;
        }
        proof {
            lemma_lookup_push(self.balances@, *owner, amount);
        }
        self.balances.push((*owner, amount));
    }
}

/// If the first entry for `owner` stands at index `i`, the recorded balance
/// is that entry's value.
proof fn lemma_lookup_found<A, B: Amount>(entries: Seq<(A, B)>, owner: A, i: int)
    requires
        0 <= i < entries.len(),
        entries[i].0 == owner,
        forall|j: int| 0 <= j < i ==> entries[j].0 != owner,
    ensures
        lookup(entries, owner) == entries[i].1.as_int(),
    decreases i,
{
    if i > 0 {
        let tail = entries.skip(1);
        assert(forall|j: int| 0 <= j < i - 1 ==> tail[j] == entries[j + 1]);
        lemma_lookup_found(tail, owner, i - 1);
    }
}

/// If no entry carries `owner` as its key, the recorded balance is zero.
proof fn lemma_lookup_absent<A, B: Amount>(entries: Seq<(A, B)>, owner: A)
    requires
        forall|j: int| 0 <= j < entries.len() ==> entries[j].0 != owner,
    ensures
        lookup(entries, owner) == 0,
    decreases entries.len(),
{
    if entries.len() > 0 {
        let tail = entries.skip(1);
        assert(forall|j: int| 0 <= j < tail.len() ==> tail[j] == entries[j + 1]);
        lemma_lookup_absent(tail, owner);
    }
}

/// Overwriting the first entry for `owner` records the new value for `owner`
/// and leaves every other key's recorded balance unchanged.
proof fn lemma_lookup_update<A, B: Amount>(entries: Seq<(A, B)>, owner: A, amount: B, i: int)
    requires
        0 <= i < entries.len(),
        entries[i].0 == owner,
        forall|j: int| 0 <= j < i ==> entries[j].0 != owner,
    ensures
        lookup(entries.update(i, (owner, amount)), owner) == amount.as_int(),
        forall|x: A|
            x != owner ==> lookup(entries.update(i, (owner, amount)), x) == lookup(entries, x),
    decreases i,
{
    let updated = entries.update(i, (owner, amount));
    if i == 0 {
        assert(updated.skip(1) =~= entries.skip(1));
        assert forall|x: A| x != owner implies lookup(updated, x) == lookup(entries, x) by {
            assert(lookup(updated, x) == lookup(updated.skip(1), x));
            assert(lookup(entries, x) == lookup(entries.skip(1), x));
        }
    } else {
        let tail = entries.skip(1);
        assert(forall|j: int| 0 <= j < i - 1 ==> tail[j] == entries[j + 1]);
        lemma_lookup_update(tail, owner, amount, i - 1);
        assert(updated.skip(1) =~= tail.update(i - 1, (owner, amount)));
        assert(updated[0] == entries[0]);
        assert(lookup(updated, owner) == lookup(updated.skip(1), owner));
        assert forall|x: A| x != owner implies lookup(updated, x) == lookup(entries, x) by {
            if entries[0].0 != x {
                assert(lookup(updated, x) == lookup(updated.skip(1), x));
                assert(lookup(entries, x) == lookup(tail, x));
            }
        }
    }
}

/// Appending an entry for a key with no prior entry records the new value
/// for that key and leaves every other key's recorded balance unchanged.
proof fn lemma_lookup_push<A, B: Amount>(entries: Seq<(A, B)>, owner: A, amount: B)
    requires
        forall|j: int| 0 <= j < entries.len() ==> entries[j].0 != owner,
    ensures
        lookup(entries.push((owner, amount)), owner) == amount.as_int(),
        forall|x: A|
            x != owner ==> lookup(entries.push((owner, amount)), x) == lookup(entries, x),
    decreases entries.len(),
{
    let pushed = entries.push((owner, amount));
    if entries.len() == 0 {
        assert(pushed[0] == (owner, amount));
        assert(pushed.skip(1) =~= Seq::<(A, B)>::empty());
        assert forall|x: A| x != owner implies lookup(pushed, x) == lookup(entries, x) by {
            assert(lookup(pushed, x) == lookup(pushed.skip(1), x));
        }
    } else {
        let tail = entries.skip(1);
        assert(forall|j: int| 0 <= j < tail.len() ==> tail[j] == entries[j + 1]);
        lemma_lookup_push(tail, owner, amount);
        assert(pushed.skip(1) =~= tail.push((owner, amount)));
        assert(pushed[0] == entries[0]);
        assert(lookup(pushed, owner) == lookup(pushed.skip(1), owner));
        assert forall|x: A| x != owner implies lookup(pushed, x) == lookup(entries, x) by {
            if entries[0].0 != x {
                assert(lookup(pushed, x) == lookup(pushed.skip(1), x));
                assert(lookup(entries, x) == lookup(tail, x));
            }
        }
    }
}

} // verus!
