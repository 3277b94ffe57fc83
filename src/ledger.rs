use vstd::prelude::*;
use std::collections::HashMap;
use crate::types::{AccountId, AssetId, Balance};

verus! {

broadcast use vstd::std_specs::hash::group_hash_axioms;

/// The key of `(asset, who)`: the asset in the high bits, the account in the low 64.
pub open spec fn ledger_key(asset: AssetId, who: AccountId) -> u128 {
    (asset as int * 0x1_0000_0000_0000_0000 + who as int) as u128
}

pub proof fn lemma_ledger_key_injective(a1: AssetId, w1: AccountId, a2: AssetId, w2: AccountId)
    requires
        ledger_key(a1, w1) == ledger_key(a2, w2),
    ensures
        a1 == a2 && w1 == w2,
{
    let m: int = 0x1_0000_0000_0000_0000;
    let k1: int = a1 as int * m + w1 as int;
    let k2: int = a2 as int * m + w2 as int;
    assert(k1 == k2);
    assert(a1 == a2) by (nonlinear_arith)
        requires
            k1 == a1 as int * m + w1 as int,
            k2 == a2 as int * m + w2 as int,
            k1 == k2,
            m == 0x1_0000_0000_0000_0000,
            0 <= w1 < m,
            0 <= w2 < m,
    ;
}

/// The asset of a ledger key.
pub open spec fn key_asset(k: u128) -> int {
    k as int / 0x1_0000_0000_0000_0000
}

pub proof fn lemma_key_asset(asset: AssetId, who: AccountId)
    ensures
        key_asset(ledger_key(asset, who)) == asset,
{
    let m: int = 0x1_0000_0000_0000_0000;
    assert((asset as int * m + who as int) / m == asset) by (nonlinear_arith)
        requires
            m == 0x1_0000_0000_0000_0000,
            0 <= who < m,
            0 <= asset,
    ;
    assert(asset as int * m + who as int <= u128::MAX) by (nonlinear_arith)
        requires
            m == 0x1_0000_0000_0000_0000,
            0 <= who < m,
            0 <= asset <= u32::MAX,
    ;
}

/// What key `k` of `m` holds of `asset`.
pub open spec fn held(m: Map<u128, Balance>, k: u128, asset: AssetId) -> int {
    if m.contains_key(k) && key_asset(k) == asset {
        m[k] as int
    } else {
        0
    }
}

/// What the keys of `keys` hold of `asset`, added up.
pub open spec fn held_sum(m: Map<u128, Balance>, keys: Set<u128>, asset: AssetId) -> int
    decreases keys.len(),
    when keys.finite()
{
    if keys.len() == 0 {
        0
    } else {
        let k = keys.choose();
        held(m, k, asset) + held_sum(m, keys.remove(k), asset)
    }
}

proof fn lemma_held_sum_remove(m: Map<u128, Balance>, keys: Set<u128>, asset: AssetId, c: u128)
    requires
        keys.finite(),
        keys.contains(c),
    ensures
        held_sum(m, keys, asset) == held(m, c, asset) + held_sum(m, keys.remove(c), asset),
    decreases keys.len(),
{
    let c0 = keys.choose();
    if c0 != c {
        lemma_held_sum_remove(m, keys.remove(c0), asset, c);
        lemma_held_sum_remove(m, keys.remove(c), asset, c0);
        assert(keys.remove(c0).remove(c) =~= keys.remove(c).remove(c0));
    }
}

proof fn lemma_held_sum_same(
    m: Map<u128, Balance>,
    m2: Map<u128, Balance>,
    keys: Set<u128>,
    asset: AssetId,
)
    requires
        keys.finite(),
        forall|k: u128| #[trigger] keys.contains(k) ==> held(m, k, asset) == held(m2, k, asset),
    ensures
        held_sum(m, keys, asset) == held_sum(m2, keys, asset),
    decreases keys.len(),
{
    if keys.len() != 0 {
        let k = keys.choose();
        lemma_held_sum_same(m, m2, keys.remove(k), asset);
    }
}

/// Storing `v` under `k` changes what the map holds of `asset` by what `k` held and now holds.
proof fn lemma_held_sum_insert(m: Map<u128, Balance>, k: u128, v: Balance, asset: AssetId)
    requires
        m.dom().finite(),
    ensures
        held_sum(m.insert(k, v), m.insert(k, v).dom(), asset) + held(m, k, asset) == held_sum(
            m,
            m.dom(),
            asset,
        ) + held(m.insert(k, v), k, asset),
{
    let m1 = m.insert(k, v);
    let rest = m.dom().remove(k);
    assert(m1.dom().remove(k) =~= rest);
    lemma_held_sum_remove(m1, m1.dom(), asset, k);
    if m.dom().contains(k) {
        lemma_held_sum_remove(m, m.dom(), asset, k);
    } else {
        assert(rest =~= m.dom());
    }
    assert forall|j: u128| #[trigger] rest.contains(j) implies held(m, j, asset) == held(
        m1,
        j,
        asset,
    ) by {}
    lemma_held_sum_same(m, m1, rest, asset);
}

/// Balances of every asset on every account; an account never written holds nothing.
pub struct Ledger {
    balances: HashMap<u128, Balance>,
}

impl Ledger {
    pub closed spec fn balance(&self, asset: AssetId, who: AccountId) -> nat {
        let k = ledger_key(asset, who);
        if self.balances@.contains_key(k) {
            self.balances@[k] as nat
        } else {
            0
        }
    }

    /// The total of `asset` over all accounts.
    pub closed spec fn supply(&self, asset: AssetId) -> int {
        held_sum(self.balances@, self.balances@.dom(), asset)
    }

    /// The same balance on every account.
    pub open spec fn same_balances(&self, o: &Ledger) -> bool {
        forall|a: AssetId, w: AccountId| #[trigger] self.balance(a, w) == o.balance(a, w)
    }

    /// `amount` of `asset` went from `from` to `to`, and nothing else changed.
    pub open spec fn moved(
        &self,
        before: &Ledger,
        asset: AssetId,
        from: AccountId,
        to: AccountId,
        amount: nat,
    ) -> bool {
        forall|a: AssetId, w: AccountId| #[trigger]
            self.balance(a, w) == if a == asset && w == from && w == to {
                before.balance(a, w)
            } else if a == asset && w == from {
                (before.balance(a, w) - amount) as nat
            } else if a == asset && w == to {
                (before.balance(a, w) + amount) as nat
            } else {
                before.balance(a, w)
            }
    }

    /// Whether `transfer` of these arguments succeeds.
    pub open spec fn can_transfer(
        &self,
        asset: AssetId,
        from: AccountId,
        to: AccountId,
        amount: Balance,
    ) -> bool {
        &&& self.balance(asset, from) >= amount
        &&& (from == to || self.balance(asset, to) + amount <= u128::MAX)
    }

    /// Whether a transfer of `a1` from `f1` to `t1` and then one of `a2` from `f2` to `t2` both
    /// succeed.
    pub open spec fn can_transfer_twice(
        &self,
        asset: AssetId,
        f1: AccountId,
        t1: AccountId,
        a1: Balance,
        f2: AccountId,
        t2: AccountId,
        a2: Balance,
    ) -> bool {
        &&& self.can_transfer(asset, f1, t1, a1)
        &&& forall|mid: Ledger| #[trigger]
            mid.moved(self, asset, f1, t1, a1 as nat) ==> mid.can_transfer(asset, f2, t2, a2)
    }

    pub proof fn lemma_balance_bounded(&self, asset: AssetId, who: AccountId)
        ensures
            self.balance(asset, who) <= u128::MAX,
    {
    }

    /// A transfer and its reverse leave every balance as it was.
    pub proof fn lemma_moved_back(
        a: &Ledger,
        b: &Ledger,
        c: &Ledger,
        asset: AssetId,
        from: AccountId,
        to: AccountId,
        amount: nat,
    )
        requires
            b.moved(a, asset, from, to, amount),
            c.moved(b, asset, to, from, amount),
            a.balance(asset, from) >= amount,
        ensures
            c.same_balances(a),
    {
        assert forall|x: AssetId, w: AccountId| #[trigger] c.balance(x, w) == a.balance(x, w) by {}
    }

    pub fn new() -> (r: Self)
        ensures
            forall|a: AssetId, w: AccountId| #[trigger] r.balance(a, w) == 0,
    {
        Ledger { balances: HashMap::new() }
    }

    fn key(asset: AssetId, who: AccountId) -> (r: u128)
        ensures
            r == ledger_key(asset, who),
    {
        assert((asset as int) * 0x1_0000_0000_0000_0000 + who as int <= u128::MAX) by (nonlinear_arith)
            requires
                asset <= u32::MAX,
                who <= u64::MAX,
        ;
        (asset as u128) * 0x1_0000_0000_0000_0000 + (who as u128)
    }

    pub fn free_balance(&self, asset: AssetId, who: AccountId) -> (r: Balance)
        ensures
            r == self.balance(asset, who),
    {
        match self.balances.get(&Self::key(asset, who)) {
            Some(b) => *b,
            None => 0,
        }
    }

    fn set(&mut self, asset: AssetId, who: AccountId, value: Balance)
        ensures
            forall|a: AssetId, w: AccountId| #[trigger]
                final(self).balance(a, w) == if a == asset && w == who {
                    value as nat
                } else {
                    old(self).balance(a, w)
                },
            forall|a: AssetId| #[trigger]
                final(self).supply(a) == old(self).supply(a) + if a == asset {
                    value - old(self).balance(asset, who)
                } else {
                    0
                },
    {
        let k = Self::key(asset, who);
        self.balances.insert(k, value);
        proof {
            lemma_key_asset(asset, who);
            assert forall|a: AssetId| #[trigger]
                self.supply(a) == old(self).supply(a) + if a == asset {
                    value - old(self).balance(asset, who)
                } else {
                    0
                } by {
                lemma_held_sum_insert(old(self).balances@, k, value, a);
            }
            assert forall|a: AssetId, w: AccountId| #[trigger]
                self.balance(a, w) == if a == asset && w == who {
                    value as nat
                } else {
                    old(self).balance(a, w)
                } by {
                if ledger_key(a, w) == k {
                    lemma_ledger_key_injective(a, w, asset, who);
                }
            }
        }
    }

    /// Credits `amount` of `asset` to `who` from outside the ledger.
    pub fn mint(&mut self, asset: AssetId, who: AccountId, amount: Balance) -> (r: Result<(), ()>)
        ensures
            r is Ok <==> old(self).balance(asset, who) + amount <= u128::MAX,
            r is Err ==> final(self).same_balances(old(self)),
            r is Ok ==> forall|a: AssetId, w: AccountId| #[trigger]
                final(self).balance(a, w) == if a == asset && w == who {
                    old(self).balance(a, w) + amount as nat
                } else {
                    old(self).balance(a, w)
                },
            r is Ok ==> forall|a: AssetId| #[trigger]
                final(self).supply(a) == old(self).supply(a) + if a == asset {
                    amount as int
                } else {
                    0
                },
            r is Err ==> forall|a: AssetId| #[trigger] final(self).supply(a) == old(self).supply(a),
    {
        let b = self.free_balance(asset, who);
        match b.checked_add(amount) {
            Some(v) => {
                self.set(asset, who, v);
                Ok(())
            },
            None => Err(()),
        }
    }

    /// Moves `amount` of `asset` from `from` to `to`: all of it, or nothing when `from` holds
    /// too little or `to` would overflow.
    pub fn transfer(&mut self, asset: AssetId, from: AccountId, to: AccountId, amount: Balance) -> (r:
        Result<(), TransferError>)
        ensures
            r is Ok <==> old(self).can_transfer(asset, from, to, amount),
            r is Ok ==> final(self).moved(old(self), asset, from, to, amount as nat),
            r is Err ==> final(self).same_balances(old(self)),
            forall|a: AssetId| #[trigger] final(self).supply(a) == old(self).supply(a),
            r is Err && old(self).balance(asset, from) < amount ==> r == Err::<(), _>(
                TransferError::InsufficientBalance,
            ),
            r is Err && old(self).balance(asset, from) >= amount ==> r == Err::<(), _>(
                TransferError::Overflow,
            ),
    {
        let fb = self.free_balance(asset, from);
        if fb < amount {
            return Err(TransferError::InsufficientBalance);
        }
        if from == to {
            return Ok(());
        }
        let tb = self.free_balance(asset, to);
        let nt = match tb.checked_add(amount) {
            Some(v) => v,
            None => return Err(TransferError::Overflow),
        };
        self.set(asset, from, fb - amount);
        self.set(asset, to, nt);
        Ok(())
    }
}

#[derive(Clone, Copy, Debug, PartialEq, Eq, Structural)]
pub enum TransferError {
    InsufficientBalance,
    Overflow,
}

} // verus!
