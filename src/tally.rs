use vstd::prelude::*;
use crate::types::{entry_for, DepositData, DepositId, YieldFarmId};

verus! {

/// What deposit `k` brings to yield farm `id`: its entry's valued shares, or its shares.
pub open spec fn stake_of(
    deps: Map<DepositId, DepositData>,
    k: DepositId,
    id: YieldFarmId,
    valued: bool,
) -> int {
    if valued {
        entry_for(deps[k].entries(), id).valued_shares as int
    } else {
        deps[k].shares as int
    }
}

/// The stakes that the deposits of `s` bring to yield farm `id`, added up.
pub open spec fn stake_sum(
    deps: Map<DepositId, DepositData>,
    s: Set<DepositId>,
    id: YieldFarmId,
    valued: bool,
) -> int
    decreases s.len(),
    when s.finite()
{
    if s.len() == 0 {
        0
    } else {
        let k = s.choose();
        stake_of(deps, k, id, valued) + stake_sum(deps, s.remove(k), id, valued)
    }
}

/// Any member can be taken out of the sum first.
pub proof fn lemma_stake_sum_remove(
    deps: Map<DepositId, DepositData>,
    s: Set<DepositId>,
    id: YieldFarmId,
    valued: bool,
    c: DepositId,
)
    requires
        s.finite(),
        s.contains(c),
    ensures
        stake_sum(deps, s, id, valued) == stake_of(deps, c, id, valued) + stake_sum(
            deps,
            s.remove(c),
            id,
            valued,
        ),
    decreases s.len(),
{
    let c0 = s.choose();
    if c0 != c {
        lemma_stake_sum_remove(deps, s.remove(c0), id, valued, c);
        lemma_stake_sum_remove(deps, s.remove(c), id, valued, c0);
        assert(s.remove(c0).remove(c) =~= s.remove(c).remove(c0));
    }
}

/// Adding a deposit adds its stake.
pub proof fn lemma_stake_sum_insert(
    deps: Map<DepositId, DepositData>,
    s: Set<DepositId>,
    id: YieldFarmId,
    valued: bool,
    k: DepositId,
)
    requires
        s.finite(),
        !s.contains(k),
    ensures
        stake_sum(deps, s.insert(k), id, valued) == stake_of(deps, k, id, valued) + stake_sum(
            deps,
            s,
            id,
            valued,
        ),
{
    lemma_stake_sum_remove(deps, s.insert(k), id, valued, k);
    assert(s.insert(k).remove(k) =~= s);
}

/// The sum reads only the stakes of the members.
pub proof fn lemma_stake_sum_same(
    deps: Map<DepositId, DepositData>,
    deps2: Map<DepositId, DepositData>,
    s: Set<DepositId>,
    id: YieldFarmId,
    valued: bool,
)
    requires
        s.finite(),
        forall|k: DepositId| #[trigger]
            s.contains(k) ==> stake_of(deps, k, id, valued) == stake_of(deps2, k, id, valued),
    ensures
        stake_sum(deps, s, id, valued) == stake_sum(deps2, s, id, valued),
    decreases s.len(),
{
    if s.len() != 0 {
        let k = s.choose();
        lemma_stake_sum_same(deps, deps2, s.remove(k), id, valued);
    }
}

/// Nothing adds up to nothing.
pub proof fn lemma_stake_sum_empty(
    deps: Map<DepositId, DepositData>,
    s: Set<DepositId>,
    id: YieldFarmId,
    valued: bool,
)
    requires
        s.finite(),
        s.len() == 0,
    ensures
        stake_sum(deps, s, id, valued) == 0,
{
}

} // verus!
