use vstd::prelude::*;
use std::collections::HashMap;
use crate::farm::{
    claim_amounts, claim_amounts_spec, claim_farm, claim_spec, enter_farm, enter_spec, resume_farm,
    resume_spec, stop_farm, stop_spec, sync_global_farm, sync_global_spec, update_multiplier,
    update_multiplier_spec, withdraw_farm, withdraw_spec,
};
use crate::ledger::{Ledger, TransferError};
use crate::math::{initial_loyalty, rewards_at};
use crate::tally::{
    lemma_stake_sum_empty, lemma_stake_sum_insert, lemma_stake_sum_remove, lemma_stake_sum_same,
    stake_of, stake_sum,
};
use crate::types::{
    entry_for, entry_index, has_entry_for, lemma_entry_for_insert, lemma_entry_for_remove,
    lemma_entry_for_update, lemma_entry_index_unique, lemma_has_entry_insert,
    lemma_has_entry_remove, lemma_has_entry_update, AccountId, AmmPoolId, AssetId, Balance,
    BlockNumber, DepositData, DepositId, Error, FarmId, FarmMultiplier, GlobalFarmData, GlobalFarmId,
    GlobalFarmState, LoyaltyCurve, Period, PermillParts, YieldFarmData, YieldFarmEntry, YieldFarmId,
    YieldFarmState, FIXED_ONE, PERMILL_ONE,
};

verus! {

broadcast use vstd::std_specs::hash::group_hash_axioms;

/// The least `min_deposit` a global farm may ask for.
pub const MIN_DEPOSIT: Balance = 10;

/// Farm accounts are `FARM_ACCOUNT_BASE + farm_id`; user accounts lie below it.
pub const FARM_ACCOUNT_BASE: AccountId = 0x8000_0000_0000_0000;

pub open spec fn farm_account(id: FarmId) -> AccountId {
    (FARM_ACCOUNT_BASE + id) as AccountId
}

/// The account that holds the rewards of farm `id`.
pub fn farm_account_id(id: FarmId) -> (r: AccountId)
    ensures
        r == farm_account(id),
{
    FARM_ACCOUNT_BASE + id as u64
}

/// The period that `block` falls in for a farm of `blocks_per_period` blocks.
pub open spec fn period_of(block: BlockNumber, blocks_per_period: BlockNumber) -> Period {
    if blocks_per_period == 0 {
        0
    } else {
        (block / blocks_per_period) as Period
    }
}

/// A yield farm with the pool and the global farm it belongs to.
#[derive(Clone, Copy, Debug, PartialEq, Eq, Structural)]
pub struct YieldFarmSlot {
    pub amm_pool_id: AmmPoolId,
    pub global_farm_id: GlobalFarmId,
    pub farm: YieldFarmData,
}

/// The active yield farm of a pool in a global farm.
#[derive(Clone, Copy, Debug, PartialEq, Eq, Structural)]
pub struct ActiveYieldFarm {
    pub amm_pool_id: AmmPoolId,
    pub global_farm_id: GlobalFarmId,
    pub yield_farm_id: YieldFarmId,
}

pub open spec fn active_pairs_unique(s: Seq<ActiveYieldFarm>) -> bool {
    forall|i: int, j: int|
        0 <= i < s.len() && 0 <= j < s.len() && i != j ==> !(#[trigger] s[i].amm_pool_id
            == #[trigger] s[j].amm_pool_id && s[i].global_farm_id == s[j].global_farm_id)
}

/// The position of the pair in the active index.
pub open spec fn active_index(s: Seq<ActiveYieldFarm>, pool: AmmPoolId, gf: GlobalFarmId) -> int {
    choose|i: int| 0 <= i < s.len() && (#[trigger] s[i]).amm_pool_id == pool && s[i].global_farm_id == gf
}

/// The active yield farm of the pair.
pub open spec fn active_id(s: Seq<ActiveYieldFarm>, pool: AmmPoolId, gf: GlobalFarmId) -> YieldFarmId {
    s[active_index(s, pool, gf)].yield_farm_id
}

pub open spec fn active_in(s: Seq<ActiveYieldFarm>, pool: AmmPoolId, gf: GlobalFarmId) -> bool {
    exists|i: int|
        0 <= i < s.len() && (#[trigger] s[i]).amm_pool_id == pool && s[i].global_farm_id == gf
}

/// A stored global farm: under its own id, an id the sequencer gave out, a valid schedule, and
/// no live yield farm once deleted.
pub open spec fn global_farms_fit(m: Map<GlobalFarmId, GlobalFarmData>, seq: FarmId) -> bool {
    forall|id: GlobalFarmId| #[trigger]
        m.contains_key(id) ==> {
            &&& m[id].id == id
            &&& id <= seq
            &&& m[id].blocks_per_period >= 1
            &&& m[id].yield_per_period <= PERMILL_ONE
            &&& m[id].state == GlobalFarmState::Deleted ==> m[id].yield_farms_count.0 == 0
        }
}

/// A stored yield farm: under its own id, an id the sequencer gave out.
pub open spec fn yield_farms_fit(m: Map<YieldFarmId, YieldFarmSlot>, seq: FarmId) -> bool {
    forall|id: YieldFarmId| #[trigger] m.contains_key(id) ==> m[id].farm.id == id && id <= seq
}

/// A stored deposit: entries sorted and unique, an id the sequencer gave out.
pub open spec fn deposits_fit(m: Map<DepositId, DepositData>, seq: DepositId) -> bool {
    forall|id: DepositId| #[trigger] m.contains_key(id) ==> m[id].wf() && id <= seq
}

/// The deposits that hold an entry in yield farm `id`.
pub open spec fn depositors(m: Map<DepositId, DepositData>, id: YieldFarmId) -> Set<DepositId> {
    Set::new(|k: DepositId| m.contains_key(k) && has_entry_for(m[k].entries(), id))
}

/// Every entry belongs to a stored yield farm, and every stored yield farm's `entries_count` is
/// the number of deposits with an entry in it.
pub open spec fn entries_counted(
    yfs: Map<YieldFarmId, YieldFarmSlot>,
    deps: Map<DepositId, DepositData>,
) -> bool {
    &&& forall|k: DepositId, id: YieldFarmId|
        deps.contains_key(k) && #[trigger] has_entry_for(deps[k].entries(), id)
            ==> yfs.contains_key(id)
    &&& forall|id: YieldFarmId| #[trigger]
        yfs.contains_key(id) ==> yfs[id].farm.entries_count == depositors(deps, id).len()
}

/// Every stored yield farm's `total_shares` and `total_valued_shares` add up the shares and the
/// entries' valued shares of the deposits in it.
pub open spec fn totals_match(
    yfs: Map<YieldFarmId, YieldFarmSlot>,
    deps: Map<DepositId, DepositData>,
) -> bool {
    forall|id: YieldFarmId| #[trigger]
        yfs.contains_key(id) ==> {
            &&& yfs[id].farm.total_shares == stake_sum(deps, depositors(deps, id), id, false)
            &&& yfs[id].farm.total_valued_shares == stake_sum(deps, depositors(deps, id), id, true)
        }
}

/// No entry has been paid in above what its yield farm has accumulated.
pub open spec fn entries_below(
    yfs: Map<YieldFarmId, YieldFarmSlot>,
    deps: Map<DepositId, DepositData>,
) -> bool {
    forall|k: DepositId, i: int|
        deps.contains_key(k) && 0 <= i < deps[k].entries().len() && yfs.contains_key(
            #[trigger] deps[k].entries()[i].yield_farm_id,
        ) ==> deps[k].entries()[i].accumulated_rpvs
            <= yfs[deps[k].entries()[i].yield_farm_id].farm.accumulated_rpvs
}

proof fn lemma_depositors_finite(m: Map<DepositId, DepositData>, id: YieldFarmId)
    requires
        m.dom().finite(),
    ensures
        depositors(m, id).finite(),
{
    assert(depositors(m, id).subset_of(m.dom()));
    vstd::set_lib::lemma_set_subset_finite(m.dom(), depositors(m, id));
}

/// Storing `d` under `k` moves `k` in or out of the depositors of `id`.
proof fn lemma_depositors_insert(
    m: Map<DepositId, DepositData>,
    k: DepositId,
    d: DepositData,
    id: YieldFarmId,
)
    requires
        m.dom().finite(),
    ensures
        depositors(m.insert(k, d), id).len() + (if m.contains_key(k) && has_entry_for(
            m[k].entries(),
            id,
        ) {
            1int
        } else {
            0int
        }) == depositors(m, id).len() + (if has_entry_for(d.entries(), id) {
            1int
        } else {
            0int
        }),
{
    let s = depositors(m, id);
    let t = depositors(m.insert(k, d), id);
    lemma_depositors_finite(m, id);
    let base = s.remove(k);
    if has_entry_for(d.entries(), id) {
        assert(t =~= base.insert(k));
    } else {
        assert(t =~= base);
    }
}

/// Removing the deposit `k` takes it out of the depositors of `id`.
proof fn lemma_depositors_remove(m: Map<DepositId, DepositData>, k: DepositId, id: YieldFarmId)
    requires
        m.dom().finite(),
    ensures
        depositors(m.remove(k), id).len() + (if m.contains_key(k) && has_entry_for(
            m[k].entries(),
            id,
        ) {
            1int
        } else {
            0int
        }) == depositors(m, id).len(),
{
    lemma_depositors_finite(m, id);
    assert(depositors(m.remove(k), id) =~= depositors(m, id).remove(k));
}

/// A yield farm stored again with the same entry count keeps the count right.
proof fn lemma_counted_farm_update(
    yfs: Map<YieldFarmId, YieldFarmSlot>,
    deps: Map<DepositId, DepositData>,
    id: YieldFarmId,
    slot: YieldFarmSlot,
)
    requires
        entries_counted(yfs, deps),
        totals_match(yfs, deps),
        yfs.contains_key(id),
        slot.farm.entries_count == yfs[id].farm.entries_count,
        slot.farm.total_shares == yfs[id].farm.total_shares,
        slot.farm.total_valued_shares == yfs[id].farm.total_valued_shares,
    ensures
        entries_counted(yfs.insert(id, slot), deps),
        totals_match(yfs.insert(id, slot), deps),
{
}

/// A new yield farm has no entries.
proof fn lemma_counted_new_farm(
    yfs: Map<YieldFarmId, YieldFarmSlot>,
    deps: Map<DepositId, DepositData>,
    id: YieldFarmId,
    slot: YieldFarmSlot,
)
    requires
        entries_counted(yfs, deps),
        totals_match(yfs, deps),
        !yfs.contains_key(id),
        slot.farm.entries_count == 0,
        slot.farm.total_shares == 0,
        slot.farm.total_valued_shares == 0,
    ensures
        entries_counted(yfs.insert(id, slot), deps),
        totals_match(yfs.insert(id, slot), deps),
{
    assert(depositors(deps, id) =~= Set::<DepositId>::empty());
    lemma_stake_sum_empty(deps, depositors(deps, id), id, false);
    lemma_stake_sum_empty(deps, depositors(deps, id), id, true);
}

/// A yield farm without entries may leave storage.
proof fn lemma_counted_farm_flushed(
    yfs: Map<YieldFarmId, YieldFarmSlot>,
    deps: Map<DepositId, DepositData>,
    id: YieldFarmId,
)
    requires
        entries_counted(yfs, deps),
        totals_match(yfs, deps),
        deps.dom().finite(),
        yfs.contains_key(id),
        yfs[id].farm.entries_count == 0,
    ensures
        entries_counted(yfs.remove(id), deps),
        totals_match(yfs.remove(id), deps),
{
    lemma_depositors_finite(deps, id);
    depositors(deps, id).lemma_len0_is_empty();
    assert forall|k: DepositId, j: YieldFarmId|
        deps.contains_key(k) && #[trigger] has_entry_for(deps[k].entries(), j) implies yfs.remove(
        id,
    ).contains_key(j) by {
        if j == id {
            assert(depositors(deps, id).contains(k));
        }
    }
}

/// The entries stored under `k`, none if nothing is.
pub open spec fn entries_at(m: Map<DepositId, DepositData>, k: DepositId) -> Seq<YieldFarmEntry> {
    if m.contains_key(k) {
        m[k].entries()
    } else {
        Seq::empty()
    }
}

/// A deposit under `k` gains an entry in yield farm `id`, whose count grows by one.
proof fn lemma_counted_entry_added(
    yfs: Map<YieldFarmId, YieldFarmSlot>,
    deps: Map<DepositId, DepositData>,
    k: DepositId,
    d: DepositData,
    id: YieldFarmId,
    slot: YieldFarmSlot,
)
    requires
        entries_counted(yfs, deps),
        totals_match(yfs, deps),
        deps.dom().finite(),
        yfs.contains_key(id),
        slot.farm.entries_count == yfs[id].farm.entries_count + 1,
        slot.farm.total_shares == yfs[id].farm.total_shares + d.shares,
        slot.farm.total_valued_shares == yfs[id].farm.total_valued_shares + entry_for(
            d.entries(),
            id,
        ).valued_shares,
        !has_entry_for(entries_at(deps, k), id),
        forall|j: YieldFarmId| #[trigger]
            has_entry_for(d.entries(), j) == (has_entry_for(entries_at(deps, k), j) || j == id),
        deps.contains_key(k) ==> d.shares == deps[k].shares,
        forall|j: YieldFarmId|
            j != id && has_entry_for(entries_at(deps, k), j) ==> #[trigger] entry_for(
                d.entries(),
                j,
            ).valued_shares == entry_for(deps[k].entries(), j).valued_shares,
    ensures
        entries_counted(yfs.insert(id, slot), deps.insert(k, d)),
        totals_match(yfs.insert(id, slot), deps.insert(k, d)),
{
    let yfs1 = yfs.insert(id, slot);
    let deps1 = deps.insert(k, d);
    assert forall|j: YieldFarmId| #[trigger] yfs1.contains_key(j) implies {
        &&& yfs1[j].farm.total_shares == stake_sum(deps1, depositors(deps1, j), j, false)
        &&& yfs1[j].farm.total_valued_shares == stake_sum(deps1, depositors(deps1, j), j, true)
    } by {
        let s0 = depositors(deps, j);
        lemma_depositors_finite(deps, j);
        assert forall|k2: DepositId| #[trigger] s0.contains(k2) && k2 != k implies deps1[k2]
            == deps[k2] by {}
        if j == id {
            assert(depositors(deps1, j) =~= s0.insert(k));
            assert(!s0.contains(k));
            lemma_stake_sum_insert(deps1, s0, j, false, k);
            lemma_stake_sum_insert(deps1, s0, j, true, k);
            lemma_stake_sum_same(deps, deps1, s0, j, false);
            lemma_stake_sum_same(deps, deps1, s0, j, true);
        } else {
            assert(has_entry_for(d.entries(), j) == has_entry_for(entries_at(deps, k), j));
            assert(depositors(deps1, j) =~= s0);
            assert forall|k2: DepositId| #[trigger] s0.contains(k2) implies stake_of(deps, k2, j, true)
                == stake_of(deps1, k2, j, true) && stake_of(deps, k2, j, false) == stake_of(
                deps1,
                k2,
                j,
                false,
            ) by {
                if k2 == k {
                    assert(entry_for(d.entries(), j).valued_shares == entry_for(
                        deps[k].entries(),
                        j,
                    ).valued_shares);
                }
            }
            lemma_stake_sum_same(deps, deps1, s0, j, false);
            lemma_stake_sum_same(deps, deps1, s0, j, true);
        }
    }
    assert forall|k2: DepositId, j: YieldFarmId|
        deps1.contains_key(k2) && #[trigger] has_entry_for(deps1[k2].entries(), j) implies yfs1.contains_key(
        j,
    ) by {
        if k2 == k && j != id {
            assert(has_entry_for(entries_at(deps, k), j));
        }
    }
    assert forall|j: YieldFarmId| #[trigger] yfs1.contains_key(j) implies yfs1[j].farm.entries_count
        == depositors(deps1, j).len() by {
        lemma_depositors_insert(deps, k, d, j);
        assert(has_entry_for(d.entries(), j) == (has_entry_for(entries_at(deps, k), j) || j == id));
    }
}

/// A deposit under `k` changes its entries but not the yield farms they are in.
proof fn lemma_counted_entry_updated(
    yfs: Map<YieldFarmId, YieldFarmSlot>,
    deps: Map<DepositId, DepositData>,
    k: DepositId,
    d: DepositData,
    id: YieldFarmId,
    slot: YieldFarmSlot,
)
    requires
        entries_counted(yfs, deps),
        totals_match(yfs, deps),
        deps.dom().finite(),
        deps.contains_key(k),
        yfs.contains_key(id),
        slot.farm.entries_count == yfs[id].farm.entries_count,
        slot.farm.total_shares == yfs[id].farm.total_shares,
        slot.farm.total_valued_shares == yfs[id].farm.total_valued_shares,
        forall|j: YieldFarmId| #[trigger]
            has_entry_for(d.entries(), j) == has_entry_for(deps[k].entries(), j),
        d.shares == deps[k].shares,
        forall|j: YieldFarmId|
            has_entry_for(deps[k].entries(), j) ==> #[trigger] entry_for(
                d.entries(),
                j,
            ).valued_shares == entry_for(deps[k].entries(), j).valued_shares,
    ensures
        entries_counted(yfs.insert(id, slot), deps.insert(k, d)),
        totals_match(yfs.insert(id, slot), deps.insert(k, d)),
{
    let yfs1 = yfs.insert(id, slot);
    let deps1 = deps.insert(k, d);
    assert forall|j: YieldFarmId| #[trigger] yfs1.contains_key(j) implies {
        &&& yfs1[j].farm.total_shares == stake_sum(deps1, depositors(deps1, j), j, false)
        &&& yfs1[j].farm.total_valued_shares == stake_sum(deps1, depositors(deps1, j), j, true)
    } by {
        let s0 = depositors(deps, j);
        lemma_depositors_finite(deps, j);
        assert(has_entry_for(d.entries(), j) == has_entry_for(deps[k].entries(), j));
        assert(depositors(deps1, j) =~= s0);
        assert forall|k2: DepositId| #[trigger] s0.contains(k2) implies stake_of(deps, k2, j, true)
            == stake_of(deps1, k2, j, true) && stake_of(deps, k2, j, false) == stake_of(
            deps1,
            k2,
            j,
            false,
        ) by {
            if k2 == k {
                assert(entry_for(d.entries(), j).valued_shares == entry_for(
                    deps[k].entries(),
                    j,
                ).valued_shares);
            }
        }
        lemma_stake_sum_same(deps, deps1, s0, j, false);
        lemma_stake_sum_same(deps, deps1, s0, j, true);
    }
    assert forall|k2: DepositId, j: YieldFarmId|
        deps1.contains_key(k2) && #[trigger] has_entry_for(deps1[k2].entries(), j) implies yfs1.contains_key(
        j,
    ) by {
        if k2 == k {
            assert(has_entry_for(deps[k].entries(), j));
        }
    }
    assert forall|j: YieldFarmId| #[trigger] yfs1.contains_key(j) implies yfs1[j].farm.entries_count
        == depositors(deps1, j).len() by {
        lemma_depositors_insert(deps, k, d, j);
        assert(has_entry_for(d.entries(), j) == has_entry_for(deps[k].entries(), j));
    }
}

/// The deposit under `k` loses its entry in yield farm `id` (and is stored as `d`, or leaves
/// storage when that was its only entry); the yield farm's count falls by one.
proof fn lemma_counted_entry_removed(
    yfs: Map<YieldFarmId, YieldFarmSlot>,
    deps: Map<DepositId, DepositData>,
    deps1: Map<DepositId, DepositData>,
    k: DepositId,
    id: YieldFarmId,
    slot: YieldFarmSlot,
)
    requires
        entries_counted(yfs, deps),
        totals_match(yfs, deps),
        deps.dom().finite(),
        deps.contains_key(k),
        has_entry_for(deps[k].entries(), id),
        yfs.contains_key(id),
        slot.farm.entries_count == yfs[id].farm.entries_count - 1,
        slot.farm.total_shares == yfs[id].farm.total_shares - deps[k].shares,
        slot.farm.total_valued_shares == yfs[id].farm.total_valued_shares - entry_for(
            deps[k].entries(),
            id,
        ).valued_shares,
        deps1.contains_key(k) ==> deps1[k].shares == deps[k].shares,
        deps1.contains_key(k) ==> forall|j: YieldFarmId|
            j != id && has_entry_for(deps1[k].entries(), j) ==> #[trigger] entry_for(
                deps1[k].entries(),
                j,
            ).valued_shares == entry_for(deps[k].entries(), j).valued_shares,
        deps1 == deps.remove(k) && (forall|j: YieldFarmId| #[trigger]
            has_entry_for(deps[k].entries(), j) ==> j == id) || deps1.dom() == deps.dom()
            && deps1 == deps.insert(k, deps1[k]) && (forall|j: YieldFarmId| #[trigger]
            has_entry_for(deps1[k].entries(), j) == (has_entry_for(deps[k].entries(), j) && j
                != id)),
    ensures
        entries_counted(yfs.insert(id, slot), deps1),
        totals_match(yfs.insert(id, slot), deps1),
        deps1.dom().finite(),
{
    let yfs1 = yfs.insert(id, slot);
    assert forall|j: YieldFarmId| #[trigger] yfs1.contains_key(j) implies {
        &&& yfs1[j].farm.total_shares == stake_sum(deps1, depositors(deps1, j), j, false)
        &&& yfs1[j].farm.total_valued_shares == stake_sum(deps1, depositors(deps1, j), j, true)
    } by {
        let s0 = depositors(deps, j);
        lemma_depositors_finite(deps, j);
        assert forall|k2: DepositId| #[trigger] s0.contains(k2) && k2 != k implies deps1.contains_key(
            k2,
        ) && deps1[k2] == deps[k2] by {}
        if j == id {
            assert(s0.contains(k));
            assert(depositors(deps1, j) =~= s0.remove(k));
            lemma_stake_sum_remove(deps, s0, j, false, k);
            lemma_stake_sum_remove(deps, s0, j, true, k);
            lemma_stake_sum_same(deps, deps1, s0.remove(k), j, false);
            lemma_stake_sum_same(deps, deps1, s0.remove(k), j, true);
        } else {
            assert(depositors(deps1, j) =~= s0);
            assert forall|k2: DepositId| #[trigger] s0.contains(k2) implies stake_of(deps, k2, j, true)
                == stake_of(deps1, k2, j, true) && stake_of(deps, k2, j, false) == stake_of(
                deps1,
                k2,
                j,
                false,
            ) by {
                if k2 == k {
                    assert(deps1.contains_key(k));
                    assert(has_entry_for(deps1[k].entries(), j));
                    assert(entry_for(deps1[k].entries(), j).valued_shares == entry_for(
                        deps[k].entries(),
                        j,
                    ).valued_shares);
                }
            }
            lemma_stake_sum_same(deps, deps1, s0, j, false);
            lemma_stake_sum_same(deps, deps1, s0, j, true);
        }
    }
    if deps1 == deps.remove(k) && (forall|j: YieldFarmId| #[trigger]
        has_entry_for(deps[k].entries(), j) ==> j == id) {
        assert forall|j: YieldFarmId| #[trigger] yfs1.contains_key(j) implies yfs1[j].farm.entries_count
            == depositors(deps1, j).len() by {
            lemma_depositors_remove(deps, k, j);
        }
    } else {
        let d = deps1[k];
        assert forall|k2: DepositId, j: YieldFarmId|
            deps1.contains_key(k2) && #[trigger] has_entry_for(deps1[k2].entries(), j) implies yfs1.contains_key(
            j,
        ) by {
            if k2 == k {
                assert(has_entry_for(deps[k].entries(), j));
            } else {
                assert(deps.contains_key(k2) && deps1[k2] == deps[k2]);
            }
        }
        assert forall|j: YieldFarmId| #[trigger] yfs1.contains_key(j) implies yfs1[j].farm.entries_count
            == depositors(deps1, j).len() by {
            lemma_depositors_insert(deps, k, d, j);
            assert(has_entry_for(d.entries(), j) == (has_entry_for(deps[k].entries(), j) && j != id));
        }
    }
}

fn transfer_error(e: TransferError) -> (r: Error)
    ensures
        e == TransferError::InsufficientBalance ==> r == Error::InsufficientBalance,
        e == TransferError::Overflow ==> r == Error::Overflow,
{
    match e {
        TransferError::InsufficientBalance => Error::InsufficientBalance,
        TransferError::Overflow => Error::Overflow,
    }
}

/// The reward accounting engine: global farms, yield farms, deposits and the balances of the
/// accounts it moves rewards between.
pub struct LiquidityMining {
    block_number: BlockNumber,
    max_entries_per_deposit: u8,
    farm_sequencer: FarmId,
    deposit_sequencer: DepositId,
    global_farms: HashMap<GlobalFarmId, GlobalFarmData>,
    yield_farms: HashMap<YieldFarmId, YieldFarmSlot>,
    active_yield_farms: Vec<ActiveYieldFarm>,
    deposits: HashMap<DepositId, DepositData>,
    ledger: Ledger,
}

impl LiquidityMining {
    pub closed spec fn block(&self) -> BlockNumber {
        self.block_number
    }

    pub closed spec fn max_entries(&self) -> u8 {
        self.max_entries_per_deposit
    }

    pub closed spec fn farm_seq(&self) -> FarmId {
        self.farm_sequencer
    }

    pub closed spec fn deposit_seq(&self) -> DepositId {
        self.deposit_sequencer
    }

    pub closed spec fn global_farms_view(&self) -> Map<GlobalFarmId, GlobalFarmData> {
        self.global_farms@
    }

    pub closed spec fn yield_farms_view(&self) -> Map<YieldFarmId, YieldFarmSlot> {
        self.yield_farms@
    }

    pub closed spec fn active_view(&self) -> Seq<ActiveYieldFarm> {
        self.active_yield_farms@
    }

    pub closed spec fn deposits_view(&self) -> Map<DepositId, DepositData> {
        self.deposits@
    }

    pub closed spec fn ledger_view(&self) -> Ledger {
        self.ledger
    }

    pub open spec fn balance(&self, asset: AssetId, who: AccountId) -> nat {
        self.ledger_view().balance(asset, who)
    }

    /// The total of `asset` over all accounts.
    pub open spec fn supply(&self, asset: AssetId) -> int {
        self.ledger_view().supply(asset)
    }

    /// No asset was created or destroyed since `o`.
    pub open spec fn supply_kept(&self, o: &LiquidityMining) -> bool {
        forall|a: AssetId| #[trigger]
            self.ledger_view().supply(a) == o.ledger_view().supply(a)
    }

    /// The current period of a farm of `blocks_per_period` blocks.
    pub open spec fn period(&self, blocks_per_period: BlockNumber) -> Period {
        period_of(self.block(), blocks_per_period)
    }

    /// The invariant of the stores.
    pub open spec fn wf(&self) -> bool {
        &&& self.stores_fit()
        &&& entries_counted(self.yield_farms_view(), self.deposits_view())
        &&& totals_match(self.yield_farms_view(), self.deposits_view())
        &&& entries_below(self.yield_farms_view(), self.deposits_view())
    }

    /// Each store holds what its keys and the sequencers promise.
    pub open spec fn stores_fit(&self) -> bool {
        &&& self.max_entries() >= 1
        &&& global_farms_fit(self.global_farms_view(), self.farm_seq())
        &&& yield_farms_fit(self.yield_farms_view(), self.farm_seq())
        &&& deposits_fit(self.deposits_view(), self.deposit_seq())
        &&& active_pairs_unique(self.active_view())
    }

    /// Nothing observable differs.
    pub open spec fn same_state(&self, o: &LiquidityMining) -> bool {
        &&& self.block() == o.block()
        &&& self.max_entries() == o.max_entries()
        &&& self.farm_seq() == o.farm_seq()
        &&& self.deposit_seq() == o.deposit_seq()
        &&& self.global_farms_view() == o.global_farms_view()
        &&& self.yield_farms_view() == o.yield_farms_view()
        &&& self.active_view() == o.active_view()
        &&& self.deposits_view() == o.deposits_view()
        &&& self.ledger_view().same_balances(&o.ledger_view())
    }

    /// An empty engine whose deposits hold at most `max_entries_per_deposit` entries.
    pub fn new(max_entries_per_deposit: u8) -> (r: Self)
        requires
            max_entries_per_deposit >= 1,
        ensures
            r.wf(),
            r.block() == 0,
            r.max_entries() == max_entries_per_deposit,
            r.farm_seq() == 0,
            r.deposit_seq() == 0,
            r.global_farms_view() == Map::<GlobalFarmId, GlobalFarmData>::empty(),
            r.yield_farms_view() == Map::<YieldFarmId, YieldFarmSlot>::empty(),
            r.deposits_view() == Map::<DepositId, DepositData>::empty(),
            r.active_view() == Seq::<ActiveYieldFarm>::empty(),
            forall|a: AssetId, w: AccountId| #[trigger] r.balance(a, w) == 0,
    {
        LiquidityMining {
            block_number: 0,
            max_entries_per_deposit,
            farm_sequencer: 0,
            deposit_sequencer: 0,
            global_farms: HashMap::new(),
            yield_farms: HashMap::new(),
            active_yield_farms: Vec::new(),
            deposits: HashMap::new(),
            ledger: Ledger::new(),
        }
    }

    pub fn set_block_number(&mut self, block: BlockNumber)
        requires
            old(self).wf(),
        ensures
            final(self).wf(),
            final(self).supply_kept(old(self)),
            final(self).block() == block,
            final(self).max_entries() == old(self).max_entries(),
            final(self).farm_seq() == old(self).farm_seq(),
            final(self).deposit_seq() == old(self).deposit_seq(),
            final(self).global_farms_view() == old(self).global_farms_view(),
            final(self).yield_farms_view() == old(self).yield_farms_view(),
            final(self).active_view() == old(self).active_view(),
            final(self).deposits_view() == old(self).deposits_view(),
            final(self).ledger_view() == old(self).ledger_view(),
    {
        self.block_number = block;
    }

    pub fn block_number(&self) -> (r: BlockNumber)
        ensures
            r == self.block(),
    {
        self.block_number
    }

    /// Credits `amount` of `asset` to `who` from outside the engine.
    pub fn mint(&mut self, asset: AssetId, who: AccountId, amount: Balance) -> (r: Result<(), Error>)
        requires
            old(self).wf(),
        ensures
            final(self).wf(),
            r is Ok <==> old(self).balance(asset, who) + amount <= u128::MAX,
            r is Err ==> r == Err::<(), _>(Error::Overflow) && final(self).same_state(old(self)),
            r is Err ==> final(self).supply_kept(old(self)),
            r is Ok ==> forall|a: AssetId| #[trigger]
                final(self).supply(a) == old(self).supply(a) + if a == asset {
                    amount as int
                } else {
                    0
                },
            r is Ok ==> forall|a: AssetId, w: AccountId| #[trigger]
                final(self).balance(a, w) == if a == asset && w == who {
                    old(self).balance(a, w) + amount as nat
                } else {
                    old(self).balance(a, w)
                },
            final(self).global_farms_view() == old(self).global_farms_view(),
            final(self).yield_farms_view() == old(self).yield_farms_view(),
            final(self).deposits_view() == old(self).deposits_view(),
            final(self).active_view() == old(self).active_view(),
            final(self).block() == old(self).block(),
            final(self).max_entries() == old(self).max_entries(),
            final(self).farm_seq() == old(self).farm_seq(),
            final(self).deposit_seq() == old(self).deposit_seq(),
    {
        let r = self.ledger.mint(asset, who, amount);
        match r {
            Ok(()) => Ok(()),
            Err(()) => Err(Error::Overflow),
        }
    }

    pub fn free_balance(&self, asset: AssetId, who: AccountId) -> (r: Balance)
        ensures
            r == self.balance(asset, who),
    {
        self.ledger.free_balance(asset, who)
    }

    pub fn global_farm(&self, id: GlobalFarmId) -> (r: Option<GlobalFarmData>)
        ensures
            r == if self.global_farms_view().contains_key(id) {
                Some(self.global_farms_view()[id])
            } else {
                None
            },
    {
        match self.global_farms.get(&id) {
            Some(gf) => Some(*gf),
            None => None,
        }
    }

    fn yield_farm_slot(&self, id: YieldFarmId) -> (r: Option<YieldFarmSlot>)
        ensures
            r == if self.yield_farms_view().contains_key(id) {
                Some(self.yield_farms_view()[id])
            } else {
                None
            },
    {
        match self.yield_farms.get(&id) {
            Some(s) => Some(*s),
            None => None,
        }
    }

    /// The yield farm `id` of pool `amm_pool_id` in global farm `global_farm_id`.
    pub fn yield_farm(&self, amm_pool_id: AmmPoolId, global_farm_id: GlobalFarmId, id: YieldFarmId) -> (r:
        Option<YieldFarmData>)
        ensures
            r == if self.yield_farms_view().contains_key(id) && self.yield_farms_view()[id].amm_pool_id
                == amm_pool_id && self.yield_farms_view()[id].global_farm_id == global_farm_id {
                Some(self.yield_farms_view()[id].farm)
            } else {
                None
            },
    {
        match self.yield_farm_slot(id) {
            Some(s) => if s.amm_pool_id == amm_pool_id && s.global_farm_id == global_farm_id {
                Some(s.farm)
            } else {
                None
            },
            None => None,
        }
    }

    pub fn deposit(&self, id: DepositId) -> (r: Option<&DepositData>)
        ensures
            r == if self.deposits_view().contains_key(id) {
                Some(&self.deposits_view()[id])
            } else {
                None
            },
    {
        self.deposits.get(&id)
    }

    fn find_active(&self, amm_pool_id: AmmPoolId, global_farm_id: GlobalFarmId) -> (r: Option<usize>)
        requires
            active_pairs_unique(self.active_view()),
        ensures
            match r {
                Some(i) => i < self.active_view().len() && self.active_view()[i as int].amm_pool_id
                    == amm_pool_id && self.active_view()[i as int].global_farm_id == global_farm_id
                    && i == active_index(self.active_view(), amm_pool_id, global_farm_id)
                    && active_in(self.active_view(), amm_pool_id, global_farm_id),
                None => !active_in(self.active_view(), amm_pool_id, global_farm_id),
            },
    {
        let mut i: usize = 0;
        while i < self.active_yield_farms.len()
            invariant
                i <= self.active_view().len(),
                self.active_view() == self.active_yield_farms@,
                active_pairs_unique(self.active_view()),
                forall|k: int|
                    0 <= k < i ==> !((#[trigger] self.active_view()[k]).amm_pool_id == amm_pool_id
                        && self.active_view()[k].global_farm_id == global_farm_id),
            decreases self.active_view().len() - i,
        {
            let a = self.active_yield_farms[i];
            if a.amm_pool_id == amm_pool_id && a.global_farm_id == global_farm_id {
                proof {
                    let s = self.active_view();
                    assert(active_in(s, amm_pool_id, global_farm_id));
                    let j = active_index(s, amm_pool_id, global_farm_id);
                    assert(0 <= j < s.len() && s[j].amm_pool_id == amm_pool_id && s[j].global_farm_id
                        == global_farm_id);
                    if j != i as int {
                        assert(!(s[j].amm_pool_id == s[i as int].amm_pool_id && s[j].global_farm_id
                            == s[i as int].global_farm_id));
                    }
                }
                return Some(i);
            }
            i = i + 1;
        }
        None
    }

    /// The active yield farm of `amm_pool_id` in `global_farm_id`, if there is one.
    pub fn active_yield_farm(&self, amm_pool_id: AmmPoolId, global_farm_id: GlobalFarmId) -> (r:
        Option<YieldFarmId>)
        requires
            self.wf(),
        ensures
            r is Some ==> r->Some_0 == active_id(self.active_view(), amm_pool_id, global_farm_id),
            r is None <==> !active_in(self.active_view(), amm_pool_id, global_farm_id),
            r is Some ==> exists|i: int|
                0 <= i < self.active_view().len() && #[trigger] self.active_view()[i]
                    == (ActiveYieldFarm {
                    amm_pool_id,
                    global_farm_id,
                    yield_farm_id: r->Some_0,
                }),
    {
        match self.find_active(amm_pool_id, global_farm_id) {
            Some(i) => Some(self.active_yield_farms[i].yield_farm_id),
            None => None,
        }
    }

    /// Why `create_global_farm` refuses its arguments, in the order it checks, if it does.
    pub open spec fn create_global_farm_error(
        total_rewards: Balance,
        planned_yielding_periods: Period,
        blocks_per_period: BlockNumber,
        yield_per_period: PermillParts,
        min_deposit: Balance,
        price_adjustment: u128,
    ) -> Option<Error> {
        let needed = planned_yielding_periods * yield_per_period * min_deposit;
        if planned_yielding_periods < 3 {
            Some(Error::InvalidPlannedYieldingPeriods)
        } else if blocks_per_period == 0 {
            Some(Error::InvalidBlocksPerPeriod)
        } else if yield_per_period == 0 || yield_per_period > PERMILL_ONE {
            Some(Error::InvalidYieldPerPeriod)
        } else if min_deposit < MIN_DEPOSIT {
            Some(Error::InvalidMinDeposit)
        } else if price_adjustment == 0 {
            Some(Error::InvalidPriceAdjustment)
        } else if needed > u128::MAX {
            Some(Error::Overflow)
        } else if total_rewards * PERMILL_ONE < needed {
            Some(Error::InvalidTotalRewards)
        } else {
            None
        }
    }

    /// Creates a global farm funded with `total_rewards` of `reward_currency` from `owner`.
    /// The budget must cover `planned_yielding_periods * yield_per_period * min_deposit`.
    /// Returns the new farm's id and its `max_reward_per_period`,
    /// `total_rewards / planned_yielding_periods`.
    pub fn create_global_farm(
        &mut self,
        total_rewards: Balance,
        planned_yielding_periods: Period,
        blocks_per_period: BlockNumber,
        incentivized_asset: AssetId,
        reward_currency: AssetId,
        owner: AccountId,
        yield_per_period: PermillParts,
        min_deposit: Balance,
        price_adjustment: u128,
    ) -> (r: Result<(GlobalFarmId, Balance), Error>)
        requires
            old(self).wf(),
        ensures
            final(self).wf(),
            final(self).supply_kept(old(self)),
            final(self).block() == old(self).block(),
            final(self).max_entries() == old(self).max_entries(),
            ({
                let err = Self::create_global_farm_error(
                    total_rewards,
                    planned_yielding_periods,
                    blocks_per_period,
                    yield_per_period,
                    min_deposit,
                    price_adjustment,
                );
                let id = (old(self).farm_seq() + 1) as GlobalFarmId;
                &&& err is Some ==> r == Err::<(GlobalFarmId, Balance), _>(err->Some_0)
                &&& r is Ok <==> (err is None && old(self).farm_seq() < u32::MAX
                    && old(self).ledger_view().can_transfer(
                    reward_currency,
                    owner,
                    farm_account(id),
                    total_rewards,
                ))
                &&& r is Err ==> final(self).same_state(old(self))
                &&& r is Ok ==> {
                    &&& r->Ok_0 == (id, (total_rewards / (planned_yielding_periods as u128)) as u128)
                    &&& final(self).global_farms_view() == old(self).global_farms_view().insert(
                        id,
                        GlobalFarmData {
                            id,
                            owner,
                            updated_at: old(self).period(blocks_per_period),
                            total_shares_z: 0,
                            accumulated_rpz: 0,
                            reward_currency,
                            accumulated_rewards: 0,
                            paid_accumulated_rewards: 0,
                            yield_per_period,
                            planned_yielding_periods,
                            blocks_per_period,
                            incentivized_asset,
                            max_reward_per_period: (total_rewards / (planned_yielding_periods as u128)) as u128,
                            min_deposit,
                            price_adjustment,
                            yield_farms_count: (0u32, 0u32),
                            state: GlobalFarmState::Active,
                        },
                    )
                    &&& final(self).farm_seq() == id
                    &&& final(self).ledger_view().moved(
                        &old(self).ledger_view(),
                        reward_currency,
                        owner,
                        farm_account(id),
                        total_rewards as nat,
                    )
                    &&& final(self).yield_farms_view() == old(self).yield_farms_view()
                    &&& final(self).deposits_view() == old(self).deposits_view()
                    &&& final(self).active_view() == old(self).active_view()
                    &&& final(self).deposit_seq() == old(self).deposit_seq()
                    &&& final(self).block() == old(self).block()
                }
            }),
    {
        if planned_yielding_periods < 3 {
            return Err(Error::InvalidPlannedYieldingPeriods);
        }
        if blocks_per_period == 0 {
            return Err(Error::InvalidBlocksPerPeriod);
        }
        if yield_per_period == 0 || yield_per_period > PERMILL_ONE {
            return Err(Error::InvalidYieldPerPeriod);
        }
        if min_deposit < MIN_DEPOSIT {
            return Err(Error::InvalidMinDeposit);
        }
        if price_adjustment == 0 {
            return Err(Error::InvalidPriceAdjustment);
        }
        assert(planned_yielding_periods * yield_per_period <= u64::MAX * PERMILL_ONE) by (nonlinear_arith)
            requires
                planned_yielding_periods <= u64::MAX,
                yield_per_period <= PERMILL_ONE,
        ;
        let per_deposit = (planned_yielding_periods as u128) * (yield_per_period as u128);
        let needed = match per_deposit.checked_mul(min_deposit) {
            Some(v) => v,
            None => return Err(Error::Overflow),
        };
        if total_rewards <= u128::MAX / 1_000_000 {
            if total_rewards * 1_000_000 < needed {
                return Err(Error::InvalidTotalRewards);
            }
        } else {
            assert(total_rewards * PERMILL_ONE >= needed) by (nonlinear_arith)
                requires
                    total_rewards > u128::MAX / 1_000_000,
                    needed <= u128::MAX,
            ;
        }
        let id = match self.farm_sequencer.checked_add(1) {
            Some(v) => v,
            None => return Err(Error::Overflow),
        };
        let account = farm_account_id(id);
        match self.move_balance(reward_currency, owner, account, total_rewards) {
            Ok(()) => {},
            Err(e) => return Err(e),
        }
        let max_reward_per_period = total_rewards / (planned_yielding_periods as u128);
        let gf = GlobalFarmData::new(
            id,
            self.block_number / blocks_per_period,
            reward_currency,
            yield_per_period,
            planned_yielding_periods,
            blocks_per_period,
            owner,
            incentivized_asset,
            max_reward_per_period,
            min_deposit,
            price_adjustment,
        );
        self.global_farms.insert(id, gf);
        self.farm_sequencer = id;
        Ok((id, max_reward_per_period))
    }

    /// Deletes global farm `id` of `who`, which must have no live yield farm, and returns its
    /// undistributed rewards to the owner. Returns the reward currency, the amount returned and
    /// the owner. The farm leaves storage at once when no yield farm of it is left at all.
    pub fn destroy_global_farm(&mut self, who: AccountId, id: GlobalFarmId) -> (r: Result<
        (AssetId, Balance, AccountId),
        Error,
    >)
        requires
            old(self).wf(),
        ensures
            final(self).wf(),
            final(self).supply_kept(old(self)),
            final(self).block() == old(self).block(),
            final(self).max_entries() == old(self).max_entries(),
            !old(self).global_farms_view().contains_key(id) ==> r == Err::<
                (AssetId, Balance, AccountId),
                _,
            >(Error::GlobalFarmNotFound),
            ({
                let gf = old(self).global_farms_view()[id];
                let undistributed = old(self).balance(gf.reward_currency, farm_account(id));
                &&& old(self).global_farms_view().contains_key(id) ==> {
                    &&& gf.state != GlobalFarmState::Active ==> r == Err::<
                        (AssetId, Balance, AccountId),
                        _,
                    >(Error::GlobalFarmNotFound)
                    &&& gf.state == GlobalFarmState::Active && who != gf.owner ==> r == Err::<
                        (AssetId, Balance, AccountId),
                        _,
                    >(Error::Forbidden)
                    &&& gf.state == GlobalFarmState::Active && who == gf.owner
                        && gf.yield_farms_count.0 != 0 ==> r == Err::<
                        (AssetId, Balance, AccountId),
                        _,
                    >(Error::GlobalFarmIsNotEmpty)
                }
                &&& r is Ok <==> (old(self).global_farms_view().contains_key(id) && gf.state
                    == GlobalFarmState::Active && who == gf.owner && gf.yield_farms_count.0 == 0
                    && (farm_account(id) == who || old(self).balance(gf.reward_currency, who)
                    + undistributed <= u128::MAX))
                &&& r is Err ==> final(self).same_state(old(self))
                &&& r is Ok ==> {
                    &&& r->Ok_0 == (gf.reward_currency, undistributed as u128, gf.owner)
                    &&& final(self).ledger_view().moved(
                        &old(self).ledger_view(),
                        gf.reward_currency,
                        farm_account(id),
                        who,
                        undistributed,
                    )
                    &&& gf.yield_farms_count.1 == 0 ==> final(self).global_farms_view()
                        == old(self).global_farms_view().remove(id)
                    &&& gf.yield_farms_count.1 != 0 ==> final(self).global_farms_view()
                        == old(self).global_farms_view().insert(
                        id,
                        GlobalFarmData { state: GlobalFarmState::Deleted, ..gf },
                    )
                    &&& final(self).yield_farms_view() == old(self).yield_farms_view()
                    &&& final(self).deposits_view() == old(self).deposits_view()
                    &&& final(self).active_view() == old(self).active_view()
                    &&& final(self).farm_seq() == old(self).farm_seq()
                    &&& final(self).deposit_seq() == old(self).deposit_seq()
                    &&& final(self).block() == old(self).block()
                }
            }),
    {
        let gf = match self.global_farm(id) {
            Some(gf) => gf,
            None => return Err(Error::GlobalFarmNotFound),
        };
        if !gf.is_active() {
            return Err(Error::GlobalFarmNotFound);
        }
        if who != gf.owner {
            return Err(Error::Forbidden);
        }
        if !gf.has_no_live_farms() {
            return Err(Error::GlobalFarmIsNotEmpty);
        }
        let account = farm_account_id(id);
        let undistributed = self.ledger.free_balance(gf.reward_currency, account);
        match self.move_balance(gf.reward_currency, account, who, undistributed) {
            Ok(()) => {},
            Err(e) => return Err(e),
        }
        if gf.yield_farms_count.1 == 0 {
            self.global_farms.remove(&id);
        } else {
            self.global_farms.insert(id, GlobalFarmData { state: GlobalFarmState::Deleted, ..gf });
        }
        Ok((gf.reward_currency, undistributed, gf.owner))
    }

    fn put_global_farm(&mut self, gf: GlobalFarmData)
        requires
            old(self).stores_fit(),
            gf.id <= old(self).farm_seq(),
            gf.blocks_per_period >= 1,
            gf.yield_per_period <= PERMILL_ONE,
            gf.state == GlobalFarmState::Deleted ==> gf.yield_farms_count.0 == 0,
        ensures
            final(self).stores_fit(),
            final(self).global_farms_view() == old(self).global_farms_view().insert(gf.id, gf),
            final(self).yield_farms_view() == old(self).yield_farms_view(),
            final(self).deposits_view() == old(self).deposits_view(),
            final(self).active_view() == old(self).active_view(),
            final(self).ledger_view() == old(self).ledger_view(),
            final(self).farm_seq() == old(self).farm_seq(),
            final(self).deposit_seq() == old(self).deposit_seq(),
            final(self).block() == old(self).block(),
            final(self).max_entries() == old(self).max_entries(),
    {
        self.global_farms.insert(gf.id, gf);
    }

    fn remove_global_farm(&mut self, id: GlobalFarmId)
        requires
            old(self).stores_fit(),
        ensures
            final(self).stores_fit(),
            final(self).global_farms_view() == old(self).global_farms_view().remove(id),
            final(self).yield_farms_view() == old(self).yield_farms_view(),
            final(self).deposits_view() == old(self).deposits_view(),
            final(self).active_view() == old(self).active_view(),
            final(self).ledger_view() == old(self).ledger_view(),
            final(self).farm_seq() == old(self).farm_seq(),
            final(self).deposit_seq() == old(self).deposit_seq(),
            final(self).block() == old(self).block(),
            final(self).max_entries() == old(self).max_entries(),
    {
        self.global_farms.remove(&id);
    }

    fn put_yield_farm(&mut self, slot: YieldFarmSlot)
        requires
            old(self).stores_fit(),
            slot.farm.id <= old(self).farm_seq(),
        ensures
            final(self).stores_fit(),
            final(self).yield_farms_view() == old(self).yield_farms_view().insert(slot.farm.id, slot),
            final(self).global_farms_view() == old(self).global_farms_view(),
            final(self).deposits_view() == old(self).deposits_view(),
            final(self).active_view() == old(self).active_view(),
            final(self).ledger_view() == old(self).ledger_view(),
            final(self).farm_seq() == old(self).farm_seq(),
            final(self).deposit_seq() == old(self).deposit_seq(),
            final(self).block() == old(self).block(),
            final(self).max_entries() == old(self).max_entries(),
    {
        self.yield_farms.insert(slot.farm.id, slot);
    }

    fn remove_yield_farm(&mut self, id: YieldFarmId)
        requires
            old(self).stores_fit(),
        ensures
            final(self).stores_fit(),
            final(self).yield_farms_view() == old(self).yield_farms_view().remove(id),
            final(self).global_farms_view() == old(self).global_farms_view(),
            final(self).deposits_view() == old(self).deposits_view(),
            final(self).active_view() == old(self).active_view(),
            final(self).ledger_view() == old(self).ledger_view(),
            final(self).farm_seq() == old(self).farm_seq(),
            final(self).deposit_seq() == old(self).deposit_seq(),
            final(self).block() == old(self).block(),
            final(self).max_entries() == old(self).max_entries(),
    {
        self.yield_farms.remove(&id);
    }

    fn put_deposit(&mut self, id: DepositId, d: DepositData)
        requires
            old(self).stores_fit(),
            d.wf(),
            id <= old(self).deposit_seq(),
        ensures
            final(self).stores_fit(),
            final(self).deposits_view() == old(self).deposits_view().insert(id, d),
            final(self).global_farms_view() == old(self).global_farms_view(),
            final(self).yield_farms_view() == old(self).yield_farms_view(),
            final(self).active_view() == old(self).active_view(),
            final(self).ledger_view() == old(self).ledger_view(),
            final(self).farm_seq() == old(self).farm_seq(),
            final(self).deposit_seq() == old(self).deposit_seq(),
            final(self).block() == old(self).block(),
            final(self).max_entries() == old(self).max_entries(),
    {
        self.deposits.insert(id, d);
    }

    fn take_deposit(&mut self, id: DepositId) -> (r: Option<DepositData>)
        requires
            old(self).stores_fit(),
        ensures
            final(self).stores_fit(),
            r == if old(self).deposits_view().contains_key(id) {
                Some(old(self).deposits_view()[id])
            } else {
                None
            },
            final(self).deposits_view() == old(self).deposits_view().remove(id),
            final(self).global_farms_view() == old(self).global_farms_view(),
            final(self).yield_farms_view() == old(self).yield_farms_view(),
            final(self).active_view() == old(self).active_view(),
            final(self).ledger_view() == old(self).ledger_view(),
            final(self).farm_seq() == old(self).farm_seq(),
            final(self).deposit_seq() == old(self).deposit_seq(),
            final(self).block() == old(self).block(),
            final(self).max_entries() == old(self).max_entries(),
    {
        let r = self.deposits.remove(&id);
        r
    }

    fn move_balance(&mut self, asset: AssetId, from: AccountId, to: AccountId, amount: Balance) -> (r:
        Result<(), Error>)
        requires
            old(self).stores_fit(),
        ensures
            final(self).stores_fit(),
            r is Ok <==> old(self).ledger_view().can_transfer(asset, from, to, amount),
            r is Ok ==> final(self).ledger_view().moved(
                &old(self).ledger_view(),
                asset,
                from,
                to,
                amount as nat,
            ),
            r is Err ==> final(self).ledger_view().same_balances(&old(self).ledger_view()),
            final(self).supply_kept(old(self)),
            r is Err ==> r == Err::<(), _>(Error::InsufficientBalance) || r == Err::<(), _>(
                Error::Overflow,
            ),
            final(self).global_farms_view() == old(self).global_farms_view(),
            final(self).yield_farms_view() == old(self).yield_farms_view(),
            final(self).deposits_view() == old(self).deposits_view(),
            final(self).active_view() == old(self).active_view(),
            final(self).farm_seq() == old(self).farm_seq(),
            final(self).deposit_seq() == old(self).deposit_seq(),
            final(self).block() == old(self).block(),
            final(self).max_entries() == old(self).max_entries(),
    {
        let r = self.ledger.transfer(asset, from, to, amount);
        match r {
            Ok(()) => Ok(()),
            Err(e) => Err(transfer_error(e)),
        }
    }

    fn push_active(&mut self, a: ActiveYieldFarm)
        requires
            old(self).stores_fit(),
            !active_in(old(self).active_view(), a.amm_pool_id, a.global_farm_id),
        ensures
            final(self).stores_fit(),
            final(self).active_view() == old(self).active_view().push(a),
            active_in(final(self).active_view(), a.amm_pool_id, a.global_farm_id),
            active_id(final(self).active_view(), a.amm_pool_id, a.global_farm_id) == a.yield_farm_id,
            final(self).global_farms_view() == old(self).global_farms_view(),
            final(self).yield_farms_view() == old(self).yield_farms_view(),
            final(self).deposits_view() == old(self).deposits_view(),
            final(self).ledger_view() == old(self).ledger_view(),
            final(self).farm_seq() == old(self).farm_seq(),
            final(self).deposit_seq() == old(self).deposit_seq(),
            final(self).block() == old(self).block(),
            final(self).max_entries() == old(self).max_entries(),
    {
        self.active_yield_farms.push(a);
        proof {
            let s = self.active_view();
            let n = old(self).active_view().len() as int;
            assert(s[n] == a);
            assert(active_in(s, a.amm_pool_id, a.global_farm_id));
            assert forall|i: int, j: int|
                0 <= i < s.len() && 0 <= j < s.len() && i != j implies !(#[trigger] s[i].amm_pool_id
                == #[trigger] s[j].amm_pool_id && s[i].global_farm_id == s[j].global_farm_id) by {
                if i == n {
                    assert(s[j] == old(self).active_view()[j]);
                } else if j == n {
                    assert(s[i] == old(self).active_view()[i]);
                } else {
                    assert(s[i] == old(self).active_view()[i]);
                    assert(s[j] == old(self).active_view()[j]);
                }
            }
            let k = active_index(s, a.amm_pool_id, a.global_farm_id);
            if k != n {
                assert(s[k].amm_pool_id == s[n].amm_pool_id);
            }
        }
    }

    fn remove_active(&mut self, i: usize)
        requires
            old(self).stores_fit(),
            i < old(self).active_view().len(),
        ensures
            final(self).stores_fit(),
            final(self).active_view() == old(self).active_view().remove(i as int),
            !active_in(
                final(self).active_view(),
                old(self).active_view()[i as int].amm_pool_id,
                old(self).active_view()[i as int].global_farm_id,
            ),
            final(self).global_farms_view() == old(self).global_farms_view(),
            final(self).yield_farms_view() == old(self).yield_farms_view(),
            final(self).deposits_view() == old(self).deposits_view(),
            final(self).ledger_view() == old(self).ledger_view(),
            final(self).farm_seq() == old(self).farm_seq(),
            final(self).deposit_seq() == old(self).deposit_seq(),
            final(self).block() == old(self).block(),
            final(self).max_entries() == old(self).max_entries(),
    {
        let ghost before = self.active_view();
        self.active_yield_farms.remove(i);
        proof {
            let s = self.active_view();
            assert forall|a: int, b: int|
                0 <= a < s.len() && 0 <= b < s.len() && a != b implies !(#[trigger] s[a].amm_pool_id
                == #[trigger] s[b].amm_pool_id && s[a].global_farm_id == s[b].global_farm_id) by {
                let a0 = if a < i { a } else { a + 1 };
                let b0 = if b < i { b } else { b + 1 };
                assert(s[a] == before[a0]);
                assert(s[b] == before[b0]);
            }
            assert forall|k: int| 0 <= k < s.len() implies !((#[trigger] s[k]).amm_pool_id
                == before[i as int].amm_pool_id && s[k].global_farm_id
                == before[i as int].global_farm_id) by {
                let k0 = if k < i { k } else { k + 1 };
                assert(s[k] == before[k0]);
            }
        }
    }

    /// What the account of global farm `gf` holds of its reward currency.
    pub open spec fn left(&self, gf: GlobalFarmData) -> Balance {
        self.balance(gf.reward_currency, farm_account(gf.id)) as Balance
    }

    fn next_farm_id(&mut self) -> (r: Result<FarmId, Error>)
        requires
            old(self).stores_fit(),
        ensures
            final(self).stores_fit(),
            r is Ok <==> old(self).farm_seq() < u32::MAX,
            r is Ok ==> r->Ok_0 == old(self).farm_seq() + 1 && final(self).farm_seq() == r->Ok_0,
            r is Err ==> r == Err::<FarmId, _>(Error::Overflow) && final(self).farm_seq()
                == old(self).farm_seq(),
            final(self).global_farms_view() == old(self).global_farms_view(),
            final(self).yield_farms_view() == old(self).yield_farms_view(),
            final(self).deposits_view() == old(self).deposits_view(),
            final(self).active_view() == old(self).active_view(),
            final(self).ledger_view() == old(self).ledger_view(),
            final(self).deposit_seq() == old(self).deposit_seq(),
            final(self).block() == old(self).block(),
            final(self).max_entries() == old(self).max_entries(),
    {
        let id = match self.farm_sequencer.checked_add(1) {
            Some(v) => v,
            None => return Err(Error::Overflow),
        };
        self.farm_sequencer = id;
        Ok(id)
    }

    /// Why `create_yield_farm` refuses its arguments, in the order it checks, if it does.
    pub open spec fn create_yield_farm_error(
        &self,
        who: AccountId,
        global_farm_id: GlobalFarmId,
        multiplier: FarmMultiplier,
        loyalty_curve: Option<LoyaltyCurve>,
        amm_pool_id: AmmPoolId,
        asset_a: AssetId,
        asset_b: AssetId,
    ) -> Option<Error> {
        let gf = self.global_farms_view()[global_farm_id];
        if multiplier == 0 {
            Some(Error::InvalidMultiplier)
        } else if loyalty_curve is Some && !loyalty_curve->Some_0.is_valid() {
            Some(Error::InvalidLoyaltyCurve)
        } else if !self.global_farms_view().contains_key(global_farm_id) || gf.state
            != GlobalFarmState::Active {
            Some(Error::GlobalFarmNotFound)
        } else if who != gf.owner {
            Some(Error::Forbidden)
        } else if active_in(self.active_view(), amm_pool_id, global_farm_id) {
            Some(Error::YieldFarmAlreadyExists)
        } else if gf.incentivized_asset != asset_a && gf.incentivized_asset != asset_b {
            Some(Error::MissingIncentivizedAsset)
        } else {
            None
        }
    }

    /// Creates an active yield farm of pool `amm_pool_id` in the global farm of `who`.
    /// The global farm is synced first; the new farm starts at the current period with the
    /// global farm's `accumulated_rpz` and counts as live. Returns the new farm's id.
    pub fn create_yield_farm(
        &mut self,
        who: AccountId,
        global_farm_id: GlobalFarmId,
        multiplier: FarmMultiplier,
        loyalty_curve: Option<LoyaltyCurve>,
        amm_pool_id: AmmPoolId,
        asset_a: AssetId,
        asset_b: AssetId,
    ) -> (r: Result<YieldFarmId, Error>)
        requires
            old(self).wf(),
        ensures
            final(self).wf(),
            final(self).supply_kept(old(self)),
            final(self).block() == old(self).block(),
            final(self).max_entries() == old(self).max_entries(),
            ({
                let err = old(self).create_yield_farm_error(
                    who,
                    global_farm_id,
                    multiplier,
                    loyalty_curve,
                    amm_pool_id,
                    asset_a,
                    asset_b,
                );
                let gf = old(self).global_farms_view()[global_farm_id];
                let now = old(self).period(gf.blocks_per_period);
                let id = (old(self).farm_seq() + 1) as YieldFarmId;
                &&& err is Some ==> r == Err::<YieldFarmId, _>(err->Some_0)
                &&& r is Err ==> final(self).same_state(old(self))
                &&& err is None ==> match sync_global_spec(gf, now, old(self).left(gf)) {
                    Err(e) => r == Err::<YieldFarmId, _>(e),
                    Ok((g, _)) => {
                        &&& r is Ok <==> (old(self).farm_seq() < u32::MAX && g.yield_farms_count.0
                            < u32::MAX && g.yield_farms_count.1 < u32::MAX)
                        &&& r is Ok ==> {
                            &&& r->Ok_0 == id
                            &&& final(self).farm_seq() == id
                            &&& final(self).global_farms_view()
                                == old(self).global_farms_view().insert(
                                global_farm_id,
                                GlobalFarmData {
                                    yield_farms_count: (
                                        (g.yield_farms_count.0 + 1) as u32,
                                        (g.yield_farms_count.1 + 1) as u32,
                                    ),
                                    ..g
                                },
                            )
                            &&& final(self).yield_farms_view() == old(self).yield_farms_view().insert(
                                id,
                                YieldFarmSlot {
                                    amm_pool_id,
                                    global_farm_id,
                                    farm: YieldFarmData {
                                        id,
                                        updated_at: now,
                                        total_shares: 0,
                                        total_valued_shares: 0,
                                        accumulated_rpvs: 0,
                                        accumulated_rpz: g.accumulated_rpz,
                                        loyalty_curve,
                                        multiplier,
                                        state: YieldFarmState::Active,
                                        entries_count: 0,
                                    },
                                },
                            )
                            &&& final(self).active_view() == old(self).active_view().push(
                                ActiveYieldFarm { amm_pool_id, global_farm_id, yield_farm_id: id },
                            )
                            &&& final(self).deposits_view() == old(self).deposits_view()
                            &&& final(self).ledger_view() == old(self).ledger_view()
                        }
                    },
                }
            }),
    {
        if multiplier == 0 {
            return Err(Error::InvalidMultiplier);
        }
        match loyalty_curve {
            Some(c) => {
                if !(c.initial_reward_percentage < FIXED_ONE && c.scale_coef >= 1) {
                    return Err(Error::InvalidLoyaltyCurve);
                }
            },
            None => {},
        }
        let gf = match self.global_farm(global_farm_id) {
            Some(g) => g,
            None => return Err(Error::GlobalFarmNotFound),
        };
        if !gf.is_active() {
            return Err(Error::GlobalFarmNotFound);
        }
        if who != gf.owner {
            return Err(Error::Forbidden);
        }
        if self.find_active(amm_pool_id, global_farm_id).is_some() {
            return Err(Error::YieldFarmAlreadyExists);
        }
        if gf.incentivized_asset != asset_a && gf.incentivized_asset != asset_b {
            return Err(Error::MissingIncentivizedAsset);
        }
        let now = self.block_number / gf.blocks_per_period;
        let left = self.ledger.free_balance(gf.reward_currency, farm_account_id(global_farm_id));
        let (mut g, _) = match sync_global_farm(gf, now, left) {
            Ok(v) => v,
            Err(e) => return Err(e),
        };
        if self.farm_sequencer == u32::MAX {
            return Err(Error::Overflow);
        }
        match g.yield_farm_added() {
            Ok(()) => {},
            Err(_) => return Err(Error::Overflow),
        }
        let id = match self.next_farm_id() {
            Ok(v) => v,
            Err(e) => return Err(e),
        };
        let mut yf = YieldFarmData::new(id, now, loyalty_curve, multiplier);
        yf.accumulated_rpz = g.accumulated_rpz;
        let slot = YieldFarmSlot { amm_pool_id, global_farm_id, farm: yf };
        self.put_global_farm(g);
        self.put_yield_farm(slot);
        self.push_active(ActiveYieldFarm { amm_pool_id, global_farm_id, yield_farm_id: id });
        proof {
            assert(!old(self).yield_farms_view().contains_key(id));
            let deps = old(self).deposits_view();
            assert forall|k: DepositId, i: int|
                deps.contains_key(k) && 0 <= i < deps[k].entries().len() implies #[trigger] deps[k].entries()[i].yield_farm_id
                != id by {
                if deps[k].entries()[i].yield_farm_id == id {
                    assert(has_entry_for(deps[k].entries(), id));
                }
            }
            lemma_counted_new_farm(
                old(self).yield_farms_view(),
                old(self).deposits_view(),
                id,
                slot,
            );
        }
        Ok(id)
    }

    /// Why an owner's operation on the active yield farm of a pool fails before any
    /// computation, in the order it checks, if it does.
    pub open spec fn owner_active_error(
        &self,
        who: AccountId,
        global_farm_id: GlobalFarmId,
        amm_pool_id: AmmPoolId,
    ) -> Option<Error> {
        if !self.global_farms_view().contains_key(global_farm_id) {
            Some(Error::GlobalFarmNotFound)
        } else if who != self.global_farms_view()[global_farm_id].owner {
            Some(Error::Forbidden)
        } else if !active_in(self.active_view(), amm_pool_id, global_farm_id)
            || !self.yield_farms_view().contains_key(
            active_id(self.active_view(), amm_pool_id, global_farm_id),
        ) {
            Some(Error::YieldFarmNotFound)
        } else {
            None
        }
    }

    /// Stops the active yield farm of `amm_pool_id`: it is synced, keeps its entries, and stops
    /// earning; its stake leaves the global farm. Returns its id.
    pub fn stop_yield_farm(&mut self, who: AccountId, global_farm_id: GlobalFarmId, amm_pool_id: AmmPoolId) -> (r:
        Result<YieldFarmId, Error>)
        requires
            old(self).wf(),
        ensures
            final(self).wf(),
            final(self).supply_kept(old(self)),
            final(self).block() == old(self).block(),
            final(self).max_entries() == old(self).max_entries(),
            ({
                let err = old(self).owner_active_error(who, global_farm_id, amm_pool_id);
                let gf = old(self).global_farms_view()[global_farm_id];
                let yf_id = active_id(old(self).active_view(), amm_pool_id, global_farm_id);
                let slot = old(self).yield_farms_view()[yf_id];
                let now = old(self).period(gf.blocks_per_period);
                &&& err is Some ==> r == Err::<YieldFarmId, _>(err->Some_0)
                &&& r is Err ==> final(self).same_state(old(self))
                &&& err is None && slot.farm.state != YieldFarmState::Active ==> r == Err::<
                    YieldFarmId,
                    _,
                >(Error::YieldFarmAlreadyStopped)
                &&& err is None && slot.farm.state == YieldFarmState::Active ==> match stop_spec(
                    gf,
                    slot.farm,
                    now,
                    old(self).left(gf),
                ) {
                    Err(e) => r == Err::<YieldFarmId, _>(e),
                    Ok((g, y, pickup)) => {
                        &&& r is Ok <==> old(self).ledger_view().can_transfer(
                            gf.reward_currency,
                            farm_account(global_farm_id),
                            farm_account(yf_id),
                            pickup,
                        )
                        &&& r is Ok ==> {
                            &&& r->Ok_0 == yf_id
                            &&& final(self).global_farms_view()
                                == old(self).global_farms_view().insert(global_farm_id, g)
                            &&& final(self).yield_farms_view() == old(self).yield_farms_view().insert(
                                yf_id,
                                YieldFarmSlot { farm: y, ..slot },
                            )
                            &&& final(self).active_view() == old(self).active_view().remove(
                                active_index(old(self).active_view(), amm_pool_id, global_farm_id),
                            )
                            &&& !active_in(final(self).active_view(), amm_pool_id, global_farm_id)
                            &&& final(self).ledger_view().moved(
                                &old(self).ledger_view(),
                                gf.reward_currency,
                                farm_account(global_farm_id),
                                farm_account(yf_id),
                                pickup as nat,
                            )
                            &&& final(self).deposits_view() == old(self).deposits_view()
                            &&& final(self).farm_seq() == old(self).farm_seq()
                        }
                    },
                }
            }),
    {
        let gf = match self.global_farm(global_farm_id) {
            Some(g) => g,
            None => return Err(Error::GlobalFarmNotFound),
        };
        if who != gf.owner {
            return Err(Error::Forbidden);
        }
        let i = match self.find_active(amm_pool_id, global_farm_id) {
            Some(i) => i,
            None => return Err(Error::YieldFarmNotFound),
        };
        let yf_id = self.active_yield_farms[i].yield_farm_id;
        let slot = match self.yield_farm_slot(yf_id) {
            Some(s) => s,
            None => return Err(Error::YieldFarmNotFound),
        };
        if !slot.farm.is_active() {
            return Err(Error::YieldFarmAlreadyStopped);
        }
        let now = self.block_number / gf.blocks_per_period;
        let left = self.ledger.free_balance(gf.reward_currency, farm_account_id(global_farm_id));
        let (g, y, pickup) = match stop_farm(gf, slot.farm, now, left) {
            Ok(v) => v,
            Err(e) => return Err(e),
        };
        match self.move_balance(
            gf.reward_currency,
            farm_account_id(global_farm_id),
            farm_account_id(yf_id),
            pickup,
        ) {
            Ok(()) => {},
            Err(e) => return Err(e),
        }
        self.put_global_farm(g);
        self.put_yield_farm(YieldFarmSlot { farm: y, ..slot });
        self.remove_active(i);
        Ok(yf_id)
    }

    /// Changes the multiplier of the active yield farm of `amm_pool_id` after syncing it.
    /// Returns its id.
    pub fn update_yield_farm_multiplier(
        &mut self,
        who: AccountId,
        global_farm_id: GlobalFarmId,
        amm_pool_id: AmmPoolId,
        multiplier: FarmMultiplier,
    ) -> (r: Result<YieldFarmId, Error>)
        requires
            old(self).wf(),
        ensures
            final(self).wf(),
            final(self).supply_kept(old(self)),
            final(self).block() == old(self).block(),
            final(self).max_entries() == old(self).max_entries(),
            ({
                let err = old(self).owner_active_error(who, global_farm_id, amm_pool_id);
                let gf = old(self).global_farms_view()[global_farm_id];
                let yf_id = active_id(old(self).active_view(), amm_pool_id, global_farm_id);
                let slot = old(self).yield_farms_view()[yf_id];
                let now = old(self).period(gf.blocks_per_period);
                &&& multiplier == 0 ==> r == Err::<YieldFarmId, _>(Error::InvalidMultiplier)
                &&& multiplier != 0 && err is Some ==> r == Err::<YieldFarmId, _>(err->Some_0)
                &&& r is Err ==> final(self).same_state(old(self))
                &&& multiplier != 0 && err is None ==> match update_multiplier_spec(
                    gf,
                    slot.farm,
                    now,
                    old(self).left(gf),
                    multiplier,
                ) {
                    Err(e) => r == Err::<YieldFarmId, _>(e),
                    Ok((g, y, pickup)) => {
                        &&& r is Ok <==> old(self).ledger_view().can_transfer(
                            gf.reward_currency,
                            farm_account(global_farm_id),
                            farm_account(yf_id),
                            pickup,
                        )
                        &&& r is Ok ==> {
                            &&& r->Ok_0 == yf_id
                            &&& final(self).global_farms_view()
                                == old(self).global_farms_view().insert(global_farm_id, g)
                            &&& final(self).yield_farms_view() == old(self).yield_farms_view().insert(
                                yf_id,
                                YieldFarmSlot { farm: y, ..slot },
                            )
                            &&& final(self).active_view() == old(self).active_view()
                            &&& final(self).ledger_view().moved(
                                &old(self).ledger_view(),
                                gf.reward_currency,
                                farm_account(global_farm_id),
                                farm_account(yf_id),
                                pickup as nat,
                            )
                            &&& final(self).deposits_view() == old(self).deposits_view()
                            &&& final(self).farm_seq() == old(self).farm_seq()
                        }
                    },
                }
            }),
    {
        if multiplier == 0 {
            return Err(Error::InvalidMultiplier);
        }
        let gf = match self.global_farm(global_farm_id) {
            Some(g) => g,
            None => return Err(Error::GlobalFarmNotFound),
        };
        if who != gf.owner {
            return Err(Error::Forbidden);
        }
        let i = match self.find_active(amm_pool_id, global_farm_id) {
            Some(i) => i,
            None => return Err(Error::YieldFarmNotFound),
        };
        let yf_id = self.active_yield_farms[i].yield_farm_id;
        let slot = match self.yield_farm_slot(yf_id) {
            Some(s) => s,
            None => return Err(Error::YieldFarmNotFound),
        };
        let now = self.block_number / gf.blocks_per_period;
        let left = self.ledger.free_balance(gf.reward_currency, farm_account_id(global_farm_id));
        let (g, y, pickup) = match update_multiplier(gf, slot.farm, now, left, multiplier) {
            Ok(v) => v,
            Err(e) => return Err(e),
        };
        match self.move_balance(
            gf.reward_currency,
            farm_account_id(global_farm_id),
            farm_account_id(yf_id),
            pickup,
        ) {
            Ok(()) => {},
            Err(e) => return Err(e),
        }
        self.put_global_farm(g);
        self.put_yield_farm(YieldFarmSlot { farm: y, ..slot });
        Ok(yf_id)
    }

    /// Why an owner's operation on yield farm `yield_farm_id` fails before any computation, in
    /// the order it checks, if it does.
    pub open spec fn owner_farm_error(
        &self,
        who: AccountId,
        global_farm_id: GlobalFarmId,
        yield_farm_id: YieldFarmId,
        amm_pool_id: AmmPoolId,
    ) -> Option<Error> {
        let slot = self.yield_farms_view()[yield_farm_id];
        if !self.global_farms_view().contains_key(global_farm_id) {
            Some(Error::GlobalFarmNotFound)
        } else if who != self.global_farms_view()[global_farm_id].owner {
            Some(Error::Forbidden)
        } else if !self.yield_farms_view().contains_key(yield_farm_id) || slot.amm_pool_id
            != amm_pool_id || slot.global_farm_id != global_farm_id {
            Some(Error::YieldFarmNotFound)
        } else if slot.farm.state != YieldFarmState::Stopped {
            Some(Error::LiquidityMiningIsNotStopped)
        } else {
            None
        }
    }

    /// Resumes the stopped yield farm `yield_farm_id` with `multiplier`. It earns nothing for
    /// the periods it was stopped.
    pub fn resume_yield_farm(
        &mut self,
        who: AccountId,
        global_farm_id: GlobalFarmId,
        yield_farm_id: YieldFarmId,
        amm_pool_id: AmmPoolId,
        multiplier: FarmMultiplier,
    ) -> (r: Result<(), Error>)
        requires
            old(self).wf(),
        ensures
            final(self).wf(),
            final(self).supply_kept(old(self)),
            final(self).block() == old(self).block(),
            final(self).max_entries() == old(self).max_entries(),
            ({
                let err = old(self).owner_farm_error(who, global_farm_id, yield_farm_id, amm_pool_id);
                let gf = old(self).global_farms_view()[global_farm_id];
                let slot = old(self).yield_farms_view()[yield_farm_id];
                let now = old(self).period(gf.blocks_per_period);
                &&& multiplier == 0 ==> r == Err::<(), _>(Error::InvalidMultiplier)
                &&& multiplier != 0 && err is Some ==> r == Err::<(), _>(err->Some_0)
                &&& multiplier != 0 && err is None && active_in(
                    old(self).active_view(),
                    amm_pool_id,
                    global_farm_id,
                ) ==> r == Err::<(), _>(Error::YieldFarmAlreadyExists)
                &&& r is Err ==> final(self).same_state(old(self))
                &&& multiplier != 0 && err is None && !active_in(
                    old(self).active_view(),
                    amm_pool_id,
                    global_farm_id,
                ) ==> match resume_spec(gf, slot.farm, now, old(self).left(gf), multiplier) {
                    Err(e) => r == Err::<(), _>(e),
                    Ok((g, y)) => {
                        &&& r is Ok
                        &&& final(self).global_farms_view() == old(self).global_farms_view().insert(
                            global_farm_id,
                            g,
                        )
                        &&& final(self).yield_farms_view() == old(self).yield_farms_view().insert(
                            yield_farm_id,
                            YieldFarmSlot { farm: y, ..slot },
                        )
                        &&& final(self).active_view() == old(self).active_view().push(
                            ActiveYieldFarm { amm_pool_id, global_farm_id, yield_farm_id },
                        )
                        &&& final(self).ledger_view() == old(self).ledger_view()
                        &&& final(self).deposits_view() == old(self).deposits_view()
                        &&& final(self).farm_seq() == old(self).farm_seq()
                    },
                }
            }),
    {
        if multiplier == 0 {
            return Err(Error::InvalidMultiplier);
        }
        let gf = match self.global_farm(global_farm_id) {
            Some(g) => g,
            None => return Err(Error::GlobalFarmNotFound),
        };
        if who != gf.owner {
            return Err(Error::Forbidden);
        }
        let slot = match self.yield_farm_slot(yield_farm_id) {
            Some(s) => s,
            None => return Err(Error::YieldFarmNotFound),
        };
        if slot.amm_pool_id != amm_pool_id || slot.global_farm_id != global_farm_id {
            return Err(Error::YieldFarmNotFound);
        }
        if !slot.farm.is_stopped() {
            return Err(Error::LiquidityMiningIsNotStopped);
        }
        if self.find_active(amm_pool_id, global_farm_id).is_some() {
            return Err(Error::YieldFarmAlreadyExists);
        }
        let now = self.block_number / gf.blocks_per_period;
        let left = self.ledger.free_balance(gf.reward_currency, farm_account_id(global_farm_id));
        let (g, y) = match resume_farm(gf, slot.farm, now, left, multiplier) {
            Ok(v) => v,
            Err(e) => return Err(e),
        };
        self.put_global_farm(g);
        self.put_yield_farm(YieldFarmSlot { farm: y, ..slot });
        self.push_active(ActiveYieldFarm { amm_pool_id, global_farm_id, yield_farm_id });
        Ok(())
    }

    /// Deletes the stopped yield farm `yield_farm_id`: it stops counting as live, and leaves
    /// storage at once when it has no entries. Its entries can still be withdrawn.
    pub fn destroy_yield_farm(
        &mut self,
        who: AccountId,
        global_farm_id: GlobalFarmId,
        yield_farm_id: YieldFarmId,
        amm_pool_id: AmmPoolId,
    ) -> (r: Result<(), Error>)
        requires
            old(self).wf(),
        ensures
            final(self).wf(),
            final(self).supply_kept(old(self)),
            final(self).block() == old(self).block(),
            final(self).max_entries() == old(self).max_entries(),
            ({
                let err = old(self).owner_farm_error(who, global_farm_id, yield_farm_id, amm_pool_id);
                let gf = old(self).global_farms_view()[global_farm_id];
                let slot = old(self).yield_farms_view()[yield_farm_id];
                let flush = slot.farm.entries_count == 0;
                &&& err is Some ==> r == Err::<(), _>(err->Some_0)
                &&& r is Err ==> final(self).same_state(old(self))
                &&& err is None ==> (r is Ok <==> (gf.yield_farms_count.0 > 0 && (flush
                    ==> gf.yield_farms_count.1 > 0)))
                &&& err is None && r is Ok ==> {
                    &&& final(self).global_farms_view() == old(self).global_farms_view().insert(
                        global_farm_id,
                        GlobalFarmData {
                            yield_farms_count: (
                                (gf.yield_farms_count.0 - 1) as u32,
                                if flush {
                                    (gf.yield_farms_count.1 - 1) as u32
                                } else {
                                    gf.yield_farms_count.1
                                },
                            ),
                            ..gf
                        },
                    )
                    &&& flush ==> final(self).yield_farms_view() == old(self).yield_farms_view().remove(
                        yield_farm_id,
                    )
                    &&& !flush ==> final(self).yield_farms_view()
                        == old(self).yield_farms_view().insert(
                        yield_farm_id,
                        YieldFarmSlot {
                            farm: YieldFarmData { state: YieldFarmState::Deleted, ..slot.farm },
                            ..slot
                        },
                    )
                    &&& final(self).active_view() == old(self).active_view()
                    &&& final(self).ledger_view() == old(self).ledger_view()
                    &&& final(self).deposits_view() == old(self).deposits_view()
                    &&& final(self).farm_seq() == old(self).farm_seq()
                }
            }),
    {
        let gf = match self.global_farm(global_farm_id) {
            Some(g) => g,
            None => return Err(Error::GlobalFarmNotFound),
        };
        if who != gf.owner {
            return Err(Error::Forbidden);
        }
        let slot = match self.yield_farm_slot(yield_farm_id) {
            Some(s) => s,
            None => return Err(Error::YieldFarmNotFound),
        };
        if slot.amm_pool_id != amm_pool_id || slot.global_farm_id != global_farm_id {
            return Err(Error::YieldFarmNotFound);
        }
        if !slot.farm.is_stopped() {
            return Err(Error::LiquidityMiningIsNotStopped);
        }
        let mut g = gf;
        match g.yield_farm_removed() {
            Ok(()) => {},
            Err(_) => return Err(Error::Underflow),
        }
        let flush = slot.farm.entries_count == 0;
        if flush {
            match g.yield_farm_flushed() {
                Ok(()) => {},
                Err(_) => return Err(Error::Underflow),
            }
            self.put_global_farm(g);
            self.remove_yield_farm(yield_farm_id);
            proof {
                lemma_counted_farm_flushed(
                    old(self).yield_farms_view(),
                    old(self).deposits_view(),
                    yield_farm_id,
                );
            }
        } else {
            self.put_global_farm(g);
            let y = YieldFarmData { state: YieldFarmState::Deleted, ..slot.farm };
            self.put_yield_farm(YieldFarmSlot { farm: y, ..slot });
            proof {
                lemma_counted_farm_update(
                    old(self).yield_farms_view(),
                    old(self).deposits_view(),
                    yield_farm_id,
                    YieldFarmSlot { farm: y, ..slot },
                );
            }
        }
        Ok(())
    }

    fn next_deposit_id(&mut self) -> (r: DepositId)
        requires
            old(self).stores_fit(),
            old(self).deposit_seq() < u128::MAX,
        ensures
            final(self).stores_fit(),
            r == old(self).deposit_seq() + 1,
            final(self).deposit_seq() == r,
            !old(self).deposits_view().contains_key(r),
            final(self).global_farms_view() == old(self).global_farms_view(),
            final(self).yield_farms_view() == old(self).yield_farms_view(),
            final(self).deposits_view() == old(self).deposits_view(),
            final(self).active_view() == old(self).active_view(),
            final(self).ledger_view() == old(self).ledger_view(),
            final(self).farm_seq() == old(self).farm_seq(),
            final(self).block() == old(self).block(),
            final(self).max_entries() == old(self).max_entries(),
    {
        let id = self.deposit_sequencer + 1;
        self.deposit_sequencer = id;
        id
    }

    /// Why `deposit_lp_shares` refuses its arguments, in the order it checks, if it does.
    pub open spec fn deposit_error(
        &self,
        global_farm_id: GlobalFarmId,
        yield_farm_id: YieldFarmId,
        amm_pool_id: AmmPoolId,
        shares: Balance,
        valued_shares: Balance,
    ) -> Option<Error> {
        let slot = self.yield_farms_view()[yield_farm_id];
        if !self.global_farms_view().contains_key(global_farm_id) {
            Some(Error::GlobalFarmNotFound)
        } else if !self.yield_farms_view().contains_key(yield_farm_id) || slot.amm_pool_id
            != amm_pool_id || slot.global_farm_id != global_farm_id {
            Some(Error::YieldFarmNotFound)
        } else if slot.farm.state != YieldFarmState::Active {
            Some(Error::LiquidityMiningCanceled)
        } else if shares < self.global_farms_view()[global_farm_id].min_deposit {
            Some(Error::InsufficientDeposit)
        } else if valued_shares == 0 {
            Some(Error::ZeroValuedShares)
        } else {
            None
        }
    }

    /// Deposits `shares` of pool `amm_pool_id`, worth `valued_shares`, into the active yield
    /// farm `yield_farm_id`: a new deposit with one entry that starts earning at the current
    /// period from the yield farm's current `accumulated_rpvs`. Returns the deposit's id.
    pub fn deposit_lp_shares(
        &mut self,
        global_farm_id: GlobalFarmId,
        yield_farm_id: YieldFarmId,
        amm_pool_id: AmmPoolId,
        shares: Balance,
        valued_shares: Balance,
    ) -> (r: Result<DepositId, Error>)
        requires
            old(self).wf(),
        ensures
            final(self).wf(),
            final(self).supply_kept(old(self)),
            final(self).block() == old(self).block(),
            final(self).max_entries() == old(self).max_entries(),
            ({
                let err = old(self).deposit_error(
                    global_farm_id,
                    yield_farm_id,
                    amm_pool_id,
                    shares,
                    valued_shares,
                );
                let gf = old(self).global_farms_view()[global_farm_id];
                let slot = old(self).yield_farms_view()[yield_farm_id];
                let now = old(self).period(gf.blocks_per_period);
                let id = (old(self).deposit_seq() + 1) as DepositId;
                &&& err is Some ==> r == Err::<DepositId, _>(err->Some_0)
                &&& r is Err ==> final(self).same_state(old(self))
                &&& err is None ==> match enter_spec(
                    gf,
                    slot.farm,
                    now,
                    old(self).left(gf),
                    shares,
                    valued_shares,
                ) {
                    Err(e) => r == Err::<DepositId, _>(e),
                    Ok((g, y, pickup)) => {
                        &&& r is Ok <==> (old(self).deposit_seq() < u128::MAX
                            && old(self).ledger_view().can_transfer(
                            gf.reward_currency,
                            farm_account(global_farm_id),
                            farm_account(yield_farm_id),
                            pickup,
                        ))
                        &&& r is Ok ==> {
                            let d = final(self).deposits_view()[id];
                            &&& r->Ok_0 == id
                            &&& final(self).deposit_seq() == id
                            &&& !old(self).deposits_view().contains_key(id)
                            &&& final(self).deposits_view() == old(self).deposits_view().insert(id, d)
                            &&& d.shares == shares
                            &&& d.amm_pool_id == amm_pool_id
                            &&& d.entries() == seq![
                                YieldFarmEntry {
                                    global_farm_id,
                                    yield_farm_id,
                                    valued_shares,
                                    accumulated_rpvs: y.accumulated_rpvs,
                                    accumulated_claimed_rewards: 0,
                                    entered_at: now,
                                    updated_at: now,
                                },
                            ]
                            &&& final(self).global_farms_view()
                                == old(self).global_farms_view().insert(global_farm_id, g)
                            &&& final(self).yield_farms_view() == old(self).yield_farms_view().insert(
                                yield_farm_id,
                                YieldFarmSlot { farm: y, ..slot },
                            )
                            &&& final(self).ledger_view().moved(
                                &old(self).ledger_view(),
                                gf.reward_currency,
                                farm_account(global_farm_id),
                                farm_account(yield_farm_id),
                                pickup as nat,
                            )
                            &&& final(self).active_view() == old(self).active_view()
                            &&& final(self).farm_seq() == old(self).farm_seq()
                        }
                    },
                }
            }),
    {
        let gf = match self.global_farm(global_farm_id) {
            Some(g) => g,
            None => return Err(Error::GlobalFarmNotFound),
        };
        let slot = match self.yield_farm_slot(yield_farm_id) {
            Some(s) => s,
            None => return Err(Error::YieldFarmNotFound),
        };
        if slot.amm_pool_id != amm_pool_id || slot.global_farm_id != global_farm_id {
            return Err(Error::YieldFarmNotFound);
        }
        if !slot.farm.is_active() {
            return Err(Error::LiquidityMiningCanceled);
        }
        if shares < gf.min_deposit {
            return Err(Error::InsufficientDeposit);
        }
        if valued_shares == 0 {
            return Err(Error::ZeroValuedShares);
        }
        let now = self.block_number / gf.blocks_per_period;
        let left = self.ledger.free_balance(gf.reward_currency, farm_account_id(global_farm_id));
        let (g, y, pickup) = match enter_farm(gf, slot.farm, now, left, shares, valued_shares) {
            Ok(v) => v,
            Err(e) => return Err(e),
        };
        if self.deposit_sequencer == u128::MAX {
            return Err(Error::Overflow);
        }
        match self.move_balance(
            gf.reward_currency,
            farm_account_id(global_farm_id),
            farm_account_id(yield_farm_id),
            pickup,
        ) {
            Ok(()) => {},
            Err(e) => return Err(e),
        }
        let id = self.next_deposit_id();
        let entry = YieldFarmEntry::new(
            global_farm_id,
            yield_farm_id,
            valued_shares,
            y.accumulated_rpvs,
            now,
        );
        let mut d = DepositData::new(shares, amm_pool_id);
        let added = d.add_yield_farm_entry(entry, self.max_entries_per_deposit);
        proof {
            assert(added is Ok);
            assert(d.entries() =~= seq![entry]);
        }
        self.put_global_farm(g);
        self.put_yield_farm(YieldFarmSlot { farm: y, ..slot });
        self.put_deposit(id, d);
        proof {
            assert forall|j: YieldFarmId| #[trigger]
                has_entry_for(d.entries(), j) == (has_entry_for(
                    entries_at(old(self).deposits_view(), id),
                    j,
                ) || j == yield_farm_id) by {
                if j == yield_farm_id {
                    assert(d.entries()[0].yield_farm_id == j);
                }
            }
            lemma_entry_index_unique(d.entries(), yield_farm_id, 0);
            lemma_counted_entry_added(
                old(self).yield_farms_view(),
                old(self).deposits_view(),
                id,
                d,
                yield_farm_id,
                YieldFarmSlot { farm: y, ..slot },
            );
        }
        Ok(id)
    }

    /// Why `redeposit_lp_shares` refuses its arguments, in the order it checks, if it does.
    pub open spec fn redeposit_error(
        &self,
        global_farm_id: GlobalFarmId,
        yield_farm_id: YieldFarmId,
        deposit_id: DepositId,
        valued_shares: Balance,
    ) -> Option<Error> {
        let d = self.deposits_view()[deposit_id];
        let slot = self.yield_farms_view()[yield_farm_id];
        if !self.deposits_view().contains_key(deposit_id) {
            Some(Error::DepositNotFound)
        } else if !self.global_farms_view().contains_key(global_farm_id) {
            Some(Error::GlobalFarmNotFound)
        } else if !self.yield_farms_view().contains_key(yield_farm_id) || slot.amm_pool_id
            != d.amm_pool_id || slot.global_farm_id != global_farm_id {
            Some(Error::YieldFarmNotFound)
        } else if slot.farm.state != YieldFarmState::Active {
            Some(Error::LiquidityMiningCanceled)
        } else if d.shares < self.global_farms_view()[global_farm_id].min_deposit {
            Some(Error::InsufficientDeposit)
        } else if valued_shares == 0 {
            Some(Error::ZeroValuedShares)
        } else if has_entry_for(d.entries(), yield_farm_id) {
            Some(Error::DoubleLock)
        } else if d.entries().len() >= self.max_entries() {
            Some(Error::MaxEntriesPerDeposit)
        } else {
            None
        }
    }

    /// Adds to deposit `deposit_id` an entry in another yield farm of its pool, worth
    /// `valued_shares`. Returns the deposit's shares and pool.
    pub fn redeposit_lp_shares(
        &mut self,
        global_farm_id: GlobalFarmId,
        yield_farm_id: YieldFarmId,
        deposit_id: DepositId,
        valued_shares: Balance,
    ) -> (r: Result<(Balance, AmmPoolId), Error>)
        requires
            old(self).wf(),
        ensures
            final(self).wf(),
            final(self).supply_kept(old(self)),
            final(self).block() == old(self).block(),
            final(self).max_entries() == old(self).max_entries(),
            ({
                let err = old(self).redeposit_error(
                    global_farm_id,
                    yield_farm_id,
                    deposit_id,
                    valued_shares,
                );
                let d = old(self).deposits_view()[deposit_id];
                let gf = old(self).global_farms_view()[global_farm_id];
                let slot = old(self).yield_farms_view()[yield_farm_id];
                let now = old(self).period(gf.blocks_per_period);
                &&& err is Some ==> r == Err::<(Balance, AmmPoolId), _>(err->Some_0)
                &&& r is Err ==> final(self).same_state(old(self))
                &&& err is None ==> match enter_spec(
                    gf,
                    slot.farm,
                    now,
                    old(self).left(gf),
                    d.shares,
                    valued_shares,
                ) {
                    Err(e) => r == Err::<(Balance, AmmPoolId), _>(e),
                    Ok((g, y, pickup)) => {
                        &&& r is Ok <==> old(self).ledger_view().can_transfer(
                            gf.reward_currency,
                            farm_account(global_farm_id),
                            farm_account(yield_farm_id),
                            pickup,
                        )
                        &&& r is Ok ==> {
                            let d2 = final(self).deposits_view()[deposit_id];
                            &&& r->Ok_0 == (d.shares, d.amm_pool_id)
                            &&& final(self).deposits_view() == old(self).deposits_view().insert(
                                deposit_id,
                                d2,
                            )
                            &&& d2.shares == d.shares
                            &&& d2.amm_pool_id == d.amm_pool_id
                            &&& exists|i: int|
                                0 <= i <= d.entries().len() && d2.entries() == d.entries().insert(
                                    i,
                                    YieldFarmEntry {
                                        global_farm_id,
                                        yield_farm_id,
                                        valued_shares,
                                        accumulated_rpvs: y.accumulated_rpvs,
                                        accumulated_claimed_rewards: 0,
                                        entered_at: now,
                                        updated_at: now,
                                    },
                                )
                            &&& final(self).global_farms_view()
                                == old(self).global_farms_view().insert(global_farm_id, g)
                            &&& final(self).yield_farms_view() == old(self).yield_farms_view().insert(
                                yield_farm_id,
                                YieldFarmSlot { farm: y, ..slot },
                            )
                            &&& final(self).ledger_view().moved(
                                &old(self).ledger_view(),
                                gf.reward_currency,
                                farm_account(global_farm_id),
                                farm_account(yield_farm_id),
                                pickup as nat,
                            )
                            &&& final(self).active_view() == old(self).active_view()
                            &&& final(self).farm_seq() == old(self).farm_seq()
                            &&& final(self).deposit_seq() == old(self).deposit_seq()
                        }
                    },
                }
            }),
    {
        let (shares, amm_pool_id, locked, full) = match self.deposits.get(&deposit_id) {
            Some(d) => (
                d.shares,
                d.amm_pool_id,
                d.contains_yield_farm_entry(yield_farm_id),
                d.yield_farm_entries.len() >= self.max_entries_per_deposit as usize,
            ),
            None => return Err(Error::DepositNotFound),
        };
        let gf = match self.global_farm(global_farm_id) {
            Some(g) => g,
            None => return Err(Error::GlobalFarmNotFound),
        };
        let slot = match self.yield_farm_slot(yield_farm_id) {
            Some(s) => s,
            None => return Err(Error::YieldFarmNotFound),
        };
        if slot.amm_pool_id != amm_pool_id || slot.global_farm_id != global_farm_id {
            return Err(Error::YieldFarmNotFound);
        }
        if !slot.farm.is_active() {
            return Err(Error::LiquidityMiningCanceled);
        }
        if shares < gf.min_deposit {
            return Err(Error::InsufficientDeposit);
        }
        if valued_shares == 0 {
            return Err(Error::ZeroValuedShares);
        }
        if locked {
            return Err(Error::DoubleLock);
        }
        if full {
            return Err(Error::MaxEntriesPerDeposit);
        }
        let now = self.block_number / gf.blocks_per_period;
        let left = self.ledger.free_balance(gf.reward_currency, farm_account_id(global_farm_id));
        let (g, y, pickup) = match enter_farm(gf, slot.farm, now, left, shares, valued_shares) {
            Ok(v) => v,
            Err(e) => return Err(e),
        };
        match self.move_balance(
            gf.reward_currency,
            farm_account_id(global_farm_id),
            farm_account_id(yield_farm_id),
            pickup,
        ) {
            Ok(()) => {},
            Err(e) => return Err(e),
        }
        let entry = YieldFarmEntry::new(
            global_farm_id,
            yield_farm_id,
            valued_shares,
            y.accumulated_rpvs,
            now,
        );
        let mut d = match self.take_deposit(deposit_id) {
            Some(d) => d,
            None => return Err(Error::DepositNotFound),
        };
        let ghost before = d.entries();
        let added = d.add_yield_farm_entry(entry, self.max_entries_per_deposit);
        proof {
            assert(added is Ok);
            let i = choose|i: int|
                0 <= i <= before.len() && d.entries() == before.insert(i, entry);
            assert forall|j: YieldFarmId| #[trigger]
                has_entry_for(d.entries(), j) == (has_entry_for(before, j) || j == yield_farm_id) by {
                lemma_has_entry_insert(before, i, entry, j);
            }
            assert(d.entries()[i] == entry);
            lemma_entry_index_unique(d.entries(), yield_farm_id, i);
            assert forall|j: YieldFarmId|
                j != yield_farm_id && has_entry_for(before, j) implies #[trigger] entry_for(
                d.entries(),
                j,
            ).valued_shares == entry_for(before, j).valued_shares by {
                lemma_entry_for_insert(before, i, entry, j);
            }
        }
        self.put_deposit(deposit_id, d);
        self.put_global_farm(g);
        self.put_yield_farm(YieldFarmSlot { farm: y, ..slot });
        proof {
            assert(self.deposits_view() =~= old(self).deposits_view().insert(
                deposit_id,
                self.deposits_view()[deposit_id],
            ));
            lemma_counted_entry_added(
                old(self).yield_farms_view(),
                old(self).deposits_view(),
                deposit_id,
                d,
                yield_farm_id,
                YieldFarmSlot { farm: y, ..slot },
            );
        }
        Ok((shares, amm_pool_id))
    }

    /// Why `claim_rewards` fails before any computation, in the order it checks, if it does.
    pub open spec fn claim_error(&self, deposit_id: DepositId, yield_farm_id: YieldFarmId) -> Option<
        Error,
    > {
        let d = self.deposits_view()[deposit_id];
        let e = entry_for(d.entries(), yield_farm_id);
        let slot = self.yield_farms_view()[yield_farm_id];
        if !self.deposits_view().contains_key(deposit_id) {
            Some(Error::DepositNotFound)
        } else if !has_entry_for(d.entries(), yield_farm_id) {
            Some(Error::YieldFarmEntryNotFound)
        } else if !self.yield_farms_view().contains_key(yield_farm_id) || slot.farm.state
            == YieldFarmState::Deleted {
            Some(Error::YieldFarmNotFound)
        } else if !self.global_farms_view().contains_key(e.global_farm_id) {
            Some(Error::GlobalFarmNotFound)
        } else {
            None
        }
    }

    /// Claims the rewards of the entry of `yield_farm_id` in deposit `deposit_id` for `who`.
    ///
    /// A first claim in a period syncs the farms (while the yield farm is active), pays the
    /// loyalty-weighted reward from the yield farm's account to `who` and marks the entry
    /// claimed in this period. A second claim in the same period fails with
    /// `DoubleClaimInPeriod` when `fail_on_doubleclaim`, and otherwise changes nothing and
    /// reports no claimable reward with the entry's current unclaimable reward.
    /// Returns `(global_farm_id, reward_currency, claimable, unclaimable)`.
    pub fn claim_rewards(
        &mut self,
        who: AccountId,
        deposit_id: DepositId,
        yield_farm_id: YieldFarmId,
        fail_on_doubleclaim: bool,
    ) -> (r: Result<(GlobalFarmId, AssetId, Balance, Balance), Error>)
        requires
            old(self).wf(),
        ensures
            final(self).wf(),
            final(self).supply_kept(old(self)),
            final(self).block() == old(self).block(),
            final(self).max_entries() == old(self).max_entries(),
            ({
                let err = old(self).claim_error(deposit_id, yield_farm_id);
                let d = old(self).deposits_view()[deposit_id];
                let e = entry_for(d.entries(), yield_farm_id);
                let slot = old(self).yield_farms_view()[yield_farm_id];
                let gf = old(self).global_farms_view()[e.global_farm_id];
                let now = old(self).period(gf.blocks_per_period);
                let yf_account = farm_account(yield_farm_id);
                let gf_account = farm_account(e.global_farm_id);
                &&& err is Some ==> r == Err::<(GlobalFarmId, AssetId, Balance, Balance), _>(
                    err->Some_0,
                )
                &&& r is Err ==> final(self).same_state(old(self))
                &&& err is None && e.updated_at == now && fail_on_doubleclaim ==> r == Err::<
                    (GlobalFarmId, AssetId, Balance, Balance),
                    _,
                >(Error::DoubleClaimInPeriod)
                &&& err is None && e.updated_at == now && !fail_on_doubleclaim ==> {
                    &&& match claim_amounts_spec(slot.farm, e, now) {
                        Err(x) => r == Err::<(GlobalFarmId, AssetId, Balance, Balance), _>(x),
                        Ok((_, u)) => r == Ok::<_, Error>(
                            (e.global_farm_id, gf.reward_currency, 0u128, u),
                        ),
                    }
                    &&& final(self).same_state(old(self))
                }
                &&& err is None && e.updated_at == now && !fail_on_doubleclaim && e.entered_at == now
                    && slot.farm.state == YieldFarmState::Active && (slot.farm.loyalty_curve is Some
                    ==> slot.farm.loyalty_curve->Some_0.is_valid()) ==> r == match rewards_at(
                    e.accumulated_rpvs,
                    e.valued_shares,
                    e.accumulated_claimed_rewards,
                    slot.farm.accumulated_rpvs,
                    initial_loyalty(slot.farm.loyalty_curve),
                ) {
                    None => Err::<(GlobalFarmId, AssetId, Balance, Balance), _>(Error::Overflow),
                    Some((_, u)) => Ok((e.global_farm_id, gf.reward_currency, 0u128, u)),
                }
                &&& err is None && e.updated_at != now ==> match claim_spec(
                    gf,
                    slot.farm,
                    e,
                    now,
                    old(self).left(gf),
                ) {
                    Err(x) => r == Err::<(GlobalFarmId, AssetId, Balance, Balance), _>(x),
                    Ok((g, y, pickup, c, u)) => {
                        &&& r is Ok <==> old(self).ledger_view().can_transfer_twice(
                            gf.reward_currency,
                            gf_account,
                            yf_account,
                            pickup,
                            yf_account,
                            who,
                            c,
                        )
                        &&& r is Ok ==> {
                            let d2 = final(self).deposits_view()[deposit_id];
                            &&& r->Ok_0 == (e.global_farm_id, gf.reward_currency, c, u)
                            &&& final(self).global_farms_view()
                                == old(self).global_farms_view().insert(e.global_farm_id, g)
                            &&& final(self).yield_farms_view() == old(self).yield_farms_view().insert(
                                yield_farm_id,
                                YieldFarmSlot { farm: y, ..slot },
                            )
                            &&& final(self).deposits_view() == old(self).deposits_view().insert(
                                deposit_id,
                                d2,
                            )
                            &&& d2.shares == d.shares
                            &&& d2.amm_pool_id == d.amm_pool_id
                            &&& d2.entries() == d.entries().update(
                                entry_index(d.entries(), yield_farm_id),
                                YieldFarmEntry {
                                    accumulated_claimed_rewards: (e.accumulated_claimed_rewards
                                        + c) as u128,
                                    updated_at: now,
                                    ..e
                                },
                            )
                            &&& exists|mid: Ledger|
                                mid.moved(
                                    &old(self).ledger_view(),
                                    gf.reward_currency,
                                    gf_account,
                                    yf_account,
                                    pickup as nat,
                                ) && final(self).ledger_view().moved(
                                    &mid,
                                    gf.reward_currency,
                                    yf_account,
                                    who,
                                    c as nat,
                                )
                            &&& final(self).active_view() == old(self).active_view()
                            &&& final(self).farm_seq() == old(self).farm_seq()
                            &&& final(self).deposit_seq() == old(self).deposit_seq()
                            &&& (who != gf_account && yf_account != gf_account) ==> g.paid_accumulated_rewards
                                + final(self).balance(gf.reward_currency, gf_account)
                                == gf.paid_accumulated_rewards + old(self).balance(
                                gf.reward_currency,
                                gf_account,
                            )
                        }
                    },
                }
            }),
    {
        let e = match self.deposits.get(&deposit_id) {
            Some(d) => match d.get_yield_farm_entry(yield_farm_id) {
                Some(e) => e,
                None => return Err(Error::YieldFarmEntryNotFound),
            },
            None => return Err(Error::DepositNotFound),
        };
        let slot = match self.yield_farm_slot(yield_farm_id) {
            Some(s) => s,
            None => return Err(Error::YieldFarmNotFound),
        };
        if slot.farm.is_deleted() {
            return Err(Error::YieldFarmNotFound);
        }
        let gf = match self.global_farm(e.global_farm_id) {
            Some(g) => g,
            None => return Err(Error::GlobalFarmNotFound),
        };
        let now = self.block_number / gf.blocks_per_period;
        if e.updated_at == now {
            if fail_on_doubleclaim {
                return Err(Error::DoubleClaimInPeriod);
            }
            return match claim_amounts(slot.farm, e, now) {
                Ok((_, u)) => Ok((e.global_farm_id, gf.reward_currency, 0, u)),
                Err(x) => Err(x),
            };
        }
        let gf_account = farm_account_id(e.global_farm_id);
        let yf_account = farm_account_id(yield_farm_id);
        let left = self.ledger.free_balance(gf.reward_currency, gf_account);
        let (g, y, pickup, c, u) = match claim_farm(gf, slot.farm, e, now, left) {
            Ok(v) => v,
            Err(x) => return Err(x),
        };
        let ghost l0 = self.ledger_view();
        match self.move_balance(gf.reward_currency, gf_account, yf_account, pickup) {
            Ok(()) => {},
            Err(x) => return Err(x),
        }
        let ghost l1 = self.ledger_view();
        match self.move_balance(gf.reward_currency, yf_account, who, c) {
            Ok(()) => {},
            Err(x) => {
                proof {
                    assert(!l0.can_transfer_twice(
                        gf.reward_currency,
                        gf_account,
                        yf_account,
                        pickup,
                        yf_account,
                        who,
                        c,
                    )) by {
                        assert(l1.moved(&l0, gf.reward_currency, gf_account, yf_account, pickup as nat));
                    }
                    l1.lemma_balance_bounded(gf.reward_currency, gf_account);
                    l0.lemma_balance_bounded(gf.reward_currency, gf_account);
                    assert(l1.can_transfer(gf.reward_currency, yf_account, gf_account, pickup));
                }
                let ghost l2 = self.ledger_view();
                let back = self.move_balance(gf.reward_currency, yf_account, gf_account, pickup);
                proof {
                    assert(back is Ok);
                    Ledger::lemma_moved_back(
                        &l0,
                        &l2,
                        &self.ledger_view(),
                        gf.reward_currency,
                        gf_account,
                        yf_account,
                        pickup as nat,
                    );
                }
                return Err(x);
            },
        }
        proof {
            let l2 = self.ledger_view();
            assert forall|mid: Ledger| #[trigger]
                mid.moved(&l0, gf.reward_currency, gf_account, yf_account, pickup as nat)
                implies mid.can_transfer(gf.reward_currency, yf_account, who, c) by {
                assert(mid.balance(gf.reward_currency, yf_account) == l1.balance(
                    gf.reward_currency,
                    yf_account,
                ));
                assert(mid.balance(gf.reward_currency, who) == l1.balance(gf.reward_currency, who));
            }
            assert(l1.moved(&l0, gf.reward_currency, gf_account, yf_account, pickup as nat));
        }
        let mut d = match self.take_deposit(deposit_id) {
            Some(d) => d,
            None => return Err(Error::DepositNotFound),
        };
        let claimed = YieldFarmEntry {
            accumulated_claimed_rewards: e.accumulated_claimed_rewards + c,
            updated_at: now,
            ..e
        };
        let ghost before = d.entries();
        let updated = d.update_yield_farm_entry(claimed);
        proof {
            assert(updated is Ok);
            let idx = entry_index(before, yield_farm_id);
            assert(before[idx].yield_farm_id == yield_farm_id);
            assert forall|j: YieldFarmId| #[trigger]
                has_entry_for(d.entries(), j) == has_entry_for(before, j) by {
                lemma_has_entry_update(before, idx, claimed, j);
            }
            assert(d.entries()[idx] == claimed);
            lemma_entry_index_unique(d.entries(), yield_farm_id, idx);
            assert forall|j: YieldFarmId| has_entry_for(before, j) implies #[trigger] entry_for(
                d.entries(),
                j,
            ).valued_shares == entry_for(before, j).valued_shares by {
                if j != yield_farm_id {
                    lemma_entry_for_update(before, idx, claimed, j);
                }
            }
        }
        self.put_deposit(deposit_id, d);
        self.put_global_farm(g);
        self.put_yield_farm(YieldFarmSlot { farm: y, ..slot });
        proof {
            assert(self.deposits_view() =~= old(self).deposits_view().insert(
                deposit_id,
                self.deposits_view()[deposit_id],
            ));
            lemma_counted_entry_updated(
                old(self).yield_farms_view(),
                old(self).deposits_view(),
                deposit_id,
                d,
                yield_farm_id,
                YieldFarmSlot { farm: y, ..slot },
            );
        }
        Ok((e.global_farm_id, gf.reward_currency, c, u))
    }

    /// Why `withdraw_lp_shares` fails before any computation, in the order it checks, if it does.
    pub open spec fn withdraw_error(&self, deposit_id: DepositId, yield_farm_id: YieldFarmId) -> Option<
        Error,
    > {
        let d = self.deposits_view()[deposit_id];
        let e = entry_for(d.entries(), yield_farm_id);
        if !self.deposits_view().contains_key(deposit_id) {
            Some(Error::DepositNotFound)
        } else if !has_entry_for(d.entries(), yield_farm_id) {
            Some(Error::YieldFarmEntryNotFound)
        } else if !self.yield_farms_view().contains_key(yield_farm_id) {
            Some(Error::YieldFarmNotFound)
        } else if !self.global_farms_view().contains_key(e.global_farm_id) {
            Some(Error::GlobalFarmNotFound)
        } else {
            None
        }
    }

    /// Withdraws the entry of `yield_farm_id` from deposit `deposit_id` and returns
    /// `unclaimable_rewards` from the yield farm's account to the global farm's. A deleted yield
    /// farm left without entries is flushed, and then its global farm too if it is deleted and
    /// has no yield farm left. A deposit left without entries is flushed.
    /// Returns `(global_farm_id, shares, deposit_flushed)`.
    pub fn withdraw_lp_shares(
        &mut self,
        deposit_id: DepositId,
        yield_farm_id: YieldFarmId,
        unclaimable_rewards: Balance,
    ) -> (r: Result<(GlobalFarmId, Balance, bool), Error>)
        requires
            old(self).wf(),
        ensures
            final(self).wf(),
            final(self).supply_kept(old(self)),
            final(self).block() == old(self).block(),
            final(self).max_entries() == old(self).max_entries(),
            ({
                let err = old(self).withdraw_error(deposit_id, yield_farm_id);
                let d = old(self).deposits_view()[deposit_id];
                let e = entry_for(d.entries(), yield_farm_id);
                let slot = old(self).yield_farms_view()[yield_farm_id];
                let gf = old(self).global_farms_view()[e.global_farm_id];
                &&& err is Some ==> r == Err::<(GlobalFarmId, Balance, bool), _>(err->Some_0)
                &&& r is Err ==> final(self).same_state(old(self))
                &&& err is None ==> match withdraw_spec(gf, slot.farm, e, d.shares) {
                    Err(x) => r == Err::<(GlobalFarmId, Balance, bool), _>(x),
                    Ok((g, y)) => {
                        let yf_flush = y.state == YieldFarmState::Deleted && y.entries_count == 0;
                        let g2 = if yf_flush {
                            GlobalFarmData {
                                yield_farms_count: (
                                    g.yield_farms_count.0,
                                    (g.yield_farms_count.1 - 1) as u32,
                                ),
                                ..g
                            }
                        } else {
                            g
                        };
                        let gf_flush = g2.state == GlobalFarmState::Deleted
                            && g2.yield_farms_count.1 == 0;
                        let last = d.entries().len() == 1;
                        &&& r is Ok <==> (!(yf_flush && g.yield_farms_count.1 == 0)
                            && old(self).ledger_view().can_transfer(
                            gf.reward_currency,
                            farm_account(yield_farm_id),
                            farm_account(e.global_farm_id),
                            unclaimable_rewards,
                        ))
                        &&& r is Ok ==> {
                            &&& r->Ok_0 == (e.global_farm_id, d.shares, last)
                            &&& final(self).global_farms_view() == if gf_flush {
                                old(self).global_farms_view().remove(e.global_farm_id)
                            } else {
                                old(self).global_farms_view().insert(e.global_farm_id, g2)
                            }
                            &&& final(self).yield_farms_view() == if yf_flush {
                                old(self).yield_farms_view().remove(yield_farm_id)
                            } else {
                                old(self).yield_farms_view().insert(
                                    yield_farm_id,
                                    YieldFarmSlot { farm: y, ..slot },
                                )
                            }
                            &&& last ==> final(self).deposits_view()
                                == old(self).deposits_view().remove(deposit_id)
                            &&& !last ==> final(self).deposits_view()
                                == old(self).deposits_view().insert(
                                deposit_id,
                                final(self).deposits_view()[deposit_id],
                            )
                            &&& !last ==> final(self).deposits_view()[deposit_id].entries()
                                == d.entries().remove(entry_index(d.entries(), yield_farm_id))
                            &&& !last ==> final(self).deposits_view()[deposit_id].shares == d.shares
                            &&& final(self).ledger_view().moved(
                                &old(self).ledger_view(),
                                gf.reward_currency,
                                farm_account(yield_farm_id),
                                farm_account(e.global_farm_id),
                                unclaimable_rewards as nat,
                            )
                            &&& final(self).active_view() == old(self).active_view()
                            &&& final(self).farm_seq() == old(self).farm_seq()
                            &&& final(self).deposit_seq() == old(self).deposit_seq()
                        }
                    },
                }
            }),
    {
        let (e, shares, count) = match self.deposits.get(&deposit_id) {
            Some(d) => match d.get_yield_farm_entry(yield_farm_id) {
                Some(e) => (e, d.shares, d.yield_farm_entries.len()),
                None => return Err(Error::YieldFarmEntryNotFound),
            },
            None => return Err(Error::DepositNotFound),
        };
        let slot = match self.yield_farm_slot(yield_farm_id) {
            Some(s) => s,
            None => return Err(Error::YieldFarmNotFound),
        };
        let gf = match self.global_farm(e.global_farm_id) {
            Some(g) => g,
            None => return Err(Error::GlobalFarmNotFound),
        };
        let (mut g, y) = match withdraw_farm(gf, slot.farm, e, shares) {
            Ok(v) => v,
            Err(x) => return Err(x),
        };
        let yf_flush = y.can_be_flushed();
        if yf_flush {
            match g.yield_farm_flushed() {
                Ok(()) => {},
                Err(_) => return Err(Error::Underflow),
            }
        }
        match self.move_balance(
            gf.reward_currency,
            farm_account_id(yield_farm_id),
            farm_account_id(e.global_farm_id),
            unclaimable_rewards,
        ) {
            Ok(()) => {},
            Err(x) => return Err(x),
        }
        if yf_flush {
            self.remove_yield_farm(yield_farm_id);
        } else {
            self.put_yield_farm(YieldFarmSlot { farm: y, ..slot });
        }
        if g.can_be_flushed() {
            self.remove_global_farm(e.global_farm_id);
        } else {
            self.put_global_farm(g);
        }
        let mut d = match self.take_deposit(deposit_id) {
            Some(d) => d,
            None => return Err(Error::DepositNotFound),
        };
        let removed = d.remove_yield_farm_entry(yield_farm_id);
        proof {
            assert(removed is Ok);
            let i = choose|i: int|
                0 <= i < old(self).deposits_view()[deposit_id].entries().len()
                    && old(self).deposits_view()[deposit_id].entries()[i] == removed->Ok_0
                    && d.entries() == old(self).deposits_view()[deposit_id].entries().remove(i);
            lemma_entry_index_unique(
                old(self).deposits_view()[deposit_id].entries(),
                yield_farm_id,
                i,
            );
        }
        let last = count == 1;
        if last {
            proof {
                assert(self.deposits_view() == old(self).deposits_view().remove(deposit_id));
            }
        } else {
            self.put_deposit(deposit_id, d);
            proof {
                assert(self.deposits_view() =~= old(self).deposits_view().insert(
                    deposit_id,
                    self.deposits_view()[deposit_id],
                ));
            }
        }
        proof {
            let yfs0 = old(self).yield_farms_view();
            let deps0 = old(self).deposits_view();
            let before = deps0[deposit_id].entries();
            let idx = entry_index(before, yield_farm_id);
            let kept = YieldFarmSlot { farm: y, ..slot };
            if last {
                assert forall|j: YieldFarmId| #[trigger]
                    has_entry_for(before, j) implies j == yield_farm_id by {
                    let k = choose|k: int| 0 <= k < before.len() && #[trigger] before[k].yield_farm_id == j;
                    assert(k == 0 && idx == 0);
                }
            } else {
                assert forall|j: YieldFarmId| #[trigger]
                    has_entry_for(d.entries(), j) == (has_entry_for(before, j) && j != yield_farm_id) by {
                    lemma_has_entry_remove(before, idx, j);
                }
                assert forall|j: YieldFarmId|
                    j != yield_farm_id && has_entry_for(d.entries(), j) implies #[trigger] entry_for(
                    d.entries(),
                    j,
                ).valued_shares == entry_for(before, j).valued_shares by {
                    lemma_has_entry_remove(before, idx, j);
                    lemma_entry_for_remove(before, idx, j);
                }
            }
            lemma_counted_entry_removed(
                yfs0,
                deps0,
                self.deposits_view(),
                deposit_id,
                yield_farm_id,
                kept,
            );
            if yf_flush {
                lemma_counted_farm_flushed(
                    yfs0.insert(yield_farm_id, kept),
                    self.deposits_view(),
                    yield_farm_id,
                );
                assert(yfs0.insert(yield_farm_id, kept).remove(yield_farm_id) =~= yfs0.remove(
                    yield_farm_id,
                ));
            }
        }
        Ok((e.global_farm_id, shares, last))
    }
}

} // verus!
