use vstd::prelude::*;
use crate::engine::{depositors, farm_account, LiquidityMining};
use crate::farm::{
    claim_amounts_spec, claim_spec, enter_spec, resume_spec, stop_spec, sync_global_spec,
    sync_yield_spec, synced_spec, update_multiplier_spec, withdraw_spec,
};
use crate::ledger::Ledger;
use crate::tally::stake_sum;
use crate::types::{
    entries_sorted, has_entry_for, AccountId, AssetId, Balance, DepositId, FarmMultiplier,
    GlobalFarmData, Period, YieldFarmData, YieldFarmEntry, YieldFarmId, YieldFarmState, FIXED_ONE,
};

verus! {

/// Rewards that leave a global farm's account on a sync are exactly those it records as paid:
/// `paid_accumulated_rewards` plus the account's balance is unchanged, and so is the sum of the
/// balances of the two farm accounts.
pub proof fn lemma_sync_conserves_rewards(
    gf: GlobalFarmData,
    yf: YieldFarmData,
    now: Period,
    left: Balance,
    before: Ledger,
    after: Ledger,
    yf_account: AccountId,
)
    requires
        synced_spec(gf, yf, now, left) is Ok,
        after.moved(
            &before,
            gf.reward_currency,
            farm_account(gf.id),
            yf_account,
            synced_spec(gf, yf, now, left)->Ok_0.2 as nat,
        ),
        before.balance(gf.reward_currency, farm_account(gf.id)) >= synced_spec(
            gf,
            yf,
            now,
            left,
        )->Ok_0.2,
        yf_account != farm_account(gf.id),
    ensures
        ({
            let (g, _, _) = synced_spec(gf, yf, now, left)->Ok_0;
            let gfa = farm_account(gf.id);
            &&& g.paid_accumulated_rewards + after.balance(gf.reward_currency, gfa)
                == gf.paid_accumulated_rewards + before.balance(gf.reward_currency, gfa)
            &&& after.balance(gf.reward_currency, gfa) + after.balance(gf.reward_currency, yf_account)
                == before.balance(gf.reward_currency, gfa) + before.balance(
                gf.reward_currency,
                yf_account,
            )
        }),
{
}

/// A transfer changes no total: what leaves one account arrives at the other, and every other
/// balance stays.
pub proof fn lemma_transfer_conserves(
    before: Ledger,
    after: Ledger,
    asset: AssetId,
    from: AccountId,
    to: AccountId,
    amount: nat,
)
    requires
        after.moved(&before, asset, from, to, amount),
        before.balance(asset, from) >= amount,
    ensures
        after.balance(asset, from) + after.balance(asset, to) == before.balance(asset, from)
            + before.balance(asset, to) || from == to,
        forall|a: AssetId, w: AccountId|
            !(a == asset && (w == from || w == to)) ==> #[trigger] after.balance(a, w)
                == before.balance(a, w),
{
}

/// Syncing never lowers the global farm's `accumulated_rpz` or the yield farm's
/// `accumulated_rpvs`.
pub proof fn lemma_sync_monotone(gf: GlobalFarmData, yf: YieldFarmData, now: Period, left: Balance)
    requires
        synced_spec(gf, yf, now, left) is Ok,
    ensures
        synced_spec(gf, yf, now, left)->Ok_0.0.accumulated_rpz >= gf.accumulated_rpz,
        synced_spec(gf, yf, now, left)->Ok_0.1.accumulated_rpvs >= yf.accumulated_rpvs,
{
    let (g, _) = sync_global_spec(gf, now, left)->Ok_0;
    assert(g.accumulated_rpz >= gf.accumulated_rpz);
    assert(sync_yield_spec(yf, g, now) is Ok);
}

/// No operation on the farms lowers an accumulator: entering, claiming, stopping, resuming,
/// changing the multiplier and withdrawing keep `accumulated_rpz` and `accumulated_rpvs` at
/// least where they were.
pub proof fn lemma_operations_monotone(
    gf: GlobalFarmData,
    yf: YieldFarmData,
    e: YieldFarmEntry,
    now: Period,
    left: Balance,
    shares: Balance,
    valued_shares: Balance,
    multiplier: FarmMultiplier,
)
    ensures
        enter_spec(gf, yf, now, left, shares, valued_shares) is Ok ==> {
            let (g, y, _) = enter_spec(gf, yf, now, left, shares, valued_shares)->Ok_0;
            g.accumulated_rpz >= gf.accumulated_rpz && y.accumulated_rpvs >= yf.accumulated_rpvs
        },
        claim_spec(gf, yf, e, now, left) is Ok ==> {
            let (g, y, _, _, _) = claim_spec(gf, yf, e, now, left)->Ok_0;
            g.accumulated_rpz >= gf.accumulated_rpz && y.accumulated_rpvs >= yf.accumulated_rpvs
        },
        stop_spec(gf, yf, now, left) is Ok ==> {
            let (g, y, _) = stop_spec(gf, yf, now, left)->Ok_0;
            g.accumulated_rpz >= gf.accumulated_rpz && y.accumulated_rpvs >= yf.accumulated_rpvs
        },
        update_multiplier_spec(gf, yf, now, left, multiplier) is Ok ==> {
            let (g, y, _) = update_multiplier_spec(gf, yf, now, left, multiplier)->Ok_0;
            g.accumulated_rpz >= gf.accumulated_rpz && y.accumulated_rpvs >= yf.accumulated_rpvs
        },
        resume_spec(gf, yf, now, left, multiplier) is Ok ==> {
            let (g, y) = resume_spec(gf, yf, now, left, multiplier)->Ok_0;
            g.accumulated_rpz >= gf.accumulated_rpz && y.accumulated_rpvs >= yf.accumulated_rpvs
        },
        withdraw_spec(gf, yf, e, shares) is Ok ==> {
            let (g, y) = withdraw_spec(gf, yf, e, shares)->Ok_0;
            g.accumulated_rpz >= gf.accumulated_rpz && y.accumulated_rpvs >= yf.accumulated_rpvs
        },
{
    if synced_spec(gf, yf, now, left) is Ok {
        lemma_sync_monotone(gf, yf, now, left);
    }
    if sync_global_spec(gf, now, left) is Ok {
        assert(sync_global_spec(gf, now, left)->Ok_0.0.accumulated_rpz >= gf.accumulated_rpz);
    }
}

/// Every deposit in a well-formed store keeps its entries strictly increasing by yield farm id.
pub proof fn lemma_deposit_entries_sorted(s: &LiquidityMining, id: DepositId)
    requires
        s.wf(),
        s.deposits_view().contains_key(id),
    ensures
        entries_sorted(s.deposits_view()[id].entries()),
{
}

/// In a well-formed store every yield farm's `entries_count` is the number of deposits with an
/// entry in it, its `total_shares` adds up their shares and its `total_valued_shares` their
/// entries' valued shares; and every entry of a deposit is in a stored yield farm.
pub proof fn lemma_counts_match_contents(s: &LiquidityMining, id: YieldFarmId, k: DepositId)
    requires
        s.wf(),
    ensures
        s.yield_farms_view().contains_key(id) ==> {
            let yf = s.yield_farms_view()[id].farm;
            let holders = depositors(s.deposits_view(), id);
            &&& yf.entries_count == holders.len()
            &&& yf.total_shares == stake_sum(s.deposits_view(), holders, id, false)
            &&& yf.total_valued_shares == stake_sum(s.deposits_view(), holders, id, true)
        },
        s.deposits_view().contains_key(k) && has_entry_for(s.deposits_view()[k].entries(), id)
            ==> s.yield_farms_view().contains_key(id),
{
}

/// Entering a yield farm and withdrawing that entry again restores the yield farm's entry
/// count, `total_shares` and `total_valued_shares`, and the global farm's `total_shares_z`.
pub proof fn lemma_enter_withdraw_restores_counts(
    gf: GlobalFarmData,
    yf: YieldFarmData,
    now: Period,
    left: Balance,
    shares: Balance,
    e: YieldFarmEntry,
)
    requires
        enter_spec(gf, yf, now, left, shares, e.valued_shares) is Ok,
        yf.state == YieldFarmState::Active,
    ensures
        ({
            let (g0, y0, _) = synced_spec(gf, yf, now, left)->Ok_0;
            let (g1, y1, _) = enter_spec(gf, yf, now, left, shares, e.valued_shares)->Ok_0;
            &&& y1.entries_count == y0.entries_count + 1
            &&& y1.total_shares == y0.total_shares + shares
            &&& y1.total_valued_shares == y0.total_valued_shares + e.valued_shares
            &&& withdraw_spec(g1, y1, e, shares) is Ok
            &&& withdraw_spec(g1, y1, e, shares)->Ok_0.1.entries_count == y0.entries_count
            &&& withdraw_spec(g1, y1, e, shares)->Ok_0.1.total_shares == y0.total_shares
            &&& withdraw_spec(g1, y1, e, shares)->Ok_0.1.total_valued_shares
                == y0.total_valued_shares
            &&& withdraw_spec(g1, y1, e, shares)->Ok_0.0.total_shares_z == g0.total_shares_z
        }),
{
    let (g0, _) = sync_global_spec(gf, now, left)->Ok_0;
    assert(sync_yield_spec(yf, g0, now) is Ok);
}

/// A second claim in the period of a claim finds nothing more to claim and the same
/// unclaimable reward: after `claim_spec` gives `(claimable, unclaimable)`, the entry with the
/// claimable reward added to what it claimed gets `(0, unclaimable)`.
pub proof fn lemma_double_claim_idempotent(
    gf: GlobalFarmData,
    yf: YieldFarmData,
    e: YieldFarmEntry,
    now: Period,
    left: Balance,
)
    requires
        claim_spec(gf, yf, e, now, left) is Ok,
    ensures
        ({
            let (_, y, _, c, u) = claim_spec(gf, yf, e, now, left)->Ok_0;
            claim_amounts_spec(
                y,
                YieldFarmEntry {
                    accumulated_claimed_rewards: (e.accumulated_claimed_rewards + c) as Balance,
                    updated_at: now,
                    ..e
                },
                now,
            ) == Ok::<(Balance, Balance), crate::types::Error>((0u128, u))
        }),
{
}

/// A claim on a stopped yield farm syncs neither farm and picks up nothing; what it reports,
/// claimable plus unclaimable, is the reward accrued up to the stop less what was already
/// claimed.
pub proof fn lemma_stopped_claim(
    gf: GlobalFarmData,
    yf: YieldFarmData,
    e: YieldFarmEntry,
    now: Period,
    left: Balance,
)
    requires
        yf.state == YieldFarmState::Stopped,
        claim_spec(gf, yf, e, now, left) is Ok,
    ensures
        ({
            let (g, y, pickup, c, u) = claim_spec(gf, yf, e, now, left)->Ok_0;
            let gross = ((yf.accumulated_rpvs - e.accumulated_rpvs) * e.valued_shares) / (
                FIXED_ONE as int);
            &&& g == gf
            &&& y == yf
            &&& pickup == 0
            &&& gross > 0 ==> c + u == gross - e.accumulated_claimed_rewards
            &&& gross == 0 ==> c == 0 && u == 0
        }),
{
}

} // verus!
