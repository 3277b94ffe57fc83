use vstd::prelude::*;
use crate::math::{
    accumulated_rps_spec, checked_accumulated_rps, checked_reward_per_period, entry_gross_reward,
    entry_rewards, entry_rewards_spec, fixed_mul_int, global_pool_shares, gross_reward,
    initial_loyalty, mul_int_of, permill_to_fixed, reward_per_period_spec, rewards_at,
};
use crate::types::{
    Balance, Error, FarmMultiplier, GlobalFarmData, Period, YieldFarmData, YieldFarmEntry,
    YieldFarmState, FIXED_ONE, PERMILL_ONE,
};

verus! {

/// The global farm advanced to period `now`, with `left` of its reward currency on its account,
/// and the reward it accrued on the way.
///
/// Each elapsed period emits `min(max_reward_per_period, yield_per_period * total_shares_z)`; the
/// emission of all elapsed periods, capped at `left`, raises the fixed-point `accumulated_rpz`
/// by `price_adjustment * reward / total_shares_z`, truncated. Without shares nothing accrues.
pub open spec fn sync_global_spec(gf: GlobalFarmData, now: Period, left: Balance) -> Result<
    (GlobalFarmData, Balance),
    Error,
> {
    if gf.updated_at == now {
        Ok((gf, 0u128))
    } else if gf.total_shares_z == 0 {
        Ok((GlobalFarmData { updated_at: now, ..gf }, 0u128))
    } else if now < gf.updated_at {
        Err(Error::Underflow)
    } else {
        match reward_per_period_spec(
            (gf.yield_per_period as int * 1_000_000_000_000) as u128,
            gf.total_shares_z,
            gf.max_reward_per_period,
        ) {
            None => Err(Error::Overflow),
            Some(per_period) => {
                let all = (now - gf.updated_at) * per_period;
                if all > u128::MAX {
                    Err(Error::Overflow)
                } else {
                    let reward: u128 = if all < left { all as u128 } else { left };
                    if reward == 0 {
                        Ok((GlobalFarmData { updated_at: now, ..gf }, 0u128))
                    } else if reward * FIXED_ONE > u128::MAX {
                        Err(Error::Overflow)
                    } else {
                        match mul_int_of(
                            gf.price_adjustment,
                            ((reward * FIXED_ONE) / gf.total_shares_z as int) as u128,
                        ) {
                            None => Err(Error::Overflow),
                            Some(delta) => if gf.accumulated_rpz + delta > u128::MAX
                                || gf.accumulated_rewards + reward > u128::MAX {
                                Err(Error::Overflow)
                            } else {
                                Ok(
                                    (
                                        GlobalFarmData {
                                            updated_at: now,
                                            accumulated_rpz: (gf.accumulated_rpz + delta) as u128,
                                            accumulated_rewards: (gf.accumulated_rewards
                                                + reward) as u128,
                                            ..gf
                                        },
                                        reward,
                                    ),
                                )
                            },
                        }
                    }
                }
            },
        }
    }
}

pub fn sync_global_farm(gf: GlobalFarmData, now: Period, left: Balance) -> (r: Result<
    (GlobalFarmData, Balance),
    Error,
>)
    requires
        gf.yield_per_period <= PERMILL_ONE,
    ensures
        r == sync_global_spec(gf, now, left),
        r is Ok ==> r->Ok_0.0.accumulated_rpz >= gf.accumulated_rpz,
{
    if gf.updated_at == now {
        return Ok((gf, 0));
    }
    if gf.total_shares_z == 0 {
        return Ok((GlobalFarmData { updated_at: now, ..gf }, 0));
    }
    if now < gf.updated_at {
        return Err(Error::Underflow);
    }
    let yield_fixed = permill_to_fixed(gf.yield_per_period);
    let per_period = match checked_reward_per_period(
        yield_fixed,
        gf.total_shares_z,
        gf.max_reward_per_period,
    ) {
        Some(v) => v,
        None => return Err(Error::Overflow),
    };
    let periods = (now - gf.updated_at) as u128;
    let all = match periods.checked_mul(per_period) {
        Some(v) => v,
        None => return Err(Error::Overflow),
    };
    let reward = if all < left { all } else { left };
    if reward == 0 {
        return Ok((GlobalFarmData { updated_at: now, ..gf }, 0));
    }
    let scaled = match reward.checked_mul(FIXED_ONE) {
        Some(v) => v,
        None => return Err(Error::Overflow),
    };
    let per_share = match checked_accumulated_rps(0, gf.total_shares_z, scaled) {
        Some(v) => v,
        None => return Err(Error::Overflow),
    };
    assert(per_share == scaled / gf.total_shares_z);
    let delta = match fixed_mul_int(gf.price_adjustment, per_share) {
        Some(v) => v,
        None => return Err(Error::Overflow),
    };
    let rpz = match gf.accumulated_rpz.checked_add(delta) {
        Some(v) => v,
        None => return Err(Error::Overflow),
    };
    let accumulated = match gf.accumulated_rewards.checked_add(reward) {
        Some(v) => v,
        None => return Err(Error::Overflow),
    };
    Ok(
        (
            GlobalFarmData {
                updated_at: now,
                accumulated_rpz: rpz,
                accumulated_rewards: accumulated,
                ..gf
            },
            reward,
        ),
    )
}

/// The yield farm brought to period `now` against its global farm, the global farm after the
/// pickup, and the reward picked up.
///
/// The yield farm's stake is `multiplier * total_valued_shares`; it picks up
/// `(gf.accumulated_rpz - yf.accumulated_rpz) * stake`, truncated, which moves from the global
/// farm's undistributed to its paid rewards and raises the fixed-point `accumulated_rpvs` by
/// `reward / total_valued_shares`, truncated. Without valued shares only the snapshot advances.
pub open spec fn sync_yield_spec(yf: YieldFarmData, gf: GlobalFarmData, now: Period) -> Result<
    (YieldFarmData, GlobalFarmData, Balance),
    Error,
> {
    if yf.updated_at == now {
        Ok((yf, gf, 0u128))
    } else if yf.total_valued_shares == 0 {
        Ok((YieldFarmData { accumulated_rpz: gf.accumulated_rpz, updated_at: now, ..yf }, gf, 0u128))
    } else {
        match mul_int_of(yf.multiplier, yf.total_valued_shares) {
            None => Err(Error::Overflow),
            Some(stake) => match gross_reward(yf.accumulated_rpz, gf.accumulated_rpz, stake) {
                None => Err(Error::Overflow),
                Some(reward) => if reward * FIXED_ONE > u128::MAX {
                    Err(Error::Overflow)
                } else { match accumulated_rps_spec(
                    yf.accumulated_rpvs,
                    yf.total_valued_shares,
                    (reward * FIXED_ONE) as u128,
                ) {
                    None => Err(Error::Overflow),
                    Some(rpvs) => if reward > gf.accumulated_rewards {
                        Err(Error::Underflow)
                    } else if gf.paid_accumulated_rewards + reward > u128::MAX {
                        Err(Error::Overflow)
                    } else {
                        Ok(
                            (
                                YieldFarmData {
                                    accumulated_rpvs: rpvs,
                                    accumulated_rpz: gf.accumulated_rpz,
                                    updated_at: now,
                                    ..yf
                                },
                                GlobalFarmData {
                                    accumulated_rewards: (gf.accumulated_rewards - reward) as u128,
                                    paid_accumulated_rewards: (gf.paid_accumulated_rewards
                                        + reward) as u128,
                                    ..gf
                                },
                                reward,
                            ),
                        )
                    },
                } },
            },
        }
    }
}

pub fn sync_yield_farm(yf: YieldFarmData, gf: GlobalFarmData, now: Period) -> (r: Result<
    (YieldFarmData, GlobalFarmData, Balance),
    Error,
>)
    ensures
        r == sync_yield_spec(yf, gf, now),
        r is Ok ==> r->Ok_0.0.accumulated_rpvs >= yf.accumulated_rpvs,
        r is Ok ==> r->Ok_0.1.accumulated_rpz == gf.accumulated_rpz,
        r is Ok ==> r->Ok_0.1.paid_accumulated_rewards == gf.paid_accumulated_rewards + r->Ok_0.2,
{
    if yf.updated_at == now {
        return Ok((yf, gf, 0));
    }
    if yf.total_valued_shares == 0 {
        return Ok(
            (YieldFarmData { accumulated_rpz: gf.accumulated_rpz, updated_at: now, ..yf }, gf, 0),
        );
    }
    let stake = match global_pool_shares(yf.total_valued_shares, yf.multiplier) {
        Some(v) => v,
        None => return Err(Error::Overflow),
    };
    let reward = match entry_gross_reward(yf.accumulated_rpz, gf.accumulated_rpz, stake) {
        Some(v) => v,
        None => return Err(Error::Overflow),
    };
    let scaled = match reward.checked_mul(FIXED_ONE) {
        Some(v) => v,
        None => return Err(Error::Overflow),
    };
    let rpvs = match checked_accumulated_rps(yf.accumulated_rpvs, yf.total_valued_shares, scaled) {
        Some(v) => v,
        None => return Err(Error::Overflow),
    };
    if reward > gf.accumulated_rewards {
        return Err(Error::Underflow);
    }
    let paid = match gf.paid_accumulated_rewards.checked_add(reward) {
        Some(v) => v,
        None => return Err(Error::Overflow),
    };
    Ok(
        (
            YieldFarmData {
                accumulated_rpvs: rpvs,
                accumulated_rpz: gf.accumulated_rpz,
                updated_at: now,
                ..yf
            },
            GlobalFarmData {
                accumulated_rewards: gf.accumulated_rewards - reward,
                paid_accumulated_rewards: paid,
                ..gf
            },
            reward,
        ),
    )
}

/// Everything of a global farm but its accumulators, `total_shares_z` and `updated_at`.
pub open spec fn same_global_config(a: GlobalFarmData, b: GlobalFarmData) -> bool {
    &&& a.id == b.id
    &&& a.owner == b.owner
    &&& a.reward_currency == b.reward_currency
    &&& a.yield_per_period == b.yield_per_period
    &&& a.planned_yielding_periods == b.planned_yielding_periods
    &&& a.blocks_per_period == b.blocks_per_period
    &&& a.incentivized_asset == b.incentivized_asset
    &&& a.max_reward_per_period == b.max_reward_per_period
    &&& a.min_deposit == b.min_deposit
    &&& a.price_adjustment == b.price_adjustment
    &&& a.yield_farms_count == b.yield_farms_count
    &&& a.state == b.state
}

/// Both farms brought to period `now`: the global farm first, then the yield farm's pickup.
pub open spec fn synced_spec(gf: GlobalFarmData, yf: YieldFarmData, now: Period, left: Balance) -> Result<
    (GlobalFarmData, YieldFarmData, Balance),
    Error,
> {
    match sync_global_spec(gf, now, left) {
        Err(e) => Err(e),
        Ok((g, _)) => match sync_yield_spec(yf, g, now) {
            Err(e) => Err(e),
            Ok((y, g2, pickup)) => Ok((g2, y, pickup)),
        },
    }
}

pub fn sync_farms(gf: GlobalFarmData, yf: YieldFarmData, now: Period, left: Balance) -> (r: Result<
    (GlobalFarmData, YieldFarmData, Balance),
    Error,
>)
    requires
        gf.yield_per_period <= PERMILL_ONE,
    ensures
        r == synced_spec(gf, yf, now, left),
        r is Ok ==> same_global_config(r->Ok_0.0, gf) && r->Ok_0.1.id == yf.id
            && r->Ok_0.1.state == yf.state,
        r is Ok ==> r->Ok_0.0.accumulated_rpz >= gf.accumulated_rpz
            && r->Ok_0.1.accumulated_rpvs >= yf.accumulated_rpvs,
        r is Ok ==> r->Ok_0.0.paid_accumulated_rewards == gf.paid_accumulated_rewards + r->Ok_0.2,
{
    let (g, _) = match sync_global_farm(gf, now, left) {
        Ok(v) => v,
        Err(e) => return Err(e),
    };
    match sync_yield_farm(yf, g, now) {
        Ok((y, g2, pickup)) => Ok((g2, y, pickup)),
        Err(e) => Err(e),
    }
}

/// The farms after stopping the yield farm at `now`: synced, its stake taken out of
/// `total_shares_z`, its multiplier zero.
pub open spec fn stop_spec(gf: GlobalFarmData, yf: YieldFarmData, now: Period, left: Balance) -> Result<
    (GlobalFarmData, YieldFarmData, Balance),
    Error,
> {
    match synced_spec(gf, yf, now, left) {
        Err(e) => Err(e),
        Ok((g, y, pickup)) => match mul_int_of(y.multiplier, y.total_valued_shares) {
            None => Err(Error::Overflow),
            Some(stake) => if stake > g.total_shares_z {
                Err(Error::Underflow)
            } else {
                Ok(
                    (
                        GlobalFarmData { total_shares_z: (g.total_shares_z - stake) as u128, ..g },
                        YieldFarmData { state: YieldFarmState::Stopped, multiplier: 0, ..y },
                        pickup,
                    ),
                )
            },
        },
    }
}

pub fn stop_farm(gf: GlobalFarmData, yf: YieldFarmData, now: Period, left: Balance) -> (r: Result<
    (GlobalFarmData, YieldFarmData, Balance),
    Error,
>)
    requires
        gf.yield_per_period <= PERMILL_ONE,
    ensures
        r == stop_spec(gf, yf, now, left),
        r is Ok ==> same_global_config(r->Ok_0.0, gf) && r->Ok_0.1.id == yf.id,
        r is Ok ==> r->Ok_0.0.accumulated_rpz >= gf.accumulated_rpz
            && r->Ok_0.1.accumulated_rpvs >= yf.accumulated_rpvs,
        r is Ok ==> r->Ok_0.1.entries_count == yf.entries_count,
        r is Ok ==> r->Ok_0.1.total_shares == yf.total_shares && r->Ok_0.1.total_valued_shares == yf.total_valued_shares,
{
    let (g, y, pickup) = match sync_farms(gf, yf, now, left) {
        Ok(v) => v,
        Err(e) => return Err(e),
    };
    let stake = match global_pool_shares(y.total_valued_shares, y.multiplier) {
        Some(v) => v,
        None => return Err(Error::Overflow),
    };
    if stake > g.total_shares_z {
        return Err(Error::Underflow);
    }
    Ok(
        (
            GlobalFarmData { total_shares_z: g.total_shares_z - stake, ..g },
            YieldFarmData { state: YieldFarmState::Stopped, multiplier: 0, ..y },
            pickup,
        ),
    )
}

/// The farms after resuming the stopped yield farm at `now` with `multiplier`: the global farm
/// synced and charged with the new stake, the yield farm's snapshot set to the global
/// accumulator so that the stopped interval earns nothing.
pub open spec fn resume_spec(
    gf: GlobalFarmData,
    yf: YieldFarmData,
    now: Period,
    left: Balance,
    multiplier: FarmMultiplier,
) -> Result<(GlobalFarmData, YieldFarmData), Error> {
    match sync_global_spec(gf, now, left) {
        Err(e) => Err(e),
        Ok((g, _)) => match mul_int_of(multiplier, yf.total_valued_shares) {
            None => Err(Error::Overflow),
            Some(stake) => if g.total_shares_z + stake > u128::MAX {
                Err(Error::Overflow)
            } else {
                Ok(
                    (
                        GlobalFarmData { total_shares_z: (g.total_shares_z + stake) as u128, ..g },
                        YieldFarmData {
                            state: YieldFarmState::Active,
                            multiplier,
                            accumulated_rpz: g.accumulated_rpz,
                            updated_at: now,
                            ..yf
                        },
                    ),
                )
            },
        },
    }
}

pub fn resume_farm(
    gf: GlobalFarmData,
    yf: YieldFarmData,
    now: Period,
    left: Balance,
    multiplier: FarmMultiplier,
) -> (r: Result<(GlobalFarmData, YieldFarmData), Error>)
    requires
        gf.yield_per_period <= PERMILL_ONE,
    ensures
        r == resume_spec(gf, yf, now, left, multiplier),
        r is Ok ==> same_global_config(r->Ok_0.0, gf) && r->Ok_0.1.id == yf.id,
        r is Ok ==> r->Ok_0.0.accumulated_rpz >= gf.accumulated_rpz
            && r->Ok_0.1.accumulated_rpvs == yf.accumulated_rpvs,
        r is Ok ==> r->Ok_0.1.entries_count == yf.entries_count,
        r is Ok ==> r->Ok_0.1.total_shares == yf.total_shares && r->Ok_0.1.total_valued_shares == yf.total_valued_shares,
{
    let (g, _) = match sync_global_farm(gf, now, left) {
        Ok(v) => v,
        Err(e) => return Err(e),
    };
    let stake = match global_pool_shares(yf.total_valued_shares, multiplier) {
        Some(v) => v,
        None => return Err(Error::Overflow),
    };
    let z = match g.total_shares_z.checked_add(stake) {
        Some(v) => v,
        None => return Err(Error::Overflow),
    };
    Ok(
        (
            GlobalFarmData { total_shares_z: z, ..g },
            YieldFarmData {
                state: YieldFarmState::Active,
                multiplier,
                accumulated_rpz: g.accumulated_rpz,
                updated_at: now,
                ..yf
            },
        ),
    )
}

/// The farms after changing the yield farm's multiplier at `now`: synced, and its stake in
/// `total_shares_z` replaced by the stake at the new multiplier.
pub open spec fn update_multiplier_spec(
    gf: GlobalFarmData,
    yf: YieldFarmData,
    now: Period,
    left: Balance,
    multiplier: FarmMultiplier,
) -> Result<(GlobalFarmData, YieldFarmData, Balance), Error> {
    match synced_spec(gf, yf, now, left) {
        Err(e) => Err(e),
        Ok((g, y, pickup)) => match mul_int_of(y.multiplier, y.total_valued_shares) {
            None => Err(Error::Overflow),
            Some(old_stake) => match mul_int_of(multiplier, y.total_valued_shares) {
                None => Err(Error::Overflow),
                Some(new_stake) => if old_stake > g.total_shares_z {
                    Err(Error::Underflow)
                } else if g.total_shares_z - old_stake + new_stake > u128::MAX {
                    Err(Error::Overflow)
                } else {
                    Ok(
                        (
                            GlobalFarmData {
                                total_shares_z: (g.total_shares_z - old_stake + new_stake) as u128,
                                ..g
                            },
                            YieldFarmData { multiplier, ..y },
                            pickup,
                        ),
                    )
                },
            },
        },
    }
}

pub fn update_multiplier(
    gf: GlobalFarmData,
    yf: YieldFarmData,
    now: Period,
    left: Balance,
    multiplier: FarmMultiplier,
) -> (r: Result<(GlobalFarmData, YieldFarmData, Balance), Error>)
    requires
        gf.yield_per_period <= PERMILL_ONE,
    ensures
        r == update_multiplier_spec(gf, yf, now, left, multiplier),
        r is Ok ==> same_global_config(r->Ok_0.0, gf) && r->Ok_0.1.id == yf.id
            && r->Ok_0.1.state == yf.state,
        r is Ok ==> r->Ok_0.0.accumulated_rpz >= gf.accumulated_rpz
            && r->Ok_0.1.accumulated_rpvs >= yf.accumulated_rpvs,
        r is Ok ==> r->Ok_0.1.entries_count == yf.entries_count,
        r is Ok ==> r->Ok_0.1.total_shares == yf.total_shares && r->Ok_0.1.total_valued_shares == yf.total_valued_shares,
{
    let (g, y, pickup) = match sync_farms(gf, yf, now, left) {
        Ok(v) => v,
        Err(e) => return Err(e),
    };
    let old_stake = match global_pool_shares(y.total_valued_shares, y.multiplier) {
        Some(v) => v,
        None => return Err(Error::Overflow),
    };
    let new_stake = match global_pool_shares(y.total_valued_shares, multiplier) {
        Some(v) => v,
        None => return Err(Error::Overflow),
    };
    if old_stake > g.total_shares_z {
        return Err(Error::Underflow);
    }
    let z = match (g.total_shares_z - old_stake).checked_add(new_stake) {
        Some(v) => v,
        None => return Err(Error::Overflow),
    };
    Ok((GlobalFarmData { total_shares_z: z, ..g }, YieldFarmData { multiplier, ..y }, pickup))
}

/// The farms after an entry of `shares` valued at `valued_shares` joins the yield farm at
/// `now`: synced, then the yield farm's totals and the global farm's `total_shares_z` grow.
pub open spec fn enter_spec(
    gf: GlobalFarmData,
    yf: YieldFarmData,
    now: Period,
    left: Balance,
    shares: Balance,
    valued_shares: Balance,
) -> Result<(GlobalFarmData, YieldFarmData, Balance), Error> {
    match synced_spec(gf, yf, now, left) {
        Err(e) => Err(e),
        Ok((g, y, pickup)) => match mul_int_of(y.multiplier, valued_shares) {
            None => Err(Error::Overflow),
            Some(stake) => if y.total_shares + shares > u128::MAX || y.total_valued_shares
                + valued_shares > u128::MAX || y.entries_count == u64::MAX || g.total_shares_z
                + stake > u128::MAX {
                Err(Error::Overflow)
            } else {
                Ok(
                    (
                        GlobalFarmData { total_shares_z: (g.total_shares_z + stake) as u128, ..g },
                        YieldFarmData {
                            total_shares: (y.total_shares + shares) as u128,
                            total_valued_shares: (y.total_valued_shares + valued_shares) as u128,
                            entries_count: (y.entries_count + 1) as u64,
                            ..y
                        },
                        pickup,
                    ),
                )
            },
        },
    }
}

pub fn enter_farm(
    gf: GlobalFarmData,
    yf: YieldFarmData,
    now: Period,
    left: Balance,
    shares: Balance,
    valued_shares: Balance,
) -> (r: Result<(GlobalFarmData, YieldFarmData, Balance), Error>)
    requires
        gf.yield_per_period <= PERMILL_ONE,
    ensures
        r == enter_spec(gf, yf, now, left, shares, valued_shares),
        r is Ok ==> same_global_config(r->Ok_0.0, gf) && r->Ok_0.1.id == yf.id
            && r->Ok_0.1.state == yf.state,
        r is Ok ==> r->Ok_0.0.accumulated_rpz >= gf.accumulated_rpz
            && r->Ok_0.1.accumulated_rpvs >= yf.accumulated_rpvs,
        r is Ok ==> r->Ok_0.1.entries_count == yf.entries_count + 1,
        r is Ok ==> r->Ok_0.1.total_shares == yf.total_shares + shares && r->Ok_0.1.total_valued_shares == yf.total_valued_shares + valued_shares,
{
    let (g, y, pickup) = match sync_farms(gf, yf, now, left) {
        Ok(v) => v,
        Err(e) => return Err(e),
    };
    let stake = match global_pool_shares(valued_shares, y.multiplier) {
        Some(v) => v,
        None => return Err(Error::Overflow),
    };
    let total_shares = match y.total_shares.checked_add(shares) {
        Some(v) => v,
        None => return Err(Error::Overflow),
    };
    let total_valued_shares = match y.total_valued_shares.checked_add(valued_shares) {
        Some(v) => v,
        None => return Err(Error::Overflow),
    };
    if y.entries_count == u64::MAX {
        return Err(Error::Overflow);
    }
    let z = match g.total_shares_z.checked_add(stake) {
        Some(v) => v,
        None => return Err(Error::Overflow),
    };
    Ok(
        (
            GlobalFarmData { total_shares_z: z, ..g },
            YieldFarmData {
                total_shares,
                total_valued_shares,
                entries_count: y.entries_count + 1,
                ..y
            },
            pickup,
        ),
    )
}

/// The period up to which an entry's loyalty grows: the current one while the yield farm is
/// active, the farm's last update once it is stopped.
pub open spec fn loyalty_end(yf: YieldFarmData, now: Period) -> Period {
    if yf.state == YieldFarmState::Active {
        now
    } else {
        yf.updated_at
    }
}

/// `(claimable, unclaimable)` of entry `e` against yield farm `yf` at period `now`.
pub open spec fn claim_amounts_spec(yf: YieldFarmData, e: YieldFarmEntry, now: Period) -> Result<
    (Balance, Balance),
    Error,
> {
    let end = loyalty_end(yf, now);
    if end < e.entered_at {
        Err(Error::Underflow)
    } else {
        match entry_rewards_spec(
            e.accumulated_rpvs,
            e.valued_shares,
            e.accumulated_claimed_rewards,
            yf.accumulated_rpvs,
            (end - e.entered_at) as Period,
            yf.loyalty_curve,
        ) {
            None => Err(Error::Overflow),
            Some(v) => Ok(v),
        }
    }
}

pub fn claim_amounts(yf: YieldFarmData, e: YieldFarmEntry, now: Period) -> (r: Result<
    (Balance, Balance),
    Error,
>)
    ensures
        r == claim_amounts_spec(yf, e, now),
        loyalty_end(yf, now) == e.entered_at && (yf.loyalty_curve is Some
            ==> yf.loyalty_curve->Some_0.is_valid()) ==> r == match rewards_at(
            e.accumulated_rpvs,
            e.valued_shares,
            e.accumulated_claimed_rewards,
            yf.accumulated_rpvs,
            initial_loyalty(yf.loyalty_curve),
        ) {
            None => Err(Error::Overflow),
            Some(v) => Ok(v),
        },
{
    let end = if yf.state == YieldFarmState::Active {
        now
    } else {
        yf.updated_at
    };
    if end < e.entered_at {
        return Err(Error::Underflow);
    }
    match entry_rewards(
        e.accumulated_rpvs,
        e.valued_shares,
        e.accumulated_claimed_rewards,
        yf.accumulated_rpvs,
        end - e.entered_at,
        yf.loyalty_curve,
    ) {
        None => Err(Error::Overflow),
        Some(v) => Ok(v),
    }
}

/// A claim of entry `e` at `now`: the farms (synced only while the yield farm is active), the
/// pickup, and `(claimable, unclaimable)`.
pub open spec fn claim_spec(
    gf: GlobalFarmData,
    yf: YieldFarmData,
    e: YieldFarmEntry,
    now: Period,
    left: Balance,
) -> Result<(GlobalFarmData, YieldFarmData, Balance, Balance, Balance), Error> {
    let synced = if yf.state == YieldFarmState::Active {
        synced_spec(gf, yf, now, left)
    } else {
        Ok((gf, yf, 0u128))
    };
    match synced {
        Err(err) => Err(err),
        Ok((g, y, pickup)) => match claim_amounts_spec(y, e, now) {
            Err(err) => Err(err),
            Ok((c, u)) => if e.accumulated_claimed_rewards + c > u128::MAX {
                Err(Error::Overflow)
            } else {
                Ok((g, y, pickup, c, u))
            },
        },
    }
}

pub fn claim_farm(
    gf: GlobalFarmData,
    yf: YieldFarmData,
    e: YieldFarmEntry,
    now: Period,
    left: Balance,
) -> (r: Result<(GlobalFarmData, YieldFarmData, Balance, Balance, Balance), Error>)
    requires
        gf.yield_per_period <= PERMILL_ONE,
    ensures
        r == claim_spec(gf, yf, e, now, left),
        r is Ok ==> same_global_config(r->Ok_0.0, gf) && r->Ok_0.1.id == yf.id
            && r->Ok_0.1.state == yf.state,
        r is Ok ==> r->Ok_0.0.accumulated_rpz >= gf.accumulated_rpz
            && r->Ok_0.1.accumulated_rpvs >= yf.accumulated_rpvs,
        r is Ok ==> r->Ok_0.0.paid_accumulated_rewards == gf.paid_accumulated_rewards + r->Ok_0.2,
        r is Ok ==> r->Ok_0.1.entries_count == yf.entries_count,
        r is Ok ==> r->Ok_0.1.total_shares == yf.total_shares && r->Ok_0.1.total_valued_shares == yf.total_valued_shares,
{
    let (g, y, pickup) = if yf.state == YieldFarmState::Active {
        match sync_farms(gf, yf, now, left) {
            Ok(v) => v,
            Err(err) => return Err(err),
        }
    } else {
        (gf, yf, 0)
    };
    let (c, u) = match claim_amounts(y, e, now) {
        Ok(v) => v,
        Err(err) => return Err(err),
    };
    if c > u128::MAX - e.accumulated_claimed_rewards {
        return Err(Error::Overflow);
    }
    Ok((g, y, pickup, c, u))
}

/// The farms after entry `e` of a deposit of `shares` leaves: the yield farm's totals and count
/// fall, and while the farm is live its stake leaves `total_shares_z`.
pub open spec fn withdraw_spec(
    gf: GlobalFarmData,
    yf: YieldFarmData,
    e: YieldFarmEntry,
    shares: Balance,
) -> Result<(GlobalFarmData, YieldFarmData), Error> {
    if yf.entries_count == 0 || yf.total_shares < shares || yf.total_valued_shares
        < e.valued_shares {
        Err(Error::Underflow)
    } else {
        let y = YieldFarmData {
            entries_count: (yf.entries_count - 1) as u64,
            total_shares: (yf.total_shares - shares) as u128,
            total_valued_shares: (yf.total_valued_shares - e.valued_shares) as u128,
            ..yf
        };
        if yf.state == YieldFarmState::Deleted {
            Ok((gf, y))
        } else {
            match mul_int_of(yf.multiplier, e.valued_shares) {
                None => Err(Error::Overflow),
                Some(stake) => if stake > gf.total_shares_z {
                    Err(Error::Underflow)
                } else {
                    Ok((GlobalFarmData { total_shares_z: (gf.total_shares_z - stake) as u128, ..gf }, y))
                },
            }
        }
    }
}

pub fn withdraw_farm(gf: GlobalFarmData, yf: YieldFarmData, e: YieldFarmEntry, shares: Balance) -> (r:
    Result<(GlobalFarmData, YieldFarmData), Error>)
    ensures
        r == withdraw_spec(gf, yf, e, shares),
        r is Ok ==> same_global_config(r->Ok_0.0, gf) && r->Ok_0.1.id == yf.id
            && r->Ok_0.1.state == yf.state,
        r is Ok ==> r->Ok_0.0.accumulated_rpz == gf.accumulated_rpz
            && r->Ok_0.1.accumulated_rpvs == yf.accumulated_rpvs,
        r is Ok ==> r->Ok_0.1.entries_count == yf.entries_count - 1,
        r is Ok ==> r->Ok_0.1.total_shares == yf.total_shares - shares && r->Ok_0.1.total_valued_shares == yf.total_valued_shares - e.valued_shares,
{
    if yf.entries_count == 0 || yf.total_shares < shares || yf.total_valued_shares < e.valued_shares {
        return Err(Error::Underflow);
    }
    let y = YieldFarmData {
        entries_count: yf.entries_count - 1,
        total_shares: yf.total_shares - shares,
        total_valued_shares: yf.total_valued_shares - e.valued_shares,
        ..yf
    };
    if yf.state == YieldFarmState::Deleted {
        return Ok((gf, y));
    }
    let stake = match global_pool_shares(e.valued_shares, yf.multiplier) {
        Some(v) => v,
        None => return Err(Error::Overflow),
    };
    if stake > gf.total_shares_z {
        return Err(Error::Underflow);
    }
    Ok((GlobalFarmData { total_shares_z: gf.total_shares_z - stake, ..gf }, y))
}

} // verus!
