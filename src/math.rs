use vstd::prelude::*;
use sp_arithmetic::{FixedPointNumber, FixedU128, Permill};
use crate::types::{Balance, FixedInner, LoyaltyCurve, Period, PermillParts, FIXED_ONE, PERMILL_ONE};

verus! {

/// What `FixedU128::checked_mul_int` returns for the fixed-point number of inner value `f`
/// multiplied by the integer `n`.
pub uninterp spec fn mul_int_of(f: u128, n: u128) -> Option<u128>;

/// What hydra-dx-math's loyalty multiplier returns after `periods` periods on the curve with
/// initial reward percentage of inner value `b` and scale coefficient `s`.
pub uninterp spec fn loyalty_of(periods: u64, b: u128, s: u32) -> Option<u128>;

/// `f * n` with `f` fixed-point, truncated.
pub open spec fn floor_mul_int(f: u128, n: u128) -> int {
    (f * n) / (FIXED_ONE as int)
}

/// What sp_arithmetic's source shows of `checked_mul_int`: exact and truncated while `f * n`
/// fits in 128 bits, otherwise rounded to nearest; `None` only when the result does not fit.
pub open spec fn mul_int_facts(f: u128, n: u128, r: Option<u128>) -> bool {
    &&& f * n <= u128::MAX ==> r == Some(floor_mul_int(f, n) as u128)
    &&& r is Some ==> (r->Some_0 == floor_mul_int(f, n) || r->Some_0 == floor_mul_int(f, n) + 1)
    &&& floor_mul_int(f, n) + 1 <= u128::MAX ==> r is Some
}

/// Relies on sp_arithmetic's `FixedU128::checked_mul_int`: the product, exact and truncated
/// while `f * n` fits in 128 bits, otherwise rounded to nearest; `None` when it does not fit.
#[verifier::external_body]
pub(crate) fn fixed_mul_int(f: FixedInner, n: u128) -> (r: Option<u128>)
    ensures
        r == mul_int_of(f, n),
        mul_int_facts(f, n, r),
{
    FixedU128::from_inner(f).checked_mul_int(n)
}

/// Relies on sp_arithmetic's `From<Permill> for FixedU128`: parts per million become
/// `parts * 10^12` inner units.
#[verifier::external_body]
pub(crate) fn permill_to_fixed(parts: PermillParts) -> (r: FixedInner)
    requires
        parts <= PERMILL_ONE,
    ensures
        r == parts as int * 1_000_000_000_000,
{
    FixedU128::from(Permill::from_parts(parts)).into_inner()
}

/// Relies on hydra_dx_math's `calculate_loyalty_multiplier`. With no period elapsed the
/// multiplier is the curve's initial reward percentage.
#[verifier::external_body]
fn loyalty_multiplier_of_curve(periods: Period, b: FixedInner, s: u32) -> (r: Option<FixedInner>)
    ensures
        r == loyalty_of(periods, b, s),
        periods == 0 && b <= FIXED_ONE && s >= 1 ==> r == Some(b),
{
    hydra_dx_math::liquidity_mining::calculate_loyalty_multiplier(periods, FixedU128::from_inner(b), s)
        .ok()
        .map(|m| m.into_inner())
}

/// `(rps_now - rps_start) * shares`, if it fits.
pub open spec fn reward_spec(rps_start: u128, rps_now: u128, shares: u128) -> Option<u128> {
    if rps_now < rps_start || (rps_now - rps_start) * shares > u128::MAX {
        None
    } else {
        Some(((rps_now - rps_start) * shares) as u128)
    }
}

/// Relies on hydra_dx_math's `calculate_reward`: a checked subtraction, then a checked
/// multiplication.
#[verifier::external_body]
pub(crate) fn checked_reward(rps_start: Balance, rps_now: Balance, shares: Balance) -> (r: Option<Balance>)
    ensures
        r == reward_spec(rps_start, rps_now, shares),
{
    hydra_dx_math::liquidity_mining::calculate_reward(rps_start, rps_now, shares).ok()
}

/// `rps_now + reward / total_shares`, if `total_shares` is not zero and the sum fits.
pub open spec fn accumulated_rps_spec(rps_now: u128, total_shares: u128, reward: u128) -> Option<
    u128,
> {
    if total_shares == 0 || rps_now + reward / total_shares > u128::MAX {
        None
    } else {
        Some((rps_now + reward / total_shares) as u128)
    }
}

/// Relies on hydra_dx_math's `calculate_accumulated_rps`: a checked division, then a checked
/// addition.
#[verifier::external_body]
pub(crate) fn checked_accumulated_rps(rps_now: Balance, total_shares: Balance, reward: Balance) -> (r: Option<
    Balance,
>)
    ensures
        r == accumulated_rps_spec(rps_now, total_shares, reward),
{
    hydra_dx_math::liquidity_mining::calculate_accumulated_rps(rps_now, total_shares, reward).ok()
}

/// Relies on hydra_dx_math's `calculate_global_pool_shares`: the multiplier applied to the
/// valued shares by `FixedU128::checked_mul_int`.
#[verifier::external_body]
fn checked_global_pool_shares(valued_shares: Balance, multiplier: FixedInner) -> (r: Option<
    Balance,
>)
    ensures
        r == mul_int_of(multiplier, valued_shares),
        mul_int_facts(multiplier, valued_shares, r),
{
    hydra_dx_math::liquidity_mining::calculate_global_pool_shares(
        valued_shares,
        FixedU128::from_inner(multiplier),
    ).ok()
}

/// The emission of one period: `yield_per_period * base`, capped at `max_reward_per_period`.
pub open spec fn reward_per_period_spec(yield_fixed: u128, base: u128, max_reward: u128) -> Option<
    u128,
> {
    match mul_int_of(yield_fixed, base) {
        Some(v) => Some(if v < max_reward { v } else { max_reward }),
        None => None,
    }
}

/// Relies on hydra_dx_math's `calculate_global_pool_reward_per_period`: `FixedU128::checked_mul_int`
/// capped by `min`.
#[verifier::external_body]
pub(crate) fn checked_reward_per_period(yield_fixed: FixedInner, base: Balance, max_reward: Balance) -> (r: Option<
    Balance,
>)
    ensures
        r == reward_per_period_spec(yield_fixed, base, max_reward),
{
    hydra_dx_math::liquidity_mining::calculate_global_pool_reward_per_period(
        FixedU128::from_inner(yield_fixed),
        base,
        max_reward,
    ).ok()
}

/// `(claimable, unclaimable)` of an entry: of the full reward `max`, the loyalty-weighted part
/// less what was already claimed, and the rest of `max`.
pub open spec fn user_reward_spec(
    entry_rpvs: u128,
    valued_shares: u128,
    claimed: u128,
    rpvs_now: u128,
    loyalty: u128,
) -> Option<(u128, u128)> {
    match reward_spec(entry_rpvs, rpvs_now, valued_shares) {
        None => None,
        Some(max) => if max == 0 {
            Some((0u128, 0u128))
        } else {
            match mul_int_of(loyalty, max) {
                None => None,
                Some(c) => if c > max || c < claimed {
                    None
                } else {
                    Some(((c - claimed) as u128, (max - c) as u128))
                },
            }
        },
    }
}

/// Relies on hydra_dx_math's `calculate_user_reward`, which applies `FixedU128::checked_mul_int`
/// to the full reward and checks both subtractions.
#[verifier::external_body]
fn checked_user_reward(
    entry_rpvs: Balance,
    valued_shares: Balance,
    claimed: Balance,
    rpvs_now: Balance,
    loyalty: FixedInner,
) -> (r: Option<(Balance, Balance)>)
    ensures
        r == user_reward_spec(entry_rpvs, valued_shares, claimed, rpvs_now, loyalty),
{
    hydra_dx_math::liquidity_mining::calculate_user_reward(
        entry_rpvs,
        valued_shares,
        claimed,
        rpvs_now,
        FixedU128::from_inner(loyalty),
    ).ok()
}

/// The loyalty multiplier after `periods` periods: 1.0 without a curve.
pub open spec fn loyalty_factor(periods: Period, curve: Option<LoyaltyCurve>) -> Option<u128> {
    match curve {
        None => Some(FIXED_ONE),
        Some(c) => loyalty_of(periods, c.initial_reward_percentage, c.scale_coef),
    }
}

pub fn loyalty_multiplier(periods: Period, curve: Option<LoyaltyCurve>) -> (r: Option<FixedInner>)
    ensures
        r == loyalty_factor(periods, curve),
        periods == 0 && curve is Some && curve->Some_0.is_valid() ==> r == Some(
            curve->Some_0.initial_reward_percentage,
        ),
{
    match curve {
        None => Some(FIXED_ONE),
        Some(c) => loyalty_multiplier_of_curve(periods, c.initial_reward_percentage, c.scale_coef),
    }
}

/// `(claimable, unclaimable)` for an entry at `rpvs_now` after `periods` periods in the farm.
pub open spec fn entry_rewards_spec(
    entry_rpvs: u128,
    valued_shares: u128,
    claimed: u128,
    rpvs_now: u128,
    periods: Period,
    curve: Option<LoyaltyCurve>,
) -> Option<(u128, u128)> {
    match loyalty_factor(periods, curve) {
        None => None,
        Some(l) => rewards_at(entry_rpvs, valued_shares, claimed, rpvs_now, l),
    }
}

/// The full reward of `valued_shares` between two values of a fixed-point accumulator:
/// `(rps_now - rps_start) * valued_shares`, truncated to whole units.
pub open spec fn gross_reward(rps_start: u128, rps_now: u128, valued_shares: u128) -> Option<u128> {
    match reward_spec(rps_start, rps_now, valued_shares) {
        None => None,
        Some(x) => Some((x / FIXED_ONE) as u128),
    }
}

/// `(claimable, unclaimable)` of an entry at loyalty multiplier `loyalty`: the loyalty-weighted
/// part of its gross reward less what it already claimed, and the rest of the gross reward.
pub open spec fn rewards_at(
    entry_rpvs: u128,
    valued_shares: u128,
    claimed: u128,
    rpvs_now: u128,
    loyalty: u128,
) -> Option<(u128, u128)> {
    match gross_reward(entry_rpvs, rpvs_now, valued_shares) {
        None => None,
        Some(g) => user_reward_spec(0, g, claimed, 1, loyalty),
    }
}

/// The gross reward of an entry, if it fits.
pub fn entry_gross_reward(rps_start: Balance, rps_now: Balance, valued_shares: Balance) -> (r: Option<
    Balance,
>)
    ensures
        r == gross_reward(rps_start, rps_now, valued_shares),
{
    match checked_reward(rps_start, rps_now, valued_shares) {
        Some(x) => Some(x / FIXED_ONE),
        None => None,
    }
}

/// The loyalty multiplier of a curve when no period has elapsed: its initial reward
/// percentage, 1.0 without a curve.
pub open spec fn initial_loyalty(curve: Option<LoyaltyCurve>) -> u128 {
    match curve {
        None => FIXED_ONE,
        Some(c) => c.initial_reward_percentage,
    }
}

/// Rewards of an entry: the loyalty multiplier of its time in the farm applied to its gross
/// reward, its valued shares times the growth of the fixed-point reward per valued share.
pub fn entry_rewards(
    entry_rpvs: Balance,
    valued_shares: Balance,
    claimed: Balance,
    rpvs_now: Balance,
    periods: Period,
    curve: Option<LoyaltyCurve>,
) -> (r: Option<(Balance, Balance)>)
    ensures
        r == entry_rewards_spec(entry_rpvs, valued_shares, claimed, rpvs_now, periods, curve),
        periods == 0 && (curve is Some ==> curve->Some_0.is_valid()) ==> r == rewards_at(
            entry_rpvs,
            valued_shares,
            claimed,
            rpvs_now,
            initial_loyalty(curve),
        ),
{
    let l = match loyalty_multiplier(periods, curve) {
        None => return None,
        Some(l) => l,
    };
    let gross = match entry_gross_reward(entry_rpvs, rpvs_now, valued_shares) {
        None => return None,
        Some(g) => g,
    };
    // The gross reward is the full reward of a single unit step of the accumulator.
    checked_user_reward(0, gross, claimed, 1, l)
}

/// `(claimable, unclaimable)` from a known loyalty multiplier.
pub fn user_reward(
    entry_rpvs: Balance,
    valued_shares: Balance,
    claimed: Balance,
    rpvs_now: Balance,
    loyalty: FixedInner,
) -> (r: Option<(Balance, Balance)>)
    ensures
        r == user_reward_spec(entry_rpvs, valued_shares, claimed, rpvs_now, loyalty),
{
    checked_user_reward(entry_rpvs, valued_shares, claimed, rpvs_now, loyalty)
}

/// The stake of a yield farm in its global farm: `multiplier * valued_shares`.
pub fn global_pool_shares(valued_shares: Balance, multiplier: FixedInner) -> (r: Option<Balance>)
    ensures
        r == mul_int_of(multiplier, valued_shares),
        multiplier * valued_shares <= u128::MAX ==> r == Some(
            floor_mul_int(multiplier, valued_shares) as u128,
        ),
{
    checked_global_pool_shares(valued_shares, multiplier)
}

} // verus!
