use liquidity_mining::farm::{claim_amounts, sync_global_farm, sync_yield_farm};
use liquidity_mining::math::{entry_rewards, global_pool_shares, loyalty_multiplier, user_reward};
use liquidity_mining::types::{
    GlobalFarmData, LoyaltyCurve, YieldFarmData, YieldFarmEntry, YieldFarmState, FIXED_ONE,
};

fn curve() -> Option<LoyaltyCurve> {
    Some(LoyaltyCurve::default())
}

#[test]
fn loyalty_multiplier_values() {
    assert_eq!(loyalty_multiplier(0, curve()), Some(FIXED_ONE / 2));
    assert_eq!(loyalty_multiplier(7, curve()), Some(532_710_280_373_831_775));
    assert_eq!(loyalty_multiplier(1_000_000, None), Some(FIXED_ONE));
    let full = LoyaltyCurve { initial_reward_percentage: 0, scale_coef: 1 };
    assert_eq!(loyalty_multiplier(0, Some(full)), Some(0));
}

#[test]
fn loyalty_multiplier_grows_with_time() {
    let a = loyalty_multiplier(10, curve()).unwrap();
    let b = loyalty_multiplier(100, curve()).unwrap();
    let c = loyalty_multiplier(10_000, curve()).unwrap();
    assert!(FIXED_ONE / 2 < a && a < b && b < c && c < FIXED_ONE);
}

#[test]
fn entry_rewards_basic_claim_values() {
    // A full reward of 43 750 after 7 periods.
    assert_eq!(entry_rewards(0, 1, 0, 43_750 * FIXED_ONE, 7, curve()), Some((23_306, 20_444)));
}

#[test]
fn entry_rewards_multi_entry_values() {
    assert_eq!(entry_rewards(0, 4_000, 0, 1_900 * FIXED_ONE, 950, curve()), Some((7_238_095, 361_905)));
    assert_eq!(entry_rewards(0, 2_500, 0, 24_955 * FIXED_ONE, 9_982, curve()), Some((62_078_099, 309_401)));
    assert_eq!(entry_rewards(0, 5_000, 0, 400 * FIXED_ONE, 200, curve()), Some((1_666_666, 333_334)));
}

#[test]
fn entry_rewards_after_claim_is_zero_with_same_unclaimable() {
    assert_eq!(entry_rewards(0, 1, 23_306, 43_750 * FIXED_ONE, 7, curve()), Some((0, 20_444)));
}

#[test]
fn user_reward_edges() {
    assert_eq!(user_reward(5, 10, 0, 5, FIXED_ONE / 2), Some((0, 0)));
    assert_eq!(user_reward(0, 10, 0, 100, FIXED_ONE), Some((1_000, 0)));
    assert_eq!(user_reward(0, 10, 600, 100, FIXED_ONE / 2), None);
    assert_eq!(user_reward(10, 10, 0, 5, FIXED_ONE), None);
}

#[test]
fn global_pool_shares_values() {
    assert_eq!(global_pool_shares(2_500, 5 * FIXED_ONE), Some(12_500));
    assert_eq!(global_pool_shares(3, FIXED_ONE / 2), Some(1));
    assert_eq!(global_pool_shares(u128::MAX, 2 * FIXED_ONE), None);
}

fn gf(updated_at: u64, z: u128) -> GlobalFarmData {
    let mut g = GlobalFarmData::new(1, updated_at, 1000, 500_000, 500, 100, 1, 1000, 60_000_000, 10, FIXED_ONE);
    g.total_shares_z = z;
    g
}

#[test]
fn sync_global_farm_values() {
    // 7 periods of 50 % of the 12 500 shares: 43 750, or 3.5 per share.
    let (g, reward) = sync_global_farm(gf(18, 12_500), 25, 30_000_000_000).unwrap();
    assert_eq!(reward, 43_750);
    assert_eq!(g.accumulated_rpz, 7 * FIXED_ONE / 2);
    assert_eq!(g.accumulated_rewards, 43_750);
    assert_eq!(g.updated_at, 25);

    // Capped by what the farm account holds.
    let (g, reward) = sync_global_farm(gf(18, 12_500), 25, 10_000).unwrap();
    assert_eq!(reward, 10_000);
    assert_eq!(g.accumulated_rpz, 800_000_000_000_000_000);

    // Capped by the largest emission of a period.
    let mut capped = gf(18, 12_500);
    capped.max_reward_per_period = 1_000;
    let (g, reward) = sync_global_farm(capped, 25, 30_000_000_000).unwrap();
    assert_eq!((reward, g.accumulated_rpz), (7_000, 560_000_000_000_000_000));

    // Without shares only the period advances; in the same period nothing happens.
    let (g, reward) = sync_global_farm(gf(18, 0), 25, 30_000_000_000).unwrap();
    assert_eq!((reward, g.updated_at, g.accumulated_rpz), (0, 25, 0));
    let (g, reward) = sync_global_farm(gf(25, 12_500), 25, 30_000_000_000).unwrap();
    assert_eq!((reward, g.accumulated_rpz), (0, 0));
}

#[test]
fn sync_yield_farm_values() {
    let mut g = gf(25, 12_500);
    g.accumulated_rpz = 7 * FIXED_ONE / 2;
    g.accumulated_rewards = 43_750;
    let mut y = YieldFarmData::new(2, 18, curve(), 5 * FIXED_ONE);
    y.total_valued_shares = 2_500;
    y.total_shares = 50;
    let (y2, g2, pickup) = sync_yield_farm(y, g, 25).unwrap();
    assert_eq!(pickup, 43_750);
    assert_eq!(y2.accumulated_rpvs, 35 * FIXED_ONE / 2);
    assert_eq!(y2.accumulated_rpz, 7 * FIXED_ONE / 2);
    assert_eq!(g2.accumulated_rewards, 0);
    assert_eq!(g2.paid_accumulated_rewards, 43_750);

    // Without valued shares only the snapshot advances.
    let empty = YieldFarmData::new(2, 18, curve(), 5 * FIXED_ONE);
    let (y3, g3, pickup) = sync_yield_farm(empty, g, 25).unwrap();
    assert_eq!(
        (pickup, y3.accumulated_rpz, y3.accumulated_rpvs, g3.paid_accumulated_rewards),
        (0, 7 * FIXED_ONE / 2, 0, 0)
    );
}

#[test]
fn claim_amounts_of_stopped_farm_stop_at_its_update() {
    let mut y = YieldFarmData::new(2, 25, curve(), 0);
    y.state = YieldFarmState::Stopped;
    y.accumulated_rpvs = 35 * FIXED_ONE / 2;
    let e = YieldFarmEntry::new(1, 2, 2_500, 0, 18);
    assert_eq!(claim_amounts(y, e, 3_000), Ok((23_306, 20_444)));
    y.state = YieldFarmState::Active;
    assert!(claim_amounts(y, e, 3_000).unwrap().0 > 23_306);
}

#[test]
fn sync_global_farm_applies_price_adjustment() {
    let mut g = gf(18, 12_500);
    g.price_adjustment = 2 * FIXED_ONE;
    let (g, reward) = sync_global_farm(g, 25, 30_000_000_000).unwrap();
    assert_eq!(reward, 43_750);
    assert_eq!(g.accumulated_rpz, 7 * FIXED_ONE);
    let mut h = gf(18, 12_500);
    h.price_adjustment = FIXED_ONE / 4;
    assert_eq!(sync_global_farm(h, 25, 30_000_000_000).unwrap().0.accumulated_rpz, 7 * FIXED_ONE / 8);
}
