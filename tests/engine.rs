use liquidity_mining::engine::{farm_account_id, LiquidityMining, FARM_ACCOUNT_BASE};
use liquidity_mining::types::{
    AccountId, AmmPoolId, AssetId, Error, GlobalFarmId, LoyaltyCurve, YieldFarmId, YieldFarmState,
    FIXED_ONE,
};

const BSX: AssetId = 1000;
const KSM: AssetId = 1001;
const TKN1: AssetId = 1003;
const GC: AccountId = 1;
const ALICE: AccountId = 2;
const POOL: AmmPoolId = 100;

fn farm() -> (LiquidityMining, GlobalFarmId, YieldFarmId) {
    let mut lm = LiquidityMining::new(2);
    lm.set_block_number(1);
    lm.mint(BSX, GC, 30_000_000_000).unwrap();
    let (gf, _) = lm
        .create_global_farm(30_000_000_000, 500, 100, BSX, BSX, GC, 500_000, 10, FIXED_ONE)
        .unwrap();
    let yf = lm
        .create_yield_farm(GC, gf, 5 * FIXED_ONE, Some(LoyaltyCurve::default()), POOL, BSX, TKN1)
        .unwrap();
    (lm, gf, yf)
}

#[test]
fn create_global_farm_moves_budget_and_sets_fields() {
    let (lm, gf, _) = farm();
    assert_eq!(farm_account_id(gf), FARM_ACCOUNT_BASE + 1);
    assert_eq!(lm.free_balance(BSX, GC), 0);
    assert_eq!(lm.free_balance(BSX, farm_account_id(gf)), 30_000_000_000);
    let g = lm.global_farm(gf).unwrap();
    assert_eq!(g.max_reward_per_period, 60_000_000);
    assert_eq!(g.yield_farms_count, (1, 1));
    assert_eq!(g.updated_at, 0);
}

#[test]
fn create_global_farm_rejects_bad_arguments() {
    let mut lm = LiquidityMining::new(2);
    lm.mint(BSX, GC, 1_000_000).unwrap();
    let mut call = |total: u128, planned: u64, bpp: u64, yield_ppm: u32, min: u128, adj: u128| {
        lm.create_global_farm(total, planned, bpp, BSX, BSX, GC, yield_ppm, min, adj)
    };
    assert_eq!(call(1_000_000, 2, 10, 1_000, 10, FIXED_ONE), Err(Error::InvalidPlannedYieldingPeriods));
    assert_eq!(call(1_000_000, 100, 0, 1_000, 10, FIXED_ONE), Err(Error::InvalidBlocksPerPeriod));
    assert_eq!(call(1_000_000, 100, 10, 0, 10, FIXED_ONE), Err(Error::InvalidYieldPerPeriod));
    assert_eq!(call(1_000_000, 100, 10, 1_000_001, 10, FIXED_ONE), Err(Error::InvalidYieldPerPeriod));
    assert_eq!(call(1_000_000, 100, 10, 1_000, 9, FIXED_ONE), Err(Error::InvalidMinDeposit));
    assert_eq!(call(1_000_000, 100, 10, 1_000, 10, 0), Err(Error::InvalidPriceAdjustment));
    // 100 periods * 50 % * 1 000 = 50 000 needed.
    assert_eq!(call(49_999, 100, 10, 500_000, 1_000, FIXED_ONE), Err(Error::InvalidTotalRewards));
    assert_eq!(call(2_000_000, 100, 10, 500_000, 1_000, FIXED_ONE), Err(Error::InsufficientBalance));
    assert_eq!(call(50_000, 100, 10, 500_000, 1_000, FIXED_ONE), Ok((1, 500)));
}

#[test]
fn create_yield_farm_rejects_bad_arguments() {
    let (mut lm, gf, _) = farm();
    let bad_curve = Some(LoyaltyCurve { initial_reward_percentage: FIXED_ONE, scale_coef: 1 });
    assert_eq!(lm.create_yield_farm(GC, gf, 0, None, 5, BSX, KSM), Err(Error::InvalidMultiplier));
    assert_eq!(lm.create_yield_farm(GC, gf, FIXED_ONE, bad_curve, 5, BSX, KSM), Err(Error::InvalidLoyaltyCurve));
    assert_eq!(lm.create_yield_farm(GC, 77, FIXED_ONE, None, 5, BSX, KSM), Err(Error::GlobalFarmNotFound));
    assert_eq!(lm.create_yield_farm(ALICE, gf, FIXED_ONE, None, 5, BSX, KSM), Err(Error::Forbidden));
    assert_eq!(lm.create_yield_farm(GC, gf, FIXED_ONE, None, POOL, BSX, TKN1), Err(Error::YieldFarmAlreadyExists));
    assert_eq!(lm.create_yield_farm(GC, gf, FIXED_ONE, None, 5, KSM, TKN1), Err(Error::MissingIncentivizedAsset));
    assert_eq!(lm.create_yield_farm(GC, gf, FIXED_ONE, None, 5, KSM, BSX), Ok(3));
    assert_eq!(lm.global_farm(gf).unwrap().yield_farms_count, (2, 2));
}

#[test]
fn deposit_below_min_deposit_fails() {
    let (mut lm, gf, yf) = farm();
    assert_eq!(lm.deposit_lp_shares(gf, yf, POOL, 9, 100), Err(Error::InsufficientDeposit));
    assert_eq!(lm.deposit_lp_shares(gf, yf, POOL, 10, 0), Err(Error::ZeroValuedShares));
    assert_eq!(lm.deposit_lp_shares(gf, yf, 5, 10, 100), Err(Error::YieldFarmNotFound));
    assert_eq!(lm.deposit_lp_shares(9, yf, POOL, 10, 100), Err(Error::GlobalFarmNotFound));
    assert_eq!(lm.deposit_lp_shares(gf, yf, POOL, 10, 100), Ok(1));
    lm.stop_yield_farm(GC, gf, POOL).unwrap();
    assert_eq!(lm.deposit_lp_shares(gf, yf, POOL, 10, 100), Err(Error::LiquidityMiningCanceled));
}

#[test]
fn redeposit_into_same_yield_farm_is_a_double_lock() {
    let (mut lm, gf, yf) = farm();
    let deposit = lm.deposit_lp_shares(gf, yf, POOL, 50, 2_500).unwrap();
    assert_eq!(lm.redeposit_lp_shares(gf, yf, deposit, 2_500), Err(Error::DoubleLock));
    assert_eq!(lm.redeposit_lp_shares(gf, yf, 42, 2_500), Err(Error::DepositNotFound));
    assert_eq!(lm.deposit(deposit).unwrap().yield_farm_entries.len(), 1);
}

#[test]
fn redeposit_beyond_max_entries_fails() {
    let (mut lm, gf, yf) = farm();
    lm.mint(KSM, GC, 2_000_000).unwrap();
    let (gf2, _) = lm.create_global_farm(1_000_000, 100, 100, BSX, KSM, GC, 500_000, 10, FIXED_ONE).unwrap();
    let (gf3, _) = lm.create_global_farm(1_000_000, 100, 100, BSX, KSM, GC, 500_000, 10, FIXED_ONE).unwrap();
    let yf2 = lm.create_yield_farm(GC, gf2, FIXED_ONE, None, POOL, BSX, TKN1).unwrap();
    let yf3 = lm.create_yield_farm(GC, gf3, FIXED_ONE, None, POOL, BSX, TKN1).unwrap();
    let deposit = lm.deposit_lp_shares(gf, yf, POOL, 50, 2_500).unwrap();
    assert_eq!(lm.redeposit_lp_shares(gf2, yf2, deposit, 10).unwrap(), (50, POOL));
    assert_eq!(lm.redeposit_lp_shares(gf3, yf3, deposit, 10), Err(Error::MaxEntriesPerDeposit));
    assert_eq!(lm.deposit(deposit).unwrap().yield_farm_entries.len(), 2);
}

#[test]
fn claim_in_entry_period_pays_nothing() {
    let (mut lm, gf, yf) = farm();
    lm.set_block_number(1_800);
    let deposit = lm.deposit_lp_shares(gf, yf, POOL, 50, 2_500).unwrap();
    assert_eq!(lm.claim_rewards(ALICE, deposit, yf, false), Ok((gf, BSX, 0, 0)));
    assert_eq!(lm.claim_rewards(ALICE, deposit, yf, true), Err(Error::DoubleClaimInPeriod));
    assert_eq!(lm.claim_rewards(ALICE, 9, yf, true), Err(Error::DepositNotFound));
    assert_eq!(lm.claim_rewards(ALICE, deposit, 9, true), Err(Error::YieldFarmEntryNotFound));
    assert_eq!(lm.free_balance(BSX, ALICE), 0);
}

#[test]
fn stop_resume_and_update_multiplier() {
    let (mut lm, gf, yf) = farm();
    lm.set_block_number(1_800);
    lm.deposit_lp_shares(gf, yf, POOL, 50, 2_500).unwrap();
    assert_eq!(lm.global_farm(gf).unwrap().total_shares_z, 12_500);
    assert_eq!(lm.update_yield_farm_multiplier(GC, gf, POOL, 0), Err(Error::InvalidMultiplier));
    assert_eq!(lm.update_yield_farm_multiplier(ALICE, gf, POOL, FIXED_ONE), Err(Error::Forbidden));
    assert_eq!(lm.update_yield_farm_multiplier(GC, gf, POOL, 2 * FIXED_ONE), Ok(yf));
    assert_eq!(lm.global_farm(gf).unwrap().total_shares_z, 5_000);

    lm.set_block_number(2_500);
    assert_eq!(lm.resume_yield_farm(GC, gf, yf, POOL, FIXED_ONE), Err(Error::LiquidityMiningIsNotStopped));
    assert_eq!(lm.destroy_yield_farm(GC, gf, yf, POOL), Err(Error::LiquidityMiningIsNotStopped));
    assert_eq!(lm.stop_yield_farm(GC, gf, POOL), Ok(yf));
    assert_eq!(lm.stop_yield_farm(GC, gf, POOL), Err(Error::YieldFarmNotFound));
    assert_eq!(lm.global_farm(gf).unwrap().total_shares_z, 0);
    let stopped = lm.yield_farm(POOL, gf, yf).unwrap();
    assert_eq!(stopped.state, YieldFarmState::Stopped);
    assert_eq!(stopped.accumulated_rpvs, 7 * FIXED_ONE);

    lm.set_block_number(5_000);
    assert_eq!(lm.resume_yield_farm(GC, gf, yf, POOL, 0), Err(Error::InvalidMultiplier));
    assert_eq!(lm.resume_yield_farm(GC, gf, yf, POOL, 3 * FIXED_ONE), Ok(()));
    let resumed = lm.yield_farm(POOL, gf, yf).unwrap();
    let g = lm.global_farm(gf).unwrap();
    assert_eq!(resumed.state, YieldFarmState::Active);
    assert_eq!(resumed.accumulated_rpz, g.accumulated_rpz);
    assert_eq!(resumed.updated_at, 50);
    assert_eq!(g.total_shares_z, 7_500);
    assert_eq!(lm.active_yield_farm(POOL, gf), Some(yf));
}

#[test]
fn withdraw_returns_unclaimable_and_flushes_deposit() {
    let (mut lm, gf, yf) = farm();
    lm.set_block_number(1_800);
    let deposit = lm.deposit_lp_shares(gf, yf, POOL, 50, 2_500).unwrap();
    lm.set_block_number(2_500);
    let (_, _, _, unclaimable) = lm.claim_rewards(ALICE, deposit, yf, true).unwrap();
    let yf_balance = lm.free_balance(BSX, farm_account_id(yf));
    let gf_balance = lm.free_balance(BSX, farm_account_id(gf));
    assert_eq!(lm.withdraw_lp_shares(deposit, 99, unclaimable), Err(Error::YieldFarmEntryNotFound));
    assert_eq!(lm.withdraw_lp_shares(deposit, yf, yf_balance + 1), Err(Error::InsufficientBalance));
    assert_eq!(lm.withdraw_lp_shares(deposit, yf, unclaimable), Ok((gf, 50, true)));
    assert_eq!(lm.free_balance(BSX, farm_account_id(yf)), yf_balance - unclaimable);
    assert_eq!(lm.free_balance(BSX, farm_account_id(gf)), gf_balance + unclaimable);
    assert!(lm.deposit(deposit).is_none());
    let y = lm.yield_farm(POOL, gf, yf).unwrap();
    assert_eq!((y.entries_count, y.total_shares, y.total_valued_shares), (0, 0, 0));
    assert_eq!(lm.global_farm(gf).unwrap().total_shares_z, 0);
}

#[test]
fn mint_overflow_fails() {
    let mut lm = LiquidityMining::new(1);
    assert_eq!(lm.mint(BSX, ALICE, u128::MAX), Ok(()));
    assert_eq!(lm.mint(BSX, ALICE, 1), Err(Error::Overflow));
    assert_eq!(lm.free_balance(BSX, ALICE), u128::MAX);
    assert_eq!(lm.block_number(), 0);
}

#[test]
fn claims_conserve_the_reward_currency() {
    let (mut lm, gf, yf) = farm();
    lm.set_block_number(1_800);
    let deposit = lm.deposit_lp_shares(gf, yf, POOL, 50, 2_500).unwrap();
    let total = |lm: &LiquidityMining| {
        lm.free_balance(BSX, farm_account_id(gf)) + lm.free_balance(BSX, farm_account_id(yf)) + lm.free_balance(BSX, ALICE)
    };
    assert_eq!(total(&lm), 30_000_000_000);
    for block in [2_500u64, 9_000, 40_000] {
        lm.set_block_number(block);
        lm.claim_rewards(ALICE, deposit, yf, true).unwrap();
        assert_eq!(total(&lm), 30_000_000_000);
        let g = lm.global_farm(gf).unwrap();
        assert_eq!(
            g.paid_accumulated_rewards + lm.free_balance(BSX, farm_account_id(gf)),
            30_000_000_000
        );
    }
}

#[test]
fn accumulators_never_decrease() {
    let (mut lm, gf, yf) = farm();
    lm.set_block_number(1_800);
    let deposit = lm.deposit_lp_shares(gf, yf, POOL, 50, 2_500).unwrap();
    let mut rpz = 0;
    let mut rpvs = 0;
    for block in [2_000u64, 2_500, 7_000, 7_050, 30_000] {
        lm.set_block_number(block);
        lm.claim_rewards(ALICE, deposit, yf, false).unwrap();
        let g = lm.global_farm(gf).unwrap();
        let y = lm.yield_farm(POOL, gf, yf).unwrap();
        assert!(g.accumulated_rpz >= rpz && y.accumulated_rpvs >= rpvs);
        rpz = g.accumulated_rpz;
        rpvs = y.accumulated_rpvs;
    }
    assert!(rpz > 0 && rpvs > 0);
}
