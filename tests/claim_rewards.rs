use liquidity_mining::engine::{farm_account_id, LiquidityMining};
use liquidity_mining::types::{
    AccountId, AmmPoolId, AssetId, Error, GlobalFarmId, LoyaltyCurve, YieldFarmEntry, YieldFarmId,
    YieldFarmState, FIXED_ONE,
};

const BSX: AssetId = 1000;
const KSM: AssetId = 1001;
const ACA: AssetId = 1002;
const TKN1: AssetId = 1003;
const TKN2: AssetId = 1004;

const GC: AccountId = 1;
const ALICE: AccountId = 2;
const BOB: AccountId = 3;
const CHARLIE: AccountId = 4;
const DAVE: AccountId = 5;
const EVE: AccountId = 6;

const BSX_TKN1_AMM: AmmPoolId = 100;
const BSX_TKN2_AMM: AmmPoolId = 101;
const ACA_KSM_AMM: AmmPoolId = 102;

const ONE: u128 = 1_000_000_000_000;

/// A farm of `owner` paying `reward` for `incentivized`, with one yield farm of multiplier 5 and
/// the default loyalty curve on `pool`; 50 shares valued at 2 500 deposited at period 18.
fn farm_with_deposit(
    lm: &mut LiquidityMining,
    owner: AccountId,
    reward: AssetId,
    incentivized: AssetId,
    pool: AmmPoolId,
    other: AssetId,
) -> (GlobalFarmId, YieldFarmId, u128) {
    lm.set_block_number(1);
    lm.mint(reward, owner, 30_000_000_000).unwrap();
    let (gf, max) = lm
        .create_global_farm(30_000_000_000, 500, 100, incentivized, reward, owner, 500_000, 10, FIXED_ONE)
        .unwrap();
    assert_eq!(max, 60_000_000);
    let yf = lm
        .create_yield_farm(owner, gf, 5 * FIXED_ONE, Some(LoyaltyCurve::default()), pool, incentivized, other)
        .unwrap();
    lm.set_block_number(1_800);
    let deposit = lm.deposit_lp_shares(gf, yf, pool, 50, 2_500).unwrap();
    (gf, yf, deposit)
}

const GC_FARM: GlobalFarmId = 1;
const GC_BSX_TKN1_YIELD_FARM_ID: YieldFarmId = 2;
const GC_BSX_TKN2_YIELD_FARM_ID: YieldFarmId = 3;
const PREDEFINED_DEPOSIT_IDS: [u128; 7] = [1, 2, 3, 4, 5, 6, 7];

fn entry(yf: YieldFarmId, valued: u128, rpvs: u128, claimed: u128, entered: u64, updated: u64) -> YieldFarmEntry {
    YieldFarmEntry {
        global_farm_id: GC_FARM,
        yield_farm_id: yf,
        valued_shares: valued,
        accumulated_rpvs: rpvs,
        accumulated_claimed_rewards: claimed,
        entered_at: entered,
        updated_at: updated,
    }
}

/// GC's farm (30 000 000 000 BSX, 500 periods of 100 blocks, 50 % a period) with yield farms on
/// BSX/TKN1 (multiplier 5) and BSX/TKN2 (multiplier 10), and seven deposits made in periods 18,
/// 20 and 25; the block is left at 2 596.
fn predefined_with_deposits() -> LiquidityMining {
    let mut lm = LiquidityMining::new(5);
    lm.set_block_number(1);
    lm.mint(BSX, GC, 30_000_000_000).unwrap();
    let (gf, _) = lm
        .create_global_farm(30_000_000_000, 500, 100, BSX, BSX, GC, 500_000, 10, FIXED_ONE)
        .unwrap();
    assert_eq!(gf, GC_FARM);
    let curve = Some(LoyaltyCurve::default());
    let yf1 = lm.create_yield_farm(GC, gf, 5 * FIXED_ONE, curve, BSX_TKN1_AMM, BSX, TKN1).unwrap();
    let yf2 = lm.create_yield_farm(GC, gf, 10 * FIXED_ONE, curve, BSX_TKN2_AMM, BSX, TKN2).unwrap();
    assert_eq!((yf1, yf2), (GC_BSX_TKN1_YIELD_FARM_ID, GC_BSX_TKN2_YIELD_FARM_ID));

    lm.set_block_number(1_800);
    assert_eq!(lm.deposit_lp_shares(gf, yf1, BSX_TKN1_AMM, 50, 2_500), Ok(PREDEFINED_DEPOSIT_IDS[0]));
    assert_eq!(lm.deposit_lp_shares(gf, yf1, BSX_TKN1_AMM, 80, 4_160), Ok(PREDEFINED_DEPOSIT_IDS[1]));
    assert_eq!(lm.deposit_lp_shares(gf, yf2, BSX_TKN2_AMM, 25, 200), Ok(PREDEFINED_DEPOSIT_IDS[2]));
    lm.set_block_number(2_051);
    assert_eq!(lm.deposit_lp_shares(gf, yf2, BSX_TKN2_AMM, 800, 46_400), Ok(PREDEFINED_DEPOSIT_IDS[3]));
    lm.set_block_number(2_586);
    assert_eq!(lm.deposit_lp_shares(gf, yf2, BSX_TKN2_AMM, 87, 261), Ok(PREDEFINED_DEPOSIT_IDS[4]));
    lm.set_block_number(2_596);
    assert_eq!(lm.deposit_lp_shares(gf, yf2, BSX_TKN2_AMM, 48, 768), Ok(PREDEFINED_DEPOSIT_IDS[5]));
    assert_eq!(lm.deposit_lp_shares(gf, yf1, BSX_TKN1_AMM, 486, 38_880), Ok(PREDEFINED_DEPOSIT_IDS[6]));

    let g = lm.global_farm(gf).unwrap();
    assert_eq!(g.updated_at, 25);
    assert_eq!(g.accumulated_rpz, 7 * FIXED_ONE / 2);
    assert_eq!(g.yield_farms_count, (2, 2));
    assert_eq!(g.total_shares_z, 703_990);
    assert_eq!(g.accumulated_rewards, 0);
    assert_eq!(g.paid_accumulated_rewards, 1_283_550);
    let y1 = lm.yield_farm(BSX_TKN1_AMM, gf, yf1).unwrap();
    assert_eq!(
        (y1.updated_at, y1.accumulated_rpvs, y1.accumulated_rpz, y1.total_shares, y1.total_valued_shares, y1.entries_count),
        (25, 17 * FIXED_ONE + FIXED_ONE / 2, 7 * FIXED_ONE / 2, 616, 45_540, 3)
    );
    let y2 = lm.yield_farm(BSX_TKN2_AMM, gf, yf2).unwrap();
    assert_eq!(
        (y2.updated_at, y2.accumulated_rpvs, y2.accumulated_rpz, y2.total_shares, y2.total_valued_shares, y2.entries_count),
        (25, 35 * FIXED_ONE, 7 * FIXED_ONE / 2, 960, 47_629, 4)
    );
    assert_eq!(lm.free_balance(BSX, farm_account_id(gf)), 30_000_000_000 - 1_283_550);
    assert_eq!(lm.free_balance(BSX, farm_account_id(yf1)), 116_550);
    assert_eq!(lm.free_balance(BSX, farm_account_id(yf2)), 1_167_000);
    lm
}

#[test]
fn claim_rewards_should_work() {
    const FAIL_ON_DOUBLECLAIM: bool = true;
    let mut lm = predefined_with_deposits();
    let global_farm_id = GC_FARM;
    let alice_bsx_balance = lm.free_balance(BSX, ALICE);
    let bsx_tkn1_yield_farm_account = farm_account_id(GC_BSX_TKN1_YIELD_FARM_ID);
    let bsx_tkn2_yield_farm_account = farm_account_id(GC_BSX_TKN2_YIELD_FARM_ID);
    let bsx_tkn1_yield_farm_reward_balance = lm.free_balance(BSX, bsx_tkn1_yield_farm_account);

    // claim A1.1
    let expected_claimed_rewards = 23_306;
    let unclaimable_rewards = 20_444;
    assert_eq!(
        lm.claim_rewards(ALICE, PREDEFINED_DEPOSIT_IDS[0], GC_BSX_TKN1_YIELD_FARM_ID, FAIL_ON_DOUBLECLAIM)
            .unwrap(),
        (global_farm_id, BSX, expected_claimed_rewards, unclaimable_rewards)
    );
    let d = lm.deposit(PREDEFINED_DEPOSIT_IDS[0]).unwrap();
    assert_eq!((d.shares, d.amm_pool_id), (50, BSX_TKN1_AMM));
    assert_eq!(
        d.yield_farm_entries,
        vec![entry(GC_BSX_TKN1_YIELD_FARM_ID, 2_500, 0, expected_claimed_rewards, 18, 25)]
    );
    assert_eq!(lm.free_balance(BSX, ALICE), alice_bsx_balance + expected_claimed_rewards);
    assert_eq!(
        lm.free_balance(BSX, bsx_tkn1_yield_farm_account),
        bsx_tkn1_yield_farm_reward_balance - expected_claimed_rewards
    );

    // claim B3.1
    lm.set_block_number(3_056);
    let bsx_tkn2_yield_farm_reward_balance = lm.free_balance(BSX, bsx_tkn2_yield_farm_account);
    let alice_bsx_balance = lm.free_balance(BSX, ALICE);
    let expected_claimed_rewards = 3_417;
    let unclaimable_rewards = 3_108;
    assert_eq!(
        lm.claim_rewards(ALICE, PREDEFINED_DEPOSIT_IDS[4], GC_BSX_TKN2_YIELD_FARM_ID, FAIL_ON_DOUBLECLAIM)
            .unwrap(),
        (global_farm_id, BSX, expected_claimed_rewards, unclaimable_rewards)
    );
    let d = lm.deposit(PREDEFINED_DEPOSIT_IDS[4]).unwrap();
    assert_eq!((d.shares, d.amm_pool_id), (87, BSX_TKN2_AMM));
    assert_eq!(
        d.yield_farm_entries,
        vec![entry(GC_BSX_TKN2_YIELD_FARM_ID, 261, 35 * FIXED_ONE, expected_claimed_rewards, 25, 30)]
    );
    let g = lm.global_farm(GC_FARM).unwrap();
    assert_eq!(
        (g.updated_at, g.accumulated_rpz, g.total_shares_z, g.accumulated_rewards, g.paid_accumulated_rewards),
        (30, 6 * FIXED_ONE, 703_990, 569_250, 2_474_275)
    );
    assert_eq!((g.max_reward_per_period, g.yield_farms_count), (60_000_000, (2, 2)));
    let y2 = lm.yield_farm(BSX_TKN2_AMM, GC_FARM, GC_BSX_TKN2_YIELD_FARM_ID).unwrap();
    assert_eq!(
        (y2.updated_at, y2.accumulated_rpvs, y2.accumulated_rpz, y2.total_shares, y2.total_valued_shares, y2.entries_count),
        (30, 60 * FIXED_ONE, 6 * FIXED_ONE, 960, 47_629, 4)
    );
    assert_eq!(lm.free_balance(BSX, ALICE), alice_bsx_balance + expected_claimed_rewards);
    let yield_farm_claim_from_global_farm = 1_190_725;
    assert_eq!(
        lm.free_balance(BSX, bsx_tkn2_yield_farm_account),
        bsx_tkn2_yield_farm_reward_balance + yield_farm_claim_from_global_farm - expected_claimed_rewards
    );

    // Long after the planned periods, without interactions: claim A1.2.
    lm.set_block_number(125_879);
    let bsx_tkn1_yield_farm_reward_balance = lm.free_balance(BSX, bsx_tkn1_yield_farm_account);
    let alice_bsx_balance = lm.free_balance(BSX, ALICE);
    let expected_claimed_rewards = 7_437_514;
    let unclaimable_rewards = 289_180;
    assert_eq!(
        lm.claim_rewards(ALICE, PREDEFINED_DEPOSIT_IDS[0], GC_BSX_TKN1_YIELD_FARM_ID, FAIL_ON_DOUBLECLAIM)
            .unwrap(),
        (global_farm_id, BSX, expected_claimed_rewards, unclaimable_rewards)
    );
    assert_eq!(
        lm.deposit(PREDEFINED_DEPOSIT_IDS[0]).unwrap().yield_farm_entries,
        vec![entry(GC_BSX_TKN1_YIELD_FARM_ID, 2_500, 0, 7_460_820, 18, 1_258)]
    );
    let g = lm.global_farm(GC_FARM).unwrap();
    assert_eq!(
        (g.updated_at, g.accumulated_rpz, g.total_shares_z, g.accumulated_rewards, g.paid_accumulated_rewards),
        (1_258, 620 * FIXED_ONE, 703_990, 292_442_060, 142_851_325)
    );
    let y1 = lm.yield_farm(BSX_TKN1_AMM, GC_FARM, GC_BSX_TKN1_YIELD_FARM_ID).unwrap();
    assert_eq!(
        (y1.updated_at, y1.accumulated_rpvs, y1.accumulated_rpz, y1.total_shares, y1.total_valued_shares, y1.entries_count),
        (1_258, 3_100 * FIXED_ONE, 620 * FIXED_ONE, 616, 45_540, 3)
    );
    let y2 = lm.yield_farm(BSX_TKN2_AMM, GC_FARM, GC_BSX_TKN2_YIELD_FARM_ID).unwrap();
    assert_eq!(
        (y2.updated_at, y2.accumulated_rpvs, y2.accumulated_rpz, y2.total_shares, y2.total_valued_shares, y2.entries_count),
        (30, 60 * FIXED_ONE, 6 * FIXED_ONE, 960, 47_629, 4)
    );
    assert_eq!(lm.free_balance(BSX, ALICE), alice_bsx_balance + expected_claimed_rewards);
    let yield_farm_claim_from_global_farm = 140_377_050;
    assert_eq!(
        lm.free_balance(BSX, bsx_tkn1_yield_farm_account),
        bsx_tkn1_yield_farm_reward_balance + yield_farm_claim_from_global_farm - expected_claimed_rewards
    );

    // Charlie's farm incentivizes KSM and rewards in ACA: the claim pays ACA.
    let mut lm = LiquidityMining::new(5);
    let (gf, yf, deposit) = farm_with_deposit(&mut lm, CHARLIE, ACA, KSM, ACA_KSM_AMM, ACA);
    let d = lm.deposit(deposit).unwrap();
    assert_eq!((d.shares, d.amm_pool_id), (50, ACA_KSM_AMM));
    assert_eq!(d.yield_farm_entries[0].entered_at, 18);
    lm.set_block_number(2_596);
    assert_eq!(
        lm.claim_rewards(ALICE, deposit, yf, FAIL_ON_DOUBLECLAIM).unwrap(),
        (gf, ACA, 23_306, 20_444)
    );
    assert_eq!(lm.free_balance(ACA, ALICE), 23_306);
    assert_eq!(lm.free_balance(KSM, ALICE), 0);
}

#[test]
fn claim_rewards_deposit_with_multiple_entries_should_work() {
    let mut lm = LiquidityMining::new(5);
    lm.set_block_number(1);
    lm.mint(BSX, GC, 62_500_000).unwrap();
    lm.mint(KSM, EVE, 8_000_000).unwrap();
    lm.mint(ACA, DAVE, 10_000_000).unwrap();
    let (gc_farm, _) = lm
        .create_global_farm(62_500_000, 10_000, 100, BSX, BSX, GC, 500_000, 10, FIXED_ONE)
        .unwrap();
    let (eve_farm, _) = lm
        .create_global_farm(8_000_000, 1_000, 1_000, BSX, KSM, EVE, 1_000_000, 10, FIXED_ONE)
        .unwrap();
    let (dave_farm, _) = lm
        .create_global_farm(10_000_000, 1_000, 1_000, BSX, ACA, DAVE, 1_000_000, 10, FIXED_ONE)
        .unwrap();
    let curve = Some(LoyaltyCurve::default());
    let gc_yf = lm.create_yield_farm(GC, gc_farm, 5 * FIXED_ONE, curve, BSX_TKN1_AMM, BSX, TKN1).unwrap();
    let eve_yf = lm.create_yield_farm(EVE, eve_farm, 2 * FIXED_ONE, curve, BSX_TKN1_AMM, BSX, TKN1).unwrap();
    let dave_yf = lm.create_yield_farm(DAVE, dave_farm, 2 * FIXED_ONE, curve, BSX_TKN1_AMM, BSX, TKN1).unwrap();

    lm.set_block_number(1_800);
    let deposit = lm.deposit_lp_shares(gc_farm, gc_yf, BSX_TKN1_AMM, 50, 2_500).unwrap();
    lm.set_block_number(50_000);
    assert_eq!(lm.redeposit_lp_shares(eve_farm, eve_yf, deposit, 4_000).unwrap(), (50, BSX_TKN1_AMM));
    lm.set_block_number(800_000);
    assert_eq!(lm.redeposit_lp_shares(dave_farm, dave_yf, deposit, 5_000).unwrap(), (50, BSX_TKN1_AMM));

    let entry = |gf: GlobalFarmId, yf: YieldFarmId, valued: u128, claimed: u128, entered: u64, updated: u64| {
        YieldFarmEntry {
            global_farm_id: gf,
            yield_farm_id: yf,
            valued_shares: valued,
            accumulated_rpvs: 0,
            accumulated_claimed_rewards: claimed,
            entered_at: entered,
            updated_at: updated,
        }
    };
    assert_eq!(
        lm.deposit(deposit).unwrap().yield_farm_entries,
        vec![
            entry(gc_farm, gc_yf, 2_500, 0, 18, 18),
            entry(eve_farm, eve_yf, 4_000, 0, 50, 50),
            entry(dave_farm, dave_yf, 5_000, 0, 800, 800),
        ]
    );

    lm.set_block_number(1_000_000);
    assert_eq!(
        lm.claim_rewards(ALICE, deposit, eve_yf, true).unwrap(),
        (eve_farm, KSM, 7_238_095, 361_905)
    );
    assert_eq!(lm.claim_rewards(ALICE, deposit, eve_yf, true), Err(Error::DoubleClaimInPeriod));
    assert_eq!(
        lm.claim_rewards(ALICE, deposit, gc_yf, true).unwrap(),
        (gc_farm, BSX, 62_078_099, 309_401)
    );
    assert_eq!(
        lm.deposit(deposit).unwrap().yield_farm_entries,
        vec![
            entry(gc_farm, gc_yf, 2_500, 62_078_099, 18, 10_000),
            entry(eve_farm, eve_yf, 4_000, 7_238_095, 50, 1_000),
            entry(dave_farm, dave_yf, 5_000, 0, 800, 800),
        ]
    );

    // Same period, another block.
    lm.set_block_number(1_000_050);
    assert_eq!(lm.claim_rewards(ALICE, deposit, eve_yf, true), Err(Error::DoubleClaimInPeriod));
    assert_eq!(lm.claim_rewards(ALICE, deposit, gc_yf, true), Err(Error::DoubleClaimInPeriod));
    assert_eq!(
        lm.claim_rewards(ALICE, deposit, dave_yf, true).unwrap(),
        (dave_farm, ACA, 1_666_666, 333_334)
    );
    assert_eq!(
        lm.deposit(deposit).unwrap().yield_farm_entries,
        vec![
            entry(gc_farm, gc_yf, 2_500, 62_078_099, 18, 10_000),
            entry(eve_farm, eve_yf, 4_000, 7_238_095, 50, 1_000),
            entry(dave_farm, dave_yf, 5_000, 1_666_666, 800, 1_000),
        ]
    );
    assert_eq!(lm.free_balance(KSM, ALICE), 7_238_095);
    assert_eq!(lm.free_balance(BSX, ALICE), 62_078_099);
    assert_eq!(lm.free_balance(ACA, ALICE), 1_666_666);
}

#[test]
fn claim_rewards_doubleclaim_in_the_same_period_should_not_work() {
    const FAIL_ON_DOUBLECLAIM: bool = true;
    let mut lm = predefined_with_deposits();
    let alice_bsx_balance = lm.free_balance(BSX, ALICE);
    let bsx_tkn1_yield_farm_account = farm_account_id(GC_BSX_TKN1_YIELD_FARM_ID);
    let bsx_tkn1_yield_farm_reward_balance = lm.free_balance(BSX, bsx_tkn1_yield_farm_account);

    assert!(lm
        .claim_rewards(ALICE, PREDEFINED_DEPOSIT_IDS[0], GC_BSX_TKN1_YIELD_FARM_ID, FAIL_ON_DOUBLECLAIM)
        .is_ok());
    let d = lm.deposit(PREDEFINED_DEPOSIT_IDS[0]).unwrap();
    assert_eq!((d.shares, d.amm_pool_id), (50, BSX_TKN1_AMM));
    assert_eq!(
        d.yield_farm_entries,
        vec![entry(GC_BSX_TKN1_YIELD_FARM_ID, 2_500, 0, 23_306, 18, 25)]
    );
    assert_eq!(lm.free_balance(BSX, ALICE), alice_bsx_balance + 23_306);
    assert_eq!(
        lm.free_balance(BSX, bsx_tkn1_yield_farm_account),
        bsx_tkn1_yield_farm_reward_balance - 23_306
    );

    assert_eq!(
        lm.claim_rewards(ALICE, PREDEFINED_DEPOSIT_IDS[0], GC_BSX_TKN1_YIELD_FARM_ID, FAIL_ON_DOUBLECLAIM),
        Err(Error::DoubleClaimInPeriod)
    );
}

#[test]
fn claim_rewards_from_canceled_yield_farm_should_work() {
    const FAIL_ON_DOUBLECLAIM: bool = true;
    let mut lm = predefined_with_deposits();
    let alice_bsx_balance = lm.free_balance(BSX, ALICE);
    let bsx_tkn1_yield_farm_account = farm_account_id(GC_BSX_TKN1_YIELD_FARM_ID);
    let bsx_tkn1_yield_farm_reward_balance = lm.free_balance(BSX, bsx_tkn1_yield_farm_account);

    // Stop yield farming before claiming.
    assert_eq!(lm.stop_yield_farm(GC, GC_FARM, BSX_TKN1_AMM), Ok(GC_BSX_TKN1_YIELD_FARM_ID));
    lm.set_block_number(20_000);

    let expected_claimed_rewards = 23_306;
    let unclaimable_rewards = 20_444;
    assert_eq!(
        lm.claim_rewards(ALICE, PREDEFINED_DEPOSIT_IDS[0], GC_BSX_TKN1_YIELD_FARM_ID, FAIL_ON_DOUBLECLAIM)
            .unwrap(),
        (GC_FARM, BSX, expected_claimed_rewards, unclaimable_rewards)
    );
    let d = lm.deposit(PREDEFINED_DEPOSIT_IDS[0]).unwrap();
    assert_eq!((d.shares, d.amm_pool_id), (50, BSX_TKN1_AMM));
    assert_eq!(
        d.yield_farm_entries,
        vec![entry(GC_BSX_TKN1_YIELD_FARM_ID, 2_500, 0, expected_claimed_rewards, 18, 200)]
    );
    assert_eq!(lm.free_balance(BSX, ALICE), alice_bsx_balance + expected_claimed_rewards);
    assert_eq!(
        lm.free_balance(BSX, bsx_tkn1_yield_farm_account),
        bsx_tkn1_yield_farm_reward_balance - expected_claimed_rewards
    );

    // A second claim on the stopped farm claims nothing.
    lm.set_block_number(300_000);
    assert_eq!(
        lm.claim_rewards(ALICE, PREDEFINED_DEPOSIT_IDS[0], GC_BSX_TKN1_YIELD_FARM_ID, FAIL_ON_DOUBLECLAIM)
            .unwrap(),
        (GC_FARM, BSX, 0, unclaimable_rewards)
    );
    let y = lm.yield_farm(BSX_TKN1_AMM, GC_FARM, GC_BSX_TKN1_YIELD_FARM_ID).unwrap();
    assert_eq!((y.state, y.multiplier), (YieldFarmState::Stopped, 0));
}

#[test]
fn claim_rewards_from_removed_yield_farm_should_not_work() {
    const FAIL_ON_DOUBLECLAIM: bool = true;
    let mut lm = predefined_with_deposits();
    assert!(lm.stop_yield_farm(GC, GC_FARM, BSX_TKN1_AMM).is_ok());
    assert!(lm.destroy_yield_farm(GC, GC_FARM, GC_BSX_TKN1_YIELD_FARM_ID, BSX_TKN1_AMM).is_ok());
    assert_eq!(
        lm.claim_rewards(ALICE, PREDEFINED_DEPOSIT_IDS[0], GC_BSX_TKN1_YIELD_FARM_ID, FAIL_ON_DOUBLECLAIM),
        Err(Error::YieldFarmNotFound)
    );
}

#[test]
fn claim_rewards_doubleclaim_should_work() {
    const FAIL_ON_DOUBLECLAIM: bool = true;
    let mut lm = predefined_with_deposits();
    let (_, _, claimable_rewards, unclaimable_rewards) = lm
        .claim_rewards(ALICE, PREDEFINED_DEPOSIT_IDS[0], GC_BSX_TKN1_YIELD_FARM_ID, !FAIL_ON_DOUBLECLAIM)
        .unwrap();
    assert_eq!(claimable_rewards, 23_306);
    assert_eq!(unclaimable_rewards, 20_444);

    // A second claim in the same period claims nothing and reports the same unclaimable reward.
    let (_, _, claimable_rewards, unclaimable_rewards) = lm
        .claim_rewards(ALICE, PREDEFINED_DEPOSIT_IDS[0], GC_BSX_TKN1_YIELD_FARM_ID, !FAIL_ON_DOUBLECLAIM)
        .unwrap();
    assert_eq!(claimable_rewards, 0);
    assert_eq!(unclaimable_rewards, 20_444);

    assert_eq!(
        lm.claim_rewards(ALICE, PREDEFINED_DEPOSIT_IDS[0], GC_BSX_TKN1_YIELD_FARM_ID, FAIL_ON_DOUBLECLAIM),
        Err(Error::DoubleClaimInPeriod)
    );
}

#[test]
fn deposits_should_claim_same_amount_when_created_in_the_same_period() {
    let mut lm = LiquidityMining::new(5);
    lm.set_block_number(1_000);
    lm.mint(BSX, GC, 1_000_000 * ONE).unwrap();
    let (gf, _) = lm
        .create_global_farm(1_000_000 * ONE, 10_000, 10, BSX, BSX, GC, 5_000, 1_000, FIXED_ONE)
        .unwrap();
    let yf_a = lm.create_yield_farm(GC, gf, FIXED_ONE, None, BSX_TKN1_AMM, BSX, TKN1).unwrap();
    assert_eq!(yf_a, 2);
    lm.deposit_lp_shares(gf, yf_a, BSX_TKN1_AMM, 100 * ONE, 1).unwrap();

    lm.set_block_number(1_500);
    let yf_b = lm.create_yield_farm(GC, gf, FIXED_ONE, None, BSX_TKN2_AMM, BSX, TKN2).unwrap();
    assert_eq!(yf_b, 3);

    lm.set_block_number(2_000);
    let bob_deposit = lm.deposit_lp_shares(gf, yf_b, BSX_TKN2_AMM, 100 * ONE, 1).unwrap();
    let charlie_deposit = lm.deposit_lp_shares(gf, yf_b, BSX_TKN2_AMM, 100 * ONE, 1).unwrap();
    assert_eq!((bob_deposit, charlie_deposit), (2, 3));

    lm.set_block_number(2_500);
    lm.claim_rewards(BOB, bob_deposit, yf_b, false).unwrap();
    lm.claim_rewards(CHARLIE, charlie_deposit, yf_b, false).unwrap();
    let bob_rewards = lm.free_balance(BSX, BOB);
    let charlie_rewards = lm.free_balance(BSX, CHARLIE);
    assert_eq!(bob_rewards, charlie_rewards);
}
