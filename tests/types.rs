use liquidity_mining::types::{
    ArithmeticError, DepositData, DepositError, GlobalFarmData, GlobalFarmState, LoyaltyCurve,
    YieldFarmData, YieldFarmEntry, YieldFarmState, FIXED_ONE,
};

fn entry(yield_farm_id: u32) -> YieldFarmEntry {
    YieldFarmEntry::new(1, yield_farm_id, 100, 0, 5)
}

#[test]
fn deposit_entries_stay_sorted_and_unique() {
    let mut d = DepositData::new(50, 9);
    assert!(d.can_be_flushed());
    assert_eq!(d.add_yield_farm_entry(entry(7), 5), Ok(()));
    assert_eq!(d.add_yield_farm_entry(entry(3), 5), Ok(()));
    assert_eq!(d.add_yield_farm_entry(entry(9), 5), Ok(()));
    assert_eq!(d.add_yield_farm_entry(entry(5), 5), Ok(()));
    let ids: Vec<u32> = d.yield_farm_entries.iter().map(|e| e.yield_farm_id).collect();
    assert_eq!(ids, vec![3, 5, 7, 9]);
    assert_eq!(d.add_yield_farm_entry(entry(5), 5), Err(DepositError::DoubleLock));
    assert_eq!(d.add_yield_farm_entry(entry(1), 5), Ok(()));
    assert_eq!(d.add_yield_farm_entry(entry(2), 5), Err(DepositError::MaxEntriesPerDeposit));
    assert_eq!(d.yield_farm_entries.len(), 5);
    assert!(!d.has_no_yield_farm_entries());
}

#[test]
fn deposit_entries_lookup_and_removal() {
    let mut d = DepositData::new(50, 9);
    for id in [4, 2, 8] {
        d.add_yield_farm_entry(entry(id), 3).unwrap();
    }
    assert!(d.contains_yield_farm_entry(8));
    assert!(!d.contains_yield_farm_entry(3));
    assert_eq!(d.get_yield_farm_entry(4), Some(entry(4)));
    assert_eq!(d.get_yield_farm_entry(5), None);
    assert_eq!(d.remove_yield_farm_entry(4), Ok(entry(4)));
    assert_eq!(d.remove_yield_farm_entry(4), Err(DepositError::YieldFarmEntryNotFound));
    let mut updated = entry(8);
    updated.accumulated_claimed_rewards = 77;
    assert_eq!(d.update_yield_farm_entry(updated), Ok(()));
    assert_eq!(d.get_yield_farm_entry(8).unwrap().accumulated_claimed_rewards, 77);
    assert_eq!(d.update_yield_farm_entry(entry(6)), Err(DepositError::YieldFarmEntryNotFound));
    d.remove_yield_farm_entry(2).unwrap();
    d.remove_yield_farm_entry(8).unwrap();
    assert!(d.can_be_flushed());
}

#[test]
fn yield_farm_entry_new_starts_unclaimed() {
    let e = YieldFarmEntry::new(1, 2, 300, 40, 18);
    assert_eq!((e.accumulated_claimed_rewards, e.entered_at, e.updated_at), (0, 18, 18));
}

#[test]
fn global_farm_counts() {
    let mut g = GlobalFarmData::new(1, 0, 1, 500_000, 500, 100, 1, 1, 10, 10, FIXED_ONE);
    assert!(g.is_active());
    assert!(g.has_no_live_farms());
    assert_eq!(g.yield_farm_removed(), Err(ArithmeticError::Underflow));
    assert_eq!(g.yield_farm_flushed(), Err(ArithmeticError::Underflow));
    g.yield_farm_added().unwrap();
    g.yield_farm_added().unwrap();
    assert_eq!(g.yield_farms_count, (2, 2));
    g.yield_farm_removed().unwrap();
    assert_eq!(g.yield_farms_count, (1, 2));
    g.yield_farm_flushed().unwrap();
    assert_eq!(g.yield_farms_count, (1, 1));
    assert!(!g.can_be_flushed());
    g.yield_farm_removed().unwrap();
    g.yield_farm_flushed().unwrap();
    g.state = GlobalFarmState::Deleted;
    assert!(g.can_be_flushed());
    g.yield_farms_count = (u32::MAX, 0);
    assert_eq!(g.yield_farm_added(), Err(ArithmeticError::Overflow));
    assert_eq!(g.yield_farms_count, (u32::MAX, 0));
}

#[test]
fn yield_farm_states_and_entries() {
    let mut y = YieldFarmData::new(3, 7, Some(LoyaltyCurve::default()), FIXED_ONE);
    assert!(y.is_active() && !y.is_stopped() && !y.is_deleted());
    assert!(!y.has_entries());
    assert_eq!(y.entry_removed(), Err(ArithmeticError::Underflow));
    y.entry_added().unwrap();
    assert!(y.has_entries());
    y.state = YieldFarmState::Deleted;
    assert!(!y.can_be_flushed());
    y.entry_removed().unwrap();
    assert!(y.can_be_flushed());
    y.entries_count = u64::MAX;
    assert_eq!(y.entry_added(), Err(ArithmeticError::Overflow));
}

#[test]
fn default_loyalty_curve() {
    let c = LoyaltyCurve::default();
    assert_eq!((c.initial_reward_percentage, c.scale_coef), (500_000_000_000_000_000, 100));
}
