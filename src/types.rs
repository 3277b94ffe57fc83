use vstd::prelude::*;

verus! {

pub type Balance = u128;

pub type FarmId = u32;

pub type GlobalFarmId = FarmId;

pub type YieldFarmId = FarmId;

pub type DepositId = u128;

pub type AssetId = u32;

pub type AccountId = u64;

pub type AmmPoolId = AccountId;

pub type BlockNumber = u64;

pub type Period = u64;

/// A fixed-point number with 18 decimals, held as its inner integer (`FIXED_ONE` is 1.0).
pub type FixedInner = u128;

pub type FarmMultiplier = FixedInner;

/// A rational in [0, 1] held as parts per million.
pub type PermillParts = u32;

/// Number of live (active and stopped) yield farms in a global farm.
pub type LiveFarmsCount = u32;

/// Number of all (active, stopped and deleted) yield farms in a global farm.
pub type TotalFarmsCount = u32;

pub const FIXED_ONE: u128 = 1_000_000_000_000_000_000;

pub const PERMILL_ONE: u32 = 1_000_000;

#[derive(Clone, Copy, Debug, PartialEq, Eq, Structural)]
pub enum GlobalFarmState {
    Active,
    Deleted,
}

#[derive(Clone, Copy, Debug, PartialEq, Eq, Structural)]
pub enum YieldFarmState {
    Active,
    Stopped,
    Deleted,
}

/// Top level of the reward hierarchy: a funded emission schedule shared by its yield farms.
/// A yield farm is live from the global farm's view while it is active or stopped.
#[derive(Clone, Copy, Debug, PartialEq, Eq)]
pub struct GlobalFarmData {
    pub id: GlobalFarmId,
    pub owner: AccountId,
    pub updated_at: Period,
    pub total_shares_z: Balance,
    /// Fixed-point (`FIXED_ONE` is 1.0).
    pub accumulated_rpz: FixedInner,
    pub reward_currency: AssetId,
    pub accumulated_rewards: Balance,
    pub paid_accumulated_rewards: Balance,
    pub yield_per_period: PermillParts,
    pub planned_yielding_periods: Period,
    pub blocks_per_period: BlockNumber,
    pub incentivized_asset: AssetId,
    pub max_reward_per_period: Balance,
    pub min_deposit: Balance,
    pub price_adjustment: FixedInner,
    /// `(live, total)`: the total count falls only when a yield farm is flushed.
    pub yield_farms_count: (LiveFarmsCount, TotalFarmsCount),
    pub state: GlobalFarmState,
}

impl GlobalFarmData {
    pub fn new(
        id: GlobalFarmId,
        updated_at: Period,
        reward_currency: AssetId,
        yield_per_period: PermillParts,
        planned_yielding_periods: Period,
        blocks_per_period: BlockNumber,
        owner: AccountId,
        incentivized_asset: AssetId,
        max_reward_per_period: Balance,
        min_deposit: Balance,
        price_adjustment: FixedInner,
    ) -> (r: Self)
        ensures
            r.id == id,
            r.updated_at == updated_at,
            r.reward_currency == reward_currency,
            r.yield_per_period == yield_per_period,
            r.planned_yielding_periods == planned_yielding_periods,
            r.blocks_per_period == blocks_per_period,
            r.owner == owner,
            r.incentivized_asset == incentivized_asset,
            r.max_reward_per_period == max_reward_per_period,
            r.min_deposit == min_deposit,
            r.price_adjustment == price_adjustment,
            r.accumulated_rewards == 0,
            r.accumulated_rpz == 0,
            r.paid_accumulated_rewards == 0,
            r.total_shares_z == 0,
            r.yield_farms_count == (0u32, 0u32),
            r.state == GlobalFarmState::Active,
    {
        GlobalFarmData {
            accumulated_rewards: 0,
            accumulated_rpz: 0,
            paid_accumulated_rewards: 0,
            total_shares_z: 0,
            yield_farms_count: (0, 0),
            id,
            updated_at,
            reward_currency,
            yield_per_period,
            planned_yielding_periods,
            blocks_per_period,
            owner,
            incentivized_asset,
            max_reward_per_period,
            min_deposit,
            price_adjustment,
            state: GlobalFarmState::Active,
        }
    }

    /// Counts a newly created yield farm as live and in the total.
    pub fn yield_farm_added(&mut self) -> (r: Result<(), ArithmeticError>)
        ensures
            r is Ok <==> (old(self).yield_farms_count.0 < u32::MAX && old(self).yield_farms_count.1
                < u32::MAX),
            r is Ok ==> *final(self) == (GlobalFarmData {
                yield_farms_count: (
                    (old(self).yield_farms_count.0 + 1) as u32,
                    (old(self).yield_farms_count.1 + 1) as u32,
                ),
                ..*old(self)
            }),
            r is Err ==> r == Err::<(), _>(ArithmeticError::Overflow) && *final(self) == *old(self),
    {
        let live = match self.yield_farms_count.0.checked_add(1) {
            Some(v) => v,
            None => return Err(ArithmeticError::Overflow),
        };
        let total = match self.yield_farms_count.1.checked_add(1) {
            Some(v) => v,
            None => return Err(ArithmeticError::Overflow),
        };
        self.yield_farms_count = (live, total);
        Ok(())
    }

    /// A yield farm was deleted: only the live count falls.
    pub fn yield_farm_removed(&mut self) -> (r: Result<(), ArithmeticError>)
        ensures
            r is Ok <==> old(self).yield_farms_count.0 > 0,
            r is Ok ==> *final(self) == (GlobalFarmData {
                yield_farms_count: (
                    (old(self).yield_farms_count.0 - 1) as u32,
                    old(self).yield_farms_count.1,
                ),
                ..*old(self)
            }),
            r is Err ==> r == Err::<(), _>(ArithmeticError::Underflow) && *final(self) == *old(self),
    {
        if self.yield_farms_count.0 == 0 {
            return Err(ArithmeticError::Underflow);
        }
        self.yield_farms_count.0 = self.yield_farms_count.0 - 1;
        Ok(())
    }

    /// A deleted yield farm was flushed from storage: the total count falls.
    pub fn yield_farm_flushed(&mut self) -> (r: Result<(), ArithmeticError>)
        ensures
            r is Ok <==> old(self).yield_farms_count.1 > 0,
            r is Ok ==> *final(self) == (GlobalFarmData {
                yield_farms_count: (
                    old(self).yield_farms_count.0,
                    (old(self).yield_farms_count.1 - 1) as u32,
                ),
                ..*old(self)
            }),
            r is Err ==> r == Err::<(), _>(ArithmeticError::Underflow) && *final(self) == *old(self),
    {
        if self.yield_farms_count.1 == 0 {
            return Err(ArithmeticError::Underflow);
        }
        self.yield_farms_count.1 = self.yield_farms_count.1 - 1;
        Ok(())
    }

    pub fn has_no_live_farms(&self) -> (r: bool)
        ensures
            r == (self.yield_farms_count.0 == 0),
    {
        self.yield_farms_count.0 == 0
    }

    /// A global farm may leave storage only once deleted and with every yield farm flushed.
    pub fn can_be_flushed(&self) -> (r: bool)
        ensures
            r == (self.state == GlobalFarmState::Deleted && self.yield_farms_count.1 == 0),
    {
        self.state == GlobalFarmState::Deleted && self.yield_farms_count.1 == 0
    }

    pub fn is_active(&self) -> (r: bool)
        ensures
            r == (self.state == GlobalFarmState::Active),
    {
        self.state == GlobalFarmState::Active
    }
}

#[derive(Clone, Copy, Debug, PartialEq, Eq, Structural)]
pub enum ArithmeticError {
    Overflow,
    Underflow,
    DivisionByZero,
}

/// Shape of the loyalty factor: `b + (1 - b) * t / (t + s)` after `t` periods.
#[derive(Clone, Copy, Debug, PartialEq, Eq, Structural)]
pub struct LoyaltyCurve {
    /// `b`, fixed-point in [0, 1).
    pub initial_reward_percentage: FixedInner,
    /// `s`, at least 1.
    pub scale_coef: u32,
}

impl LoyaltyCurve {
    pub open spec fn is_valid(&self) -> bool {
        self.initial_reward_percentage < FIXED_ONE && self.scale_coef >= 1
    }

    /// The curve with `b = 0.5` and `s = 100`.
    pub fn default() -> (r: Self)
        ensures
            r.initial_reward_percentage == FIXED_ONE / 2,
            r.scale_coef == 100,
            r.is_valid(),
    {
        LoyaltyCurve { initial_reward_percentage: 500_000_000_000_000_000, scale_coef: 100 }
    }
}

/// Per-pool distribution bucket fed by a global farm.
#[derive(Clone, Copy, Debug, PartialEq, Eq, Structural)]
pub struct YieldFarmData {
    pub id: FarmId,
    pub updated_at: Period,
    pub total_shares: Balance,
    pub total_valued_shares: Balance,
    /// Fixed-point (`FIXED_ONE` is 1.0).
    pub accumulated_rpvs: FixedInner,
    /// Fixed-point (`FIXED_ONE` is 1.0).
    pub accumulated_rpz: FixedInner,
    pub loyalty_curve: Option<LoyaltyCurve>,
    pub multiplier: FarmMultiplier,
    pub state: YieldFarmState,
    pub entries_count: u64,
}

impl YieldFarmData {
    pub fn new(
        id: FarmId,
        updated_at: Period,
        loyalty_curve: Option<LoyaltyCurve>,
        multiplier: FarmMultiplier,
    ) -> (r: Self)
        ensures
            r.id == id,
            r.updated_at == updated_at,
            r.loyalty_curve == loyalty_curve,
            r.multiplier == multiplier,
            r.accumulated_rpvs == 0,
            r.accumulated_rpz == 0,
            r.total_shares == 0,
            r.total_valued_shares == 0,
            r.state == YieldFarmState::Active,
            r.entries_count == 0,
    {
        YieldFarmData {
            id,
            updated_at,
            loyalty_curve,
            multiplier,
            accumulated_rpvs: 0,
            accumulated_rpz: 0,
            total_shares: 0,
            total_valued_shares: 0,
            state: YieldFarmState::Active,
            entries_count: 0,
        }
    }

    pub fn is_active(&self) -> (r: bool)
        ensures
            r == (self.state == YieldFarmState::Active),
    {
        self.state == YieldFarmState::Active
    }

    pub fn is_stopped(&self) -> (r: bool)
        ensures
            r == (self.state == YieldFarmState::Stopped),
    {
        self.state == YieldFarmState::Stopped
    }

    pub fn is_deleted(&self) -> (r: bool)
        ensures
            r == (self.state == YieldFarmState::Deleted),
    {
        self.state == YieldFarmState::Deleted
    }

    /// A yield farm may leave storage only once deleted and empty.
    pub fn can_be_flushed(&self) -> (r: bool)
        ensures
            r == (self.state == YieldFarmState::Deleted && self.entries_count == 0),
    {
        self.state == YieldFarmState::Deleted && self.entries_count == 0
    }

    pub fn entry_removed(&mut self) -> (r: Result<(), ArithmeticError>)
        ensures
            r is Ok <==> old(self).entries_count > 0,
            r is Ok ==> *final(self) == (YieldFarmData {
                entries_count: (old(self).entries_count - 1) as u64,
                ..*old(self)
            }),
            r is Err ==> r == Err::<(), _>(ArithmeticError::Underflow) && *final(self) == *old(self),
    {
        if self.entries_count == 0 {
            return Err(ArithmeticError::Underflow);
        }
        self.entries_count = self.entries_count - 1;
        Ok(())
    }

    pub fn entry_added(&mut self) -> (r: Result<(), ArithmeticError>)
        ensures
            r is Ok <==> old(self).entries_count < u64::MAX,
            r is Ok ==> *final(self) == (YieldFarmData {
                entries_count: (old(self).entries_count + 1) as u64,
                ..*old(self)
            }),
            r is Err ==> r == Err::<(), _>(ArithmeticError::Overflow) && *final(self) == *old(self),
    {
        if self.entries_count == u64::MAX {
            return Err(ArithmeticError::Overflow);
        }
        self.entries_count = self.entries_count + 1;
        Ok(())
    }

    pub fn has_entries(&self) -> (r: bool)
        ensures
            r == (self.entries_count != 0),
    {
        self.entries_count != 0
    }
}

/// One yield farm that a deposit's shares earn from.
#[derive(Clone, Copy, Debug, PartialEq, Eq, Structural)]
pub struct YieldFarmEntry {
    pub global_farm_id: GlobalFarmId,
    pub yield_farm_id: YieldFarmId,
    pub valued_shares: Balance,
    /// Fixed-point (`FIXED_ONE` is 1.0).
    pub accumulated_rpvs: FixedInner,
    pub accumulated_claimed_rewards: Balance,
    pub entered_at: Period,
    pub updated_at: Period,
}

impl YieldFarmEntry {
    pub fn new(
        global_farm_id: GlobalFarmId,
        yield_farm_id: YieldFarmId,
        valued_shares: Balance,
        accumulated_rpvs: Balance,
        entered_at: Period,
    ) -> (r: Self)
        ensures
            r.global_farm_id == global_farm_id,
            r.yield_farm_id == yield_farm_id,
            r.valued_shares == valued_shares,
            r.accumulated_rpvs == accumulated_rpvs,
            r.accumulated_claimed_rewards == 0,
            r.entered_at == entered_at,
            r.updated_at == entered_at,
    {
        YieldFarmEntry {
            global_farm_id,
            yield_farm_id,
            valued_shares,
            accumulated_rpvs,
            accumulated_claimed_rewards: 0,
            entered_at,
            updated_at: entered_at,
        }
    }
}

#[derive(Clone, Copy, Debug, PartialEq, Eq, Structural)]
pub enum DepositError {
    MaxEntriesPerDeposit,
    DoubleLock,
    YieldFarmEntryNotFound,
}

/// Entries strictly increasing by yield farm id.
pub open spec fn entries_sorted(s: Seq<YieldFarmEntry>) -> bool {
    forall|i: int, j: int|
        0 <= i < j < s.len() ==> #[trigger] s[i].yield_farm_id < #[trigger] s[j].yield_farm_id
}

pub open spec fn has_entry_for(s: Seq<YieldFarmEntry>, id: YieldFarmId) -> bool {
    exists|i: int| 0 <= i < s.len() && #[trigger] s[i].yield_farm_id == id
}

/// The position of the entry of yield farm `id`.
pub open spec fn entry_index(s: Seq<YieldFarmEntry>, id: YieldFarmId) -> int {
    choose|i: int| 0 <= i < s.len() && (#[trigger] s[i]).yield_farm_id == id
}

/// The entry of yield farm `id`.
pub open spec fn entry_for(s: Seq<YieldFarmEntry>, id: YieldFarmId) -> YieldFarmEntry {
    s[entry_index(s, id)]
}

/// In sorted entries the entry of a yield farm is the one at its index.
pub proof fn lemma_entry_index_unique(s: Seq<YieldFarmEntry>, id: YieldFarmId, i: int)
    requires
        entries_sorted(s),
        0 <= i < s.len(),
        s[i].yield_farm_id == id,
    ensures
        entry_index(s, id) == i,
        has_entry_for(s, id),
{
    let j = entry_index(s, id);
    assert(0 <= j < s.len() && s[j].yield_farm_id == id);
    if j < i {
        assert(s[j].yield_farm_id < s[i].yield_farm_id);
    } else if i < j {
        assert(s[i].yield_farm_id < s[j].yield_farm_id);
    }
}

pub proof fn lemma_has_entry_insert(s: Seq<YieldFarmEntry>, i: int, e: YieldFarmEntry, id: YieldFarmId)
    requires
        0 <= i <= s.len(),
    ensures
        has_entry_for(s.insert(i, e), id) == (has_entry_for(s, id) || e.yield_farm_id == id),
{
    let t = s.insert(i, e);
    if has_entry_for(s, id) {
        let k = choose|k: int| 0 <= k < s.len() && #[trigger] s[k].yield_farm_id == id;
        let k2 = if k < i { k } else { k + 1 };
        assert(t[k2] == s[k]);
    }
    if e.yield_farm_id == id {
        assert(t[i] == e);
    }
    if has_entry_for(t, id) {
        let k = choose|k: int| 0 <= k < t.len() && #[trigger] t[k].yield_farm_id == id;
        if k < i {
            assert(t[k] == s[k]);
        } else if k > i {
            assert(t[k] == s[k - 1]);
        }
    }
}

pub proof fn lemma_has_entry_update(s: Seq<YieldFarmEntry>, i: int, e: YieldFarmEntry, id: YieldFarmId)
    requires
        0 <= i < s.len(),
        s[i].yield_farm_id == e.yield_farm_id,
    ensures
        has_entry_for(s.update(i, e), id) == has_entry_for(s, id),
{
    let t = s.update(i, e);
    if has_entry_for(s, id) {
        let k = choose|k: int| 0 <= k < s.len() && #[trigger] s[k].yield_farm_id == id;
        assert(t[k].yield_farm_id == id);
    }
    if has_entry_for(t, id) {
        let k = choose|k: int| 0 <= k < t.len() && #[trigger] t[k].yield_farm_id == id;
        assert(s[k].yield_farm_id == id);
    }
}

pub proof fn lemma_has_entry_remove(s: Seq<YieldFarmEntry>, i: int, id: YieldFarmId)
    requires
        entries_sorted(s),
        0 <= i < s.len(),
    ensures
        has_entry_for(s.remove(i), id) == (has_entry_for(s, id) && s[i].yield_farm_id != id),
{
    let t = s.remove(i);
    if has_entry_for(s, id) && s[i].yield_farm_id != id {
        let k = choose|k: int| 0 <= k < s.len() && #[trigger] s[k].yield_farm_id == id;
        let k2 = if k < i { k } else { k - 1 };
        assert(t[k2] == s[k]);
    }
    if has_entry_for(t, id) {
        let k = choose|k: int| 0 <= k < t.len() && #[trigger] t[k].yield_farm_id == id;
        let k0 = if k < i { k } else { k + 1 };
        assert(t[k] == s[k0]);
        assert(s[k0].yield_farm_id != s[i].yield_farm_id);
    }
}

/// An entry that moved to position `q` of `t` from position `p` of `s` is still the entry of
/// its yield farm.
pub proof fn lemma_entry_for_moved(
    s: Seq<YieldFarmEntry>,
    t: Seq<YieldFarmEntry>,
    j: YieldFarmId,
    p: int,
    q: int,
)
    requires
        entries_sorted(s),
        entries_sorted(t),
        0 <= p < s.len(),
        0 <= q < t.len(),
        s[p].yield_farm_id == j,
        t[q] == s[p],
    ensures
        entry_for(t, j) == entry_for(s, j),
{
    lemma_entry_index_unique(s, j, p);
    lemma_entry_index_unique(t, j, q);
}

/// Inserting an entry of another yield farm keeps the entry of `j`.
pub proof fn lemma_entry_for_insert(s: Seq<YieldFarmEntry>, i: int, e: YieldFarmEntry, j: YieldFarmId)
    requires
        entries_sorted(s),
        entries_sorted(s.insert(i, e)),
        0 <= i <= s.len(),
        has_entry_for(s, j),
    ensures
        entry_for(s.insert(i, e), j) == entry_for(s, j),
{
    let p = choose|p: int| 0 <= p < s.len() && #[trigger] s[p].yield_farm_id == j;
    let q = if p < i { p } else { p + 1 };
    lemma_entry_for_moved(s, s.insert(i, e), j, p, q);
}

/// Replacing the entry at `i` keeps the entries of the other yield farms.
pub proof fn lemma_entry_for_update(s: Seq<YieldFarmEntry>, i: int, e: YieldFarmEntry, j: YieldFarmId)
    requires
        entries_sorted(s),
        entries_sorted(s.update(i, e)),
        0 <= i < s.len(),
        has_entry_for(s, j),
        s[i].yield_farm_id != j,
    ensures
        entry_for(s.update(i, e), j) == entry_for(s, j),
{
    let p = choose|p: int| 0 <= p < s.len() && #[trigger] s[p].yield_farm_id == j;
    lemma_entry_for_moved(s, s.update(i, e), j, p, p);
}

/// Removing the entry at `i` keeps the entries of the other yield farms.
pub proof fn lemma_entry_for_remove(s: Seq<YieldFarmEntry>, i: int, j: YieldFarmId)
    requires
        entries_sorted(s),
        entries_sorted(s.remove(i)),
        0 <= i < s.len(),
        has_entry_for(s, j),
        s[i].yield_farm_id != j,
    ensures
        entry_for(s.remove(i), j) == entry_for(s, j),
{
    let p = choose|p: int| 0 <= p < s.len() && #[trigger] s[p].yield_farm_id == j;
    let q = if p < i { p } else { p - 1 };
    lemma_entry_for_moved(s, s.remove(i), j, p, q);
}

/// A user's stake: its shares and the yield farms they earn from.
#[derive(Clone, Debug, PartialEq, Eq)]
pub struct DepositData {
    pub shares: Balance,
    pub amm_pool_id: AmmPoolId,
    pub yield_farm_entries: Vec<YieldFarmEntry>,
}

impl DepositData {
    pub open spec fn entries(&self) -> Seq<YieldFarmEntry> {
        self.yield_farm_entries@
    }

    pub open spec fn wf(&self) -> bool {
        entries_sorted(self.entries())
    }

    pub fn new(shares: Balance, amm_pool_id: AmmPoolId) -> (r: Self)
        ensures
            r.shares == shares,
            r.amm_pool_id == amm_pool_id,
            r.entries().len() == 0,
            r.wf(),
    {
        DepositData { shares, amm_pool_id, yield_farm_entries: Vec::new() }
    }

    /// Binary search by yield farm id: `Ok` with its index, or `Err` with the insertion point.
    fn search(&self, yield_farm_id: YieldFarmId) -> (r: Result<usize, usize>)
        requires
            self.wf(),
        ensures
            match r {
                Ok(i) => i < self.entries().len() && self.entries()[i as int].yield_farm_id
                    == yield_farm_id,
                Err(i) => i <= self.entries().len() && (forall|k: int|
                    0 <= k < i ==> #[trigger] self.entries()[k].yield_farm_id < yield_farm_id) && (
                forall|k: int|
                    i <= k < self.entries().len() ==> #[trigger] self.entries()[k].yield_farm_id
                        > yield_farm_id),
            },
    {
        let mut lo: usize = 0;
        let mut hi: usize = self.yield_farm_entries.len();
        while lo < hi
            invariant
                self.wf(),
                lo <= hi <= self.entries().len(),
                forall|k: int| 0 <= k < lo ==> #[trigger] self.entries()[k].yield_farm_id < yield_farm_id,
                forall|k: int|
                    hi <= k < self.entries().len() ==> #[trigger] self.entries()[k].yield_farm_id
                        > yield_farm_id,
            decreases hi - lo,
        {
            let mid: usize = lo + (hi - lo) / 2;
            let id = self.yield_farm_entries[mid].yield_farm_id;
            if id == yield_farm_id {
                return Ok(mid);
            } else if id < yield_farm_id {
                lo = mid + 1;
            } else {
                hi = mid;
            }
        }
        Err(lo)
    }

    /// Inserts `entry` keeping the entries sorted and unique by yield farm id.
    pub fn add_yield_farm_entry(&mut self, entry: YieldFarmEntry, max_entries: u8) -> (r: Result<
        (),
        DepositError,
    >)
        requires
            old(self).wf(),
        ensures
            final(self).wf(),
            old(self).entries().len() >= max_entries ==> r == Err::<(), _>(
                DepositError::MaxEntriesPerDeposit,
            ),
            old(self).entries().len() < max_entries && has_entry_for(
                old(self).entries(),
                entry.yield_farm_id,
            ) ==> r == Err::<(), _>(DepositError::DoubleLock),
            old(self).entries().len() < max_entries && !has_entry_for(
                old(self).entries(),
                entry.yield_farm_id,
            ) ==> r is Ok,
            r is Err ==> *final(self) == *old(self),
            r is Ok ==> {
                &&& old(self).entries().len() < max_entries
                &&& !has_entry_for(old(self).entries(), entry.yield_farm_id)
                &&& final(self).shares == old(self).shares
                &&& final(self).amm_pool_id == old(self).amm_pool_id
                &&& exists|i: int|
                    0 <= i <= old(self).entries().len() && final(self).entries()
                        == old(self).entries().insert(i, entry)
            },
    {
        if self.yield_farm_entries.len() >= max_entries as usize {
            return Err(DepositError::MaxEntriesPerDeposit);
        }
        match self.search(entry.yield_farm_id) {
            Ok(_) => Err(DepositError::DoubleLock),
            Err(idx) => {
                proof {
                    assert forall|k: int| 0 <= k < self.entries().len() implies self.entries()[k].yield_farm_id != entry.yield_farm_id by {
                        if k < idx {} else {}
                    }
                }
                let ghost before = self.entries();
                self.yield_farm_entries.insert(idx, entry);
                proof {
                    let after = self.entries();
                    assert(after == before.insert(idx as int, entry));
                    assert forall|i: int, j: int| 0 <= i < j < after.len() implies #[trigger] after[i].yield_farm_id < #[trigger] after[j].yield_farm_id by {
                        if i < idx && j < idx {} else if i < idx && j == idx {} else if i < idx {
                            assert(after[j] == before[j - 1]);
                        } else if i == idx {
                            assert(after[j] == before[j - 1]);
                        } else {
                            assert(after[i] == before[i - 1]);
                            assert(after[j] == before[j - 1]);
                        }
                    }
                }
                Ok(())
            },
        }
    }

    /// Removes and returns the entry of `yield_farm_id`.
    pub fn remove_yield_farm_entry(&mut self, yield_farm_id: YieldFarmId) -> (r: Result<
        YieldFarmEntry,
        DepositError,
    >)
        requires
            old(self).wf(),
        ensures
            final(self).wf(),
            r is Err <==> !has_entry_for(old(self).entries(), yield_farm_id),
            r is Err ==> r == Err::<YieldFarmEntry, _>(DepositError::YieldFarmEntryNotFound)
                && *final(self) == *old(self),
            r is Ok ==> {
                &&& r->Ok_0.yield_farm_id == yield_farm_id
                &&& final(self).shares == old(self).shares
                &&& final(self).amm_pool_id == old(self).amm_pool_id
                &&& exists|i: int|
                    0 <= i < old(self).entries().len() && old(self).entries()[i] == r->Ok_0
                        && final(self).entries() == old(self).entries().remove(i)
                &&& !has_entry_for(final(self).entries(), yield_farm_id)
            },
    {
        match self.search(yield_farm_id) {
            Ok(idx) => {
                let ghost before = self.entries();
                let e = self.yield_farm_entries.remove(idx);
                proof {
                    let after = self.entries();
                    assert forall|i: int, j: int| 0 <= i < j < after.len() implies #[trigger] after[i].yield_farm_id < #[trigger] after[j].yield_farm_id by {
                        if i < idx && j < idx {} else if i < idx {
                            assert(after[j] == before[j + 1]);
                        } else {
                            assert(after[i] == before[i + 1]);
                            assert(after[j] == before[j + 1]);
                        }
                    }
                    assert forall|k: int| 0 <= k < after.len() implies #[trigger] after[k].yield_farm_id != yield_farm_id by {
                        if k < idx {
                            assert(before[k].yield_farm_id < before[idx as int].yield_farm_id);
                        } else {
                            assert(after[k] == before[k + 1]);
                            assert(before[idx as int].yield_farm_id < before[k + 1].yield_farm_id);
                        }
                    }
                }
                Ok(e)
            },
            Err(_) => Err(DepositError::YieldFarmEntryNotFound),
        }
    }

    /// The entry of `yield_farm_id`, if the deposit has one.
    pub fn get_yield_farm_entry(&self, yield_farm_id: YieldFarmId) -> (r: Option<YieldFarmEntry>)
        requires
            self.wf(),
        ensures
            r is None <==> !has_entry_for(self.entries(), yield_farm_id),
            r is Some ==> r->Some_0 == entry_for(self.entries(), yield_farm_id),
            r is Some ==> r->Some_0.yield_farm_id == yield_farm_id,
    {
        match self.search(yield_farm_id) {
            Ok(idx) => {
                proof {
                    lemma_entry_index_unique(self.entries(), yield_farm_id, idx as int);
                }
                Some(self.yield_farm_entries[idx])
            },
            Err(_) => None,
        }
    }

    /// Replaces the entry of `entry.yield_farm_id` with `entry`.
    pub fn update_yield_farm_entry(&mut self, entry: YieldFarmEntry) -> (r: Result<(), DepositError>)
        requires
            old(self).wf(),
        ensures
            final(self).wf(),
            r is Ok <==> has_entry_for(old(self).entries(), entry.yield_farm_id),
            r is Err ==> r == Err::<(), _>(DepositError::YieldFarmEntryNotFound)
                && *final(self) == *old(self),
            r is Ok ==> final(self).entries() == old(self).entries().update(
                entry_index(old(self).entries(), entry.yield_farm_id),
                entry,
            ),
            final(self).shares == old(self).shares,
            final(self).amm_pool_id == old(self).amm_pool_id,
    {
        match self.search(entry.yield_farm_id) {
            Ok(idx) => {
                proof {
                    lemma_entry_index_unique(self.entries(), entry.yield_farm_id, idx as int);
                }
                let ghost before = self.entries();
                self.yield_farm_entries.set(idx, entry);
                proof {
                    let after = self.entries();
                    assert forall|i: int, j: int| 0 <= i < j < after.len() implies #[trigger] after[i].yield_farm_id < #[trigger] after[j].yield_farm_id by {
                        assert(before[i].yield_farm_id < before[j].yield_farm_id);
                    }
                }
                Ok(())
            },
            Err(_) => {
                proof {
                    if has_entry_for(self.entries(), entry.yield_farm_id) {
                        let k = choose|k: int| 0 <= k < self.entries().len() && #[trigger] self.entries()[k].yield_farm_id == entry.yield_farm_id;
                        assert(self.entries()[k].yield_farm_id == entry.yield_farm_id);
                    }
                }
                Err(DepositError::YieldFarmEntryNotFound)
            },
        }
    }

    pub fn contains_yield_farm_entry(&self, yield_farm_id: YieldFarmId) -> (r: bool)
        requires
            self.wf(),
        ensures
            r == has_entry_for(self.entries(), yield_farm_id),
    {
        match self.search(yield_farm_id) {
            Ok(_) => true,
            Err(_) => false,
        }
    }

    pub fn has_no_yield_farm_entries(&self) -> (r: bool)
        ensures
            r == (self.entries().len() == 0),
    {
        self.yield_farm_entries.len() == 0
    }

    /// A deposit with no entries must leave storage.
    pub fn can_be_flushed(&self) -> (r: bool)
        ensures
            r == (self.entries().len() == 0),
    {
        self.has_no_yield_farm_entries()
    }
}

} // verus!

verus! {

/// Every way an operation of the engine can fail.
#[derive(Clone, Copy, Debug, PartialEq, Eq, Structural)]
pub enum Error {
    InvalidBlocksPerPeriod,
    InvalidPlannedYieldingPeriods,
    InvalidYieldPerPeriod,
    InvalidMinDeposit,
    InvalidPriceAdjustment,
    InvalidTotalRewards,
    InvalidMultiplier,
    InvalidLoyaltyCurve,
    MissingIncentivizedAsset,
    ZeroValuedShares,
    Forbidden,
    GlobalFarmNotFound,
    YieldFarmNotFound,
    DepositNotFound,
    GlobalFarmIsNotEmpty,
    LiquidityMiningCanceled,
    LiquidityMiningIsNotStopped,
    YieldFarmAlreadyStopped,
    YieldFarmAlreadyExists,
    DoubleLock,
    DoubleClaimInPeriod,
    YieldFarmEntryNotFound,
    MaxEntriesPerDeposit,
    InsufficientBalance,
    InsufficientDeposit,
    Overflow,
    Underflow,
    DivisionByZero,
}

} // verus!
