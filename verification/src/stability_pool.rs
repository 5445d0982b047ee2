//! What a stability pool tells of itself and of its depositors.

use vstd::prelude::*;
use crate::vault::Principal;

verus! {

/// A depositor's deposit in the pool.
#[derive(Clone, Debug, PartialEq, Eq)]
pub struct DepositInfo {
    pub icusd_amount: u64,
    /// The share of the pool, as a decimal.
    pub share_percentage: String,
    pub pending_icp_gains: u64,
    pub total_claimed_gains: u64,
    pub deposit_timestamp: u64,
}

/// A liquidation that the pool carried out.
#[derive(Clone, Debug, PartialEq, Eq)]
pub struct PoolLiquidationRecord {
    pub vault_id: u64,
    pub timestamp: u64,
    pub icusd_used: u64,
    pub icp_gained: u64,
    /// The discount, as a decimal.
    pub liquidation_discount: String,
    pub depositors_count: u64,
}

/// Where the pool stands.
#[derive(Clone, Debug, PartialEq, Eq)]
pub struct StabilityPoolStatus {
    pub total_icusd_deposits: u64,
    pub total_depositors: u64,
    pub total_liquidations_executed: u64,
    pub total_icp_gains_distributed: u64,
    pub pool_utilization_ratio: String,
    pub average_deposit_size: u64,
    pub current_apr_estimate: String,
}

/// Where a depositor stands.
#[derive(Clone, Debug, PartialEq, Eq)]
pub struct UserStabilityPosition {
    pub icusd_deposit: u64,
    pub share_percentage: String,
    pub pending_icp_gains: u64,
    pub total_claimed_gains: u64,
    pub deposit_timestamp: u64,
    pub estimated_daily_earnings: u64,
}

/// A vault that the pool can liquidate.
#[derive(Clone, Debug, PartialEq, Eq)]
pub struct LiquidatableVault {
    pub vault_id: u64,
    pub owner: Principal,
    pub collateral_amount: u64,
    pub debt_amount: u64,
    pub collateral_ratio: String,
    pub liquidation_discount: u64,
    pub priority_score: u64,
}

/// How a liquidation by the pool ended.
#[derive(Clone, Debug, PartialEq, Eq)]
pub struct LiquidationResult {
    pub vault_id: u64,
    pub icusd_used: u64,
    pub icp_gained: u64,
    pub success: bool,
    pub error_message: Option<String>,
    pub block_index: Option<u64>,
}

/// What the pool is set up with.
#[derive(Clone, Debug, PartialEq, Eq)]
pub struct StabilityPoolInitArgs {
    pub protocol_canister_id: Principal,
    pub icusd_ledger_id: Principal,
    pub icp_ledger_id: Principal,
    pub min_deposit_amount: u64,
    pub liquidation_discount: String,
}

/// Why the pool turned a request away.
#[derive(Clone, Debug)]
pub enum StabilityPoolError {
    InsufficientDeposit { required: u64, available: u64 },
    AmountTooLow { minimum_amount: u64 },
    NoDepositorFound,
    InsufficientPoolBalance,
    Unauthorized,
    ProtocolUnavailable { retry_after: u64 },
    LedgerTransferFailed { reason: String },
    InterCanisterCallFailed { target: String, method: String },
    NoLiquidatableVaults,
    LiquidationExecutionFailed { vault_id: u64, reason: String },
    VaultNotLiquidatable { vault_id: u64, current_ratio: String },
    StateCorruption { details: String },
    SystemBusy,
    TemporarilyUnavailable(String),
}

/// The settings of the pool.
#[derive(Clone, Debug, PartialEq, Eq)]
pub struct PoolConfiguration {
    pub min_deposit_amount: u64,
    pub max_single_liquidation: u64,
    pub liquidation_scan_interval: u64,
    pub max_liquidations_per_batch: u64,
    pub emergency_pause: bool,
    pub authorized_admins: Vec<Principal>,
}

/// Collateral that waits to be shared out among the depositors.
#[derive(Clone, Debug, PartialEq, Eq)]
pub struct PendingGainDistribution {
    pub vault_id: u64,
    pub total_icp_to_distribute: u64,
    pub snapshot_timestamp: u64,
    /// Each depositor with the share of the pool, as a decimal.
    pub depositor_snapshots: Vec<(Principal, String)>,
}

/// What the pool has done so far.
#[derive(Clone, Debug, PartialEq, Eq)]
pub struct PoolAnalytics {
    pub total_volume_processed: u64,
    pub average_liquidation_size: u64,
    pub success_rate: String,
    pub total_profit_distributed: u64,
    pub active_depositors: u64,
    pub pool_age_days: u64,
}

/// Nanoseconds in a day.
pub const DAY_NANOS: u64 = 86_400_000_000_000;

/// The stable tokens that the liquidations used, in their order.
pub open spec fn used(history: Seq<PoolLiquidationRecord>) -> Seq<int> {
    Seq::new(history.len(), |i: int| history[i].icusd_used as int)
}

/// The collateral that the liquidations brought in, in their order.
pub open spec fn gained(history: Seq<PoolLiquidationRecord>) -> Seq<int> {
    Seq::new(history.len(), |i: int| history[i].icp_gained as int)
}

/// How many of the deposits hold anything.
pub open spec fn active_count(deposits: Seq<DepositInfo>) -> nat
    decreases deposits.len(),
{
    if deposits.len() == 0 {
        0
    } else {
        active_count(deposits.drop_last()) + if deposits.last().icusd_amount > 0 {
            1nat
        } else {
            0nat
        }
    }
}

/// The whole days from `since` to `now`, at least one.
pub open spec fn spec_pool_age_days(now: u64, since: u64) -> u64 {
    let days = if now >= since {
        (now - since) / (DAY_NANOS as int)
    } else {
        0
    };
    if days < 1 {
        1
    } else {
        days as u64
    }
}

pub proof fn lemma_active_count_bound(deposits: Seq<DepositInfo>)
    ensures
        active_count(deposits) <= deposits.len(),
    decreases deposits.len(),
{
    if deposits.len() > 0 {
        lemma_active_count_bound(deposits.drop_last());
    }
}

/// What the pool has done so far.
///
/// The sums of what the liquidations used and brought in fit in a `u64`.
pub fn pool_analytics(
    history: &Vec<PoolLiquidationRecord>,
    deposits: &Vec<DepositInfo>,
    now: u64,
    pool_creation_timestamp: u64,
) -> (r: PoolAnalytics)
    requires
        crate::vault::total(used(history@)) <= u64::MAX,
        crate::vault::total(gained(history@)) <= u64::MAX,
    ensures
        r.total_volume_processed == crate::vault::total(used(history@)),
        r.total_profit_distributed == crate::vault::total(gained(history@)),
        r.average_liquidation_size == if history@.len() == 0 {
            0
        } else {
            crate::vault::total(used(history@)) / (history@.len() as int)
        },
        r.active_depositors == active_count(deposits@),
        r.pool_age_days == spec_pool_age_days(now, pool_creation_timestamp),
{
    let mut total_volume: u64 = 0;
    let mut total_profit: u64 = 0;
    let mut i: usize = 0;
    while i < history.len()
        invariant
            i <= history@.len(),
            crate::vault::total(used(history@)) <= u64::MAX,
            crate::vault::total(gained(history@)) <= u64::MAX,
            total_volume == crate::vault::total(used(history@.take(i as int))),
            total_profit == crate::vault::total(gained(history@.take(i as int))),
        decreases history@.len() - i,
    {
        proof {
            let next = history@.take(i as int + 1);
            assert(used(next).drop_last() =~= used(history@.take(i as int)));
            assert(gained(next).drop_last() =~= gained(history@.take(i as int)));
            crate::vault::lemma_total_prefix(used(history@), i as int + 1);
            crate::vault::lemma_total_prefix(gained(history@), i as int + 1);
            assert(used(history@).take(i as int + 1) =~= used(next));
            assert(gained(history@).take(i as int + 1) =~= gained(next));
        }
        total_volume = total_volume + history[i].icusd_used;
        total_profit = total_profit + history[i].icp_gained;
        i = i + 1;
    }
    proof {
        assert(history@.take(i as int) =~= history@);
    }
    let average_liquidation_size = if history.len() == 0 {
        0
    } else {
        total_volume / (history.len() as u64)
    };
    let mut active_depositors: u64 = 0;
    let mut k: usize = 0;
    while k < deposits.len()
        invariant
            k <= deposits@.len(),
            active_depositors == active_count(deposits@.take(k as int)),
            active_depositors <= k,
        decreases deposits@.len() - k,
    {
        proof {
            assert(deposits@.take(k as int + 1).drop_last() =~= deposits@.take(k as int));
        }
        if deposits[k].icusd_amount > 0 {
            active_depositors = active_depositors + 1;
        }
        k = k + 1;
    }
    proof {
        assert(deposits@.take(k as int) =~= deposits@);
    }
    let days = if now >= pool_creation_timestamp {
        (now - pool_creation_timestamp) / DAY_NANOS
    } else {
        0
    };
    PoolAnalytics {
        total_volume_processed: total_volume,
        average_liquidation_size,
        success_rate: "1.0".to_owned(),
        total_profit_distributed: total_profit,
        active_depositors,
        pool_age_days: if days < 1 {
            1
        } else {
            days
        },
    }
}

impl PoolConfiguration {
    /// Whether `caller` may change the settings.
    pub fn is_admin(&self, caller: Principal) -> (r: bool)
        ensures
            r == self.authorized_admins@.contains(caller),
    {
        let mut i: usize = 0;
        while i < self.authorized_admins.len()
            invariant
                i <= self.authorized_admins@.len(),
                forall|k: int| 0 <= k < i ==> self.authorized_admins@[k] != caller,
            decreases self.authorized_admins@.len() - i,
        {
            if self.authorized_admins[i] == caller {
                return true;
            }
            i = i + 1;
        }
        false
    }

    /// Pauses the pool, on the word of an admin.
    pub fn emergency_pause(&mut self, caller: Principal) -> (r: Result<(), StabilityPoolError>)
        ensures
            r is Ok <==> old(self).authorized_admins@.contains(caller),
            r is Err ==> r->Err_0 is Unauthorized && *final(self) == *old(self),
            r is Ok ==> final(self).emergency_pause && final(self).authorized_admins == old(self).authorized_admins && final(self).min_deposit_amount == old(self).min_deposit_amount
                && final(self).max_single_liquidation == old(self).max_single_liquidation
                && final(self).liquidation_scan_interval == old(self).liquidation_scan_interval
                && final(self).max_liquidations_per_batch == old(self).max_liquidations_per_batch,
    {
        if self.is_admin(caller) {
            self.emergency_pause = true;
            Ok(())
        } else {
            Err(StabilityPoolError::Unauthorized)
        }
    }

    /// Takes the pause off the pool, on the word of an admin.
    pub fn resume_operations(&mut self, caller: Principal) -> (r: Result<(), StabilityPoolError>)
        ensures
            r is Ok <==> old(self).authorized_admins@.contains(caller),
            r is Err ==> r->Err_0 is Unauthorized && *final(self) == *old(self),
            r is Ok ==> !final(self).emergency_pause && final(self).authorized_admins == old(self).authorized_admins && final(self).min_deposit_amount == old(self).min_deposit_amount
                && final(self).max_single_liquidation == old(self).max_single_liquidation
                && final(self).liquidation_scan_interval == old(self).liquidation_scan_interval
                && final(self).max_liquidations_per_batch == old(self).max_liquidations_per_batch,
    {
        if self.is_admin(caller) {
            self.emergency_pause = false;
            Ok(())
        } else {
            Err(StabilityPoolError::Unauthorized)
        }
    }

    /// Puts other settings in the place of these, on the word of an admin
    /// of these.
    pub fn update_pool_configuration(&mut self, caller: Principal, new_config: PoolConfiguration) -> (r:
        Result<(), StabilityPoolError>)
        ensures
            r is Ok <==> old(self).authorized_admins@.contains(caller),
            r is Err ==> r->Err_0 is Unauthorized && *final(self) == *old(self),
            r is Ok ==> *final(self) == new_config,
    {
        if self.is_admin(caller) {
            *self = new_config;
            Ok(())
        } else {
            Err(StabilityPoolError::Unauthorized)
        }
    }
}

/// The collateral that a liquidation of a vault is expected to bring in
/// above its debt's worth: a tenth of the vault's collateral.
pub fn expected_liquidation_discount(collateral_amount: u64) -> (r: u64)
    ensures
        r == collateral_amount / 10,
{
    collateral_amount / 10
}

} // verus!
