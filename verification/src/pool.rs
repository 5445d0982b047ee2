//! A pool of stable tokens that stands in for liquidated debt: depositors
//! put stable tokens in, and share the collateral of the vaults that the
//! pool liquidates, each by its part of the pool.

use vstd::prelude::*;
use crate::vault::total;
use crate::vault::Principal;

verus! {

/// The kind of collateral that a liquidation brought in.
#[derive(Clone, Copy, Debug, PartialEq, Eq, Structural)]
pub enum CollateralType {
    ICP,
    CkBTC,
}

/// Collateral that a depositor can claim.
#[derive(Clone, Copy, Debug, PartialEq, Eq, Structural)]
pub struct CollateralReward {
    pub collateral_type: CollateralType,
    pub amount: u64,
    pub liquidation_id: u64,
}

/// What a depositor has in the pool.
#[derive(Clone, Debug)]
pub struct UserDeposit {
    pub user: Principal,
    pub icusd_amount: u64,
    pub deposit_time: u64,
    pub pending_collateral: Vec<CollateralReward>,
}

/// A liquidation that the pool took part in.
#[derive(Clone, Copy, Debug, PartialEq, Eq, Structural)]
pub struct LiquidationRecord {
    pub liquidation_id: u64,
    pub vault_id: u64,
    pub liquidated_debt: u64,
    pub collateral_received: u64,
    pub collateral_type: CollateralType,
    pub liquidation_time: u64,
    pub pool_size_at_liquidation: u64,
}

/// What the pool is set up with.
#[derive(Clone, Copy, Debug)]
pub struct InitArgs {
    pub protocol_owner: Principal,
    /// In percent.
    pub liquidation_discount: u8,
    /// In percent.
    pub max_ltv_ratio: u8,
}

#[derive(Clone, Debug)]
pub struct DepositResult {
    pub success: bool,
    pub new_balance: u64,
    pub message: String,
}

#[derive(Clone, Debug)]
pub struct WithdrawResult {
    pub success: bool,
    pub remaining_balance: u64,
    pub message: String,
}

#[derive(Clone, Debug)]
pub struct ClaimResult {
    pub success: bool,
    pub claimed_collateral: Vec<CollateralReward>,
    pub message: String,
}

#[derive(Clone, Debug)]
pub struct ManualLiquidationResult {
    pub success: bool,
    pub liquidations_executed: u64,
    pub message: String,
}

/// The settings of the pool.
#[derive(Clone, Copy, Debug)]
pub struct PoolState {
    pub protocol_owner: Principal,
    /// In percent.
    pub liquidation_discount: u8,
    /// In percent.
    pub max_ltv_ratio: u8,
    pub next_liquidation_id: u64,
    pub paused: bool,
}

impl Default for PoolState {
    fn default() -> (r: Self)
        ensures
            r.protocol_owner == Principal::spec_anonymous(),
            r.liquidation_discount == 10,
            r.max_ltv_ratio == 66,
            r.next_liquidation_id == 1,
            !r.paused,
    {
        PoolState {
            protocol_owner: Principal::anonymous(),
            liquidation_discount: 10,
            max_ltv_ratio: 66,
            next_liquidation_id: 1,
            paused: false,
        }
    }
}

/// How the pool is watched.
#[derive(Clone, Copy, Debug)]
pub struct StabilityPoolMonitor {
    pub protocol_backend_canister: Principal,
    pub enabled: bool,
    pub monitoring_interval_seconds: u64,
}

impl Default for StabilityPoolMonitor {
    fn default() -> (r: Self)
        ensures
            r.protocol_backend_canister == Principal::spec_anonymous(),
            !r.enabled,
            r.monitoring_interval_seconds == 300,
    {
        StabilityPoolMonitor {
            protocol_backend_canister: Principal::anonymous(),
            enabled: false,
            monitoring_interval_seconds: 300,
        }
    }
}

/// A vault that can be liquidated, as the protocol reports it.
#[derive(Clone, Copy, Debug)]
pub struct LiquidatableVault {
    pub vault_id: u64,
    pub owner: Principal,
    pub borrowed_icusd_amount: u64,
    pub icp_margin_amount: u64,
}

/// What the protocol answers to a liquidation by the pool.
#[derive(Clone, Debug)]
pub struct StabilityPoolLiquidationResult {
    pub success: bool,
    pub vault_id: u64,
    pub liquidated_debt: u64,
    pub collateral_received: u64,
    pub collateral_type: String,
    pub block_index: u64,
    pub fee: u64,
}

/// The pool: its deposits, one for each depositor, the liquidations it took
/// part in, and its settings.
#[derive(Debug)]
pub struct StabilityPool {
    pub deposits: Vec<UserDeposit>,
    pub liquidations: Vec<LiquidationRecord>,
    pub state: PoolState,
}

/// The part of `collateral_amount` that goes with `user_icusd` out of
/// `total_pool_icusd`, rounded down; nothing from an empty pool.
pub open spec fn spec_liquidation_share(
    user_icusd: u64,
    total_pool_icusd: u64,
    collateral_amount: u64,
) -> u64 {
    if total_pool_icusd == 0 {
        0
    } else {
        ((user_icusd * collateral_amount) / (total_pool_icusd as int)) as u64
    }
}

/// A depositor's share of what a liquidation brought in.
pub fn calculate_liquidation_share(user_icusd: u64, total_pool_icusd: u64, collateral_amount: u64) -> (r:
    u64)
    ensures
        r == spec_liquidation_share(user_icusd, total_pool_icusd, collateral_amount),
        total_pool_icusd != 0 && user_icusd <= total_pool_icusd ==> r == (user_icusd
            * collateral_amount) / (total_pool_icusd as int) && r <= collateral_amount,
{
    if total_pool_icusd == 0 {
        return 0;
    }
    assert(user_icusd * collateral_amount <= 0xffff_ffff_ffff_ffff * 0xffff_ffff_ffff_ffff)
        by (nonlinear_arith)
        requires
            user_icusd <= 0xffff_ffff_ffff_ffff,
            collateral_amount <= 0xffff_ffff_ffff_ffff,
    ;
    let product: u128 = (user_icusd as u128) * (collateral_amount as u128);
    let user_share: u128 = product / (total_pool_icusd as u128);
    proof {
        if user_icusd <= total_pool_icusd {
            let u = user_icusd as int;
            let c = collateral_amount as int;
            let t = total_pool_icusd as int;
            assert((u * c) / t <= c) by (nonlinear_arith)
                requires
                    0 <= u <= t,
                    0 < t,
                    0 <= c,
            ;
        }
    }
    #[verifier::truncate]
    (user_share as u64)
}

/// The amounts of the deposits, in their order.
pub open spec fn deposited(deposits: Seq<UserDeposit>) -> Seq<int> {
    Seq::new(deposits.len(), |i: int| deposits[i].icusd_amount as int)
}

/// All that is in the pool.
pub open spec fn total_deposited(deposits: Seq<UserDeposit>) -> int {
    total(deposited(deposits))
}

/// No depositor has two deposits.
pub open spec fn users_distinct(deposits: Seq<UserDeposit>) -> bool {
    forall|i: int, j: int|
        0 <= i < j < deposits.len() ==> (#[trigger] deposits[i]).user != (
        #[trigger] deposits[j]).user
}

/// `user` has a deposit.
pub open spec fn has_deposit(deposits: Seq<UserDeposit>, user: Principal) -> bool {
    exists|i: int| 0 <= i < deposits.len() && (#[trigger] deposits[i]).user == user
}

/// Where the deposit of `user` stands.
pub open spec fn deposit_position(deposits: Seq<UserDeposit>, user: Principal) -> int {
    choose|i: int| 0 <= i < deposits.len() && (#[trigger] deposits[i]).user == user
}

/// What `user` has in the pool.
pub open spec fn balance_of(deposits: Seq<UserDeposit>, user: Principal) -> u64 {
    if has_deposit(deposits, user) {
        deposits[deposit_position(deposits, user)].icusd_amount
    } else {
        0
    }
}

/// All stable tokens in the pool.
///
/// The sum fits in a `u64`.
pub fn get_total_pool_size(deposits: &Vec<UserDeposit>) -> (r: u64)
    requires
        total_deposited(deposits@) <= u64::MAX,
    ensures
        r == total_deposited(deposits@),
{
    let mut sum: u64 = 0;
    let mut i: usize = 0;
    while i < deposits.len()
        invariant
            i <= deposits@.len(),
            total_deposited(deposits@) <= u64::MAX,
            sum == total_deposited(deposits@.take(i as int)),
        decreases deposits@.len() - i,
    {
        proof {
            let next = deposits@.take(i as int + 1);
            assert(deposited(next).drop_last() =~= deposited(deposits@.take(i as int)));
            crate::vault::lemma_total_prefix(deposited(deposits@), i as int + 1);
            assert(deposited(deposits@).take(i as int + 1) =~= deposited(next));
        }
        sum = sum + deposits[i].icusd_amount;
        i = i + 1;
    }
    proof {
        assert(deposits@.take(i as int) =~= deposits@);
    }
    sum
}

/// A copy of the rewards.
fn copy_rewards(rewards: &Vec<CollateralReward>) -> (r: Vec<CollateralReward>)
    ensures
        r@ == rewards@,
{
    let mut out: Vec<CollateralReward> = Vec::new();
    let mut i: usize = 0;
    while i < rewards.len()
        invariant
            i <= rewards@.len(),
            out@ == rewards@.take(i as int),
        decreases rewards@.len() - i,
    {
        out.push(rewards[i]);
        proof {
            assert(rewards@.take(i as int + 1) =~= rewards@.take(i as int).push(rewards@[i as int]));
        }
        i = i + 1;
    }
    proof {
        assert(rewards@.take(i as int) =~= rewards@);
    }
    out
}

impl StabilityPool {
    /// No depositor has two deposits.
    pub open spec fn wf(&self) -> bool {
        users_distinct(self.deposits@)
    }

    /// An empty pool with these settings.
    pub fn new(init_args: InitArgs) -> (r: StabilityPool)
        ensures
            r.wf(),
            r.deposits@.len() == 0,
            r.liquidations@.len() == 0,
            r.state.protocol_owner == init_args.protocol_owner,
            r.state.liquidation_discount == init_args.liquidation_discount,
            r.state.max_ltv_ratio == init_args.max_ltv_ratio,
            r.state.next_liquidation_id == 1,
            !r.state.paused,
    {
        StabilityPool {
            deposits: Vec::new(),
            liquidations: Vec::new(),
            state: PoolState {
                protocol_owner: init_args.protocol_owner,
                liquidation_discount: init_args.liquidation_discount,
                max_ltv_ratio: init_args.max_ltv_ratio,
                next_liquidation_id: 1,
                paused: false,
            },
        }
    }

    fn find(&self, user: Principal) -> (r: Option<usize>)
        requires
            self.wf(),
        ensures
            r is Some <==> has_deposit(self.deposits@, user),
            r is Some ==> r->0 == deposit_position(self.deposits@, user) && r->0
                < self.deposits@.len() && self.deposits@[r->0 as int].user == user,
    {
        let mut i: usize = 0;
        while i < self.deposits.len()
            invariant
                i <= self.deposits@.len(),
                self.wf(),
                forall|k: int| 0 <= k < i ==> (#[trigger] self.deposits@[k]).user != user,
            decreases self.deposits@.len() - i,
        {
            if self.deposits[i].user == user {
                proof {
                    let p = deposit_position(self.deposits@, user);
                    if p < i {
                        assert(self.deposits@[p].user != user);
                    } else if i < p {
                        assert(self.deposits@[i as int].user != self.deposits@[p].user);
                    }
                }
                return Some(i);
            }
            i = i + 1;
        }
        None
    }

    /// Puts `amount` of `user` into the pool.  Nothing is not taken.
    ///
    /// What the user has in the pool with `amount` fits in a `u64`.
    pub fn deposit_icusd(&mut self, user: Principal, amount: u64, now: u64) -> (r: DepositResult)
        requires
            old(self).wf(),
            balance_of(old(self).deposits@, user) + amount <= u64::MAX,
        ensures
            final(self).wf(),
            final(self).state == old(self).state,
            final(self).liquidations@ == old(self).liquidations@,
            r.success == (amount != 0),
            amount == 0 ==> r.new_balance == 0 && final(self).deposits@ == old(self).deposits@,
            amount != 0 ==> {
                &&& r.new_balance == balance_of(old(self).deposits@, user) + amount
                &&& has_deposit(final(self).deposits@, user)
                &&& balance_of(final(self).deposits@, user) == r.new_balance
                &&& final(self).deposits@.len() == if has_deposit(old(self).deposits@, user) {
                    old(self).deposits@.len()
                } else {
                    old(self).deposits@.len() + 1
                }
                &&& forall|other: Principal|
                    other != user ==> balance_of(final(self).deposits@, other) == balance_of(
                        old(self).deposits@,
                        other,
                    )
            },
    {
        if amount == 0 {
            return DepositResult {
                success: false,
                new_balance: 0,
                message: "Amount must be greater than 0".to_owned(),
            };
        }
        let ghost before = self.deposits@;
        match self.find(user) {
            Some(i) => {
                let new_balance = self.deposits[i].icusd_amount + amount;
                let updated = UserDeposit {
                    user,
                    icusd_amount: new_balance,
                    deposit_time: self.deposits[i].deposit_time,
                    pending_collateral: copy_rewards(&self.deposits[i].pending_collateral),
                };
                self.deposits.set(i, updated);
                proof {
                    lemma_same_users(before, self.deposits@, i as int);
                }
                DepositResult {
                    success: true,
                    new_balance,
                    message: "Deposit successful".to_owned(),
                }
            },
            None => {
                self.deposits.push(
                    UserDeposit {
                        user,
                        icusd_amount: amount,
                        deposit_time: now,
                        pending_collateral: Vec::new(),
                    },
                );
                proof {
                    lemma_new_user(before, self.deposits@);
                }
                DepositResult {
                    success: true,
                    new_balance: amount,
                    message: "First deposit successful".to_owned(),
                }
            },
        }
    }

    /// Takes `amount` of `user` out of the pool.  A deposit that is left
    /// empty, with nothing to claim, goes.
    pub fn withdraw_icusd(&mut self, user: Principal, amount: u64) -> (r: WithdrawResult)
        requires
            old(self).wf(),
        ensures
            final(self).wf(),
            final(self).state == old(self).state,
            final(self).liquidations@ == old(self).liquidations@,
            r.success == (has_deposit(old(self).deposits@, user) && amount <= balance_of(
                old(self).deposits@,
                user,
            )),
            !r.success ==> final(self).deposits@ == old(self).deposits@ && r.remaining_balance
                == balance_of(old(self).deposits@, user),
            r.success ==> {
                &&& r.remaining_balance == balance_of(old(self).deposits@, user) - amount
                &&& balance_of(final(self).deposits@, user) == r.remaining_balance
                &&& forall|other: Principal|
                    other != user ==> balance_of(final(self).deposits@, other) == balance_of(
                        old(self).deposits@,
                        other,
                    )
            },
    {
        let ghost before = self.deposits@;
        match self.find(user) {
            Some(i) => {
                let balance = self.deposits[i].icusd_amount;
                if balance < amount {
                    return WithdrawResult {
                        success: false,
                        remaining_balance: balance,
                        message: "Insufficient balance".to_owned(),
                    };
                }
                let remaining = balance - amount;
                if remaining == 0 && self.deposits[i].pending_collateral.len() == 0 {
                    let _ = self.deposits.remove(i);
                    proof {
                        lemma_user_removed(before, self.deposits@, i as int);
                    }
                } else {
                    let updated = UserDeposit {
                        user,
                        icusd_amount: remaining,
                        deposit_time: self.deposits[i].deposit_time,
                        pending_collateral: copy_rewards(&self.deposits[i].pending_collateral),
                    };
                    self.deposits.set(i, updated);
                    proof {
                        lemma_same_users(before, self.deposits@, i as int);
                    }
                }
                WithdrawResult {
                    success: true,
                    remaining_balance: remaining,
                    message: "Withdrawal successful".to_owned(),
                }
            },
            None => WithdrawResult {
                success: false,
                remaining_balance: 0,
                message: "No deposit found".to_owned(),
            },
        }
    }
}

/// Changing what one depositor has leaves the others as they are.
pub proof fn lemma_same_users(before: Seq<UserDeposit>, after: Seq<UserDeposit>, i: int)
    requires
        users_distinct(before),
        0 <= i < before.len(),
        after.len() == before.len(),
        after[i].user == before[i].user,
        forall|k: int| 0 <= k < before.len() && k != i ==> #[trigger] after[k] == before[k],
    ensures
        users_distinct(after),
        has_deposit(after, before[i].user),
        balance_of(after, before[i].user) == after[i].icusd_amount,
        balance_of(before, before[i].user) == before[i].icusd_amount,
        forall|other: Principal|
            other != before[i].user ==> balance_of(after, other) == balance_of(before, other),
{
    assert forall|a: int, b: int| 0 <= a < b < after.len() implies (#[trigger] after[a]).user != (
    #[trigger] after[b]).user by {
        assert(before[a].user != before[b].user);
    }
    lemma_deposit_found(after, i);
    lemma_deposit_found(before, i);
    assert forall|other: Principal| other != before[i].user implies balance_of(after, other)
        == balance_of(before, other) by {
        if has_deposit(before, other) {
            let p = deposit_position(before, other);
            assert(after[p].user == other);
            lemma_deposit_found(after, p);
        }
        if has_deposit(after, other) {
            let p = deposit_position(after, other);
            assert(before[p].user == other);
            lemma_deposit_found(before, p);
        }
    }
}

/// With distinct users, the deposit at a place is the one its user leads to.
pub proof fn lemma_deposit_found(deposits: Seq<UserDeposit>, i: int)
    requires
        users_distinct(deposits),
        0 <= i < deposits.len(),
    ensures
        has_deposit(deposits, deposits[i].user),
        deposit_position(deposits, deposits[i].user) == i,
{
    let p = deposit_position(deposits, deposits[i].user);
    if p < i {
        assert(deposits[p].user != deposits[i].user);
    } else if i < p {
        assert(deposits[i].user != deposits[p].user);
    }
}

/// A first deposit leaves the other depositors as they are.
pub proof fn lemma_new_user(before: Seq<UserDeposit>, after: Seq<UserDeposit>)
    requires
        users_distinct(before),
        after.len() == before.len() + 1,
        forall|k: int| 0 <= k < before.len() ==> #[trigger] after[k] == before[k],
        !has_deposit(before, after[before.len() as int].user),
    ensures
        users_distinct(after),
        has_deposit(after, after[before.len() as int].user),
        balance_of(after, after[before.len() as int].user) == after[before.len()
            as int].icusd_amount,
        forall|other: Principal|
            other != after[before.len() as int].user ==> balance_of(after, other) == balance_of(
                before,
                other,
            ),
{
    let n = before.len() as int;
    assert forall|a: int, b: int| 0 <= a < b < after.len() implies (#[trigger] after[a]).user != (
    #[trigger] after[b]).user by {
        if b < n {
            assert(before[a].user != before[b].user);
        } else {
            assert(before[a].user == after[a].user);
        }
    }
    lemma_deposit_found(after, n);
    assert forall|other: Principal| other != after[n].user implies balance_of(after, other)
        == balance_of(before, other) by {
        if has_deposit(before, other) {
            let p = deposit_position(before, other);
            assert(after[p].user == other);
            lemma_deposit_found(after, p);
        }
        if has_deposit(after, other) {
            let p = deposit_position(after, other);
            assert(before[p].user == other);
            lemma_deposit_found(before, p);
        }
    }
}

/// Taking a deposit out leaves the other depositors as they are.
pub proof fn lemma_user_removed(before: Seq<UserDeposit>, after: Seq<UserDeposit>, i: int)
    requires
        users_distinct(before),
        0 <= i < before.len(),
        after == before.remove(i),
    ensures
        users_distinct(after),
        !has_deposit(after, before[i].user),
        balance_of(before, before[i].user) == before[i].icusd_amount,
        forall|other: Principal|
            other != before[i].user ==> balance_of(after, other) == balance_of(before, other),
{
    assert forall|a: int, b: int| 0 <= a < b < after.len() implies (#[trigger] after[a]).user != (
    #[trigger] after[b]).user by {
        let oa = if a < i { a } else { a + 1 };
        let ob = if b < i { b } else { b + 1 };
        assert(before[oa].user != before[ob].user);
    }
    lemma_deposit_found(before, i);
    if has_deposit(after, before[i].user) {
        let p = deposit_position(after, before[i].user);
        let op = if p < i { p } else { p + 1 };
        assert(before[op].user == before[i].user);
        lemma_deposit_found(before, op);
    }
    assert forall|other: Principal| other != before[i].user implies balance_of(after, other)
        == balance_of(before, other) by {
        if has_deposit(before, other) {
            let p = deposit_position(before, other);
            let np = if p < i { p } else { p - 1 };
            assert(after[np].user == other);
            lemma_deposit_found(after, np);
        }
        if has_deposit(after, other) {
            let p = deposit_position(after, other);
            let op = if p < i { p } else { p + 1 };
            assert(before[op].user == other);
            lemma_deposit_found(before, op);
        }
    }
}

/// `a - b`, or zero where `b` is the larger.
pub open spec fn spec_saturating_sub(a: u64, b: u64) -> u64 {
    if b > a {
        0
    } else {
        (a - b) as u64
    }
}

/// What a liquidation of `liquidated_debt` that brought in
/// `collateral_received` makes of a deposit in a pool of `pool_size`: the
/// deposit pays its share of the debt and can claim its share of the
/// collateral, if that is anything.
pub open spec fn deposit_after_liquidation(
    before: UserDeposit,
    after: UserDeposit,
    pool_size: u64,
    liquidated_debt: u64,
    collateral_received: u64,
    collateral_type: CollateralType,
    liquidation_id: u64,
) -> bool {
    let share = spec_liquidation_share(before.icusd_amount, pool_size, collateral_received);
    &&& after.user == before.user
    &&& after.deposit_time == before.deposit_time
    &&& after.icusd_amount == spec_saturating_sub(
        before.icusd_amount,
        spec_liquidation_share(before.icusd_amount, pool_size, liquidated_debt),
    )
    &&& after.pending_collateral@ == if share > 0 {
        before.pending_collateral@.push(
            CollateralReward { collateral_type, amount: share, liquidation_id },
        )
    } else {
        before.pending_collateral@
    }
}

/// The rewards of `pending` that come from one of the liquidations `ids`.
pub open spec fn claimed_of(pending: Seq<CollateralReward>, ids: Seq<u64>) -> Seq<CollateralReward>
    decreases pending.len(),
{
    if pending.len() == 0 {
        pending
    } else if ids.contains(pending.last().liquidation_id) {
        claimed_of(pending.drop_last(), ids).push(pending.last())
    } else {
        claimed_of(pending.drop_last(), ids)
    }
}

/// The rewards of `pending` that come from none of the liquidations `ids`.
pub open spec fn left_of(pending: Seq<CollateralReward>, ids: Seq<u64>) -> Seq<CollateralReward>
    decreases pending.len(),
{
    if pending.len() == 0 {
        pending
    } else if ids.contains(pending.last().liquidation_id) {
        left_of(pending.drop_last(), ids)
    } else {
        left_of(pending.drop_last(), ids).push(pending.last())
    }
}

/// Whether `id` is among `ids`.
pub fn is_among(ids: &Vec<u64>, id: u64) -> (r: bool)
    ensures
        r == ids@.contains(id),
{
    let mut i: usize = 0;
    while i < ids.len()
        invariant
            i <= ids@.len(),
            forall|k: int| 0 <= k < i ==> ids@[k] != id,
        decreases ids@.len() - i,
    {
        if ids[i] == id {
            return true;
        }
        i = i + 1;
    }
    false
}

impl StabilityPool {
    /// Takes a liquidation into the pool: every deposit pays its share of
    /// the debt, and can claim its share of the collateral.  A liquidation
    /// of more debt than the pool holds is not taken, but uses up an
    /// identifier all the same.
    ///
    /// The pool's size fits in a `u64`, and there is an identifier left.
    pub fn process_liquidation(
        &mut self,
        vault_id: u64,
        liquidated_debt: u64,
        collateral_received: u64,
        collateral_type: CollateralType,
        now: u64,
    ) -> (r: bool)
        requires
            old(self).wf(),
            total_deposited(old(self).deposits@) <= u64::MAX,
            old(self).state.next_liquidation_id < u64::MAX,
        ensures
            final(self).wf(),
            final(self).state == (PoolState {
                next_liquidation_id: (old(self).state.next_liquidation_id + 1) as u64,
                ..old(self).state
            }),
            r == (total_deposited(old(self).deposits@) >= liquidated_debt),
            !r ==> final(self).deposits@ == old(self).deposits@ && final(self).liquidations@
                == old(self).liquidations@,
            r ==> {
                &&& final(self).liquidations@ == old(self).liquidations@.push(
                    LiquidationRecord {
                        liquidation_id: old(self).state.next_liquidation_id,
                        vault_id,
                        liquidated_debt,
                        collateral_received,
                        collateral_type,
                        liquidation_time: now,
                        pool_size_at_liquidation: total_deposited(old(self).deposits@) as u64,
                    },
                )
                &&& final(self).deposits@.len() == old(self).deposits@.len()
                &&& forall|i: int|
                    0 <= i < old(self).deposits@.len() ==> deposit_after_liquidation(
                        old(self).deposits@[i],
                        #[trigger] final(self).deposits@[i],
                        total_deposited(old(self).deposits@) as u64,
                        liquidated_debt,
                        collateral_received,
                        collateral_type,
                        old(self).state.next_liquidation_id,
                    )
            },
    {
        let liquidation_id = self.state.next_liquidation_id;
        self.state.next_liquidation_id = self.state.next_liquidation_id + 1;
        let total_pool_icusd = get_total_pool_size(&self.deposits);
        if total_pool_icusd < liquidated_debt {
            return false;
        }
        self.liquidations.push(
            LiquidationRecord {
                liquidation_id,
                vault_id,
                liquidated_debt,
                collateral_received,
                collateral_type,
                liquidation_time: now,
                pool_size_at_liquidation: total_pool_icusd,
            },
        );
        let ghost before = self.deposits@;
        let mut updated: Vec<UserDeposit> = Vec::new();
        let mut i: usize = 0;
        while i < self.deposits.len()
            invariant
                i <= self.deposits@.len(),
                self.deposits@ == before,
                updated@.len() == i,
                forall|k: int|
                    0 <= k < i ==> deposit_after_liquidation(
                        before[k],
                        #[trigger] updated@[k],
                        total_pool_icusd,
                        liquidated_debt,
                        collateral_received,
                        collateral_type,
                        liquidation_id,
                    ),
            decreases self.deposits@.len() - i,
        {
            let amount = self.deposits[i].icusd_amount;
            let mut pending = copy_rewards(&self.deposits[i].pending_collateral);
            let user_share = calculate_liquidation_share(
                amount,
                total_pool_icusd,
                collateral_received,
            );
            if user_share > 0 {
                pending.push(
                    CollateralReward { collateral_type, amount: user_share, liquidation_id },
                );
            }
            let icusd_used = calculate_liquidation_share(amount, total_pool_icusd, liquidated_debt);
            let left = if icusd_used > amount {
                0
            } else {
                amount - icusd_used
            };
            let ghost earlier = updated@;
            updated.push(
                UserDeposit {
                    user: self.deposits[i].user,
                    icusd_amount: left,
                    deposit_time: self.deposits[i].deposit_time,
                    pending_collateral: pending,
                },
            );
            proof {
                assert forall|k: int| 0 <= k < i + 1 implies deposit_after_liquidation(
                    before[k],
                    #[trigger] updated@[k],
                    total_pool_icusd,
                    liquidated_debt,
                    collateral_received,
                    collateral_type,
                    liquidation_id,
                ) by {
                    if k < i {
                        assert(updated@[k] == earlier[k]);
                    }
                }
            }
            i = i + 1;
        }
        proof {
            assert forall|a: int, b: int| 0 <= a < b < updated@.len() implies (
            #[trigger] updated@[a]).user != (#[trigger] updated@[b]).user by {
                assert(before[a].user != before[b].user);
            }
        }
        self.deposits = updated;
        true
    }

    /// Hands out the rewards of `user` that come from the liquidations
    /// `liquidation_ids`.  Without a deposit, and without such rewards,
    /// nothing is claimed and nothing changes.
    pub fn claim_collateral(&mut self, user: Principal, liquidation_ids: &Vec<u64>) -> (r:
        ClaimResult)
        requires
            old(self).wf(),
        ensures
            final(self).wf(),
            final(self).state == old(self).state,
            final(self).liquidations@ == old(self).liquidations@,
            final(self).deposits@.len() == old(self).deposits@.len(),
            r.success == (has_deposit(old(self).deposits@, user) && claimed_of(
                old(self).deposits@[deposit_position(old(self).deposits@, user)].pending_collateral@,
                liquidation_ids@,
            ).len() > 0),
            !r.success ==> r.claimed_collateral@.len() == 0 && final(self).deposits@ == old(self).deposits@,
            r.success ==> {
                let i = deposit_position(old(self).deposits@, user);
                let pending = old(self).deposits@[i].pending_collateral@;
                &&& r.claimed_collateral@ == claimed_of(pending, liquidation_ids@)
                &&& final(self).deposits@[i].pending_collateral@ == left_of(
                    pending,
                    liquidation_ids@,
                )
                &&& final(self).deposits@[i].user == user
                &&& final(self).deposits@[i].icusd_amount == old(self).deposits@[i].icusd_amount
                &&& final(self).deposits@[i].deposit_time == old(self).deposits@[i].deposit_time
                &&& forall|k: int|
                    0 <= k < old(self).deposits@.len() && k != i ==> #[trigger] final(self).deposits@[k] == old(self).deposits@[k]
            },
    {
        let i = match self.find(user) {
            Some(i) => i,
            None => {
                return ClaimResult {
                    success: false,
                    claimed_collateral: Vec::new(),
                    message: "No deposit found".to_owned(),
                };
            },
        };
        let ghost before = self.deposits@;
        let ghost pending = before[i as int].pending_collateral@;
        let mut claimed_rewards: Vec<CollateralReward> = Vec::new();
        let mut remaining_collateral: Vec<CollateralReward> = Vec::new();
        let mut k: usize = 0;
        while k < self.deposits[i].pending_collateral.len()
            invariant
                i < self.deposits@.len(),
                self.deposits@ == before,
                pending == before[i as int].pending_collateral@,
                k <= pending.len(),
                claimed_rewards@ == claimed_of(pending.take(k as int), liquidation_ids@),
                remaining_collateral@ == left_of(pending.take(k as int), liquidation_ids@),
            decreases pending.len() - k,
        {
            let reward = self.deposits[i].pending_collateral[k];
            proof {
                assert(pending.take(k as int + 1).drop_last() =~= pending.take(k as int));
            }
            if is_among(liquidation_ids, reward.liquidation_id) {
                claimed_rewards.push(reward);
            } else {
                remaining_collateral.push(reward);
            }
            k = k + 1;
        }
        proof {
            assert(pending.take(k as int) =~= pending);
        }
        if claimed_rewards.len() == 0 {
            return ClaimResult {
                success: false,
                claimed_collateral: Vec::new(),
                message: "No claimable collateral found".to_owned(),
            };
        }
        let updated = UserDeposit {
            user,
            icusd_amount: self.deposits[i].icusd_amount,
            deposit_time: self.deposits[i].deposit_time,
            pending_collateral: remaining_collateral,
        };
        self.deposits.set(i, updated);
        proof {
            lemma_same_users(before, self.deposits@, i as int);
        }
        ClaimResult {
            success: true,
            claimed_collateral: claimed_rewards,
            message: "Collateral claimed successfully".to_owned(),
        }
    }
}

impl StabilityPool {
    /// Puts `amount` of `user` into the pool, unless the pool is paused.
    ///
    /// What the user has in the pool with `amount` fits in a `u64`.
    pub fn deposit(&mut self, user: Principal, amount: u64, now: u64) -> (r: DepositResult)
        requires
            old(self).wf(),
            balance_of(old(self).deposits@, user) + amount <= u64::MAX,
        ensures
            final(self).wf(),
            final(self).state == old(self).state,
            final(self).liquidations@ == old(self).liquidations@,
            r.success == (!old(self).state.paused && amount != 0),
            !r.success ==> r.new_balance == 0 && final(self).deposits@ == old(self).deposits@,
            r.success ==> {
                &&& r.new_balance == balance_of(old(self).deposits@, user) + amount
                &&& balance_of(final(self).deposits@, user) == r.new_balance
                &&& forall|other: Principal|
                    other != user ==> balance_of(final(self).deposits@, other) == balance_of(
                        old(self).deposits@,
                        other,
                    )
            },
    {
        if self.state.paused {
            return DepositResult {
                success: false,
                new_balance: 0,
                message: "Protocol is paused".to_owned(),
            };
        }
        self.deposit_icusd(user, amount, now)
    }

    /// Takes `amount` of `user` out of the pool, unless the pool is paused.
    pub fn withdraw(&mut self, user: Principal, amount: u64) -> (r: WithdrawResult)
        requires
            old(self).wf(),
        ensures
            final(self).wf(),
            final(self).state == old(self).state,
            final(self).liquidations@ == old(self).liquidations@,
            r.success == (!old(self).state.paused && has_deposit(old(self).deposits@, user)
                && amount <= balance_of(old(self).deposits@, user)),
            !r.success ==> final(self).deposits@ == old(self).deposits@,
            old(self).state.paused ==> r.remaining_balance == 0,
            r.success ==> {
                &&& r.remaining_balance == balance_of(old(self).deposits@, user) - amount
                &&& balance_of(final(self).deposits@, user) == r.remaining_balance
                &&& forall|other: Principal|
                    other != user ==> balance_of(final(self).deposits@, other) == balance_of(
                        old(self).deposits@,
                        other,
                    )
            },
    {
        if self.state.paused {
            return WithdrawResult {
                success: false,
                remaining_balance: 0,
                message: "Protocol is paused".to_owned(),
            };
        }
        self.withdraw_icusd(user, amount)
    }

    /// Pauses the pool, on the word of its owner.
    pub fn pause_protocol(&mut self, caller: Principal) -> (r: bool)
        ensures
            r == (caller == old(self).state.protocol_owner),
            final(self).state == if r {
                PoolState { paused: true, ..old(self).state }
            } else {
                old(self).state
            },
            final(self).deposits@ == old(self).deposits@,
            final(self).liquidations@ == old(self).liquidations@,
    {
        if caller != self.state.protocol_owner {
            return false;
        }
        self.state.paused = true;
        true
    }

    /// Takes the pause off the pool, on the word of its owner.
    pub fn unpause_protocol(&mut self, caller: Principal) -> (r: bool)
        ensures
            r == (caller == old(self).state.protocol_owner),
            final(self).state == if r {
                PoolState { paused: false, ..old(self).state }
            } else {
                old(self).state
            },
            final(self).deposits@ == old(self).deposits@,
            final(self).liquidations@ == old(self).liquidations@,
    {
        if caller != self.state.protocol_owner {
            return false;
        }
        self.state.paused = false;
        true
    }

    /// Sets the discount of liquidations, on the word of the pool's owner.
    /// More than fifty percent is not taken.
    pub fn update_liquidation_discount(&mut self, caller: Principal, new_discount: u8) -> (r: bool)
        ensures
            r == (caller == old(self).state.protocol_owner && new_discount <= 50),
            final(self).state == if r {
                PoolState { liquidation_discount: new_discount, ..old(self).state }
            } else {
                old(self).state
            },
            final(self).deposits@ == old(self).deposits@,
            final(self).liquidations@ == old(self).liquidations@,
    {
        if caller != self.state.protocol_owner {
            return false;
        }
        if new_discount > 50 {
            return false;
        }
        self.state.liquidation_discount = new_discount;
        true
    }

    /// Hands the pool over to the protocol's canister, on the word of the
    /// pool's owner.
    pub fn set_protocol_backend(&mut self, caller: Principal, backend_canister: Principal) -> (r:
        bool)
        ensures
            r == (caller == old(self).state.protocol_owner),
            final(self).state == if r {
                PoolState { protocol_owner: backend_canister, ..old(self).state }
            } else {
                old(self).state
            },
            final(self).deposits@ == old(self).deposits@,
            final(self).liquidations@ == old(self).liquidations@,
    {
        if caller != self.state.protocol_owner {
            return false;
        }
        self.state.protocol_owner = backend_canister;
        true
    }
}

} // verus!
