use rumi_protocol_backend::balances::Balances;
use rumi_protocol_backend::management::{CallError, Reason};
use rumi_protocol_backend::numeric::{ICP, ICUSD};
use rumi_protocol_backend::pool::{
    calculate_liquidation_share, get_total_pool_size, is_among, CollateralReward, CollateralType,
    InitArgs, PoolState, StabilityPool, StabilityPoolMonitor, UserDeposit,
};
use rumi_protocol_backend::transfers::{PendingMarginTransfer, PendingTransfers};
use rumi_protocol_backend::stability_pool::{
    expected_liquidation_discount, pool_analytics, DepositInfo, PoolConfiguration,
    PoolLiquidationRecord, StabilityPoolError,
};
use rumi_protocol_backend::state::State;
use rumi_protocol_backend::vault::Principal;
use rumi_protocol_backend::InitArg;

fn user(n: u128) -> Principal {
    Principal { len: 10, high: 0, low: n }
}

fn new_pool() -> StabilityPool {
    StabilityPool::new(InitArgs {
        protocol_owner: user(99),
        liquidation_discount: 10,
        max_ltv_ratio: 66,
    })
}

#[test]
fn test_liquidation_share_calculation() {
    let user_icusd = 1000;
    let total_pool = 10000;
    let collateral = 500;

    let share = calculate_liquidation_share(user_icusd, total_pool, collateral);
    assert_eq!(share, 50); // 10% of 500
}

#[test]
fn liquidation_share_edges() {
    assert_eq!(calculate_liquidation_share(1, 0, 500), 0);
    assert_eq!(calculate_liquidation_share(0, 10, 500), 0);
    assert_eq!(calculate_liquidation_share(1, 3, 10), 3);
    assert_eq!(calculate_liquidation_share(u64::MAX, u64::MAX, u64::MAX), u64::MAX);
    // more than the pool: the share is cut to 64 bits
    assert_eq!(calculate_liquidation_share(u64::MAX, 1, 2), u64::MAX - 1);
}

#[test]
fn pool_defaults() {
    let state = PoolState::default();
    assert!(state.protocol_owner.is_anonymous());
    assert_eq!(state.liquidation_discount, 10);
    assert_eq!(state.max_ltv_ratio, 66);
    assert_eq!(state.next_liquidation_id, 1);
    assert!(!state.paused);
    let monitor = StabilityPoolMonitor::default();
    assert!(!monitor.enabled);
    assert_eq!(monitor.monitoring_interval_seconds, 300);
}

#[test]
fn deposits_and_withdrawals() {
    let mut pool = new_pool();
    let nothing = pool.deposit_icusd(user(1), 0, 5);
    assert!(!nothing.success);
    assert_eq!(nothing.message, "Amount must be greater than 0");
    assert!(pool.deposits.is_empty());

    let first = pool.deposit_icusd(user(1), 700, 5);
    assert!(first.success);
    assert_eq!(first.new_balance, 700);
    assert_eq!(first.message, "First deposit successful");
    let second = pool.deposit_icusd(user(1), 300, 6);
    assert_eq!(second.new_balance, 1000);
    assert_eq!(second.message, "Deposit successful");
    assert_eq!(pool.deposits[0].deposit_time, 5);
    pool.deposit_icusd(user(2), 9_000, 7);
    assert_eq!(get_total_pool_size(&pool.deposits), 10_000);

    let too_much = pool.withdraw_icusd(user(1), 1_001);
    assert!(!too_much.success);
    assert_eq!(too_much.remaining_balance, 1_000);
    let none = pool.withdraw_icusd(user(3), 1);
    assert!(!none.success);
    assert_eq!(none.message, "No deposit found");
    let some = pool.withdraw_icusd(user(1), 400);
    assert!(some.success);
    assert_eq!(some.remaining_balance, 600);
    let all = pool.withdraw_icusd(user(1), 600);
    assert!(all.success);
    assert_eq!(all.remaining_balance, 0);
    assert_eq!(pool.deposits.len(), 1);
    assert_eq!(get_total_pool_size(&pool.deposits), 9_000);
}

#[test]
fn liquidations_are_shared_out() {
    let mut pool = new_pool();
    pool.deposit_icusd(user(1), 1_000, 1);
    pool.deposit_icusd(user(2), 9_000, 1);
    // more debt than the pool holds
    assert!(!pool.process_liquidation(7, 10_001, 500, CollateralType::ICP, 2));
    assert_eq!(pool.state.next_liquidation_id, 2);
    assert!(pool.liquidations.is_empty());

    assert!(pool.process_liquidation(7, 5_000, 500, CollateralType::ICP, 3));
    assert_eq!(pool.state.next_liquidation_id, 3);
    assert_eq!(pool.liquidations.len(), 1);
    assert_eq!(pool.liquidations[0].liquidation_id, 2);
    assert_eq!(pool.liquidations[0].pool_size_at_liquidation, 10_000);
    assert_eq!(pool.deposits[0].icusd_amount, 500);
    assert_eq!(pool.deposits[1].icusd_amount, 4_500);
    assert_eq!(
        pool.deposits[0].pending_collateral,
        vec![CollateralReward { collateral_type: CollateralType::ICP, amount: 50, liquidation_id: 2 }]
    );
    assert_eq!(pool.deposits[1].pending_collateral[0].amount, 450);

    // a share of nothing is no reward
    assert!(pool.process_liquidation(8, 0, 1, CollateralType::CkBTC, 4));
    assert_eq!(pool.deposits[0].pending_collateral.len(), 1);
    assert_eq!(pool.deposits[1].pending_collateral.len(), 1);

    let claim = pool.claim_collateral(user(1), &vec![9]);
    assert!(!claim.success);
    assert_eq!(claim.message, "No claimable collateral found");
    let claim = pool.claim_collateral(user(3), &vec![2]);
    assert!(!claim.success);
    assert_eq!(claim.message, "No deposit found");
    let claim = pool.claim_collateral(user(1), &vec![1, 2]);
    assert!(claim.success);
    assert_eq!(claim.claimed_collateral.len(), 1);
    assert_eq!(claim.claimed_collateral[0].amount, 50);
    assert!(pool.deposits[0].pending_collateral.is_empty());
    assert_eq!(pool.deposits[1].pending_collateral.len(), 1);
    assert!(is_among(&vec![1, 2], 2));
    assert!(!is_among(&vec![1, 2], 3));
}

#[test]
fn a_deposit_with_rewards_stays() {
    let mut pool = new_pool();
    pool.deposits.push(UserDeposit {
        user: user(1),
        icusd_amount: 10,
        deposit_time: 0,
        pending_collateral: vec![CollateralReward {
            collateral_type: CollateralType::ICP,
            amount: 1,
            liquidation_id: 1,
        }],
    });
    let all = pool.withdraw_icusd(user(1), 10);
    assert!(all.success);
    assert_eq!(pool.deposits.len(), 1);
    assert_eq!(pool.deposits[0].icusd_amount, 0);
}

#[test]
fn waiting_transfers_are_kept_by_key() {
    let mut queue = PendingTransfers::new();
    assert!(queue.is_empty());
    let t = |n: u128, m: u64| PendingMarginTransfer { owner: user(n), margin: ICP::new(m) };
    queue.insert(5, t(1, 50));
    queue.insert(2, t(2, 20));
    queue.insert(9, t(3, 90));
    queue.insert(5, t(4, 55));
    assert_eq!(queue.len(), 3);
    let keys: Vec<u64> = queue.to_vec().iter().map(|e| e.key).collect();
    assert_eq!(keys, vec![2, 5, 9]);
    assert_eq!(queue.get(5), Some(t(4, 55)));
    assert_eq!(queue.get(6), None);
    assert_eq!(queue.remove(6), None);
    assert_eq!(queue.remove(2), Some(t(2, 20)));
    assert_eq!(queue.remove(2), None);
    assert_eq!(queue.len(), 2);
}

#[test]
fn balances_by_owner() {
    let mut book = Balances::new();
    book.add(user(1), 0);
    assert!(book.entries.is_empty());
    book.add(user(1), 10);
    book.add(user(2), 5);
    book.add(user(1), 7);
    assert_eq!(book.get(user(1)), 17);
    assert_eq!(book.get(user(2)), 5);
    assert_eq!(book.get(user(3)), 0);
    assert_eq!(book.total(), 22);
    book.take(user(1), 7);
    assert_eq!(book.get(user(1)), 10);
    book.take(user(2), 5);
    assert_eq!(book.entries.len(), 1);
    assert_eq!(book.total(), 10);
}

#[test]
fn call_errors() {
    let error = CallError::new("sign".to_string(), Reason::Rejected("busy".to_string()));
    assert_eq!(error.method(), "sign");
    assert_eq!(error.reason(), &Reason::Rejected("busy".to_string()));
    let error = CallError::new("get".to_string(), Reason::OutOfCycles);
    assert_eq!(error.reason(), &Reason::OutOfCycles);
}

#[test]
fn liquidity_in_the_state() {
    let mut state = State::new(InitArg {
        xrc_principal: user(1_000),
        icusd_ledger_principal: user(1_001),
        icp_ledger_principal: user(1_002),
        fee_e8s: 500_000,
        developer_principal: user(1_003),
    })
    .unwrap();
    state.provide_liquidity(ICUSD::new(0), user(1));
    assert_eq!(state.total_provided_liquidity_amount(), ICUSD::new(0));
    state.provide_liquidity(ICUSD::new(100), user(1));
    state.provide_liquidity(ICUSD::new(50), user(2));
    assert_eq!(state.get_provided_liquidity(user(1)), ICUSD::new(100));
    assert_eq!(state.get_provided_liquidity(user(3)), ICUSD::new(0));
    assert_eq!(state.total_provided_liquidity_amount(), ICUSD::new(150));
    state.withdraw_liquidity(ICUSD::new(100), user(1));
    assert_eq!(state.get_provided_liquidity(user(1)), ICUSD::new(0));
    assert_eq!(state.total_provided_liquidity_amount(), ICUSD::new(50));
    state.liquidity_returns.add(user(2), 9);
    assert_eq!(state.get_liquidity_returns_of(user(2)), ICP::new(9));
    state.claim_liquidity_returns(ICP::new(4), user(2));
    assert_eq!(state.get_liquidity_returns_of(user(2)), ICP::new(5));
    assert_eq!(state.total_available_returns(), ICP::new(5));
}

#[test]
fn principals_and_their_bytes() {
    assert_eq!(Principal::from_slice(&[4]), Some(Principal::anonymous()));
    assert_eq!(Principal::anonymous().to_bytes(), vec![4]);
    assert_eq!(Principal::from_slice(&[]).unwrap().to_bytes(), Vec::<u8>::new());
    let bytes: Vec<u8> = (1..=29).collect();
    let p = Principal::from_slice(&bytes).unwrap();
    assert_eq!(p.len, 29);
    assert_eq!(p.high, 0x01_02_03_04_05_06_07_08_09_0a_0b_0c_0d);
    assert_eq!(p.low, 0x0e_0f_10_11_12_13_14_15_16_17_18_19_1a_1b_1c_1d);
    assert!(p.is_well_formed());
    assert_eq!(p.to_bytes(), bytes);
    let sixteen = [255u8; 16];
    let q = Principal::from_slice(&sixteen).unwrap();
    assert_eq!((q.len, q.high, q.low), (16, 0, u128::MAX));
    assert_eq!(q.to_bytes(), sixteen.to_vec());
    assert!(Principal::from_slice(&[0u8; 30]).is_none());
    assert!(!Principal { len: 1, high: 0, low: 256 }.is_well_formed());
    assert!(!Principal { len: 17, high: 256, low: 0 }.is_well_formed());
    assert!(!Principal { len: 30, high: 0, low: 0 }.is_well_formed());
    assert!(Principal { len: 17, high: 255, low: 0 }.is_well_formed());
    // bytes that differ only in zeros in front are different principals
    assert_ne!(Principal::from_slice(&[0, 4]), Principal::from_slice(&[4]));
}

#[test]
fn the_owner_runs_the_pool() {
    let mut pool = new_pool();
    assert!(!pool.pause_protocol(user(1)));
    assert!(!pool.state.paused);
    assert!(pool.pause_protocol(user(99)));
    assert!(pool.state.paused);
    let refused = pool.deposit(user(1), 10, 0);
    assert!(!refused.success);
    assert_eq!(refused.message, "Protocol is paused");
    assert!(!pool.withdraw(user(1), 10).success);
    assert!(!pool.unpause_protocol(user(1)));
    assert!(pool.unpause_protocol(user(99)));
    assert!(pool.deposit(user(1), 10, 0).success);
    assert!(pool.withdraw(user(1), 4).success);
    assert_eq!(get_total_pool_size(&pool.deposits), 6);
    assert!(!pool.update_liquidation_discount(user(99), 51));
    assert!(!pool.update_liquidation_discount(user(1), 50));
    assert!(pool.update_liquidation_discount(user(99), 50));
    assert_eq!(pool.state.liquidation_discount, 50);
    assert!(!pool.set_protocol_backend(user(1), user(2)));
    assert!(pool.set_protocol_backend(user(99), user(2)));
    assert_eq!(pool.state.protocol_owner, user(2));
    assert!(!pool.pause_protocol(user(99)));
}

fn liquidation(used: u64, gained: u64) -> PoolLiquidationRecord {
    PoolLiquidationRecord {
        vault_id: 1,
        timestamp: 0,
        icusd_used: used,
        icp_gained: gained,
        liquidation_discount: "0.1".to_string(),
        depositors_count: 1,
    }
}

fn deposit_of(amount: u64) -> DepositInfo {
    DepositInfo {
        icusd_amount: amount,
        share_percentage: "0".to_string(),
        pending_icp_gains: 0,
        total_claimed_gains: 0,
        deposit_timestamp: 0,
    }
}

#[test]
fn what_the_pool_has_done() {
    let day = 24 * 60 * 60 * 1_000_000_000;
    let none = pool_analytics(&vec![], &vec![], 5, 0);
    assert_eq!(none.total_volume_processed, 0);
    assert_eq!(none.average_liquidation_size, 0);
    assert_eq!(none.pool_age_days, 1);
    assert_eq!(none.success_rate, "1.0");
    let history = vec![liquidation(100, 7), liquidation(51, 3)];
    let deposits = vec![deposit_of(0), deposit_of(5), deposit_of(1)];
    let some = pool_analytics(&history, &deposits, 3 * day + 1, 1);
    assert_eq!(some.total_volume_processed, 151);
    assert_eq!(some.average_liquidation_size, 75);
    assert_eq!(some.total_profit_distributed, 10);
    assert_eq!(some.active_depositors, 2);
    assert_eq!(some.pool_age_days, 3);
    assert_eq!(expected_liquidation_discount(1_009), 100);
}

#[test]
fn admins_change_the_settings() {
    let mut config = PoolConfiguration {
        min_deposit_amount: 1,
        max_single_liquidation: 2,
        liquidation_scan_interval: 3,
        max_liquidations_per_batch: 4,
        emergency_pause: false,
        authorized_admins: vec![user(1), user(2)],
    };
    assert!(config.is_admin(user(2)));
    assert!(!config.is_admin(user(3)));
    assert!(matches!(
        config.emergency_pause(user(3)),
        Err(StabilityPoolError::Unauthorized)
    ));
    assert!(!config.emergency_pause);
    assert!(config.emergency_pause(user(1)).is_ok());
    assert!(config.emergency_pause);
    assert!(config.resume_operations(user(3)).is_err());
    assert!(config.resume_operations(user(2)).is_ok());
    assert!(!config.emergency_pause);
    let other = PoolConfiguration {
        min_deposit_amount: 9,
        max_single_liquidation: 2,
        liquidation_scan_interval: 3,
        max_liquidations_per_batch: 4,
        emergency_pause: false,
        authorized_admins: vec![user(3)],
    };
    assert!(config.update_pool_configuration(user(3), other.clone()).is_err());
    assert_eq!(config.min_deposit_amount, 1);
    assert!(config.update_pool_configuration(user(1), other.clone()).is_ok());
    assert_eq!(config, other);
}
