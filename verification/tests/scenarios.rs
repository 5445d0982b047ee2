use rumi_protocol_backend::check_vaults;
use rumi_protocol_backend::decimal::DecimalValue;
use rumi_protocol_backend::event::{record_liquidate_vault, record_redistribute_vault, Event};
use rumi_protocol_backend::guard::{GuardError, GuardPrincipal, GuardTable, OperationState};
use rumi_protocol_backend::liquidation::{
    liquidation_kind, LiquidationKind, LiquidationOutcome, RedistributionOutcome,
};
use rumi_protocol_backend::numeric::{Ratio, UsdIcp, E8S, ICP, ICUSD};
use rumi_protocol_backend::operations::{
    add_margin_to_vault, borrow_from_vault, borrow_minted, close_vault, close_vault_paid,
    icp_transfer_from_failed, icusd_transfer_from_failed, margin_transferred, mint_failed,
    open_vault, open_vault_transferred, redeem_icp, redeem_icp_transferred, repay_to_vault,
    repayment_transferred, CloseStep,
};
use rumi_protocol_backend::state::{
    clamp_rate, compute_redemption_fee, mode_for, Mode, ModeUpdate, State,
};
use rumi_protocol_backend::transfers::PendingMarginTransfer;
use rumi_protocol_backend::vault::{Principal, Vault, VaultArg};
use rumi_protocol_backend::xrc::{after_fetch, apply_exchange_rate, price_of, ExchangeRate};
use rumi_protocol_backend::{
    compute_collateral_ratio, InitArg, ProtocolError, TransferError, TransferFromError,
    UpgradeArg,
};

const T0_SECS: u64 = 1_000;
const T0: u64 = T0_SECS * 1_000_000_000;
const MINUTE: u64 = 60 * 1_000_000_000;

fn dec(mantissa: i128, scale: u32) -> DecimalValue {
    DecimalValue::new(mantissa, scale).unwrap()
}

fn user(n: u128) -> Principal {
    Principal { len: 10, high: 0, low: n }
}

fn new_state() -> State {
    State::new(InitArg {
        xrc_principal: user(1_000),
        icusd_ledger_principal: user(1_001),
        icp_ledger_principal: user(1_002),
        fee_e8s: 500_000,
        developer_principal: user(1_003),
    })
    .unwrap()
}

fn set_price(state: &mut State, price: u64, at_secs: u64) {
    let answer = ExchangeRate { rate: price, decimals: 0, timestamp: at_secs };
    assert!(apply_exchange_rate(state, answer).is_some());
}

fn state_at_price(price: u64) -> State {
    let mut state = new_state();
    set_price(&mut state, price, T0_SECS);
    state
}

fn put_vault(state: &mut State, owner: Principal, margin: u64, debt: u64) -> u64 {
    let vault_id = state.increment_vault_id();
    state.open_vault(Vault {
        owner,
        borrowed_icusd_amount: ICUSD::new(debt),
        icp_margin_amount: ICP::new(margin),
        vault_id,
    });
    vault_id
}

fn do_open(state: &mut State, caller: Principal, margin: u64, now: u64, block: u64) -> u64 {
    let (guard, amount) = open_vault(state, caller, margin, now).unwrap();
    assert_eq!(amount, ICP::new(margin));
    open_vault_transferred(state, guard, amount, block).vault_id
}

#[test]
fn open_borrow_repay_close() {
    let alice = user(1);
    let mut state = state_at_price(20_000);
    // the collateral ledger charges one base unit for a transfer
    state.icp_ledger_fee = ICP::new(1);
    let now = T0 + MINUTE;

    let vault_id = do_open(&mut state, alice, E8S, now, 7);
    assert_eq!(vault_id, 0);
    let vault = state.get_vault(vault_id).unwrap();
    assert_eq!(vault.owner, alice);
    assert_eq!(vault.icp_margin_amount, ICP::new(E8S));
    assert_eq!(vault.borrowed_icusd_amount, ICUSD::new(0));
    assert_eq!(state.vault_ids_of(alice), vec![vault_id]);

    let arg = VaultArg { vault_id, amount: 10_000 * E8S };
    let (guard, ticket) = borrow_from_vault(&mut state, alice, arg, now).unwrap();
    assert_eq!(ticket.amount, ICUSD::new(10_000 * E8S));
    assert_eq!(ticket.fee, ICUSD::new(50 * E8S));
    assert_eq!(ticket.minted(), ICUSD::new(9_950 * E8S));
    let success = borrow_minted(&mut state, guard, vault_id, ticket, 8);
    assert_eq!(success.block_index, 8);
    assert_eq!(success.fee_amount_paid, 50 * E8S);
    assert_eq!(
        state.get_vault(vault_id).unwrap().borrowed_icusd_amount,
        ICUSD::new(10_000 * E8S)
    );
    assert_eq!(state.total_borrowed_icusd_amount(), ICUSD::new(10_000 * E8S));
    assert_eq!(state.total_icp_margin_amount(), ICP::new(E8S));
    assert_eq!(state.mode, Mode::GeneralAvailability);
    assert!(state.total_collateral_ratio.same_value(Ratio::new(dec(2, 0))));

    let (guard, amount) = repay_to_vault(&mut state, alice, arg, now).unwrap();
    assert_eq!(amount, ICUSD::new(10_000 * E8S));
    assert_eq!(repayment_transferred(&mut state, guard, vault_id, amount, 9), 9);
    assert_eq!(
        state.get_vault(vault_id).unwrap().borrowed_icusd_amount,
        ICUSD::new(0)
    );

    match close_vault(&mut state, alice, vault_id, now).unwrap() {
        CloseStep::Closed => {}
        CloseStep::PayOff { .. } => panic!("the vault owes nothing"),
    }
    assert!(state.get_vault(vault_id).is_none());
    assert!(state.vault_ids_of(alice).is_empty());
    assert_eq!(
        state.pending_margin_transfers.get(vault_id),
        Some(PendingMarginTransfer { owner: alice, margin: ICP::new(E8S - 1) })
    );
    assert_eq!(state.operation_guards.len(), 0);
    assert_eq!(state.events.len(), 4);
    assert!(matches!(state.events[0], Event::OpenVault { block_index: 7, .. }));
    assert!(matches!(state.events[1], Event::Borrow { block_index: 8, .. }));
    assert!(matches!(state.events[2], Event::Repay { block_index: 9, .. }));
    assert!(matches!(
        state.events[3],
        Event::CloseVault { vault_id: 0, block_index: None }
    ));
}

#[test]
fn liquidation_in_normal_mode() {
    let mut state = state_at_price(20_000);
    let a = put_vault(&mut state, user(1), E8S, 10_000 * E8S);
    let b = put_vault(&mut state, user(2), 2 * E8S, 10_000 * E8S);
    set_price(&mut state, 12_000, T0_SECS + 60);
    let rate = state.last_icp_rate.unwrap();

    let cr_a = compute_collateral_ratio(&state.get_vault(a).unwrap(), rate).unwrap();
    let cr_b = compute_collateral_ratio(&state.get_vault(b).unwrap(), rate).unwrap();
    assert!(cr_a.same_value(Ratio::new(dec(12, 1))));
    assert!(cr_b.same_value(Ratio::new(dec(24, 1))));

    let steps = after_fetch(&mut state);
    assert_eq!(state.mode, Mode::GeneralAvailability);
    assert!(state.total_collateral_ratio.same_value(Ratio::new(dec(18, 1))));
    assert_eq!(steps.len(), 1);
    assert_eq!(steps[0].vault_id, a);
    assert!(matches!(steps[0].outcome, LiquidationOutcome::Redistributed));
    assert!(state.get_vault(a).is_none());
    let vault_b = state.get_vault(b).unwrap();
    assert_eq!(vault_b.icp_margin_amount, ICP::new(3 * E8S));
    assert_eq!(vault_b.borrowed_icusd_amount, ICUSD::new(20_000 * E8S));
    assert_eq!(state.total_borrowed_icusd_amount(), ICUSD::new(20_000 * E8S));
    assert_eq!(state.total_icp_margin_amount(), ICP::new(3 * E8S));
    assert!(state.vault_ids_of(user(1)).is_empty());
    assert_eq!(state.vault_ids_of(user(2)), vec![b]);
    assert!(matches!(
        state.events[state.events.len() - 1],
        Event::Redistribute { vault_id: 0 }
    ));
}

#[test]
fn partial_liquidation_in_recovery() {
    let mut state = state_at_price(12_000);
    let a = put_vault(&mut state, user(1), E8S, 8_000 * E8S);
    let b = put_vault(&mut state, user(2), E8S, 8_000 * E8S);
    assert_eq!(state.refresh_mode(), ModeUpdate::Unchanged);
    assert!(state.total_collateral_ratio.same_value(Ratio::new(dec(15, 1))));
    assert_eq!(state.mode, Mode::GeneralAvailability);

    set_price(&mut state, 10_800, T0_SECS + 60);
    let rate = state.last_icp_rate.unwrap();
    assert_eq!(
        state.update_total_collateral_ratio_and_mode(rate),
        ModeUpdate::Changed { from: Mode::GeneralAvailability, to: Mode::Recovery }
    );
    assert!(state.total_collateral_ratio.same_value(Ratio::new(dec(135, 2))));
    let cr = compute_collateral_ratio(&state.get_vault(a).unwrap(), rate).unwrap();
    assert!(cr.same_value(Ratio::new(dec(135, 2))));
    assert_eq!(liquidation_kind(Mode::Recovery, cr), LiquidationKind::Partial);

    let outcome = state.liquidate_vault(a, Mode::Recovery, rate);
    match outcome {
        LiquidationOutcome::Partial { seized, returned } => {
            assert_eq!(seized, ICP::new(98_518_518));
            assert_eq!(returned, ICP::new(1_481_482));
        }
        other => panic!("unexpected outcome: {:?}", other),
    }
    let vault_a = state.get_vault(a).unwrap();
    assert_eq!(vault_a.borrowed_icusd_amount, ICUSD::new(0));
    assert_eq!(vault_a.icp_margin_amount, ICP::new(0));
    assert_eq!(
        state.pending_margin_transfers.get(a),
        Some(PendingMarginTransfer { owner: user(1), margin: ICP::new(1_481_482) })
    );
    // the other vault is as it was
    let vault_b = state.get_vault(b).unwrap();
    assert_eq!(vault_b.borrowed_icusd_amount, ICUSD::new(8_000 * E8S));
    assert_eq!(vault_b.icp_margin_amount, ICP::new(E8S));
    assert_eq!(state.total_borrowed_icusd_amount(), ICUSD::new(8_000 * E8S));
    assert_eq!(state.total_icp_margin_amount(), ICP::new(E8S));
}

#[test]
fn sweep_in_recovery_liquidates_in_part() {
    let mut state = state_at_price(12_000);
    let a = put_vault(&mut state, user(1), E8S, 8_000 * E8S);
    let b = put_vault(&mut state, user(2), E8S, 8_000 * E8S);
    set_price(&mut state, 10_800, T0_SECS + 60);
    let steps = after_fetch(&mut state);
    assert_eq!(steps.len(), 2);
    assert_eq!(steps[0].vault_id, a);
    assert_eq!(steps[1].vault_id, b);
    assert!(matches!(steps[0].outcome, LiquidationOutcome::Partial { .. }));
    assert!(matches!(steps[1].outcome, LiquidationOutcome::Partial { .. }));
    assert_eq!(state.total_borrowed_icusd_amount(), ICUSD::new(0));
    assert_eq!(state.mode, Mode::GeneralAvailability);
    assert_eq!(state.pending_margin_transfers.len(), 2);
    let tags: Vec<u8> = state
        .events
        .iter()
        .map(|e| match e {
            Event::ModeChange { .. } => 0,
            Event::Liquidate { .. } => 1,
            _ => 2,
        })
        .collect();
    assert_eq!(tags, vec![0, 1, 1, 0]);
}

#[test]
fn redemption() {
    let alice = user(1);
    let bob = user(2);
    let mut state = state_at_price(20_000);
    let now = T0 + MINUTE;
    state.last_redemption_time = now;
    let vault_id = put_vault(&mut state, alice, 2 * E8S, 10_000 * E8S);

    let (guard, amount) = redeem_icp(&mut state, bob, 1_000 * E8S, now).unwrap();
    assert_eq!(amount, ICUSD::new(1_000 * E8S));
    let success = redeem_icp_transferred(&mut state, guard, amount, now, 42).unwrap();
    assert_eq!(success.block_index, 42);
    assert_eq!(success.fee_amount_paid, 50 * E8S);
    assert!(state.current_base_rate.same_value(Ratio::new(dec(5, 2))));
    assert_eq!(state.last_redemption_time, now);

    let vault = state.get_vault(vault_id).unwrap();
    assert_eq!(vault.icp_margin_amount, ICP::new(2 * E8S - 4_750_000));
    assert_eq!(vault.borrowed_icusd_amount, ICUSD::new(10_000 * E8S - 950 * E8S));
    assert_eq!(
        state.pending_redemption_transfer.get(42),
        Some(PendingMarginTransfer { owner: bob, margin: ICP::new(4_750_000) })
    );
    assert!(matches!(
        state.events[state.events.len() - 1],
        Event::Redeem { block_index: 42, .. }
    ));
    assert_eq!(state.operation_guards.len(), 0);
}

#[test]
fn redemption_takes_the_least_covered_vault_first() {
    let mut state = state_at_price(20_000);
    // ratios: 4.0, 2.0, 2.0, no debt
    let a = put_vault(&mut state, user(1), 2 * E8S, 10_000 * E8S);
    let b = put_vault(&mut state, user(2), E8S, 10_000 * E8S);
    let c = put_vault(&mut state, user(3), 2 * E8S, 20_000 * E8S);
    let d = put_vault(&mut state, user(4), E8S, 0);
    let rate = state.last_icp_rate.unwrap();
    let released = state
        .redeem_on_vaults(ICUSD::new(25_000 * E8S), rate)
        .unwrap();
    // b goes first, then c, both of the same ratio; then a
    assert_eq!(state.get_vault(b).unwrap().borrowed_icusd_amount, ICUSD::new(0));
    assert_eq!(state.get_vault(c).unwrap().borrowed_icusd_amount, ICUSD::new(5_000 * E8S));
    assert_eq!(state.get_vault(a).unwrap().borrowed_icusd_amount, ICUSD::new(10_000 * E8S));
    assert_eq!(state.get_vault(b).unwrap().icp_margin_amount, ICP::new(E8S / 2));
    assert_eq!(state.get_vault(c).unwrap().icp_margin_amount, ICP::new(2 * E8S - 3 * E8S / 4));
    assert_eq!(state.get_vault(d).unwrap().icp_margin_amount, ICP::new(E8S));
    assert_eq!(released, ICP::new(E8S / 2 + 3 * E8S / 4));
    assert_eq!(state.total_borrowed_icusd_amount(), ICUSD::new(15_000 * E8S));
    assert_eq!(
        state.total_icp_margin_amount(),
        ICP::new(6 * E8S - (E8S / 2 + 3 * E8S / 4))
    );
}

#[test]
fn base_rate_decay() {
    let rate = compute_redemption_fee(
        10,
        ICUSD::new(100 * E8S),
        ICUSD::new(10_000 * E8S),
        Ratio::new(dec(5, 2)),
    )
    .unwrap();
    // 0.05 x 0.94^10 + 0.01 x 0.5
    assert!(rate.same_value(Ratio::new(dec(319_307_557_047_449_850_880, 22))));
    assert!(Ratio::new(dec(3193, 5)).lt(rate));
    assert!(rate.lt(Ratio::new(dec(3194, 5))));
}

#[test]
fn base_rate_stays_within_bounds() {
    let least = Ratio::new(dec(5, 3));
    let largest = Ratio::new(dec(5, 2));
    // a small redemption long after the last one: the least rate
    let low = compute_redemption_fee(
        1_000,
        ICUSD::new(10 * E8S),
        ICUSD::new(1_000_000 * E8S),
        Ratio::new(dec(5, 2)),
    )
    .unwrap();
    assert!(low.same_value(least));
    // everything is redeemed: the largest rate
    let high = compute_redemption_fee(
        0,
        ICUSD::new(10_000 * E8S),
        ICUSD::new(10_000 * E8S),
        Ratio::new(dec(0, 0)),
    )
    .unwrap();
    assert!(high.same_value(largest));
    // no debt: no rate
    let none = compute_redemption_fee(0, ICUSD::new(1), ICUSD::new(0), largest).unwrap();
    assert!(none.same_value(Ratio::new(dec(0, 0))));
    assert!(clamp_rate(Ratio::new(dec(1, 0))).same_value(largest));
    assert!(clamp_rate(Ratio::new(dec(-1, 0))).same_value(least));
    assert!(clamp_rate(Ratio::new(dec(2, 2))).same_value(Ratio::new(dec(2, 2))));
}

#[test]
fn guard_collision() {
    let p = user(1);
    let mut state = state_at_price(20_000);
    let vault_id = do_open(&mut state, p, E8S, T0, 1);
    let arg = VaultArg { vault_id, amount: 100 * E8S };

    let first = borrow_from_vault(&mut state, p, arg, T0);
    assert!(first.is_ok());
    // two minutes later the first call is still under way
    let second = borrow_from_vault(&mut state, p, arg, T0 + 2 * MINUTE);
    assert!(matches!(second, Err(ProtocolError::AlreadyProcessing)));
    // another operation of the same caller is not held up
    assert!(repay_to_vault(&mut state, p, arg, T0 + 2 * MINUTE).is_err());
    assert!(add_margin_to_vault(&mut state, p, arg, T0 + 2 * MINUTE).is_ok());
    // nor is the same operation of another caller
    let q = user(2);
    let other = do_open(&mut state, q, E8S, T0 + 2 * MINUTE, 2);
    let other_arg = VaultArg { vault_id: other, amount: 100 * E8S };
    assert!(borrow_from_vault(&mut state, q, other_arg, T0 + 2 * MINUTE).is_ok());
    // after 2.6 minutes the guard is stale, and gives way
    let third = borrow_from_vault(&mut state, p, arg, T0 + 156 * 1_000_000_000);
    assert!(third.is_ok());
    let held = state
        .operation_guards
        .entries
        .iter()
        .filter(|e| e.principal == p && e.operation == "borrow_from_vault")
        .count();
    assert_eq!(held, 1);
}

#[test]
fn guard_table_laws() {
    let mut table = GuardTable::new();
    let p = user(1);
    let g = table.acquire(p, "op", 0).unwrap();
    assert_eq!(g.principal, p);
    assert_eq!(g.created_at, 0);
    assert_eq!(table.acquire(p, "op", 150_000_000_000).unwrap_err(), GuardError::AlreadyProcessing);
    // one nanosecond past two and a half minutes
    assert!(table.acquire(p, "op", 150_000_000_001).is_ok());
    assert_eq!(table.len(), 1);
    // a failed operation gives way at once
    table.mark(p, &"op".to_string(), OperationState::Failed);
    assert_eq!(table.state_of(p, &"op".to_string()), Some(OperationState::Failed));
    assert!(table.acquire(p, "op", 150_000_000_002).is_ok());
    assert_eq!(table.len(), 1);
    // guards older than five minutes go when a guard is asked for
    assert!(table.acquire(user(2), "op", 150_000_000_003).is_ok());
    assert_eq!(table.len(), 2);
    assert!(table.acquire(user(3), "op", 150_000_000_003 + 300_000_000_001).is_ok());
    assert_eq!(table.len(), 1);
    table.release(user(3), &"op".to_string());
    assert_eq!(table.len(), 0);
}

#[test]
fn guard_table_is_capped() {
    let mut table = GuardTable::new();
    for n in 0..100 {
        assert!(table.acquire(user(n), "op", 0).is_ok());
    }
    assert_eq!(table.len(), 100);
    assert_eq!(
        table.acquire(user(100), "op", 1).unwrap_err(),
        GuardError::TooManyConcurrentRequests
    );
    assert_eq!(table.len(), 100);
    // a stale guard of the caller makes room
    assert!(table.acquire(user(5), "op", 150_000_000_001).is_ok());
    assert_eq!(table.len(), 100);
    let error = ProtocolError::from_guard_error(GuardError::TooManyConcurrentRequests);
    assert!(matches!(error, ProtocolError::TemporarilyUnavailable(_)));
    let error = ProtocolError::from_guard_error(GuardError::AlreadyProcessing);
    assert!(matches!(error, ProtocolError::AlreadyProcessing));
}

#[test]
fn guard_handles() {
    let mut state = state_at_price(20_000);
    let p = user(1);
    let guard = GuardPrincipal::new(&mut state, p, "op", T0).unwrap();
    // dropped without a word: the guard stays
    guard.release(&mut state);
    assert_eq!(state.operation_guards.len(), 1);
    assert_eq!(
        GuardPrincipal::new(&mut state, p, "op", T0 + 1).unwrap_err(),
        GuardError::AlreadyProcessing
    );
    let guard = GuardPrincipal::new(&mut state, p, "other", T0).unwrap();
    guard.complete(&mut state);
    assert_eq!(state.operation_guards.len(), 1);
    let guard = GuardPrincipal::new(&mut state, p, "third", T0).unwrap();
    guard.fail(&mut state);
    assert_eq!(
        state.operation_guards.state_of(p, &"third".to_string()),
        Some(OperationState::Failed)
    );
    assert!(GuardPrincipal::new(&mut state, p, "third", T0 + 1).is_ok());
}

#[test]
fn requests_are_checked() {
    let alice = user(1);
    let mallory = user(2);
    let mut state = state_at_price(20_000);
    let now = T0 + MINUTE;
    let vault_id = do_open(&mut state, alice, E8S, now, 1);

    // anonymous callers
    assert!(matches!(
        open_vault(&mut state, Principal::anonymous(), E8S, now),
        Err(ProtocolError::AnonymousCallerNotAllowed)
    ));
    // amounts below the least amount
    assert!(matches!(
        open_vault(&mut state, alice, 99_999, now),
        Err(ProtocolError::AmountTooLow { minimum_amount: 100_000 })
    ));
    assert!(open_vault(&mut state, alice, 100_000, now).is_ok());
    let small = VaultArg { vault_id, amount: 999_999_999 };
    assert!(matches!(
        borrow_from_vault(&mut state, alice, small, now),
        Err(ProtocolError::AmountTooLow { minimum_amount: 1_000_000_000 })
    ));
    assert!(matches!(
        repay_to_vault(&mut state, alice, small, now),
        Err(ProtocolError::AmountTooLow { minimum_amount: 1_000_000_000 })
    ));
    assert!(matches!(
        add_margin_to_vault(&mut state, alice, VaultArg { vault_id, amount: 99_999 }, now),
        Err(ProtocolError::AmountTooLow { minimum_amount: 100_000 })
    ));
    assert!(matches!(
        redeem_icp(&mut state, alice, 999_999_999, now),
        Err(ProtocolError::AmountTooLow { minimum_amount: 1_000_000_000 })
    ));
    // not the owner
    let arg = VaultArg { vault_id, amount: 10 * E8S };
    assert!(matches!(
        borrow_from_vault(&mut state, mallory, arg, now),
        Err(ProtocolError::CallerNotOwner)
    ));
    assert!(matches!(
        repay_to_vault(&mut state, mallory, arg, now),
        Err(ProtocolError::CallerNotOwner)
    ));
    assert!(matches!(
        add_margin_to_vault(&mut state, mallory, arg, now),
        Err(ProtocolError::CallerNotOwner)
    ));
    assert!(matches!(
        close_vault(&mut state, mallory, vault_id, now),
        Err(ProtocolError::CallerNotOwner)
    ));
    // more than the collateral covers: 20 000 / 1.33 = 15 037.59...
    assert!(matches!(
        borrow_from_vault(&mut state, alice, VaultArg { vault_id, amount: 15_038 * E8S }, now),
        Err(ProtocolError::GenericError(_))
    ));
    let (guard, ticket) =
        borrow_from_vault(&mut state, alice, VaultArg { vault_id, amount: 15_037 * E8S }, now)
            .unwrap();
    borrow_minted(&mut state, guard, vault_id, ticket, 2);
    // more than is owed
    assert!(matches!(
        repay_to_vault(&mut state, alice, VaultArg { vault_id, amount: 15_038 * E8S }, now),
        Err(ProtocolError::GenericError(_))
    ));
    assert!(matches!(
        redeem_icp(&mut state, alice, 15_038 * E8S, now),
        Err(ProtocolError::GenericError(_))
    ));
    // a price that is older than ten minutes
    assert!(matches!(
        open_vault(&mut state, alice, E8S, T0 + 10 * MINUTE + 1),
        Err(ProtocolError::TemporarilyUnavailable(_))
    ));
    assert!(open_vault(&mut state, user(9), E8S, T0 + 10 * MINUTE).is_ok());
    // every refusal gave its guard back; the guard of the request that was
    // taken nine minutes before has expired
    assert_eq!(state.operation_guards.len(), 1);
}

#[test]
fn nothing_to_redeem_without_debt() {
    let mut state = state_at_price(20_000);
    put_vault(&mut state, user(1), E8S, 0);
    assert!(matches!(
        redeem_icp(&mut state, user(2), 10 * E8S, T0),
        Err(ProtocolError::GenericError(_))
    ));
    assert_eq!(state.operation_guards.len(), 0);
}

#[test]
fn no_price_no_operation() {
    let mut state = new_state();
    assert!(matches!(
        open_vault(&mut state, user(1), E8S, T0),
        Err(ProtocolError::TemporarilyUnavailable(_))
    ));
    assert!(state.check_price_not_too_old(T0).is_err());
    set_price(&mut state, 5, T0_SECS);
    assert!(state.check_price_not_too_old(T0).is_ok());
    assert!(state.check_price_not_too_old(T0 + 10 * MINUTE).is_ok());
    assert!(state.check_price_not_too_old(T0 + 10 * MINUTE + 1).is_err());
    // a clock that went back does not make the price old
    assert!(state.check_price_not_too_old(0).is_ok());
}

#[test]
fn read_only_takes_repayments_and_closings_only() {
    let alice = user(1);
    let mut state = state_at_price(20_000);
    let with_debt = put_vault(&mut state, alice, E8S, 100 * E8S);
    let without_debt = put_vault(&mut state, alice, E8S, 0);
    state.upgrade(UpgradeArg { mode: Some(Mode::ReadOnly) });
    assert!(!state.mode.is_available());
    let now = T0;
    let arg = VaultArg { vault_id: with_debt, amount: 10 * E8S };
    assert!(matches!(
        open_vault(&mut state, alice, E8S, now),
        Err(ProtocolError::TemporarilyUnavailable(_))
    ));
    assert!(matches!(
        borrow_from_vault(&mut state, alice, arg, now),
        Err(ProtocolError::TemporarilyUnavailable(_))
    ));
    assert!(matches!(
        add_margin_to_vault(&mut state, alice, arg, now),
        Err(ProtocolError::TemporarilyUnavailable(_))
    ));
    assert!(matches!(
        redeem_icp(&mut state, alice, 10 * E8S, now),
        Err(ProtocolError::TemporarilyUnavailable(_))
    ));
    assert!(matches!(
        close_vault(&mut state, alice, with_debt, now),
        Err(ProtocolError::TemporarilyUnavailable(_))
    ));
    assert_eq!(state.total_borrowed_icusd_amount(), ICUSD::new(100 * E8S));
    assert_eq!(state.total_icp_margin_amount(), ICP::new(2 * E8S));
    // repaying is taken
    let (guard, amount) = repay_to_vault(&mut state, alice, arg, now).unwrap();
    state.upgrade(UpgradeArg { mode: None });
    repayment_transferred(&mut state, guard, with_debt, amount, 3);
    assert_eq!(state.total_borrowed_icusd_amount(), ICUSD::new(90 * E8S));
    // and so is the closing of a vault without debt
    state.upgrade(UpgradeArg { mode: Some(Mode::ReadOnly) });
    assert!(matches!(
        close_vault(&mut state, alice, without_debt, now),
        Ok(CloseStep::Closed)
    ));
    assert!(state.get_vault(without_debt).is_none());
    // the vaults are not swept while the protocol is read-only
    state.upgrade(UpgradeArg { mode: Some(Mode::ReadOnly) });
    set_price(&mut state, 0, T0_SECS + 1);
    assert!(after_fetch(&mut state).is_empty());
    assert_eq!(state.mode, Mode::ReadOnly);
    assert!(state.get_vault(with_debt).is_some());
}

#[test]
fn closing_a_vault_with_debt_pays_it_off() {
    let alice = user(1);
    let mut state = state_at_price(20_000);
    let vault_id = put_vault(&mut state, alice, 5_000_000_000, 1_000_000_000);
    let step = close_vault(&mut state, alice, vault_id, T0).unwrap();
    let (guard, amount) = match step {
        CloseStep::PayOff { guard, amount } => (guard, amount),
        CloseStep::Closed => panic!("the vault owes"),
    };
    assert_eq!(amount, ICUSD::new(1_000_000_000));
    assert!(state.get_vault(vault_id).is_some());
    assert_eq!(close_vault_paid(&mut state, guard, vault_id, 11), Some(11));
    assert!(state.get_vault(vault_id).is_none());
    assert_eq!(
        state.pending_margin_transfers.get(vault_id),
        Some(PendingMarginTransfer { owner: alice, margin: ICP::new(5_000_000_000 - 10) })
    );
    assert_eq!(state.total_borrowed_icusd_amount(), ICUSD::new(0));
}

#[test]
fn adding_margin() {
    let alice = user(1);
    let mut state = state_at_price(20_000);
    let vault_id = do_open(&mut state, alice, 1_000_000_000, T0, 1);
    let arg = VaultArg { vault_id, amount: 500_000_000 };
    let (guard, amount) = add_margin_to_vault(&mut state, alice, arg, T0).unwrap();
    assert_eq!(margin_transferred(&mut state, guard, vault_id, amount, 5), 5);
    assert_eq!(
        state.get_vault(vault_id).unwrap().icp_margin_amount,
        ICP::new(1_500_000_000)
    );
    assert_eq!(state.get_vault(vault_id).unwrap().to_candid().icp_margin_amount, 1_500_000_000);
}

#[test]
fn borrowing_and_repaying_in_part() {
    let alice = user(1);
    let mut state = state_at_price(20_000);
    let vault_id = do_open(&mut state, alice, 5_000_000_000, T0, 1);
    let arg = VaultArg { vault_id, amount: 2_000_000_000 };
    let (guard, ticket) = borrow_from_vault(&mut state, alice, arg, T0).unwrap();
    assert_eq!(ticket.fee, ICUSD::new(10_000_000));
    borrow_minted(&mut state, guard, vault_id, ticket, 2);
    assert_eq!(
        state.get_vault(vault_id).unwrap().borrowed_icusd_amount,
        ICUSD::new(2_000_000_000)
    );
    let repay = VaultArg { vault_id, amount: 1_000_000_000 };
    let (guard, amount) = repay_to_vault(&mut state, alice, repay, T0).unwrap();
    repayment_transferred(&mut state, guard, vault_id, amount, 3);
    assert_eq!(
        state.get_vault(vault_id).unwrap().borrowed_icusd_amount,
        ICUSD::new(1_000_000_000)
    );
    // borrowing and repaying the same amount leaves the debt where it was
    let (guard, ticket) = borrow_from_vault(&mut state, alice, arg, T0).unwrap();
    borrow_minted(&mut state, guard, vault_id, ticket, 4);
    let (guard, amount) = repay_to_vault(&mut state, alice, arg, T0).unwrap();
    repayment_transferred(&mut state, guard, vault_id, amount, 5);
    assert_eq!(
        state.get_vault(vault_id).unwrap().borrowed_icusd_amount,
        ICUSD::new(1_000_000_000)
    );
}

#[test]
fn no_borrowing_fee_in_recovery() {
    let alice = user(1);
    let mut state = state_at_price(20_000);
    let vault_id = put_vault(&mut state, alice, E8S, 14_000 * E8S);
    assert_eq!(state.refresh_mode(), ModeUpdate::Changed {
        from: Mode::GeneralAvailability,
        to: Mode::Recovery
    });
    assert!(state.get_borrowing_fee().same_value(Ratio::new(dec(0, 0))));
    // in recovery the debt must stay covered one and a half times
    let arg = VaultArg { vault_id, amount: 10 * E8S };
    assert!(matches!(
        borrow_from_vault(&mut state, alice, arg, T0),
        Err(ProtocolError::GenericError(_))
    ));
    state.upgrade(UpgradeArg { mode: Some(Mode::GeneralAvailability) });
    assert!(state.get_borrowing_fee().same_value(Ratio::new(dec(5, 3))));
}

#[test]
fn ledger_errors_are_passed_on() {
    let alice = user(1);
    let mut state = state_at_price(20_000);
    let (guard, amount) = open_vault(&mut state, alice, E8S, T0).unwrap();
    let error = icp_transfer_from_failed(
        &mut state,
        guard,
        TransferFromError::BadFee { expected_fee: 10_000 },
        amount,
    );
    assert!(matches!(
        error,
        ProtocolError::TransferFromError(TransferFromError::BadFee { expected_fee: 10_000 }, 100_000_000)
    ));
    assert_eq!(state.icp_ledger_fee, ICP::new(10_000));
    assert!(state.vault_id_to_vaults.is_empty());
    // the failed guard gives way at once
    let (guard, amount) = open_vault(&mut state, alice, E8S, T0).unwrap();
    let error = icp_transfer_from_failed(
        &mut state,
        guard,
        TransferFromError::InsufficientAllowance { allowance: 0 },
        amount,
    );
    assert!(matches!(error, ProtocolError::TransferFromError(_, 100_000_000)));
    assert_eq!(state.icp_ledger_fee, ICP::new(10_000));

    let vault_id = put_vault(&mut state, alice, E8S, 100 * E8S);
    let arg = VaultArg { vault_id, amount: 10 * E8S };
    let (guard, amount) = repay_to_vault(&mut state, alice, arg, T0).unwrap();
    let error = icusd_transfer_from_failed(
        &mut state,
        guard,
        TransferFromError::TemporarilyUnavailable,
        amount,
    );
    assert!(matches!(error, ProtocolError::TransferFromError(_, 1_000_000_000)));
    let (guard, _ticket) = borrow_from_vault(&mut state, alice, arg, T0).unwrap();
    let error = mint_failed(&mut state, guard, TransferError::TooOld);
    assert!(matches!(error, ProtocolError::TransferError(TransferError::TooOld)));
    assert_eq!(
        state.get_vault(vault_id).unwrap().borrowed_icusd_amount,
        ICUSD::new(100 * E8S)
    );
}

#[test]
fn modes_by_ratio_and_price() {
    let price = UsdIcp::new(dec(10, 0));
    assert_eq!(mode_for(Ratio::new(dec(15, 1)), price), Mode::GeneralAvailability);
    assert_eq!(mode_for(Ratio::new(dec(1499, 3)), price), Mode::Recovery);
    assert_eq!(mode_for(Ratio::new(dec(1, 0)), price), Mode::Recovery);
    assert_eq!(mode_for(Ratio::new(dec(999, 3)), price), Mode::ReadOnly);
    assert_eq!(mode_for(Ratio::new(dec(2, 0)), UsdIcp::new(dec(9, 3))), Mode::ReadOnly);
    assert_eq!(mode_for(Ratio::new(dec(2, 0)), UsdIcp::new(dec(1, 2))), Mode::GeneralAvailability);
    assert_eq!(Mode::default(), Mode::GeneralAvailability);
    assert!(Mode::Recovery.is_available());
    assert!(Mode::Recovery
        .get_minimum_liquidation_collateral_ratio()
        .same_value(Ratio::new(dec(15, 1))));
    assert!(Mode::ReadOnly
        .get_minimum_liquidation_collateral_ratio()
        .same_value(Ratio::new(dec(133, 2))));
}

#[test]
fn liquidation_kinds() {
    let r = |m, s| Ratio::new(dec(m, s));
    assert_eq!(liquidation_kind(Mode::Recovery, r(134, 2)), LiquidationKind::Partial);
    assert_eq!(liquidation_kind(Mode::Recovery, r(133, 2)), LiquidationKind::Full);
    assert_eq!(liquidation_kind(Mode::Recovery, r(15, 1)), LiquidationKind::Healthy);
    assert_eq!(liquidation_kind(Mode::Recovery, r(1499, 3)), LiquidationKind::Partial);
    assert_eq!(liquidation_kind(Mode::GeneralAvailability, r(134, 2)), LiquidationKind::Healthy);
    assert_eq!(liquidation_kind(Mode::GeneralAvailability, r(133, 2)), LiquidationKind::Healthy);
    assert_eq!(liquidation_kind(Mode::GeneralAvailability, r(1329, 3)), LiquidationKind::Full);
    assert_eq!(liquidation_kind(Mode::ReadOnly, r(1, 0)), LiquidationKind::Full);
}

#[test]
fn a_lone_vault_is_not_redistributed() {
    let mut state = state_at_price(10_000);
    let a = put_vault(&mut state, user(1), E8S, 9_000 * E8S);
    assert_eq!(state.redistribute_vault(a), RedistributionOutcome::NoSurvivors);
    assert_eq!(state.mode, Mode::ReadOnly);
    assert!(state.get_vault(a).is_some());
    // other vaults without collateral cannot take over
    let mut state = state_at_price(10_000);
    let a = put_vault(&mut state, user(1), E8S, 9_000 * E8S);
    put_vault(&mut state, user(2), 0, 0);
    assert_eq!(state.redistribute_vault(a), RedistributionOutcome::Failed);
    assert_eq!(state.mode, Mode::GeneralAvailability);
    assert!(state.get_vault(a).is_some());
}

#[test]
fn redistribution_conserves_the_sums() {
    let mut state = state_at_price(10_000);
    put_vault(&mut state, user(1), 333_333, 7);
    let target = put_vault(&mut state, user(2), 1_000_003, 999_999_999);
    put_vault(&mut state, user(3), 777_777_777, 13);
    put_vault(&mut state, user(4), 1, 0);
    let debt = state.total_borrowed_icusd_amount();
    let margin = state.total_icp_margin_amount();
    assert_eq!(state.redistribute_vault(target), RedistributionOutcome::Redistributed);
    assert_eq!(state.total_borrowed_icusd_amount(), debt);
    assert_eq!(state.total_icp_margin_amount(), margin);
    assert_eq!(state.vault_id_to_vaults.len(), 3);
    assert!(state.vault_ids_of(user(2)).is_empty());
}

#[test]
fn oracle_answers() {
    let price = price_of(ExchangeRate { rate: 1_234_567, decimals: 5, timestamp: 0 }).unwrap();
    assert!(price.same_value(UsdIcp::new(dec(1_234_567, 5))));
    assert!(price_of(ExchangeRate { rate: 1, decimals: 20, timestamp: 0 }).is_none());
    assert!(price_of(ExchangeRate { rate: 1, decimals: 19, timestamp: 0 }).is_some());

    let mut state = new_state();
    set_price(&mut state, 7, 100);
    assert_eq!(state.last_icp_timestamp, Some(100_000_000_000));
    // an older answer does not take the place of the price
    set_price(&mut state, 9, 99);
    assert!(state.last_icp_rate.unwrap().same_value(UsdIcp::new(dec(7, 0))));
    set_price(&mut state, 9, 100);
    assert!(state.last_icp_rate.unwrap().same_value(UsdIcp::new(dec(7, 0))));
    set_price(&mut state, 9, 101);
    assert!(state.last_icp_rate.unwrap().same_value(UsdIcp::new(dec(9, 0))));
    assert_eq!(state.mode, Mode::GeneralAvailability);
    // a price under one cent makes the protocol read-only
    let answer = ExchangeRate { rate: 9, decimals: 3, timestamp: 102 };
    assert!(apply_exchange_rate(&mut state, answer).is_some());
    assert_eq!(state.mode, Mode::ReadOnly);
    assert!(matches!(
        state.events[state.events.len() - 1],
        Event::ModeChange { from: Mode::GeneralAvailability, to: Mode::ReadOnly }
    ));
    assert!(after_fetch(&mut state).is_empty());
    assert_eq!(state.mode, Mode::ReadOnly);
}

#[test]
fn sweep_without_a_price_goes_by_one() {
    let mut state = new_state();
    let a = put_vault(&mut state, user(1), 2 * E8S, E8S);
    let b = put_vault(&mut state, user(2), E8S, E8S);
    let steps = check_vaults(&mut state);
    assert_eq!(steps.len(), 1);
    assert_eq!(steps[0].vault_id, b);
    assert!(state.get_vault(a).is_some());
    assert!(state.get_vault(b).is_none());
}

#[test]
fn recorded_liquidations() {
    let mut state = state_at_price(10_000);
    let a = put_vault(&mut state, user(1), E8S, 9_000 * E8S);
    let b = put_vault(&mut state, user(2), 4 * E8S, 1_000 * E8S);
    let rate = state.last_icp_rate.unwrap();
    // a healthy vault is left alone, and nothing is recorded
    let outcome = record_liquidate_vault(&mut state, b, Mode::GeneralAvailability, rate);
    assert!(matches!(outcome, LiquidationOutcome::Healthy));
    assert!(state.events.is_empty());
    assert_eq!(
        record_redistribute_vault(&mut state, a),
        RedistributionOutcome::Redistributed
    );
    assert!(matches!(state.events[0], Event::Redistribute { vault_id: 0 }));
    let vault_b = state.get_vault(b).unwrap();
    assert_eq!(vault_b.icp_margin_amount, ICP::new(5 * E8S));
    assert_eq!(vault_b.borrowed_icusd_amount, ICUSD::new(10_000 * E8S));
    // the last vault stays, and the protocol becomes read-only
    assert_eq!(
        record_redistribute_vault(&mut state, b),
        RedistributionOutcome::NoSurvivors
    );
    assert_eq!(state.mode, Mode::ReadOnly);
    assert!(matches!(
        state.events[state.events.len() - 1],
        Event::ModeChange { to: Mode::ReadOnly, .. }
    ));
    assert!(state.get_vault(b).is_some());
}
