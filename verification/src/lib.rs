//! Core of a collateralized stablecoin protocol: vaults hold a volatile
//! collateral token (ICP) and mint a USD-pegged token (icUSD) against it.
//!
//! The crate holds the protocol's state machine: typed fixed-point amounts,
//! the vault store, mode selection and fees, liquidation and redistribution,
//! redemption, the guard table and the event log.  Ledger calls, timers and
//! the clock stay with the caller, who hands in plain values.

use vstd::prelude::*;
use crate::numeric::Ratio;
use crate::numeric::UsdIcp;
use crate::numeric::lift_amount;
use crate::numeric::token_ratio;
use crate::numeric::token_times;
use crate::decimal::spec_max_value;
use crate::decimal::DecimalValue;
use crate::vault::Vault;

pub mod decimal;
pub mod numeric;
pub mod vault;
pub mod principal;
pub mod transfers;
pub mod balances;
pub mod guard;
pub mod event;
pub mod state;
pub mod liquidation;
pub mod redemption;
pub mod management;
pub mod xrc;
pub mod operations;
pub mod laws;
pub mod pool;
pub mod stability_pool;

verus! {

/// Nanoseconds in a second.
pub const SEC_NANOS: u64 = 1_000_000_000;

/// Base units in one token.
pub const E8S: u64 = 100_000_000;

/// The least collateral that an operation takes: 0.001 ICP.
pub const MIN_ICP_AMOUNT: u64 = 100_000;

/// The least amount of stable tokens that an operation takes: 10 icUSD.
pub const MIN_ICUSD_AMOUNT: u64 = 1_000_000_000;

/// The least liquidity that is taken.
pub const MIN_LIQUIDITY_AMOUNT: u64 = 1_000_000_000;

/// The ratio of the value of `margin` at a price to `debt`; the largest
/// decimal where there is no debt.
pub open spec fn spec_ratio_of(margin: u64, debt: u64, icp_rate: UsdIcp) -> Option<Ratio> {
    if debt == 0 {
        Some(Ratio::spec_new(spec_max_value()))
    } else {
        match token_times(margin, icp_rate.0) {
            Some(value) => lift_amount(token_ratio(value, debt)),
            None => None,
        }
    }
}

/// The collateral ratio of a vault at a price: the value of its collateral
/// over its debt; the largest decimal for a vault without debt.
pub open spec fn spec_collateral_ratio(vault: Vault, icp_rate: UsdIcp) -> Option<Ratio> {
    spec_ratio_of(vault.icp_margin_amount.0, vault.borrowed_icusd_amount.0, icp_rate)
}

/// Why a transfer on a ledger failed.
#[derive(Clone, Debug, PartialEq, Eq)]
pub enum TransferError {
    BadFee { expected_fee: u64 },
    BadBurn { min_burn_amount: u64 },
    InsufficientFunds { balance: u64 },
    TooOld,
    CreatedInFuture { ledger_time: u64 },
    TemporarilyUnavailable,
    Duplicate { duplicate_of: u64 },
    GenericError { error_code: u64, message: String },
}

/// Why a transfer from another account failed.
#[derive(Clone, Debug, PartialEq, Eq)]
pub enum TransferFromError {
    BadFee { expected_fee: u64 },
    BadBurn { min_burn_amount: u64 },
    InsufficientFunds { balance: u64 },
    InsufficientAllowance { allowance: u64 },
    TooOld,
    CreatedInFuture { ledger_time: u64 },
    Duplicate { duplicate_of: u64 },
    TemporarilyUnavailable,
    GenericError { error_code: u64, message: String },
}

/// Why an operation was turned away.
#[derive(Clone, Debug)]
pub enum ProtocolError {
    /// The ledger refused to move the caller's tokens; with the amount tried.
    TransferFromError(TransferFromError, u64),
    TransferError(TransferError),
    TemporarilyUnavailable(String),
    AlreadyProcessing,
    AnonymousCallerNotAllowed,
    CallerNotOwner,
    AmountTooLow { minimum_amount: u64 },
    GenericError(String),
}

/// What the protocol starts with.
#[derive(Clone, Copy, Debug, PartialEq, Eq)]
pub struct InitArg {
    pub xrc_principal: crate::vault::Principal,
    pub icusd_ledger_principal: crate::vault::Principal,
    pub icp_ledger_principal: crate::vault::Principal,
    pub fee_e8s: u64,
    pub developer_principal: crate::vault::Principal,
}

/// What an upgrade may set.
#[derive(Clone, Copy, Debug, PartialEq, Eq)]
pub struct UpgradeArg {
    pub mode: Option<crate::state::Mode>,
}

#[derive(Clone, Copy, Debug, PartialEq, Eq)]
pub enum ProtocolArg {
    Init(InitArg),
    Upgrade(UpgradeArg),
}

/// The block of a transfer and the fee that was kept.
#[derive(Clone, Copy, Debug, PartialEq, Eq, Structural)]
pub struct SuccessWithFee {
    pub block_index: u64,
    pub fee_amount_paid: u64,
}

/// Which events are asked for.
#[derive(Clone, Copy, Debug, PartialEq, Eq, Structural)]
pub struct GetEventsArg {
    pub start: u64,
    pub length: u64,
}

impl ProtocolError {
    /// The error that stands for a refused guard: a second call under one
    /// key is already processing, a full table is temporarily unavailable.
    pub fn from_guard_error(e: crate::guard::GuardError) -> (r: Self)
        ensures
            e is AlreadyProcessing <==> r is AlreadyProcessing,
            !(e is AlreadyProcessing) <==> r is TemporarilyUnavailable,
    {
        match e {
            crate::guard::GuardError::AlreadyProcessing => ProtocolError::AlreadyProcessing,
            crate::guard::GuardError::TooManyConcurrentRequests => {
                ProtocolError::TemporarilyUnavailable("too many concurrent requests".to_owned())
            },
            crate::guard::GuardError::StaleOperation => ProtocolError::TemporarilyUnavailable(
                "stale operation".to_owned(),
            ),
        }
    }
}

/// The collateral ratio of `vault` at the price `icp_rate`; `None` where the
/// arithmetic fails.
pub fn compute_collateral_ratio(vault: &Vault, icp_rate: UsdIcp) -> (r: Option<Ratio>)
    requires
        icp_rate.valid(),
    ensures
        r == spec_collateral_ratio(*vault, icp_rate),
        r is Some ==> r->0.valid(),
{
    ratio_of(vault.icp_margin_amount, vault.borrowed_icusd_amount, icp_rate)
}

/// The ratio of the value of `margin` at the price `icp_rate` to `debt`.
pub fn ratio_of(margin: crate::numeric::ICP, debt: crate::numeric::ICUSD, icp_rate: UsdIcp) -> (r:
    Option<Ratio>)
    requires
        icp_rate.valid(),
    ensures
        r == spec_ratio_of(margin.0, debt.0, icp_rate),
        r is Some ==> r->0.valid(),
{
    if debt.0 == 0 {
        return Some(Ratio::new(DecimalValue::max_value()));
    }
    match margin.checked_mul_rate(icp_rate) {
        Some(margin_value) => margin_value.checked_div(debt),
        None => None,
    }
}

/// One step of a sweep: the vault that was looked at, and what came of it.
#[derive(Clone, Copy, Debug)]
pub struct SweepStep {
    pub vault_id: u64,
    pub outcome: crate::liquidation::LiquidationOutcome,
}

/// `later` is `earlier` with nothing or something added at the end.
pub open spec fn extends(later: Seq<crate::event::Event>, earlier: Seq<crate::event::Event>) -> bool {
    earlier.len() <= later.len() && later.take(earlier.len() as int) == earlier
}

/// The parts of the state that a sweep may touch.
pub open spec fn swept() -> crate::state::Touched {
    crate::state::Touched {
        store: true,
        pending: true,
        mode: true,
        events: true,
        ..crate::state::nothing()
    }
}

/// The price that the sweep goes by: the last price, or 1 where none is
/// known.
pub open spec fn spec_sweep_rate(state: &crate::state::State) -> UsdIcp {
    match state.last_icp_rate {
        Some(rate) => rate,
        None => UsdIcp::spec_new(DecimalValue { mantissa: 10, scale: 1 }),
    }
}

/// A book after a sweep, with the steps of the sweep.
pub struct Swept {
    pub book: crate::event::Book,
    pub steps: Seq<SweepStep>,
}

/// What a sweep over `candidates` makes of the book: the candidates are
/// liquidated one after the other, each in the mode that the book is in by
/// then; a candidate that is no longer there is passed over.
pub open spec fn spec_sweep(
    book: crate::event::Book,
    steps: Seq<SweepStep>,
    candidates: Seq<u64>,
    last_icp_rate: Option<UsdIcp>,
    icp_rate: UsdIcp,
) -> Swept
    decreases candidates.len(),
{
    if candidates.len() == 0 {
        Swept { book, steps }
    } else if crate::vault::has_vault(book.vaults, candidates[0]) {
        let done = crate::event::spec_record_liquidation(
            book,
            last_icp_rate,
            candidates[0],
            book.mode,
            icp_rate,
        );
        spec_sweep(
            done.book,
            steps.push(SweepStep { vault_id: candidates[0], outcome: done.outcome }),
            candidates.drop_first(),
            last_icp_rate,
            icp_rate,
        )
    } else {
        spec_sweep(book, steps, candidates.drop_first(), last_icp_rate, icp_rate)
    }
}

/// Looks for the vaults that are to be liquidated at the last price, and
/// liquidates them one after the other, in the order of their identifiers:
/// see [`spec_sweep`].  Returns what was done.
///
/// Nothing is done where the ratio of a vault cannot be computed.  The sweep
/// never adds to what the vaults owe or hold together, and it only adds to
/// the event log.
pub fn check_vaults(state: &mut crate::state::State) -> (steps: Vec<SweepStep>)
    requires
        old(state).wf(),
    ensures
        final(state).wf(),
        final(state).differs_only_in(old(state), swept()),
        final(state).pending_redemption_transfer.entries@ == old(state).pending_redemption_transfer.entries@,
        !crate::liquidation::all_ratios_known(old(state).vaults(), spec_sweep_rate(old(state)))
            ==> steps@.len() == 0 && final(state).differs_only_in(
            old(state),
            crate::state::nothing(),
        ),
        crate::liquidation::all_ratios_known(old(state).vaults(), spec_sweep_rate(old(state)))
            ==> spec_sweep(
            crate::event::book_of(old(state)),
            Seq::empty(),
            crate::liquidation::spec_unhealthy(
                old(state).vaults(),
                old(state).mode,
                spec_sweep_rate(old(state)),
            ),
            old(state).last_icp_rate,
            spec_sweep_rate(old(state)),
        ) == (Swept { book: crate::event::book_of(final(state)), steps: steps@ }),
        crate::vault::total_debt(final(state).vaults()) <= crate::vault::total_debt(
            old(state).vaults(),
        ),
        crate::vault::total_margin(final(state).vaults()) <= crate::vault::total_margin(
            old(state).vaults(),
        ),
        extends(final(state).events@, old(state).events@),
{
    let last_icp_rate = match state.last_icp_rate {
        Some(rate) => rate,
        None => UsdIcp::new(DecimalValue { mantissa: 10, scale: 1 }),
    };
    let mut steps: Vec<SweepStep> = Vec::new();
    let unhealthy = match crate::liquidation::unhealthy_vaults(
        &state.vault_id_to_vaults,
        state.mode,
        last_icp_rate,
    ) {
        Some(unhealthy) => unhealthy,
        None => {
            assert(state.events@.take(state.events@.len() as int) =~= state.events@);
            return steps;
        },
    };
    let ghost start_events = state.events@;
    let ghost start_debt = crate::vault::total_debt(state.vaults());
    let ghost start_margin = crate::vault::total_margin(state.vaults());
    let ghost goal = spec_sweep(
        crate::event::book_of(state),
        Seq::empty(),
        unhealthy@,
        state.last_icp_rate,
        last_icp_rate,
    );
    proof {
        assert(start_events.take(start_events.len() as int) =~= start_events);
        assert(unhealthy@.skip(0) =~= unhealthy@);
    }
    let mut i: usize = 0;
    while i < unhealthy.len()
        invariant
            i <= unhealthy@.len(),
            state.wf(),
            last_icp_rate.valid(),
            state.last_icp_rate == old(state).last_icp_rate,
            state.differs_only_in(old(state), swept()),
            state.pending_redemption_transfer.entries@ == old(state).pending_redemption_transfer.entries@,
            crate::vault::total_debt(state.vaults()) <= start_debt,
            crate::vault::total_margin(state.vaults()) <= start_margin,
            extends(state.events@, start_events),
            goal == spec_sweep(
                crate::event::book_of(state),
                steps@,
                unhealthy@.skip(i as int),
                old(state).last_icp_rate,
                last_icp_rate,
            ),
        decreases unhealthy@.len() - i,
    {
        let vault_id = unhealthy[i];
        let ghost events_before = state.events@;
        proof {
            assert(unhealthy@.skip(i as int)[0] == vault_id);
            assert(unhealthy@.skip(i as int).drop_first() =~= unhealthy@.skip(i as int + 1));
        }
        if state.find_vault(vault_id).is_some() {
            let mode = state.mode;
            let outcome = crate::event::record_liquidate_vault(
                state,
                vault_id,
                mode,
                last_icp_rate,
            );
            proof {
                lemma_extends_further(start_events, events_before, state.events@);
            }
            steps.push(SweepStep { vault_id, outcome });
        }
        i = i + 1;
    }
    steps
}

/// A log that extends a log that extends a third extends the third.
pub proof fn lemma_extends_further(
    start: Seq<crate::event::Event>,
    before: Seq<crate::event::Event>,
    after: Seq<crate::event::Event>,
)
    requires
        extends(before, start),
        extends(after, before),
    ensures
        extends(after, start),
{
    assert(after.take(start.len() as int) =~= before.take(start.len() as int)) by {
        assert forall|k: int| 0 <= k < start.len() implies after.take(start.len() as int)[k]
            == before.take(start.len() as int)[k] by {
            assert(after.take(before.len() as int)[k] == before[k]);
        }
    }
}

/// What a run of the timer that sends the waiting transfers is to send.
#[derive(Debug)]
pub struct TransferRun {
    pub guard: crate::guard::TimerLogicGuard,
    /// The waiting transfers of margin, by vault.
    pub margins: Vec<crate::transfers::PendingEntry>,
    /// The waiting transfers to redeemers, by the block of the payment.
    pub redemptions: Vec<crate::transfers::PendingEntry>,
}

/// Starts a run of the timer that sends the waiting transfers: takes the
/// timer's mark, and lists what waits.  `None`, and nothing changed, while
/// another run is under way.
pub fn start_pending_transfers(state: &mut crate::state::State) -> (run: Option<TransferRun>)
    ensures
        run is Some <==> !old(state).is_timer_running,
        run is None ==> final(state).differs_only_in(old(state), crate::state::nothing()),
        run is Some ==> {
            &&& final(state).is_timer_running
            &&& final(state).is_fetching_rate == old(state).is_fetching_rate
            &&& final(state).operation_guards.entries@ == old(state).operation_guards.entries@
            &&& run->0.margins@ == old(state).pending_margin_transfers.entries@
            &&& run->0.redemptions@ == old(state).pending_redemption_transfer.entries@
            &&& final(state).differs_only_in(
                old(state),
                (crate::state::Touched { guards: true, ..crate::state::nothing() }),
            )
        },
        old(state).wf() ==> final(state).wf(),
{
    if state.is_timer_running {
        return None;
    }
    match crate::guard::TimerLogicGuard::new(state) {
        Some(guard) => Some(
            TransferRun {
                guard,
                margins: state.pending_margin_transfers.to_vec(),
                redemptions: state.pending_redemption_transfer.to_vec(),
            },
        ),
        None => None,
    }
}

/// Ends a run of the timer that sends the waiting transfers: gives the
/// timer's mark back, and says whether the timer is to run again because
/// transfers are still waiting.
pub fn end_pending_transfers(state: &mut crate::state::State, guard: crate::guard::TimerLogicGuard) -> (again:
    bool)
    ensures
        again == (old(state).pending_margin_transfers.entries@.len() != 0 || old(state).pending_redemption_transfer.entries@.len() != 0),
        !final(state).is_timer_running,
        final(state).is_fetching_rate == old(state).is_fetching_rate,
        final(state).operation_guards.entries@ == old(state).operation_guards.entries@,
        final(state).differs_only_in(
            old(state),
            (crate::state::Touched { guards: true, ..crate::state::nothing() }),
        ),
        old(state).wf() ==> final(state).wf(),
{
    guard.release(state);
    !state.pending_margin_transfers.is_empty() || !state.pending_redemption_transfer.is_empty()
}

} // verus!
