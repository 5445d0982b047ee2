//! The event log: an append-only record of what changed the state.

use vstd::prelude::*;
use crate::numeric::ICP;
use crate::numeric::ICUSD;
use crate::numeric::UsdIcp;
use crate::liquidation::LiquidationOutcome;
use crate::liquidation::RedistributionOutcome;
use crate::liquidation::can_distribute;
use crate::liquidation::spec_absorbed;
use crate::liquidation::survivors_of;
use crate::numeric::token_over;
use crate::redemption::cannot_redeem;
use crate::redemption::redeemed;
use crate::redemption::same_keys;
use crate::liquidation::spec_liquidation;
use crate::liquidation::Liquidated;
use crate::numeric::Ratio;
use crate::state::Mode;
use crate::state::State;
use crate::state::Touched;
use crate::state::logged;
use crate::state::mode_after;
use crate::state::nothing;
use crate::state::ratio_after;
use crate::transfers::PendingMarginTransfer;
use crate::vault::has_vault;
use crate::vault::replaced;
use crate::vault::sorted_insert;
use crate::vault::total_debt;
use crate::vault::total_margin;
use crate::vault::vault_with;
use crate::vault::without;
use crate::vault::Principal;
use crate::vault::Vault;

verus! {

/// One change of the protocol's state.
#[derive(Clone, Copy, Debug)]
#[allow(inconsistent_fields)]
pub enum Event {
    OpenVault { vault: Vault, block_index: u64 },
    Borrow { vault_id: u64, borrowed_amount: ICUSD, fee_amount: ICUSD, block_index: u64 },
    Repay { vault_id: u64, repayed_amount: ICUSD, block_index: u64 },
    AddMargin { vault_id: u64, margin_added: ICP, block_index: u64 },
    CloseVault { vault_id: u64, block_index: Option<u64> },
    Liquidate { vault_id: u64, mode: Mode, icp_rate: UsdIcp },
    Redistribute { vault_id: u64 },
    Redeem {
        owner: Principal,
        icusd_amount: ICUSD,
        fee_amount: ICUSD,
        icp_amount: ICP,
        icp_rate: UsdIcp,
        block_index: u64,
    },
    TransferMargin { vault_id: u64, block_index: u64 },
    ModeChange { from: Mode, to: Mode },
}

/// What every record of a change of the vaults ends with: the event is in
/// the log, the mode is the one that goes with the vaults as they are now,
/// and a change of mode is in the log after the event.
pub open spec fn recorded(before: &State, after: &State, event: Event) -> bool {
    &&& after.mode == mode_after(after.vaults(), before.last_icp_rate, before.mode)
    &&& after.total_collateral_ratio == ratio_after(
        after.vaults(),
        before.last_icp_rate,
        before.total_collateral_ratio,
    )
    &&& after.events@ == logged(before.events@.push(event), before.mode, after.mode)
    &&& after.mode_is_current()
}

/// The parts that a record of a change of the vaults touches.
pub open spec fn store_and_log() -> Touched {
    Touched { store: true, mode: true, events: true, ..nothing() }
}

/// The parts that a record touches that also queues a transfer.
pub open spec fn store_queue_and_log() -> Touched {
    Touched { store: true, pending: true, mode: true, events: true, ..nothing() }
}

/// Opens a vault and records it: see [`State::open_vault`].
pub fn record_open_vault(state: &mut State, vault: Vault, block_index: u64)
    requires
        old(state).wf(),
        vault.vault_id < old(state).next_available_vault_id,
        !has_vault(old(state).vaults(), vault.vault_id),
        total_debt(old(state).vaults()) + vault.debt() <= u64::MAX,
        total_margin(old(state).vaults()) + vault.margin() <= u64::MAX,
    ensures
        final(state).wf(),
        final(state).vaults() == sorted_insert(old(state).vaults(), vault),
        has_vault(final(state).vaults(), vault.vault_id),
        vault_with(final(state).vaults(), vault.vault_id) == vault,
        total_debt(final(state).vaults()) == total_debt(old(state).vaults()) + vault.debt(),
        total_margin(final(state).vaults()) == total_margin(old(state).vaults())
            + vault.margin(),
        recorded(old(state), final(state), Event::OpenVault { vault, block_index }),
        final(state).differs_only_in(old(state), store_and_log()),
{
    state.open_vault(vault);
    state.record_event(Event::OpenVault { vault, block_index });
    state.refresh_mode();
}

/// Adds to the debt of a vault and records it: see
/// [`State::borrow_from_vault`].
pub fn record_borrow_from_vault(
    state: &mut State,
    vault_id: u64,
    borrowed_amount: ICUSD,
    fee_amount: ICUSD,
    block_index: u64,
)
    requires
        old(state).wf(),
        has_vault(old(state).vaults(), vault_id),
        total_debt(old(state).vaults()) + borrowed_amount.0 <= u64::MAX,
    ensures
        final(state).wf(),
        final(state).vaults() == replaced(
            old(state).vaults(),
            vault_with(old(state).vaults(), vault_id).with_debt(
                (vault_with(old(state).vaults(), vault_id).debt() + borrowed_amount.0) as u64,
            ),
        ),
        has_vault(final(state).vaults(), vault_id),
        total_debt(final(state).vaults()) == total_debt(old(state).vaults())
            + borrowed_amount.0,
        total_margin(final(state).vaults()) == total_margin(old(state).vaults()),
        recorded(
            old(state),
            final(state),
            Event::Borrow { vault_id, borrowed_amount, fee_amount, block_index },
        ),
        final(state).differs_only_in(old(state), store_and_log()),
{
    state.borrow_from_vault(vault_id, borrowed_amount);
    state.record_event(Event::Borrow { vault_id, borrowed_amount, fee_amount, block_index });
    state.refresh_mode();
}

/// Takes from the debt of a vault and records it: see
/// [`State::repay_to_vault`].
pub fn record_repayed_to_vault(
    state: &mut State,
    vault_id: u64,
    repayed_amount: ICUSD,
    block_index: u64,
)
    requires
        old(state).wf(),
        has_vault(old(state).vaults(), vault_id),
        repayed_amount.0 <= vault_with(old(state).vaults(), vault_id).debt(),
    ensures
        final(state).wf(),
        final(state).vaults() == replaced(
            old(state).vaults(),
            vault_with(old(state).vaults(), vault_id).with_debt(
                (vault_with(old(state).vaults(), vault_id).debt() - repayed_amount.0) as u64,
            ),
        ),
        has_vault(final(state).vaults(), vault_id),
        total_debt(final(state).vaults()) == total_debt(old(state).vaults())
            - repayed_amount.0,
        total_margin(final(state).vaults()) == total_margin(old(state).vaults()),
        recorded(
            old(state),
            final(state),
            Event::Repay { vault_id, repayed_amount, block_index },
        ),
        final(state).differs_only_in(old(state), store_and_log()),
{
    state.repay_to_vault(vault_id, repayed_amount);
    state.record_event(Event::Repay { vault_id, repayed_amount, block_index });
    state.refresh_mode();
}

/// Adds to the collateral of a vault and records it: see
/// [`State::add_margin_to_vault`].
pub fn record_add_margin_to_vault(
    state: &mut State,
    vault_id: u64,
    margin_added: ICP,
    block_index: u64,
)
    requires
        old(state).wf(),
        has_vault(old(state).vaults(), vault_id),
        total_margin(old(state).vaults()) + margin_added.0 <= u64::MAX,
    ensures
        final(state).wf(),
        final(state).vaults() == replaced(
            old(state).vaults(),
            vault_with(old(state).vaults(), vault_id).with_margin(
                (vault_with(old(state).vaults(), vault_id).margin() + margin_added.0) as u64,
            ),
        ),
        has_vault(final(state).vaults(), vault_id),
        total_margin(final(state).vaults()) == total_margin(old(state).vaults())
            + margin_added.0,
        total_debt(final(state).vaults()) == total_debt(old(state).vaults()),
        recorded(
            old(state),
            final(state),
            Event::AddMargin { vault_id, margin_added, block_index },
        ),
        final(state).differs_only_in(old(state), store_and_log()),
{
    state.add_margin_to_vault(vault_id, margin_added);
    state.record_event(Event::AddMargin { vault_id, margin_added, block_index });
    state.refresh_mode();
}

/// Closes a vault and records it: see [`State::close_vault`].
pub fn record_close_vault(state: &mut State, vault_id: u64, block_index: Option<u64>)
    requires
        old(state).wf(),
        has_vault(old(state).vaults(), vault_id),
        vault_with(old(state).vaults(), vault_id).margin() >= old(state).icp_ledger_fee.0,
    ensures
        final(state).wf(),
        final(state).vaults() == without(old(state).vaults(), vault_id),
        !has_vault(final(state).vaults(), vault_id),
        total_debt(final(state).vaults()) == total_debt(old(state).vaults()) - vault_with(
            old(state).vaults(),
            vault_id,
        ).debt(),
        total_margin(final(state).vaults()) == total_margin(old(state).vaults()) - vault_with(
            old(state).vaults(),
            vault_id,
        ).margin(),
        final(state).pending_margin_transfers@ == old(state).pending_margin_transfers@.insert(
            vault_id,
            PendingMarginTransfer {
                owner: vault_with(old(state).vaults(), vault_id).owner,
                margin: ICP::spec_new(
                    (vault_with(old(state).vaults(), vault_id).margin() - old(state).icp_ledger_fee.0) as u64,
                ),
            },
        ),
        final(state).pending_redemption_transfer.entries@ == old(state).pending_redemption_transfer.entries@,
        recorded(old(state), final(state), Event::CloseVault { vault_id, block_index }),
        final(state).differs_only_in(old(state), store_queue_and_log()),
{
    state.close_vault(vault_id);
    state.record_event(Event::CloseVault { vault_id, block_index });
    state.refresh_mode();
}

/// What a liquidation reads and changes of the protocol: the vaults, the
/// waiting transfers of margin, the mode with the total collateral ratio,
/// and the event log.
pub struct Book {
    pub vaults: Seq<Vault>,
    pub pending: Map<u64, PendingMarginTransfer>,
    pub mode: Mode,
    pub ratio: Ratio,
    pub events: Seq<Event>,
}

/// The book of a state.
pub open spec fn book_of(state: &State) -> Book {
    Book {
        vaults: state.vaults(),
        pending: state.pending_margin_transfers@,
        mode: state.mode,
        ratio: state.total_collateral_ratio,
        events: state.events@,
    }
}

/// A book after a liquidation, and how the liquidation ended.
pub struct Recorded {
    pub book: Book,
    pub outcome: LiquidationOutcome,
}

/// What a recorded liquidation makes of the book: see [`spec_liquidation`]
/// for the vaults and the waiting transfers.  A partial liquidation and a
/// redistribution are logged, and bring the mode up to date with the vaults
/// at the last price, which is logged where it is a change.  Where no vault
/// is left to take over, the protocol becomes read-only, which is logged
/// too.  A liquidation that did nothing leaves the book as it is.
pub open spec fn spec_record_liquidation(
    book: Book,
    last_icp_rate: Option<UsdIcp>,
    vault_id: u64,
    mode: Mode,
    icp_rate: UsdIcp,
) -> Recorded {
    let done = spec_liquidation(book.vaults, book.pending, vault_id, mode, icp_rate);
    let event = if done.outcome is Partial {
        Event::Liquidate { vault_id, mode, icp_rate }
    } else {
        Event::Redistribute { vault_id }
    };
    if done.outcome is Partial || done.outcome is Redistributed {
        let mode_then = mode_after(done.vaults, last_icp_rate, book.mode);
        Recorded {
            book: Book {
                vaults: done.vaults,
                pending: done.pending,
                mode: mode_then,
                ratio: ratio_after(done.vaults, last_icp_rate, book.ratio),
                events: logged(book.events.push(event), book.mode, mode_then),
            },
            outcome: done.outcome,
        }
    } else if done.outcome is NoSurvivors {
        Recorded {
            book: Book {
                vaults: book.vaults,
                pending: book.pending,
                mode: Mode::ReadOnly,
                ratio: book.ratio,
                events: logged(book.events, book.mode, Mode::ReadOnly),
            },
            outcome: done.outcome,
        }
    } else {
        Recorded { book, outcome: done.outcome }
    }
}

/// Liquidates a vault and records it: see [`spec_record_liquidation`].
///
/// The vault exists.
pub fn record_liquidate_vault(state: &mut State, vault_id: u64, mode: Mode, icp_rate: UsdIcp) -> (outcome:
    LiquidationOutcome)
    requires
        old(state).wf(),
        has_vault(old(state).vaults(), vault_id),
        icp_rate.valid(),
    ensures
        final(state).wf(),
        spec_record_liquidation(
            book_of(old(state)),
            old(state).last_icp_rate,
            vault_id,
            mode,
            icp_rate,
        ) == (Recorded { book: book_of(final(state)), outcome }),
        final(state).pending_redemption_transfer.entries@ == old(state).pending_redemption_transfer.entries@,
        final(state).differs_only_in(old(state), store_queue_and_log()),
        outcome is Healthy || outcome is Failed ==> final(state).differs_only_in(
            old(state),
            nothing(),
        ),
        outcome is Partial || outcome is Redistributed ==> final(state).mode_is_current(),
        crate::extends(final(state).events@, old(state).events@),
        total_debt(final(state).vaults()) <= total_debt(old(state).vaults()),
        total_margin(final(state).vaults()) <= total_margin(old(state).vaults()),
{
    let mode_before = state.mode;
    let ghost start = state.events@;
    let outcome = state.liquidate_vault(vault_id, mode, icp_rate);
    proof {
        lemma_push_extends(start, Event::Liquidate { vault_id, mode, icp_rate });
        lemma_push_extends(start, Event::Redistribute { vault_id });
        lemma_push_extends(start, Event::ModeChange { from: mode_before, to: Mode::ReadOnly });
        assert(start.take(start.len() as int) =~= start);
    }
    match outcome {
        LiquidationOutcome::Partial { .. } => {
            state.record_event(Event::Liquidate { vault_id, mode, icp_rate });
            let ghost mid = state.events@;
            state.refresh_mode();
            proof {
                lemma_push_extends(mid, Event::ModeChange { from: mode_before, to: state.mode });
                assert(mid.take(mid.len() as int) =~= mid);
                crate::lemma_extends_further(start, mid, state.events@);
            }
        },
        LiquidationOutcome::Redistributed => {
            state.record_event(Event::Redistribute { vault_id });
            let ghost mid = state.events@;
            state.refresh_mode();
            proof {
                lemma_push_extends(mid, Event::ModeChange { from: mode_before, to: state.mode });
                assert(mid.take(mid.len() as int) =~= mid);
                crate::lemma_extends_further(start, mid, state.events@);
            }
        },
        LiquidationOutcome::NoSurvivors => {
            if mode_before != Mode::ReadOnly {
                state.record_event(Event::ModeChange { from: mode_before, to: Mode::ReadOnly });
            }
        },
        _ => {},
    }
    outcome
}

/// A log with one more event extends the log.
pub proof fn lemma_push_extends(events: Seq<Event>, event: Event)
    ensures
        crate::extends(events.push(event), events),
{
    assert(events.push(event).take(events.len() as int) =~= events);
}

/// Takes a waiting transfer of margin out of the queue, once it has been
/// sent, and records it.
pub fn record_margin_transfer(state: &mut State, vault_id: u64, block_index: u64)
    requires
        old(state).wf(),
    ensures
        final(state).wf(),
        final(state).pending_margin_transfers@ == old(state).pending_margin_transfers@.remove(
            vault_id,
        ),
        final(state).pending_redemption_transfer.entries@ == old(state).pending_redemption_transfer.entries@,
        final(state).events@ == old(state).events@.push(
            Event::TransferMargin { vault_id, block_index },
        ),
        final(state).differs_only_in(
            old(state),
            (Touched { pending: true, events: true, ..nothing() }),
        ),
{
    let _ = state.pending_margin_transfers.remove(vault_id);
    state.record_event(Event::TransferMargin { vault_id, block_index });
}

/// Takes a waiting transfer to a redeemer out of the queue, once it has been
/// sent, and records it under the block of the redeemer's payment.
pub fn record_redemption_transfer(state: &mut State, icusd_block_index: u64, block_index: u64)
    requires
        old(state).wf(),
    ensures
        final(state).wf(),
        final(state).pending_redemption_transfer@ == old(state).pending_redemption_transfer@.remove(icusd_block_index),
        final(state).pending_margin_transfers.entries@ == old(state).pending_margin_transfers.entries@,
        final(state).events@ == old(state).events@.push(
            Event::TransferMargin { vault_id: icusd_block_index, block_index },
        ),
        final(state).differs_only_in(
            old(state),
            (Touched { pending: true, events: true, ..nothing() }),
        ),
{
    let _ = state.pending_redemption_transfer.remove(icusd_block_index);
    state.record_event(Event::TransferMargin { vault_id: icusd_block_index, block_index });
}

/// Shares a vault out among the others and records it: see
/// [`State::redistribute_vault`].
pub fn record_redistribute_vault(state: &mut State, vault_id: u64) -> (outcome:
    RedistributionOutcome)
    requires
        old(state).wf(),
        has_vault(old(state).vaults(), vault_id),
    ensures
        final(state).wf(),
        final(state).differs_only_in(old(state), store_and_log()),
        match outcome {
            RedistributionOutcome::Redistributed => {
                &&& can_distribute(
                    old(state).vaults(),
                    vault_with(old(state).vaults(), vault_id),
                )
                &&& final(state).vaults() == spec_absorbed(
                    old(state).vaults(),
                    vault_with(old(state).vaults(), vault_id),
                )
                &&& total_debt(final(state).vaults()) == total_debt(old(state).vaults())
                &&& total_margin(final(state).vaults()) == total_margin(old(state).vaults())
                &&& recorded(old(state), final(state), Event::Redistribute { vault_id })
            },
            RedistributionOutcome::NoSurvivors => {
                &&& survivors_of(
                    old(state).vaults(),
                    vault_with(old(state).vaults(), vault_id),
                ).len() == 0
                &&& final(state).vaults() == old(state).vaults()
                &&& final(state).mode == Mode::ReadOnly
                &&& final(state).total_collateral_ratio == old(state).total_collateral_ratio
                &&& final(state).events@ == logged(
                    old(state).events@,
                    old(state).mode,
                    Mode::ReadOnly,
                )
            },
            RedistributionOutcome::Failed => {
                &&& !can_distribute(
                    old(state).vaults(),
                    vault_with(old(state).vaults(), vault_id),
                )
                &&& final(state).differs_only_in(old(state), nothing())
            },
        },
{
    let mode_before = state.mode;
    let outcome = state.redistribute_vault(vault_id);
    match outcome {
        RedistributionOutcome::Redistributed => {
            state.record_event(Event::Redistribute { vault_id });
            state.refresh_mode();
        },
        RedistributionOutcome::NoSurvivors => {
            if mode_before != Mode::ReadOnly {
                state.record_event(Event::ModeChange { from: mode_before, to: Mode::ReadOnly });
            }
        },
        RedistributionOutcome::Failed => {},
    }
    outcome
}

/// Redeems `icusd_amount` against the vaults, queues the collateral it is
/// worth at the price for `owner`, under the block of the payment, and
/// records it.  `None`, and nothing changed, where the collateral cannot be
/// computed or the redemption fails.
///
/// No more is redeemed than all vaults owe together.
pub fn record_redemption_on_vaults(
    state: &mut State,
    owner: Principal,
    icusd_amount: ICUSD,
    fee_amount: ICUSD,
    current_icp_rate: UsdIcp,
    icusd_block_index: u64,
) -> (credited: Option<ICP>)
    requires
        old(state).wf(),
        current_icp_rate.valid(),
        icusd_amount.0 <= total_debt(old(state).vaults()),
    ensures
        final(state).wf(),
        credited is None ==> final(state).differs_only_in(old(state), nothing()),
        credited is None <==> token_over(icusd_amount.0, current_icp_rate.0) is None
            || cannot_redeem(old(state).vaults(), icusd_amount.0, current_icp_rate),
        credited is Some ==> {
            &&& Some(credited->0.units()) == token_over(icusd_amount.0, current_icp_rate.0)
            &&& redeemed(
                old(state).vaults(),
                final(state).vaults(),
                icusd_amount.0,
                current_icp_rate,
            )
            &&& same_keys(final(state).vaults(), old(state).vaults())
            &&& total_debt(final(state).vaults()) == total_debt(old(state).vaults())
                - icusd_amount.0
            &&& total_margin(final(state).vaults()) <= total_margin(old(state).vaults())
            &&& final(state).pending_redemption_transfer@ == old(state).pending_redemption_transfer@.insert(
                icusd_block_index,
                PendingMarginTransfer { owner, margin: credited->0 },
            )
            &&& final(state).pending_margin_transfers.entries@ == old(state).pending_margin_transfers.entries@
            &&& recorded(
                old(state),
                final(state),
                Event::Redeem {
                    owner,
                    icusd_amount,
                    fee_amount,
                    icp_amount: credited->0,
                    icp_rate: current_icp_rate,
                    block_index: icusd_block_index,
                },
            )
            &&& final(state).differs_only_in(old(state), store_queue_and_log())
        },
{
    let margin = match icusd_amount.checked_div_rate(current_icp_rate) {
        Some(margin) => margin,
        None => {
            return None;
        },
    };
    match state.redeem_on_vaults(icusd_amount, current_icp_rate) {
        Some(_released) => {},
        None => {
            return None;
        },
    }
    state.pending_redemption_transfer.insert(
        icusd_block_index,
        PendingMarginTransfer { owner, margin },
    );
    state.record_event(
        Event::Redeem {
            owner,
            icusd_amount,
            fee_amount,
            icp_amount: margin,
            icp_rate: current_icp_rate,
            block_index: icusd_block_index,
        },
    );
    state.refresh_mode();
    Some(margin)
}

} // verus!
