//! The operations on vaults, in the steps between which a ledger is called.
//!
//! Every operation of a user waits on a ledger: collateral or stable tokens
//! are pulled from the caller, or stable tokens are minted.  The decisions
//! before and after that call are made here; the call itself is made by
//! whoever drives the protocol.  An operation therefore comes in two steps.
//! The first takes a guard, checks the request against the state, and says
//! what is to be moved on the ledger.  The second is called with the
//! ledger's answer: it changes the state and records the change, or turns
//! the ledger's error into the error of the operation.  Either way the guard
//! is given back.

use vstd::prelude::*;
use crate::guard::acquire_verdict;
use crate::guard::is_guarded;
use crate::guard::GuardError;
use crate::guard::GuardPrincipal;
use crate::numeric::ICP;
use crate::numeric::ICUSD;
use crate::state::Mode;
use crate::state::State;
use crate::state::Touched;
use crate::state::nothing;
use crate::vault::has_vault;
use crate::vault::total_debt;
use crate::vault::total_margin;
use crate::vault::vault_with;
use crate::vault::OpenVaultSuccess;
use crate::vault::Principal;
use crate::vault::Vault;
use crate::vault::VaultArg;
use crate::ProtocolError;
use crate::TransferError;
use crate::TransferFromError;
use crate::MIN_ICP_AMOUNT;
use crate::MIN_ICUSD_AMOUNT;

verus! {

/// Why an operation is turned away, without the words of the error.
pub enum Rejection {
    AnonymousCallerNotAllowed,
    AlreadyProcessing,
    TemporarilyUnavailable,
    AmountTooLow { minimum_amount: u64 },
    CallerNotOwner,
    GenericError,
    Ledger,
}

/// The kind of an error.
pub open spec fn rejection_of(error: ProtocolError) -> Rejection {
    match error {
        ProtocolError::AnonymousCallerNotAllowed => Rejection::AnonymousCallerNotAllowed,
        ProtocolError::AlreadyProcessing => Rejection::AlreadyProcessing,
        ProtocolError::TemporarilyUnavailable(_) => Rejection::TemporarilyUnavailable,
        ProtocolError::AmountTooLow { minimum_amount } => Rejection::AmountTooLow {
            minimum_amount,
        },
        ProtocolError::CallerNotOwner => Rejection::CallerNotOwner,
        ProtocolError::GenericError(_) => Rejection::GenericError,
        ProtocolError::TransferFromError(_, _) => Rejection::Ledger,
        ProtocolError::TransferError(_) => Rejection::Ledger,
    }
}

/// What every operation starts with.  An anonymous caller is turned away;
/// then a guard is asked for; then a protocol that is read-only turns away
/// what is not allowed then; then a price that is missing or too old turns
/// the caller away.
pub open spec fn spec_prologue(
    state: &State,
    caller: Principal,
    operation: Seq<char>,
    now: u64,
    allowed_read_only: bool,
) -> Option<Rejection> {
    if caller == Principal::spec_anonymous() {
        Some(Rejection::AnonymousCallerNotAllowed)
    } else {
        match acquire_verdict(state.operation_guards@, caller, operation, now) {
            Err(GuardError::AlreadyProcessing) => Some(Rejection::AlreadyProcessing),
            Err(_) => Some(Rejection::TemporarilyUnavailable),
            Ok(_) => if !allowed_read_only && state.mode == Mode::ReadOnly {
                Some(Rejection::TemporarilyUnavailable)
            } else if !state.price_is_fresh(now) {
                Some(Rejection::TemporarilyUnavailable)
            } else {
                None
            },
        }
    }
}

/// The guards after the first step of an operation.  An anonymous caller
/// changes nothing.  A caller who is refused a guard leaves what asking for
/// it leaves.  A caller who is given a guard holds it afterwards where the
/// request is taken and the ledger is to be called; where the request is
/// turned away, or carried out at once, the guard is given back as done.
pub open spec fn guards_after(
    guards: Seq<crate::guard::GuardView>,
    caller: Principal,
    operation: Seq<char>,
    now: u64,
    held: bool,
) -> Seq<crate::guard::GuardView> {
    if caller == Principal::spec_anonymous() {
        guards
    } else {
        let asked = crate::guard::acquire_outcome(guards, caller, operation, now);
        if acquire_verdict(guards, caller, operation, now) is Err || held {
            asked
        } else {
            crate::guard::released(
                crate::guard::marked(
                    asked,
                    caller,
                    operation,
                    crate::guard::OperationState::Completed,
                ),
                caller,
                operation,
            )
        }
    }
}

/// The parts of the state that the first step of an operation touches.
pub open spec fn guards_only() -> Touched {
    Touched { guards: true, ..nothing() }
}

/// What holds of the guard that the first step of an operation hands out.
pub open spec fn holds_guard(
    state: &State,
    guard: GuardPrincipal,
    caller: Principal,
    operation: Seq<char>,
) -> bool {
    &&& guard.principal == caller
    &&& guard.operation@ == operation
    &&& is_guarded(state.operation_guards@, caller, operation)
}

/// Starts an operation: see [`spec_prologue`].  A caller who is turned away
/// after the guard was given holds no guard afterwards.
pub fn begin_operation(
    state: &mut State,
    caller: Principal,
    operation_name: &str,
    now: u64,
    allowed_read_only: bool,
) -> (r: Result<GuardPrincipal, ProtocolError>)
    requires
        old(state).wf(),
    ensures
        final(state).wf(),
        final(state).differs_only_in(old(state), guards_only()),
        final(state).is_timer_running == old(state).is_timer_running,
        final(state).is_fetching_rate == old(state).is_fetching_rate,
        match r {
            Ok(guard) => spec_prologue(old(state), caller, operation_name@, now, allowed_read_only)
                is None && holds_guard(final(state), guard, caller, operation_name@),
            Err(e) => Some(rejection_of(e)) == spec_prologue(
                old(state),
                caller,
                operation_name@,
                now,
                allowed_read_only,
            ),
        },
        caller == Principal::spec_anonymous() ==> final(state).operation_guards.entries@ == old(state).operation_guards.entries@,
        final(state).operation_guards@ == guards_after(
            old(state).operation_guards@,
            caller,
            operation_name@,
            now,
            r is Ok,
        ),
{
    if caller.is_anonymous() {
        return Err(ProtocolError::AnonymousCallerNotAllowed);
    }
    let guard = match GuardPrincipal::new(state, caller, operation_name, now) {
        Ok(guard) => guard,
        Err(e) => {
            return Err(ProtocolError::from_guard_error(e));
        },
    };
    let read_only = match state.mode {
        Mode::ReadOnly => true,
        _ => false,
    };
    if !allowed_read_only && read_only {
        guard.complete(state);
        return Err(
            ProtocolError::TemporarilyUnavailable("the protocol is read-only".to_owned()),
        );
    }
    match state.check_price_not_too_old(now) {
        Ok(_) => Ok(guard),
        Err(e) => {
            guard.complete(state);
            Err(e)
        },
    }
}

/// Turns a failed pull of collateral into the error of the operation.  A
/// ledger that names another fee is believed: the fee is kept for the
/// transfers to come.  The guard is marked as failed.
pub fn icp_transfer_from_failed(
    state: &mut State,
    guard: GuardPrincipal,
    error: TransferFromError,
    amount: ICP,
) -> (r: ProtocolError)
    requires
        old(state).wf(),
    ensures
        final(state).wf(),
        final(state).operation_guards@ == crate::guard::marked(
            old(state).operation_guards@,
            guard.principal,
            guard.operation@,
            crate::guard::OperationState::Failed,
        ),
        r matches ProtocolError::TransferFromError(e, a) && e == error && a == amount.0,
        final(state).icp_ledger_fee == match error {
            TransferFromError::BadFee { expected_fee } => ICP::spec_new(expected_fee),
            _ => old(state).icp_ledger_fee,
        },
        final(state).fee == old(state).fee,
        final(state).differs_only_in(
            old(state),
            (Touched { guards: true, config: true, ..nothing() }),
        ),
{
    match error {
        TransferFromError::BadFee { expected_fee } => {
            state.icp_ledger_fee = ICP::new(expected_fee);
        },
        _ => {},
    }
    guard.fail(state);
    ProtocolError::TransferFromError(error, amount.0)
}

/// Turns a failed pull of stable tokens into the error of the operation.
/// The guard is marked as failed.
pub fn icusd_transfer_from_failed(
    state: &mut State,
    guard: GuardPrincipal,
    error: TransferFromError,
    amount: ICUSD,
) -> (r: ProtocolError)
    requires
        old(state).wf(),
    ensures
        final(state).wf(),
        final(state).operation_guards@ == crate::guard::marked(
            old(state).operation_guards@,
            guard.principal,
            guard.operation@,
            crate::guard::OperationState::Failed,
        ),
        r matches ProtocolError::TransferFromError(e, a) && e == error && a == amount.0,
        final(state).differs_only_in(old(state), guards_only()),
{
    guard.fail(state);
    ProtocolError::TransferFromError(error, amount.0)
}

/// Turns a failed mint into the error of the operation.  The guard is marked
/// as failed.
pub fn mint_failed(state: &mut State, guard: GuardPrincipal, error: TransferError) -> (r:
    ProtocolError)
    requires
        old(state).wf(),
    ensures
        final(state).wf(),
        final(state).operation_guards@ == crate::guard::marked(
            old(state).operation_guards@,
            guard.principal,
            guard.operation@,
            crate::guard::OperationState::Failed,
        ),
        r matches ProtocolError::TransferError(e) && e == error,
        final(state).differs_only_in(old(state), guards_only()),
{
    guard.fail(state);
    ProtocolError::TransferError(error)
}

/// Whether a request to open a vault with `icp_margin` is taken.
pub open spec fn spec_open_vault(state: &State, caller: Principal, icp_margin: u64, now: u64) -> Option<
    Rejection,
> {
    match spec_prologue(state, caller, "open_vault"@, now, false) {
        Some(rejection) => Some(rejection),
        None => if icp_margin < MIN_ICP_AMOUNT {
            Some(Rejection::AmountTooLow { minimum_amount: MIN_ICP_AMOUNT })
        } else {
            None
        },
    }
}

/// The first step of opening a vault: the collateral that is to be pulled
/// from the caller.  Less than the least amount of collateral is not taken.
pub fn open_vault(state: &mut State, caller: Principal, icp_margin: u64, now: u64) -> (r: Result<
    (GuardPrincipal, ICP),
    ProtocolError,
>)
    requires
        old(state).wf(),
    ensures
        final(state).wf(),
        final(state).differs_only_in(old(state), guards_only()),
        r is Ok ==> holds_guard(final(state), r->Ok_0.0, caller, "open_vault"@),
        final(state).operation_guards@ == guards_after(
            old(state).operation_guards@,
            caller,
            "open_vault"@,
            now,
            r is Ok,
        ),
        match r {
            Ok((guard, amount)) => spec_open_vault(old(state), caller, icp_margin, now) is None
                && amount.0 == icp_margin && guard.principal == caller,
            Err(e) => Some(rejection_of(e)) == spec_open_vault(old(state), caller, icp_margin, now),
        },
{
    let guard = match begin_operation(state, caller, "open_vault", now, false) {
        Ok(guard) => guard,
        Err(e) => {
            return Err(e);
        },
    };
    if icp_margin < MIN_ICP_AMOUNT {
        guard.complete(state);
        return Err(ProtocolError::AmountTooLow { minimum_amount: MIN_ICP_AMOUNT });
    }
    Ok((guard, ICP::new(icp_margin)))
}

/// The second step of opening a vault, after the collateral has been
/// pulled: the vault is there, under the next identifier, with the
/// collateral and without debt.
///
/// There is an identifier left, and the sum of margin still fits in a `u64`.
pub fn open_vault_transferred(
    state: &mut State,
    guard: GuardPrincipal,
    icp_margin_amount: ICP,
    block_index: u64,
) -> (r: OpenVaultSuccess)
    requires
        old(state).wf(),
        old(state).next_available_vault_id < u64::MAX,
        total_margin(old(state).vaults()) + icp_margin_amount.0 <= u64::MAX,
    ensures
        final(state).wf(),
        r.vault_id == old(state).next_available_vault_id,
        r.block_index == block_index,
        final(state).next_available_vault_id == r.vault_id + 1,
        final(state).vaults() == crate::vault::sorted_insert(
            old(state).vaults(),
            Vault {
                owner: guard.principal,
                borrowed_icusd_amount: ICUSD::spec_new(0),
                icp_margin_amount,
                vault_id: r.vault_id,
            },
        ),
        has_vault(final(state).vaults(), r.vault_id),
        vault_with(final(state).vaults(), r.vault_id) == (Vault {
            owner: guard.principal,
            borrowed_icusd_amount: ICUSD::spec_new(0),
            icp_margin_amount,
            vault_id: r.vault_id,
        }),
        total_debt(final(state).vaults()) == total_debt(old(state).vaults()),
        total_margin(final(state).vaults()) == total_margin(old(state).vaults())
            + icp_margin_amount.0,
        crate::event::recorded(
            old(state),
            final(state),
            crate::event::Event::OpenVault {
                vault: Vault {
                    owner: guard.principal,
                    borrowed_icusd_amount: ICUSD::spec_new(0),
                    icp_margin_amount,
                    vault_id: r.vault_id,
                },
                block_index,
            },
        ),
        !is_guarded(final(state).operation_guards@, guard.principal, guard.operation@),
        final(state).operation_guards@ == crate::guard::released(
            crate::guard::marked(
                old(state).operation_guards@,
                guard.principal,
                guard.operation@,
                crate::guard::OperationState::Completed,
            ),
            guard.principal,
            guard.operation@,
        ),
        final(state).mode_is_current(),
        final(state).differs_only_in(
            old(state),
            (Touched {
                store: true,
                next_id: true,
                mode: true,
                events: true,
                guards: true,
                ..nothing()
            }),
        ),
{
    let vault_id = state.increment_vault_id();
    let vault = Vault {
        owner: guard.principal,
        borrowed_icusd_amount: ICUSD::new(0),
        icp_margin_amount,
        vault_id,
    };
    crate::event::record_open_vault(state, vault, block_index);
    guard.complete(state);
    OpenVaultSuccess { vault_id, block_index }
}

/// Whether a request to add `amount` of collateral to a vault is taken.
pub open spec fn spec_add_margin(state: &State, caller: Principal, arg: VaultArg, now: u64) -> Option<
    Rejection,
> {
    match spec_prologue(state, caller, "add_margin_to_vault"@, now, false) {
        Some(rejection) => Some(rejection),
        None => if arg.amount < MIN_ICP_AMOUNT {
            Some(Rejection::AmountTooLow { minimum_amount: MIN_ICP_AMOUNT })
        } else if caller != vault_with(state.vaults(), arg.vault_id).owner {
            Some(Rejection::CallerNotOwner)
        } else {
            None
        },
    }
}

/// The first step of adding collateral to a vault: the collateral that is to
/// be pulled from the caller.
///
/// The vault exists.
pub fn add_margin_to_vault(state: &mut State, caller: Principal, arg: VaultArg, now: u64) -> (r:
    Result<(GuardPrincipal, ICP), ProtocolError>)
    requires
        old(state).wf(),
        has_vault(old(state).vaults(), arg.vault_id),
    ensures
        final(state).wf(),
        final(state).differs_only_in(old(state), guards_only()),
        r is Ok ==> holds_guard(final(state), r->Ok_0.0, caller, "add_margin_to_vault"@),
        final(state).operation_guards@ == guards_after(
            old(state).operation_guards@,
            caller,
            "add_margin_to_vault"@,
            now,
            r is Ok,
        ),
        match r {
            Ok((guard, amount)) => spec_add_margin(old(state), caller, arg, now) is None
                && amount.0 == arg.amount && guard.principal == caller,
            Err(e) => Some(rejection_of(e)) == spec_add_margin(old(state), caller, arg, now),
        },
{
    let guard = match begin_operation(state, caller, "add_margin_to_vault", now, false) {
        Ok(guard) => guard,
        Err(e) => {
            return Err(e);
        },
    };
    if arg.amount < MIN_ICP_AMOUNT {
        guard.complete(state);
        return Err(ProtocolError::AmountTooLow { minimum_amount: MIN_ICP_AMOUNT });
    }
    let owner = match state.get_vault(arg.vault_id) {
        Some(vault) => vault.owner,
        None => caller,
    };
    if caller != owner {
        guard.complete(state);
        return Err(ProtocolError::CallerNotOwner);
    }
    Ok((guard, ICP::new(arg.amount)))
}

/// The second step of adding collateral, after it has been pulled.
///
/// The vault exists, and the sum of margin still fits in a `u64`.
pub fn margin_transferred(
    state: &mut State,
    guard: GuardPrincipal,
    vault_id: u64,
    amount: ICP,
    block_index: u64,
) -> (r: u64)
    requires
        old(state).wf(),
        has_vault(old(state).vaults(), vault_id),
        total_margin(old(state).vaults()) + amount.0 <= u64::MAX,
    ensures
        final(state).wf(),
        r == block_index,
        final(state).vaults() == crate::vault::replaced(
            old(state).vaults(),
            vault_with(old(state).vaults(), vault_id).with_margin(
                (vault_with(old(state).vaults(), vault_id).margin() + amount.0) as u64,
            ),
        ),
        total_margin(final(state).vaults()) == total_margin(old(state).vaults()) + amount.0,
        total_debt(final(state).vaults()) == total_debt(old(state).vaults()),
        crate::event::recorded(
            old(state),
            final(state),
            crate::event::Event::AddMargin { vault_id, margin_added: amount, block_index },
        ),
        !is_guarded(final(state).operation_guards@, guard.principal, guard.operation@),
        final(state).operation_guards@ == crate::guard::released(
            crate::guard::marked(
                old(state).operation_guards@,
                guard.principal,
                guard.operation@,
                crate::guard::OperationState::Completed,
            ),
            guard.principal,
            guard.operation@,
        ),
        final(state).mode_is_current(),
        final(state).differs_only_in(
            old(state),
            (Touched { store: true, mode: true, events: true, guards: true, ..nothing() }),
        ),
{
    crate::event::record_add_margin_to_vault(state, vault_id, amount, block_index);
    guard.complete(state);
    block_index
}

/// Whether a request to repay `amount` to a vault is taken.  Repaying is
/// taken while the protocol is read-only.
pub open spec fn spec_repay(state: &State, caller: Principal, arg: VaultArg, now: u64) -> Option<
    Rejection,
> {
    match spec_prologue(state, caller, "repay_to_vault"@, now, true) {
        Some(rejection) => Some(rejection),
        None => if caller != vault_with(state.vaults(), arg.vault_id).owner {
            Some(Rejection::CallerNotOwner)
        } else if arg.amount < MIN_ICUSD_AMOUNT {
            Some(Rejection::AmountTooLow { minimum_amount: MIN_ICUSD_AMOUNT })
        } else if vault_with(state.vaults(), arg.vault_id).debt() < arg.amount {
            Some(Rejection::GenericError)
        } else {
            None
        },
    }
}

/// The first step of repaying to a vault: the stable tokens that are to be
/// pulled from the caller.  No more is taken than the vault owes.
///
/// The vault exists.
pub fn repay_to_vault(state: &mut State, caller: Principal, arg: VaultArg, now: u64) -> (r: Result<
    (GuardPrincipal, ICUSD),
    ProtocolError,
>)
    requires
        old(state).wf(),
        has_vault(old(state).vaults(), arg.vault_id),
    ensures
        final(state).wf(),
        final(state).differs_only_in(old(state), guards_only()),
        r is Ok ==> holds_guard(final(state), r->Ok_0.0, caller, "repay_to_vault"@),
        final(state).operation_guards@ == guards_after(
            old(state).operation_guards@,
            caller,
            "repay_to_vault"@,
            now,
            r is Ok,
        ),
        match r {
            Ok((guard, amount)) => spec_repay(old(state), caller, arg, now) is None && amount.0
                == arg.amount && guard.principal == caller,
            Err(e) => Some(rejection_of(e)) == spec_repay(old(state), caller, arg, now),
        },
{
    let guard = match begin_operation(state, caller, "repay_to_vault", now, true) {
        Ok(guard) => guard,
        Err(e) => {
            return Err(e);
        },
    };
    let vault = match state.get_vault(arg.vault_id) {
        Some(vault) => vault,
        None => {
            assert(false);
            guard.complete(state);
            return Err(ProtocolError::CallerNotOwner);
        },
    };
    if caller != vault.owner {
        guard.complete(state);
        return Err(ProtocolError::CallerNotOwner);
    }
    if arg.amount < MIN_ICUSD_AMOUNT {
        guard.complete(state);
        return Err(ProtocolError::AmountTooLow { minimum_amount: MIN_ICUSD_AMOUNT });
    }
    if vault.borrowed_icusd_amount.0 < arg.amount {
        guard.complete(state);
        return Err(ProtocolError::GenericError("cannot repay more than borrowed".to_owned()));
    }
    Ok((guard, ICUSD::new(arg.amount)))
}

/// The second step of repaying, after the stable tokens have been pulled.
///
/// The vault exists and owes at least `amount`.
pub fn repayment_transferred(
    state: &mut State,
    guard: GuardPrincipal,
    vault_id: u64,
    amount: ICUSD,
    block_index: u64,
) -> (r: u64)
    requires
        old(state).wf(),
        has_vault(old(state).vaults(), vault_id),
        amount.0 <= vault_with(old(state).vaults(), vault_id).debt(),
    ensures
        final(state).wf(),
        r == block_index,
        final(state).vaults() == crate::vault::replaced(
            old(state).vaults(),
            vault_with(old(state).vaults(), vault_id).with_debt(
                (vault_with(old(state).vaults(), vault_id).debt() - amount.0) as u64,
            ),
        ),
        total_debt(final(state).vaults()) == total_debt(old(state).vaults()) - amount.0,
        total_margin(final(state).vaults()) == total_margin(old(state).vaults()),
        crate::event::recorded(
            old(state),
            final(state),
            crate::event::Event::Repay { vault_id, repayed_amount: amount, block_index },
        ),
        !is_guarded(final(state).operation_guards@, guard.principal, guard.operation@),
        final(state).operation_guards@ == crate::guard::released(
            crate::guard::marked(
                old(state).operation_guards@,
                guard.principal,
                guard.operation@,
                crate::guard::OperationState::Completed,
            ),
            guard.principal,
            guard.operation@,
        ),
        final(state).mode_is_current(),
        final(state).differs_only_in(
            old(state),
            (Touched { store: true, mode: true, events: true, guards: true, ..nothing() }),
        ),
{
    crate::event::record_repayed_to_vault(state, vault_id, amount, block_index);
    guard.complete(state);
    block_index
}

/// What a borrower is to get: the amount that the vault will owe, and the
/// fee that is kept of it.
#[derive(Clone, Copy, Debug)]
pub struct BorrowTicket {
    pub amount: ICUSD,
    pub fee: ICUSD,
}

impl BorrowTicket {
    /// What is minted to the borrower: the amount less the fee.
    pub open spec fn spec_minted(self) -> int {
        self.amount.0 - self.fee.0
    }

    /// What is minted to the borrower: the amount less the fee.
    pub fn minted(self) -> (r: ICUSD)
        requires
            self.fee.0 <= self.amount.0,
        ensures
            r.0 == self.spec_minted(),
    {
        ICUSD::new(self.amount.0 - self.fee.0)
    }
}

/// The most that a vault may owe at the price `icp_rate` in the mode
/// `mode`: the value of its collateral over the liquidation ratio of the
/// mode.
pub open spec fn spec_max_borrowable(vault: Vault, icp_rate: crate::numeric::UsdIcp, mode: Mode) -> Option<
    u64,
> {
    match crate::numeric::token_times(vault.icp_margin_amount.0, icp_rate.0) {
        Some(value) => crate::numeric::token_over(
            value,
            mode.spec_minimum_liquidation_collateral_ratio().0,
        ),
        None => None,
    }
}

/// The fee on borrowing `amount` in the state `state`.
pub open spec fn spec_borrowing_fee(state: &State, amount: u64) -> Option<u64> {
    crate::numeric::token_times(
        amount,
        if state.mode == Mode::Recovery {
            crate::decimal::spec_zero()
        } else {
            state.fee.0
        },
    )
}

/// Whether a request to borrow `amount` from a vault is taken.
pub open spec fn spec_borrow(state: &State, caller: Principal, arg: VaultArg, now: u64) -> Option<
    Rejection,
> {
    let vault = vault_with(state.vaults(), arg.vault_id);
    match spec_prologue(state, caller, "borrow_from_vault"@, now, false) {
        Some(rejection) => Some(rejection),
        None => if arg.amount < MIN_ICUSD_AMOUNT {
            Some(Rejection::AmountTooLow { minimum_amount: MIN_ICUSD_AMOUNT })
        } else if caller != vault.owner {
            Some(Rejection::CallerNotOwner)
        } else {
            match spec_max_borrowable(vault, state.last_icp_rate->0, state.mode) {
                None => Some(Rejection::GenericError),
                Some(max) => if vault.debt() + arg.amount > max {
                    Some(Rejection::GenericError)
                } else {
                    match spec_borrowing_fee(state, arg.amount) {
                        Some(fee) if fee <= arg.amount => None,
                        _ => Some(Rejection::GenericError),
                    }
                },
            }
        },
    }
}

/// The first step of borrowing from a vault: what the vault will owe more,
/// and the fee that is kept of it.  The debt of the vault must stay covered
/// by its collateral at the liquidation ratio of the mode.
///
/// The vault exists.
pub fn borrow_from_vault(state: &mut State, caller: Principal, arg: VaultArg, now: u64) -> (r:
    Result<(GuardPrincipal, BorrowTicket), ProtocolError>)
    requires
        old(state).wf(),
        has_vault(old(state).vaults(), arg.vault_id),
    ensures
        final(state).wf(),
        final(state).differs_only_in(old(state), guards_only()),
        r is Ok ==> holds_guard(final(state), r->Ok_0.0, caller, "borrow_from_vault"@),
        final(state).operation_guards@ == guards_after(
            old(state).operation_guards@,
            caller,
            "borrow_from_vault"@,
            now,
            r is Ok,
        ),
        match r {
            Ok((guard, ticket)) => {
                &&& spec_borrow(old(state), caller, arg, now) is None
                &&& ticket.amount.0 == arg.amount
                &&& Some(ticket.fee.0) == spec_borrowing_fee(old(state), arg.amount)
                &&& ticket.fee.0 <= ticket.amount.0
                &&& guard.principal == caller
            },
            Err(e) => Some(rejection_of(e)) == spec_borrow(old(state), caller, arg, now),
        },
{
    let guard = match begin_operation(state, caller, "borrow_from_vault", now, false) {
        Ok(guard) => guard,
        Err(e) => {
            return Err(e);
        },
    };
    if arg.amount < MIN_ICUSD_AMOUNT {
        guard.complete(state);
        return Err(ProtocolError::AmountTooLow { minimum_amount: MIN_ICUSD_AMOUNT });
    }
    let vault = match state.get_vault(arg.vault_id) {
        Some(vault) => vault,
        None => {
            assert(false);
            guard.complete(state);
            return Err(ProtocolError::CallerNotOwner);
        },
    };
    if caller != vault.owner {
        guard.complete(state);
        return Err(ProtocolError::CallerNotOwner);
    }
    let icp_rate = match state.last_icp_rate {
        Some(icp_rate) => icp_rate,
        None => {
            assert(false);
            guard.complete(state);
            return Err(ProtocolError::GenericError("no price".to_owned()));
        },
    };
    let limit = state.mode.get_minimum_liquidation_collateral_ratio();
    let max_borrowable_amount = match vault.icp_margin_amount.checked_mul_rate(icp_rate) {
        Some(value) => match value.checked_div_ratio(limit) {
            Some(max) => max,
            None => {
                guard.complete(state);
                return Err(
                    ProtocolError::GenericError("failed to compute max borrowable".to_owned()),
                );
            },
        },
        None => {
            guard.complete(state);
            return Err(
                ProtocolError::GenericError("failed to compute max borrowable".to_owned()),
            );
        },
    };
    if arg.amount > max_borrowable_amount.0 || vault.borrowed_icusd_amount.0
        > max_borrowable_amount.0 - arg.amount {
        guard.complete(state);
        return Err(
            ProtocolError::GenericError(
                "failed to borrow from vault: above max borrowable".to_owned(),
            ),
        );
    }
    let fee = match ICUSD::new(arg.amount).checked_mul_ratio(state.get_borrowing_fee()) {
        Some(fee) => fee,
        None => {
            guard.complete(state);
            return Err(ProtocolError::GenericError("failed to compute fee".to_owned()));
        },
    };
    if fee.0 > arg.amount {
        guard.complete(state);
        return Err(ProtocolError::GenericError("fee above amount".to_owned()));
    }
    Ok((guard, BorrowTicket { amount: ICUSD::new(arg.amount), fee }))
}

/// The second step of borrowing, after the stable tokens have been minted:
/// the vault owes the whole amount, fee included.
///
/// The vault exists, and the sum of debt still fits in a `u64`.
pub fn borrow_minted(
    state: &mut State,
    guard: GuardPrincipal,
    vault_id: u64,
    ticket: BorrowTicket,
    block_index: u64,
) -> (r: crate::SuccessWithFee)
    requires
        old(state).wf(),
        has_vault(old(state).vaults(), vault_id),
        total_debt(old(state).vaults()) + ticket.amount.0 <= u64::MAX,
    ensures
        final(state).wf(),
        r == (crate::SuccessWithFee { block_index, fee_amount_paid: ticket.fee.0 }),
        final(state).vaults() == crate::vault::replaced(
            old(state).vaults(),
            vault_with(old(state).vaults(), vault_id).with_debt(
                (vault_with(old(state).vaults(), vault_id).debt() + ticket.amount.0) as u64,
            ),
        ),
        total_debt(final(state).vaults()) == total_debt(old(state).vaults()) + ticket.amount.0,
        total_margin(final(state).vaults()) == total_margin(old(state).vaults()),
        crate::event::recorded(
            old(state),
            final(state),
            crate::event::Event::Borrow {
                vault_id,
                borrowed_amount: ticket.amount,
                fee_amount: ticket.fee,
                block_index,
            },
        ),
        !is_guarded(final(state).operation_guards@, guard.principal, guard.operation@),
        final(state).operation_guards@ == crate::guard::released(
            crate::guard::marked(
                old(state).operation_guards@,
                guard.principal,
                guard.operation@,
                crate::guard::OperationState::Completed,
            ),
            guard.principal,
            guard.operation@,
        ),
        final(state).mode_is_current(),
        final(state).differs_only_in(
            old(state),
            (Touched { store: true, mode: true, events: true, guards: true, ..nothing() }),
        ),
{
    crate::event::record_borrow_from_vault(
        state,
        vault_id,
        ticket.amount,
        ticket.fee,
        block_index,
    );
    guard.complete(state);
    crate::SuccessWithFee { block_index, fee_amount_paid: ticket.fee.0 }
}

/// How the first step of closing a vault ended.
#[derive(Debug)]
pub enum CloseStep {
    /// The vault owed nothing and is closed.
    Closed,
    /// The vault owes `amount`, which is to be pulled from the caller.
    PayOff { guard: GuardPrincipal, amount: ICUSD },
}

/// Whether a request to close a vault is taken.  A vault without debt can be
/// closed while the protocol is read-only; one with debt cannot.
pub open spec fn spec_close(state: &State, caller: Principal, vault_id: u64, now: u64) -> Option<
    Rejection,
> {
    let vault = vault_with(state.vaults(), vault_id);
    match spec_prologue(state, caller, "close_vault"@, now, true) {
        Some(rejection) => Some(rejection),
        None => if caller != vault.owner {
            Some(Rejection::CallerNotOwner)
        } else if vault.debt() != 0 && state.mode == Mode::ReadOnly {
            Some(Rejection::TemporarilyUnavailable)
        } else {
            None
        },
    }
}

/// The first step of closing a vault.  A vault without debt is closed at
/// once: it is gone, and its collateral, less the fee of the ledger, waits
/// to be sent to its owner.  For a vault with debt, the debt is to be pulled
/// from the caller first.
///
/// The vault exists and holds at least the fee of the ledger.
pub fn close_vault(state: &mut State, caller: Principal, vault_id: u64, now: u64) -> (r: Result<
    CloseStep,
    ProtocolError,
>)
    requires
        old(state).wf(),
        has_vault(old(state).vaults(), vault_id),
        vault_with(old(state).vaults(), vault_id).margin() >= old(state).icp_ledger_fee.0,
    ensures
        final(state).wf(),
        final(state).operation_guards@ == guards_after(
            old(state).operation_guards@,
            caller,
            "close_vault"@,
            now,
            r matches Ok(CloseStep::PayOff { .. }),
        ),
        match r {
            Err(e) => Some(rejection_of(e)) == spec_close(old(state), caller, vault_id, now)
                && final(state).differs_only_in(old(state), guards_only()),
            Ok(CloseStep::PayOff { guard, amount }) => {
                &&& spec_close(old(state), caller, vault_id, now) is None
                &&& amount.0 == vault_with(old(state).vaults(), vault_id).debt()
                &&& amount.0 != 0
                &&& guard.principal == caller
                &&& final(state).differs_only_in(old(state), guards_only())
            },
            Ok(CloseStep::Closed) => {
                &&& spec_close(old(state), caller, vault_id, now) is None
                &&& vault_with(old(state).vaults(), vault_id).debt() == 0
                &&& final(state).vaults() == crate::vault::without(old(state).vaults(), vault_id)
                &&& !has_vault(final(state).vaults(), vault_id)
                &&& total_debt(final(state).vaults()) == total_debt(old(state).vaults())
                &&& total_margin(final(state).vaults()) == total_margin(old(state).vaults())
                    - vault_with(old(state).vaults(), vault_id).margin()
                &&& final(state).pending_margin_transfers@ == old(state).pending_margin_transfers@.insert(
                    vault_id,
                    crate::transfers::PendingMarginTransfer {
                        owner: caller,
                        margin: ICP::spec_new(
                            (vault_with(old(state).vaults(), vault_id).margin() - old(state).icp_ledger_fee.0) as u64,
                        ),
                    },
                )
                &&& crate::event::recorded(
                    old(state),
                    final(state),
                    crate::event::Event::CloseVault { vault_id, block_index: None },
                )
                &&& !is_guarded(final(state).operation_guards@, caller, "close_vault"@)
                &&& final(state).mode_is_current()
                &&& final(state).differs_only_in(
                    old(state),
                    (Touched {
                        store: true,
                        pending: true,
                        mode: true,
                        events: true,
                        guards: true,
                        ..nothing()
                    }),
                )
            },
        },
{
    let guard = match begin_operation(state, caller, "close_vault", now, true) {
        Ok(guard) => guard,
        Err(e) => {
            return Err(e);
        },
    };
    let vault = match state.get_vault(vault_id) {
        Some(vault) => vault,
        None => {
            assert(false);
            guard.complete(state);
            return Err(ProtocolError::CallerNotOwner);
        },
    };
    if caller != vault.owner {
        guard.complete(state);
        return Err(ProtocolError::CallerNotOwner);
    }
    let amount_to_pay_off = vault.borrowed_icusd_amount;
    if amount_to_pay_off.0 == 0 {
        crate::event::record_close_vault(state, vault_id, None);
        guard.complete(state);
        return Ok(CloseStep::Closed);
    }
    let read_only = match state.mode {
        Mode::ReadOnly => true,
        _ => false,
    };
    if read_only {
        guard.complete(state);
        return Err(
            ProtocolError::TemporarilyUnavailable("the protocol is read-only".to_owned()),
        );
    }
    Ok(CloseStep::PayOff { guard, amount: amount_to_pay_off })
}

/// The second step of closing a vault with debt, after the debt has been
/// pulled from the caller: the vault is gone, and its collateral, less the
/// fee of the ledger, waits to be sent to its owner.
///
/// The vault exists and holds at least the fee of the ledger.
pub fn close_vault_paid(state: &mut State, guard: GuardPrincipal, vault_id: u64, block_index: u64) -> (r:
    Option<u64>)
    requires
        old(state).wf(),
        has_vault(old(state).vaults(), vault_id),
        vault_with(old(state).vaults(), vault_id).margin() >= old(state).icp_ledger_fee.0,
    ensures
        final(state).wf(),
        r == Some(block_index),
        final(state).vaults() == crate::vault::without(old(state).vaults(), vault_id),
        !has_vault(final(state).vaults(), vault_id),
        total_debt(final(state).vaults()) == total_debt(old(state).vaults()) - vault_with(
            old(state).vaults(),
            vault_id,
        ).debt(),
        total_margin(final(state).vaults()) == total_margin(old(state).vaults()) - vault_with(
            old(state).vaults(),
            vault_id,
        ).margin(),
        final(state).pending_margin_transfers@ == old(state).pending_margin_transfers@.insert(
            vault_id,
            crate::transfers::PendingMarginTransfer {
                owner: vault_with(old(state).vaults(), vault_id).owner,
                margin: ICP::spec_new(
                    (vault_with(old(state).vaults(), vault_id).margin() - old(state).icp_ledger_fee.0) as u64,
                ),
            },
        ),
        crate::event::recorded(
            old(state),
            final(state),
            crate::event::Event::CloseVault { vault_id, block_index: Some(block_index) },
        ),
        !is_guarded(final(state).operation_guards@, guard.principal, guard.operation@),
        final(state).operation_guards@ == crate::guard::released(
            crate::guard::marked(
                old(state).operation_guards@,
                guard.principal,
                guard.operation@,
                crate::guard::OperationState::Completed,
            ),
            guard.principal,
            guard.operation@,
        ),
        final(state).mode_is_current(),
        final(state).differs_only_in(
            old(state),
            (Touched {
                store: true,
                pending: true,
                mode: true,
                events: true,
                guards: true,
                ..nothing()
            }),
        ),
{
    crate::event::record_close_vault(state, vault_id, Some(block_index));
    guard.complete(state);
    Some(block_index)
}

/// Whether a request to redeem `icusd_amount` is taken.  Nothing is
/// redeemed while nothing is owed, and no more than is owed.
pub open spec fn spec_redeem_request(state: &State, caller: Principal, icusd_amount: u64, now: u64) -> Option<
    Rejection,
> {
    match spec_prologue(state, caller, "redeem_icp"@, now, false) {
        Some(rejection) => Some(rejection),
        None => if icusd_amount < MIN_ICUSD_AMOUNT {
            Some(Rejection::AmountTooLow { minimum_amount: MIN_ICUSD_AMOUNT })
        } else if total_debt(state.vaults()) == 0 {
            Some(Rejection::GenericError)
        } else if icusd_amount > total_debt(state.vaults()) {
            Some(Rejection::GenericError)
        } else {
            None
        },
    }
}

/// The first step of a redemption: the stable tokens that are to be pulled
/// from the caller.
pub fn redeem_icp(state: &mut State, caller: Principal, icusd_amount: u64, now: u64) -> (r: Result<
    (GuardPrincipal, ICUSD),
    ProtocolError,
>)
    requires
        old(state).wf(),
    ensures
        final(state).wf(),
        final(state).differs_only_in(old(state), guards_only()),
        r is Ok ==> holds_guard(final(state), r->Ok_0.0, caller, "redeem_icp"@),
        final(state).operation_guards@ == guards_after(
            old(state).operation_guards@,
            caller,
            "redeem_icp"@,
            now,
            r is Ok,
        ),
        match r {
            Ok((guard, amount)) => spec_redeem_request(old(state), caller, icusd_amount, now)
                is None && amount.0 == icusd_amount && guard.principal == caller,
            Err(e) => Some(rejection_of(e)) == spec_redeem_request(
                old(state),
                caller,
                icusd_amount,
                now,
            ),
        },
{
    let guard = match begin_operation(state, caller, "redeem_icp", now, false) {
        Ok(guard) => guard,
        Err(e) => {
            return Err(e);
        },
    };
    if icusd_amount < MIN_ICUSD_AMOUNT {
        guard.complete(state);
        return Err(ProtocolError::AmountTooLow { minimum_amount: MIN_ICUSD_AMOUNT });
    }
    let total = state.total_borrowed_icusd_amount();
    proof {
        crate::vault::lemma_total_nonnegative(crate::vault::debts(state.vaults()));
    }
    if total.0 == 0 {
        guard.complete(state);
        return Err(ProtocolError::GenericError("nothing to redeem against".to_owned()));
    }
    if icusd_amount > total.0 {
        guard.complete(state);
        return Err(ProtocolError::GenericError("cannot redeem more than is owed".to_owned()));
    }
    Ok((guard, ICUSD::new(icusd_amount)))
}

/// The fee of a redemption and the base rate that it sets.
pub struct RedemptionPlan {
    pub fee: u64,
    pub base_rate: crate::numeric::Ratio,
}

/// The fee of a redemption of `icusd_amount` at `now`, with the base rate
/// that it sets: the amount times the new base rate.  `None` where the
/// arithmetic fails or the fee is above the amount.
pub open spec fn spec_redemption_plan(state: &State, icusd_amount: u64, now: u64) -> Option<
    RedemptionPlan,
> {
    match crate::state::spec_redemption_fee(
        crate::state::spec_elapsed_hours(now, state.last_redemption_time),
        icusd_amount,
        total_debt(state.vaults()) as u64,
        state.current_base_rate,
    ) {
        Some(base_rate) => match crate::numeric::token_times(icusd_amount, base_rate.0) {
            Some(fee) if fee <= icusd_amount => Some(RedemptionPlan { fee, base_rate }),
            _ => None,
        },
        None => None,
    }
}

/// The second step of a redemption, after the stable tokens have been
/// pulled.  The base rate is set anew and the fee taken; what is left is
/// redeemed against the vaults, those with the least collateral for their
/// debt first, and the collateral that it is worth at the last price waits
/// to be sent to the redeemer.  Where any of this fails, nothing changes but
/// the guard.
///
/// A price is known.
pub fn redeem_icp_transferred(
    state: &mut State,
    guard: GuardPrincipal,
    icusd_amount: ICUSD,
    now: u64,
    block_index: u64,
) -> (r: Result<crate::SuccessWithFee, ProtocolError>)
    requires
        old(state).wf(),
        old(state).last_icp_rate is Some,
    ensures
        final(state).wf(),
        r is Err <==> ({
            let plan = spec_redemption_plan(old(state), icusd_amount.0, now);
            let rate = old(state).last_icp_rate->0;
            ||| total_debt(old(state).vaults()) == 0
            ||| plan is None
            ||| icusd_amount.0 - plan->0.fee > total_debt(old(state).vaults())
            ||| crate::numeric::token_over((icusd_amount.0 - plan->0.fee) as u64, rate.0) is None
            ||| crate::redemption::cannot_redeem(
                old(state).vaults(),
                (icusd_amount.0 - plan->0.fee) as u64,
                rate,
            )
        }),
        match r {
            Err(e) => {
                let plan = spec_redemption_plan(old(state), icusd_amount.0, now);
                let rate = old(state).last_icp_rate->0;
                &&& rejection_of(e) is GenericError
                &&& final(state).differs_only_in(old(state), guards_only())
                &&& final(state).operation_guards@ == crate::guard::marked(
                    old(state).operation_guards@,
                    guard.principal,
                    guard.operation@,
                    crate::guard::OperationState::Failed,
                )
            },
            Ok(success) => {
                let plan = spec_redemption_plan(old(state), icusd_amount.0, now);
                let rate = old(state).last_icp_rate->0;
                &&& plan is Some
                &&& total_debt(old(state).vaults()) != 0
                &&& success == (crate::SuccessWithFee {
                    block_index,
                    fee_amount_paid: plan->0.fee,
                })
                &&& crate::redemption::redeemed(
                    old(state).vaults(),
                    final(state).vaults(),
                    (icusd_amount.0 - plan->0.fee) as u64,
                    rate,
                )
                &&& total_debt(final(state).vaults()) == total_debt(old(state).vaults()) - (
                icusd_amount.0 - plan->0.fee)
                &&& total_margin(final(state).vaults()) <= total_margin(old(state).vaults())
                &&& final(state).current_base_rate == plan->0.base_rate
                &&& crate::state::spec_min_base_rate().0.value_le(
                    final(state).current_base_rate.0,
                )
                &&& final(state).current_base_rate.0.value_le(
                    crate::state::spec_max_base_rate().0,
                )
                &&& final(state).last_redemption_time == now
                &&& final(state).last_icp_rate == old(state).last_icp_rate
                &&& final(state).last_icp_timestamp == old(state).last_icp_timestamp
                &&& crate::numeric::token_over((icusd_amount.0 - plan->0.fee) as u64, rate.0)
                    is Some
                &&& final(state).pending_redemption_transfer@ == old(state).pending_redemption_transfer@.insert(
                    block_index,
                    crate::transfers::PendingMarginTransfer {
                        owner: guard.principal,
                        margin: ICP::spec_new(
                            crate::numeric::token_over(
                                (icusd_amount.0 - plan->0.fee) as u64,
                                rate.0,
                            )->0,
                        ),
                    },
                )
                &&& final(state).pending_margin_transfers.entries@ == old(state).pending_margin_transfers.entries@
                &&& crate::event::recorded(
                    old(state),
                    final(state),
                    crate::event::Event::Redeem {
                        owner: guard.principal,
                        icusd_amount: ICUSD::spec_new((icusd_amount.0 - plan->0.fee) as u64),
                        fee_amount: ICUSD::spec_new(plan->0.fee),
                        icp_amount: ICP::spec_new(
                            crate::numeric::token_over(
                                (icusd_amount.0 - plan->0.fee) as u64,
                                rate.0,
                            )->0,
                        ),
                        icp_rate: rate,
                        block_index,
                    },
                )
                &&& !is_guarded(final(state).operation_guards@, guard.principal, guard.operation@)
                &&& final(state).operation_guards@ == crate::guard::released(
                    crate::guard::marked(
                        old(state).operation_guards@,
                        guard.principal,
                        guard.operation@,
                        crate::guard::OperationState::Completed,
                    ),
                    guard.principal,
                    guard.operation@,
                )
                &&& final(state).mode_is_current()
                &&& final(state).differs_only_in(
                    old(state),
                    (Touched {
                        store: true,
                        pending: true,
                        mode: true,
                        rates: true,
                        events: true,
                        guards: true,
                        ..nothing()
                    }),
                )
            },
        },
{
    let current_icp_rate = match state.last_icp_rate {
        Some(rate) => rate,
        None => {
            assert(false);
            guard.fail(state);
            return Err(ProtocolError::GenericError("no price".to_owned()));
        },
    };
    let total = state.total_borrowed_icusd_amount();
    proof {
        crate::vault::lemma_total_nonnegative(crate::vault::debts(state.vaults()));
    }
    if total.0 == 0 {
        guard.fail(state);
        return Err(ProtocolError::GenericError("nothing to redeem against".to_owned()));
    }
    let base_fee = match state.get_redemption_fee(icusd_amount, now) {
        Some(base_fee) => base_fee,
        None => {
            guard.fail(state);
            return Err(ProtocolError::GenericError("failed to compute the fee".to_owned()));
        },
    };
    let fee_amount = match icusd_amount.checked_mul_ratio(base_fee) {
        Some(fee_amount) => fee_amount,
        None => {
            guard.fail(state);
            return Err(ProtocolError::GenericError("failed to compute the fee".to_owned()));
        },
    };
    if fee_amount.0 > icusd_amount.0 {
        guard.fail(state);
        return Err(ProtocolError::GenericError("fee above amount".to_owned()));
    }
    let net = ICUSD::new(icusd_amount.0 - fee_amount.0);
    if net.0 > total.0 {
        guard.fail(state);
        return Err(ProtocolError::GenericError("cannot redeem more than is owed".to_owned()));
    }
    match crate::event::record_redemption_on_vaults(
        state,
        guard.principal,
        net,
        fee_amount,
        current_icp_rate,
        block_index,
    ) {
        Some(_credited) => {},
        None => {
            guard.fail(state);
            return Err(ProtocolError::GenericError("failed to redeem on vaults".to_owned()));
        },
    }
    state.current_base_rate = base_fee;
    state.last_redemption_time = now;
    guard.complete(state);
    Ok(crate::SuccessWithFee { block_index, fee_amount_paid: fee_amount.0 })
}

} // verus!
