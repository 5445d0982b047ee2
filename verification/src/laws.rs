//! What holds across the operations of the protocol.

use vstd::prelude::*;
use crate::decimal::spec_max_value;
use crate::numeric::Ratio;
use crate::numeric::UsdIcp;
use crate::operations::spec_add_margin;
use crate::operations::spec_borrow;
use crate::operations::spec_close;
use crate::operations::spec_open_vault;
use crate::operations::spec_redeem_request;
use crate::operations::spec_repay;
use crate::spec_collateral_ratio;
use crate::state::spec_minimum_collateral_ratio;
use crate::state::Mode;
use crate::state::State;
use crate::vault::has_vault;
use crate::vault::ids_increasing;
use crate::vault::lemma_position_unique;
use crate::vault::lemma_without_absent;
use crate::vault::position_of;
use crate::vault::replaced;
use crate::vault::sorted_insert;
use crate::vault::total_debt;
use crate::vault::vault_with;
use crate::vault::without;
use crate::vault::Principal;
use crate::vault::Vault;
use crate::vault::VaultArg;
use crate::MIN_ICP_AMOUNT;
use crate::MIN_ICUSD_AMOUNT;

verus! {

/// A vault that is opened and then closed leaves the vaults as they were;
/// while it is there, it is the vault that was opened.  With the contract of
/// [`State::close_vault`], what waits to be sent to the owner is the
/// collateral that the vault was opened with, less the fee of the ledger.
pub proof fn lemma_open_then_close(vaults: Seq<Vault>, vault: Vault)
    requires
        ids_increasing(vaults),
        !has_vault(vaults, vault.vault_id),
    ensures
        has_vault(sorted_insert(vaults, vault), vault.vault_id),
        vault_with(sorted_insert(vaults, vault), vault.vault_id) == vault,
        without(sorted_insert(vaults, vault), vault.vault_id) == vaults,
    decreases vaults.len(),
{
    let opened = sorted_insert(vaults, vault);
    lemma_sorted_insert_holds(vaults, vault);
    assert(without(opened, vault.vault_id) == vaults) by {
        lemma_insert_then_without(vaults, vault);
    }
}

/// Putting a vault in and taking the vault with its identifier out gives
/// back the vaults, where none of them had that identifier.
pub proof fn lemma_insert_then_without(vaults: Seq<Vault>, vault: Vault)
    requires
        !has_vault(vaults, vault.vault_id),
    ensures
        without(sorted_insert(vaults, vault), vault.vault_id) == vaults,
    decreases vaults.len(),
{
    assert forall|i: int| 0 <= i < vaults.len() implies (#[trigger] vaults[i]).vault_id
        != vault.vault_id by {}
    if vaults.len() == 0 {
        let opened = seq![vault];
        assert(opened.len() == 1);
        assert(opened.last() == vault);
        assert(opened.drop_last() =~= vaults);
        assert(without(opened.drop_last(), vault.vault_id) == vaults);
    } else if vaults.last().vault_id < vault.vault_id {
        let opened = vaults.push(vault);
        assert(opened.last() == vault);
        assert(opened.drop_last() =~= vaults);
        lemma_without_absent(vaults, vault.vault_id);
    } else {
        let rest = vaults.drop_last();
        assert(!has_vault(rest, vault.vault_id)) by {
            if has_vault(rest, vault.vault_id) {
                let i = position_of(rest, vault.vault_id);
                assert(vaults[i].vault_id == vault.vault_id);
            }
        }
        lemma_insert_then_without(rest, vault);
        let opened = sorted_insert(rest, vault).push(vaults.last());
        assert(opened.len() > 0);
        assert(opened.last() == vaults.last());
        assert(opened.drop_last() =~= sorted_insert(rest, vault));
        assert(vaults[vaults.len() - 1].vault_id != vault.vault_id);
        assert(without(opened, vault.vault_id) == without(opened.drop_last(), vault.vault_id).push(
            opened.last(),
        ));
        assert(rest.push(vaults.last()) =~= vaults);
    }
}

/// A vault that is put in where its identifier belongs keeps the order, and
/// is found under its identifier.
pub proof fn lemma_sorted_insert_holds(vaults: Seq<Vault>, vault: Vault)
    requires
        ids_increasing(vaults),
        !has_vault(vaults, vault.vault_id),
    ensures
        ids_increasing(sorted_insert(vaults, vault)),
        has_vault(sorted_insert(vaults, vault), vault.vault_id),
        vault_with(sorted_insert(vaults, vault), vault.vault_id) == vault,
        sorted_insert(vaults, vault).len() == vaults.len() + 1,
        forall|k: int|
            0 <= k < sorted_insert(vaults, vault).len() ==> (#[trigger] sorted_insert(
                vaults,
                vault,
            )[k]) == vault || vaults.contains(sorted_insert(vaults, vault)[k]),
    decreases vaults.len(),
{
    let opened = sorted_insert(vaults, vault);
    assert forall|i: int| 0 <= i < vaults.len() implies (#[trigger] vaults[i]).vault_id
        != vault.vault_id by {}
    if vaults.len() == 0 {
        assert(opened[0] == vault);
        lemma_position_unique(opened, 0);
    } else if vaults.last().vault_id < vault.vault_id {
        assert forall|i: int, j: int| 0 <= i < j < opened.len() implies (
        #[trigger] opened[i]).vault_id < (#[trigger] opened[j]).vault_id by {
            if j < vaults.len() {
                assert(vaults[i].vault_id < vaults[j].vault_id);
            } else if i < vaults.len() - 1 {
                assert(vaults[i].vault_id < vaults[vaults.len() - 1].vault_id);
            }
        }
        assert(opened[vaults.len() as int] == vault);
        lemma_position_unique(opened, vaults.len() as int);
        assert forall|k: int| 0 <= k < opened.len() implies (#[trigger] opened[k]) == vault
            || vaults.contains(opened[k]) by {
            if k < vaults.len() {
                assert(vaults[k] == opened[k]);
            }
        }
    } else {
        let rest = vaults.drop_last();
        assert(ids_increasing(rest)) by {
            assert forall|i: int, j: int| 0 <= i < j < rest.len() implies (
            #[trigger] rest[i]).vault_id < (#[trigger] rest[j]).vault_id by {
                assert(vaults[i].vault_id < vaults[j].vault_id);
            }
        }
        assert(!has_vault(rest, vault.vault_id)) by {
            if has_vault(rest, vault.vault_id) {
                let i = position_of(rest, vault.vault_id);
                assert(vaults[i].vault_id == vault.vault_id);
            }
        }
        lemma_sorted_insert_holds(rest, vault);
        let inner = sorted_insert(rest, vault);
        assert(vaults[vaults.len() - 1].vault_id > vault.vault_id);
        assert forall|i: int, j: int| 0 <= i < j < opened.len() implies (
        #[trigger] opened[i]).vault_id < (#[trigger] opened[j]).vault_id by {
            if j < inner.len() {
                assert(inner[i].vault_id < inner[j].vault_id);
            } else {
                if inner[i] == vault {
                } else {
                    assert(rest.contains(inner[i]));
                    let m = choose|m: int| 0 <= m < rest.len() && rest[m] == inner[i];
                    assert(vaults[m].vault_id < vaults[vaults.len() - 1].vault_id);
                }
            }
        }
        let p = position_of(inner, vault.vault_id);
        assert(opened[p].vault_id == vault.vault_id);
        lemma_position_unique(opened, p);
        assert forall|k: int| 0 <= k < opened.len() implies (#[trigger] opened[k]) == vault
            || vaults.contains(opened[k]) by {
            if k < inner.len() {
                if inner[k] != vault {
                    assert(rest.contains(inner[k]));
                    let m = choose|m: int| 0 <= m < rest.len() && rest[m] == inner[k];
                    assert(vaults[m] == opened[k]);
                }
            } else {
                assert(vaults[vaults.len() - 1] == opened[k]);
            }
        }
    }
}

/// Borrowing an amount and repaying the same amount brings the debt of the
/// vault, and with it the vaults, back to where they were.
pub proof fn lemma_borrow_then_repay(vaults: Seq<Vault>, vault_id: u64, amount: u64)
    requires
        ids_increasing(vaults),
        has_vault(vaults, vault_id),
        vault_with(vaults, vault_id).debt() + amount <= u64::MAX,
    ensures
        ({
            let vault = vault_with(vaults, vault_id);
            let owing = vault.with_debt((vault.debt() + amount) as u64);
            let borrowed = replaced(vaults, owing);
            &&& has_vault(borrowed, vault_id)
            &&& vault_with(borrowed, vault_id) == owing
            &&& amount <= owing.debt()
            &&& replaced(borrowed, owing.with_debt((owing.debt() - amount) as u64)) == vaults
        }),
{
    let p = position_of(vaults, vault_id);
    let vault = vaults[p];
    let owing = vault.with_debt((vault.debt() + amount) as u64);
    let borrowed = replaced(vaults, owing);
    assert(ids_increasing(borrowed)) by {
        assert forall|i: int, j: int| 0 <= i < j < borrowed.len() implies (
        #[trigger] borrowed[i]).vault_id < (#[trigger] borrowed[j]).vault_id by {
            assert(vaults[i].vault_id < vaults[j].vault_id);
        }
    }
    assert(borrowed[p].vault_id == vault_id);
    lemma_position_unique(borrowed, p);
    let repaid = owing.with_debt((owing.debt() - amount) as u64);
    assert(repaid == vault);
    assert(replaced(borrowed, repaid) =~= vaults);
}

/// While the protocol is read-only, every request but one to repay or to
/// close a vault without debt is turned away.  The first step of an
/// operation that turns the caller away leaves the vaults as they are, and
/// the vaults are not swept while the protocol is read-only: so nothing but
/// a repayment and the closing of a vault without debt changes what the
/// vaults owe and hold together.
pub proof fn lemma_read_only_turns_away(
    state: &State,
    caller: Principal,
    arg: VaultArg,
    now: u64,
)
    requires
        state.mode == Mode::ReadOnly,
    ensures
        spec_open_vault(state, caller, arg.amount, now) is Some,
        spec_add_margin(state, caller, arg, now) is Some,
        spec_borrow(state, caller, arg, now) is Some,
        spec_redeem_request(state, caller, arg.amount, now) is Some,
        vault_with(state.vaults(), arg.vault_id).debt() != 0 ==> spec_close(
            state,
            caller,
            arg.vault_id,
            now,
        ) is Some,
{
}

/// An amount below the least amount of its token is turned away, whatever
/// the operation.
pub proof fn lemma_small_amounts_turned_away(
    state: &State,
    caller: Principal,
    arg: VaultArg,
    now: u64,
)
    ensures
        arg.amount < MIN_ICP_AMOUNT ==> spec_open_vault(state, caller, arg.amount, now) is Some
            && spec_add_margin(state, caller, arg, now) is Some,
        arg.amount < MIN_ICUSD_AMOUNT ==> spec_borrow(state, caller, arg, now) is Some
            && spec_repay(state, caller, arg, now) is Some && spec_redeem_request(
            state,
            caller,
            arg.amount,
            now,
        ) is Some,
{
}

/// Nothing is redeemed while the vaults owe nothing.
pub proof fn lemma_no_redemption_without_debt(
    state: &State,
    caller: Principal,
    icusd_amount: u64,
    now: u64,
)
    requires
        total_debt(state.vaults()) == 0,
    ensures
        spec_redeem_request(state, caller, icusd_amount, now) is Some,
{
}

/// A liquidation in part leaves every other vault as it was, and the vault
/// itself without debt, so that its ratio is the largest there is and not
/// below the minimum ratio.
pub proof fn lemma_partial_liquidation_spares_others(
    vaults: Seq<Vault>,
    vault_id: u64,
    icp_rate: UsdIcp,
    i: int,
)
    requires
        ids_increasing(vaults),
        has_vault(vaults, vault_id),
        0 <= i < vaults.len(),
    ensures
        ({
            let target = vault_with(vaults, vault_id);
            let after = replaced(vaults, target.with_debt(0).with_margin(0));
            &&& after.len() == vaults.len()
            &&& vaults[i].vault_id != vault_id ==> after[i] == vaults[i]
            &&& vaults[i].vault_id == vault_id ==> spec_collateral_ratio(after[i], icp_rate)
                == Some(Ratio::spec_new(spec_max_value()))
            &&& !spec_max_value().value_lt(spec_minimum_collateral_ratio().0)
        }),
{
    let p = position_of(vaults, vault_id);
    lemma_position_unique(vaults, i);
    reveal_with_fuel(crate::decimal::pow10, 3);
}

/// In every state that the protocol reaches, the owner index lists each
/// vault under its owner, and every entry of the index names a vault of that
/// owner.
pub proof fn lemma_owner_index(state: &State)
    requires
        state.wf(),
    ensures
        forall|i: int|
            0 <= i < state.vaults().len() ==> state.principal_to_vault_ids@.contains(
                crate::vault::OwnerIndexEntry {
                    owner: (#[trigger] state.vaults()[i]).owner,
                    vault_id: state.vaults()[i].vault_id,
                },
            ),
        forall|k: int|
            0 <= k < state.principal_to_vault_ids@.len() ==> has_vault(
                state.vaults(),
                (#[trigger] state.principal_to_vault_ids@[k]).vault_id,
            ) && vault_with(state.vaults(), state.principal_to_vault_ids@[k].vault_id).owner
                == state.principal_to_vault_ids@[k].owner,
        state.principal_to_vault_ids@.len() == state.vaults().len(),
{
    let vaults = state.vaults();
    let index = state.principal_to_vault_ids@;
    assert forall|i: int| 0 <= i < vaults.len() implies index.contains(
        crate::vault::OwnerIndexEntry {
            owner: (#[trigger] vaults[i]).owner,
            vault_id: vaults[i].vault_id,
        },
    ) by {
        let e = crate::vault::OwnerIndexEntry {
            owner: vaults[i].owner,
            vault_id: vaults[i].vault_id,
        };
        assert(crate::vault::owns(vaults, e.owner, e.vault_id));
    }
    assert forall|k: int| 0 <= k < index.len() implies has_vault(
        vaults,
        (#[trigger] index[k]).vault_id,
    ) && vault_with(vaults, index[k].vault_id).owner == index[k].owner by {
        assert(index.contains(index[k]));
        let i = choose|i: int|
            0 <= i < vaults.len() && (#[trigger] vaults[i]).vault_id == index[k].vault_id
                && vaults[i].owner == index[k].owner;
        lemma_position_unique(vaults, i);
    }
    lemma_index_counts(vaults, index);
}

/// An index that lists each vault once and nothing else has as many entries
/// as there are vaults.
pub proof fn lemma_index_counts(vaults: Seq<Vault>, index: Seq<crate::vault::OwnerIndexEntry>)
    requires
        ids_increasing(vaults),
        crate::vault::index_distinct(index),
        crate::vault::index_matches(vaults, index),
    ensures
        index.len() == vaults.len(),
    decreases vaults.len(),
{
    if vaults.len() == 0 {
        if index.len() > 0 {
            assert(index.contains(index[0]));
            assert(crate::vault::owns(vaults, index[0].owner, index[0].vault_id));
        }
    } else {
        let last = vaults.last();
        let rest = vaults.drop_last();
        let e = crate::vault::OwnerIndexEntry { owner: last.owner, vault_id: last.vault_id };
        assert(crate::vault::owns(vaults, e.owner, e.vault_id)) by {
            assert(vaults[vaults.len() - 1].vault_id == e.vault_id);
        }
        assert(index.contains(e));
        let k = choose|k: int| 0 <= k < index.len() && index[k] == e;
        let fewer = index.remove(k);
        assert(ids_increasing(rest)) by {
            assert forall|i: int, j: int| 0 <= i < j < rest.len() implies (
            #[trigger] rest[i]).vault_id < (#[trigger] rest[j]).vault_id by {
                assert(vaults[i].vault_id < vaults[j].vault_id);
            }
        }
        assert(crate::vault::index_distinct(fewer)) by {
            assert forall|a: int, b: int| 0 <= a < b < fewer.len() implies #[trigger] fewer[a]
                != #[trigger] fewer[b] by {
                let oa = if a < k { a } else { a + 1 };
                let ob = if b < k { b } else { b + 1 };
                assert(index[oa] != index[ob]);
            }
        }
        assert forall|x: crate::vault::OwnerIndexEntry| #[trigger]
            fewer.contains(x) <==> crate::vault::owns(rest, x.owner, x.vault_id) by {
            if fewer.contains(x) {
                let m = choose|m: int| 0 <= m < fewer.len() && fewer[m] == x;
                let om = if m < k { m } else { m + 1 };
                assert(index[om] == x);
                assert(index.contains(x));
                if om < k {
                    assert(index[om] != index[k]);
                } else {
                    assert(index[k] != index[om]);
                }
                let i = choose|i: int|
                    0 <= i < vaults.len() && (#[trigger] vaults[i]).vault_id == x.vault_id
                        && vaults[i].owner == x.owner;
                if i == vaults.len() - 1 {
                    assert(x == e);
                }
                assert(rest[i].vault_id == x.vault_id && rest[i].owner == x.owner);
            }
            if crate::vault::owns(rest, x.owner, x.vault_id) {
                let i = choose|i: int|
                    0 <= i < rest.len() && (#[trigger] rest[i]).vault_id == x.vault_id
                        && rest[i].owner == x.owner;
                assert(vaults[i].vault_id == x.vault_id && vaults[i].owner == x.owner);
                assert(vaults[i].vault_id < vaults[vaults.len() - 1].vault_id);
                assert(index.contains(x));
                let m = choose|m: int| 0 <= m < index.len() && index[m] == x;
                assert(m != k);
                let nm = if m < k { m } else { m - 1 };
                assert(fewer[nm] == x);
            }
        }
        lemma_index_counts(rest, fewer);
    }
}

/// In a redistribution every surviving vault stays the vault of its owner,
/// and owes and holds what it did and what it takes over, no less.
pub proof fn lemma_redistribution_adds(vaults: Seq<Vault>, target: Vault, i: int)
    requires
        crate::liquidation::can_distribute(vaults, target),
        total_debt(crate::liquidation::survivors_of(vaults, target)) + target.debt() <= u64::MAX,
        crate::vault::total_margin(crate::liquidation::survivors_of(vaults, target))
            + target.margin() <= u64::MAX,
        0 <= i < crate::liquidation::survivors_of(vaults, target).len(),
    ensures
        ({
            let survivors = crate::liquidation::survivors_of(vaults, target);
            let entries = crate::liquidation::spec_distribution(vaults, target);
            let after = crate::liquidation::spec_absorbed(vaults, target);
            &&& after.len() == survivors.len()
            &&& after[i].vault_id == survivors[i].vault_id
            &&& after[i].owner == survivors[i].owner
            &&& entries[i].vault_id == survivors[i].vault_id
            &&& after[i].debt() == survivors[i].debt() + entries[i].icusd_share_amount.0
            &&& after[i].margin() == survivors[i].margin() + entries[i].icp_share_amount.0
        }),
{
    let survivors = crate::liquidation::survivors_of(vaults, target);
    let entries = crate::liquidation::spec_distribution(vaults, target);
    crate::liquidation::lemma_distribution_conserves(vaults, target);
    crate::vault::lemma_vault_within_totals(survivors, i);
    crate::vault::lemma_total_bounds(crate::liquidation::icusd_handed(entries), i);
    crate::vault::lemma_total_bounds(crate::liquidation::icp_handed(entries), i);
}

/// In every state that the protocol reaches, no two guards are held for one
/// caller and one operation, and no more than a hundred guards are held.
pub proof fn lemma_guards_exclude(state: &State, i: int, j: int)
    requires
        state.wf(),
        0 <= i < j < state.operation_guards@.len(),
    ensures
        state.operation_guards@[i].principal != state.operation_guards@[j].principal
            || state.operation_guards@[i].operation != state.operation_guards@[j].operation,
        state.operation_guards@.len() <= crate::guard::MAX_CONCURRENT,
{
    let guards = state.operation_guards@;
    assert(!guards[i].has_key(guards[j].principal, guards[j].operation));
}

/// What the vaults owe and hold together is what the state reports: the
/// sums fit in a `u64` in every state that the protocol reaches, so that
/// [`State::total_borrowed_icusd_amount`] and
/// [`State::total_icp_margin_amount`] can be called and give them.
pub proof fn lemma_totals_fit(state: &State)
    requires
        state.wf(),
    ensures
        0 <= total_debt(state.vaults()) <= u64::MAX,
        0 <= crate::vault::total_margin(state.vaults()) <= u64::MAX,
{
    crate::vault::lemma_total_nonnegative(crate::vault::debts(state.vaults()));
    crate::vault::lemma_total_nonnegative(crate::vault::margins(state.vaults()));
}

} // verus!
