//! The protocol's state and the changes that are made to it.
//!
//! The state is one value.  Each method here is one change, made in one piece
//! between two waits on a ledger: it either happens as its contract says or,
//! where the arithmetic fails, not at all.

use vstd::prelude::*;
use crate::decimal::DecimalValue;
use crate::event::Event;
use crate::balances::Balances;
use crate::guard::GuardTable;
use crate::numeric::ICP;
use crate::numeric::ICUSD;
use crate::numeric::Ratio;
use crate::numeric::UsdIcp;
use crate::transfers::PendingMarginTransfer;
use crate::transfers::PendingTransfers;
use crate::vault::OwnerIndexEntry;
use crate::vault::Principal;
use crate::vault::Vault;
use crate::vault::has_vault;
use crate::vault::ids_increasing;
use crate::vault::lemma_position_unique;
use crate::vault::lemma_sorted_insert_at;
use crate::vault::lemma_store_insert;
use crate::vault::lemma_store_remove;
use crate::vault::lemma_store_update;
use crate::vault::lemma_totals_insert;
use crate::vault::lemma_totals_remove;
use crate::vault::lemma_totals_update;
use crate::vault::lemma_vault_within_totals;
use crate::vault::lemma_without_at;
use crate::vault::position_of;
use crate::vault::sorted_insert;
use crate::vault::store_wf;
use crate::vault::total_debt;
use crate::vault::total_margin;
use crate::vault::vault_with;
use crate::vault::without;

verus! {

/// What a transfer on the collateral ledger costs, until the ledger says
/// otherwise.
pub const ICP_TRANSFER_FEE: u64 = 10;

pub type VaultId = u64;

/// Controls which operations the protocol can perform.
#[derive(Clone, Copy, Debug, PartialEq, Eq, Structural)]
pub enum Mode {
    /// Protocol's state is read-only.
    ReadOnly,
    /// No restrictions on the protocol interactions.
    GeneralAvailability,
    /// The protocol tries to get back to a total collateral ratio above 150%.
    Recovery,
}

impl Mode {
    pub open spec fn spec_is_available(&self) -> bool {
        !(*self is ReadOnly)
    }

    /// Whether operations are taken at all.
    pub fn is_available(&self) -> (r: bool)
        ensures
            r == self.spec_is_available(),
    {
        match self {
            Mode::ReadOnly => false,
            Mode::GeneralAvailability => true,
            Mode::Recovery => true,
        }
    }

    /// The name of the mode.
    pub fn name(&self) -> (r: &'static str)
        ensures
            r@ == match self {
                Mode::ReadOnly => "Read-only"@,
                Mode::GeneralAvailability => "General availability"@,
                Mode::Recovery => "Recovery"@,
            },
    {
        match self {
            Mode::ReadOnly => "Read-only",
            Mode::GeneralAvailability => "General availability",
            Mode::Recovery => "Recovery",
        }
    }

    /// The ratio under which a vault is liquidated: 1.5 in recovery, 1.33
    /// otherwise.
    pub open spec fn spec_minimum_liquidation_collateral_ratio(&self) -> Ratio {
        match self {
            Mode::ReadOnly => spec_minimum_collateral_ratio(),
            Mode::GeneralAvailability => spec_minimum_collateral_ratio(),
            Mode::Recovery => spec_recovery_collateral_ratio(),
        }
    }

    pub fn get_minimum_liquidation_collateral_ratio(&self) -> (r: Ratio)
        ensures
            r == self.spec_minimum_liquidation_collateral_ratio(),
            r.valid(),
    {
        match self {
            Mode::ReadOnly => minimum_collateral_ratio(),
            Mode::GeneralAvailability => minimum_collateral_ratio(),
            Mode::Recovery => recovery_collateral_ratio(),
        }
    }
}

impl Default for Mode {
    fn default() -> (r: Self)
        ensures
            r == Mode::GeneralAvailability,
    {
        Mode::GeneralAvailability
    }
}

/// 1.33: under this ratio of collateral value to debt a vault is liquidated.
pub open spec fn spec_minimum_collateral_ratio() -> Ratio {
    Ratio::spec_new(DecimalValue { mantissa: 133, scale: 2 })
}

/// 1.5: under this ratio for the whole system the protocol is in recovery.
pub open spec fn spec_recovery_collateral_ratio() -> Ratio {
    Ratio::spec_new(DecimalValue { mantissa: 15, scale: 1 })
}

pub fn minimum_collateral_ratio() -> (r: Ratio)
    ensures
        r == spec_minimum_collateral_ratio(),
        r.valid(),
{
    Ratio::new(DecimalValue { mantissa: 133, scale: 2 })
}

pub fn recovery_collateral_ratio() -> (r: Ratio)
    ensures
        r == spec_recovery_collateral_ratio(),
        r.valid(),
{
    Ratio::new(DecimalValue { mantissa: 15, scale: 1 })
}

/// The whole state of the protocol.
#[derive(Debug)]
pub struct State {
    /// The vaults, in the order of their identifiers.
    pub vault_id_to_vaults: Vec<Vault>,
    /// The owner index: each vault once, under its owner.
    pub principal_to_vault_ids: Vec<OwnerIndexEntry>,
    /// Collateral that waits to be sent to owners, by vault.
    pub pending_margin_transfers: PendingTransfers,
    /// Collateral that waits to be sent to redeemers, by the block of the
    /// payment.
    pub pending_redemption_transfer: PendingTransfers,
    pub mode: Mode,
    /// The borrowing fee outside recovery.
    pub fee: Ratio,
    pub developer_principal: Principal,
    pub next_available_vault_id: u64,
    pub total_collateral_ratio: Ratio,
    /// The base rate of the redemption fee.
    pub current_base_rate: Ratio,
    pub last_redemption_time: u64,
    pub xrc_principal: Principal,
    pub icusd_ledger_principal: Principal,
    pub icp_ledger_principal: Principal,
    pub icp_ledger_fee: ICP,
    pub last_icp_rate: Option<UsdIcp>,
    pub last_icp_timestamp: Option<u64>,
    pub operation_guards: GuardTable,
    pub is_timer_running: bool,
    pub is_fetching_rate: bool,
    /// The stable tokens that each provider of liquidity has put in.
    pub liquidity_pool: Balances,
    /// The collateral that each provider of liquidity can claim.
    pub liquidity_returns: Balances,
    /// The event log.
    pub events: Vec<Event>,
}

/// The parts of the state that a change may touch.
pub struct Touched {
    pub store: bool,
    pub next_id: bool,
    pub pending: bool,
    pub mode: bool,
    pub rates: bool,
    pub guards: bool,
    pub events: bool,
    pub config: bool,
    pub liquidity: bool,
}

pub open spec fn nothing() -> Touched {
    Touched {
        store: false,
        next_id: false,
        pending: false,
        mode: false,
        rates: false,
        guards: false,
        events: false,
        config: false,
        liquidity: false,
    }
}

impl State {
    pub open spec fn vaults(&self) -> Seq<Vault> {
        self.vault_id_to_vaults@
    }

    /// What holds of every state that the protocol reaches.
    pub open spec fn wf(&self) -> bool {
        &&& store_wf(
            self.vault_id_to_vaults@,
            self.principal_to_vault_ids@,
            self.next_available_vault_id,
        )
        &&& self.pending_margin_transfers.wf()
        &&& self.pending_redemption_transfer.wf()
        &&& self.operation_guards.wf()
        &&& self.liquidity_pool.wf()
        &&& self.liquidity_returns.wf()
        &&& self.fee.valid()
        &&& self.total_collateral_ratio.valid()
        &&& self.current_base_rate.valid()
        &&& self.last_icp_rate is Some ==> self.last_icp_rate->0.valid()
        &&& self.last_icp_rate is Some <==> self.last_icp_timestamp is Some
    }

    /// Every part of the state that `touched` does not name is as in
    /// `before`.
    pub open spec fn differs_only_in(&self, before: &State, touched: Touched) -> bool {
        &&& !touched.store ==> {
            &&& self.vault_id_to_vaults@ == before.vault_id_to_vaults@
            &&& self.principal_to_vault_ids@ == before.principal_to_vault_ids@
        }
        &&& !touched.next_id ==> self.next_available_vault_id == before.next_available_vault_id
        &&& !touched.pending ==> {
            &&& self.pending_margin_transfers.entries@ == before.pending_margin_transfers.entries@
            &&& self.pending_redemption_transfer.entries@
                == before.pending_redemption_transfer.entries@
        }
        &&& !touched.mode ==> {
            &&& self.mode == before.mode
            &&& self.total_collateral_ratio == before.total_collateral_ratio
        }
        &&& !touched.rates ==> {
            &&& self.current_base_rate == before.current_base_rate
            &&& self.last_redemption_time == before.last_redemption_time
            &&& self.last_icp_rate == before.last_icp_rate
            &&& self.last_icp_timestamp == before.last_icp_timestamp
        }
        &&& !touched.guards ==> {
            &&& self.operation_guards.entries@ == before.operation_guards.entries@
            &&& self.is_timer_running == before.is_timer_running
            &&& self.is_fetching_rate == before.is_fetching_rate
        }
        &&& !touched.events ==> self.events@ == before.events@
        &&& !touched.liquidity ==> {
            &&& self.liquidity_pool.entries@ == before.liquidity_pool.entries@
            &&& self.liquidity_returns.entries@ == before.liquidity_returns.entries@
        }
        &&& !touched.config ==> {
            &&& self.fee == before.fee
            &&& self.developer_principal == before.developer_principal
            &&& self.xrc_principal == before.xrc_principal
            &&& self.icusd_ledger_principal == before.icusd_ledger_principal
            &&& self.icp_ledger_principal == before.icp_ledger_principal
            &&& self.icp_ledger_fee == before.icp_ledger_fee
        }
    }

    /// Where the vault with this identifier stands.
    pub fn find_vault(&self, vault_id: u64) -> (r: Option<usize>)
        requires
            ids_increasing(self.vaults()),
        ensures
            r is Some <==> has_vault(self.vaults(), vault_id),
            r is Some ==> r->0 == position_of(self.vaults(), vault_id) && r->0 < self.vaults().len()
                && self.vaults()[r->0 as int].vault_id == vault_id,
    {
        crate::vault::find_position(&self.vault_id_to_vaults, vault_id)
    }

    /// The vault with this identifier, if there is one.
    pub fn get_vault(&self, vault_id: u64) -> (r: Option<Vault>)
        requires
            ids_increasing(self.vaults()),
        ensures
            r == if has_vault(self.vaults(), vault_id) {
                Some(vault_with(self.vaults(), vault_id))
            } else {
                None
            },
    {
        match self.find_vault(vault_id) {
            Some(i) => Some(self.vault_id_to_vaults[i]),
            None => None,
        }
    }

    /// Gives out the next vault identifier.
    pub fn increment_vault_id(&mut self) -> (vault_id: u64)
        requires
            old(self).wf(),
            old(self).next_available_vault_id < u64::MAX,
        ensures
            final(self).wf(),
            vault_id == old(self).next_available_vault_id,
            final(self).next_available_vault_id == vault_id + 1,
            !has_vault(final(self).vaults(), vault_id),
            final(self).differs_only_in(old(self), (Touched { next_id: true, ..nothing() })),
    {
        let vault_id = self.next_available_vault_id;
        self.next_available_vault_id = self.next_available_vault_id + 1;
        proof {
            if has_vault(self.vaults(), vault_id) {
                let i = position_of(self.vaults(), vault_id);
                assert(self.vaults()[i].vault_id < vault_id);
            }
        }
        vault_id
    }

    /// Σ debt.
    pub fn total_borrowed_icusd_amount(&self) -> (r: ICUSD)
        requires
            total_debt(self.vaults()) <= u64::MAX,
        ensures
            r == ICUSD::spec_new(total_debt(self.vaults()) as u64),
    {
        ICUSD::new(crate::vault::sum_debts(&self.vault_id_to_vaults))
    }

    /// Σ collateral.
    pub fn total_icp_margin_amount(&self) -> (r: ICP)
        requires
            total_margin(self.vaults()) <= u64::MAX,
        ensures
            r == ICP::spec_new(total_margin(self.vaults()) as u64),
    {
        ICP::new(crate::vault::sum_margins(&self.vault_id_to_vaults))
    }

    /// Where the index lists this vault under this owner.
    pub(crate) fn find_index_entry(&self, owner: Principal, vault_id: u64) -> (r: Option<usize>)
        ensures
            r is Some ==> r->0 < self.principal_to_vault_ids@.len()
                && self.principal_to_vault_ids@[r->0 as int] == (OwnerIndexEntry {
                owner,
                vault_id,
            }),
            r is None ==> !self.principal_to_vault_ids@.contains(
                OwnerIndexEntry { owner, vault_id },
            ),
    {
        let mut k: usize = 0;
        while k < self.principal_to_vault_ids.len()
            invariant
                k <= self.principal_to_vault_ids@.len(),
                forall|m: int|
                    0 <= m < k ==> #[trigger] self.principal_to_vault_ids@[m] != (OwnerIndexEntry {
                        owner,
                        vault_id,
                    }),
            decreases self.principal_to_vault_ids@.len() - k,
        {
            let e = self.principal_to_vault_ids[k];
            if e.owner == owner && e.vault_id == vault_id {
                return Some(k);
            }
            k = k + 1;
        }
        None
    }

    /// The identifiers of the vaults of `owner`, in growing order.
    pub fn vault_ids_of(&self, owner: Principal) -> (r: Vec<u64>)
        requires
            self.wf(),
        ensures
            forall|id: u64|
                r@.contains(id) <==> crate::vault::owns(self.vaults(), owner, id),
            forall|id: u64|
                r@.contains(id) <==> crate::vault::vault_ids_of(
                    self.principal_to_vault_ids@,
                    owner,
                ).contains(id),
            forall|a: int, b: int| 0 <= a < b < r@.len() ==> r@[a] < r@[b],
    {
        let mut out: Vec<u64> = Vec::new();
        let mut i: usize = 0;
        while i < self.vault_id_to_vaults.len()
            invariant
                i <= self.vaults().len(),
                self.wf(),
                forall|id: u64|
                    out@.contains(id) <==> crate::vault::owns(
                        self.vaults().take(i as int),
                        owner,
                        id,
                    ),
                forall|a: int, b: int| 0 <= a < b < out@.len() ==> out@[a] < out@[b],
                forall|a: int|
                    0 <= a < out@.len() && i < self.vaults().len() ==> out@[a]
                        < self.vaults()[i as int].vault_id,
            decreases self.vaults().len() - i,
        {
            let v = self.vault_id_to_vaults[i];
            let ghost before = out@;
            let ghost seen = self.vaults().take(i as int);
            let ghost next = self.vaults().take(i as int + 1);
            if v.owner == owner {
                out.push(v.vault_id);
            }
            proof {
                assert forall|id: u64| out@.contains(id) <==> crate::vault::owns(
                    next,
                    owner,
                    id,
                ) by {
                    if out@.contains(id) {
                        let k = choose|k: int| 0 <= k < out@.len() && out@[k] == id;
                        if k < before.len() {
                            assert(before[k] == id);
                            assert(before.contains(id));
                            let m = choose|m: int|
                                0 <= m < seen.len() && (#[trigger] seen[m]).vault_id == id
                                    && seen[m].owner == owner;
                            assert(next[m].vault_id == id && next[m].owner == owner);
                        } else {
                            assert(next[i as int].vault_id == id && next[i as int].owner == owner);
                        }
                    }
                    if crate::vault::owns(next, owner, id) {
                        let m = choose|m: int|
                            0 <= m < next.len() && (#[trigger] next[m]).vault_id == id
                                && next[m].owner == owner;
                        if m < i {
                            assert(seen[m].vault_id == id && seen[m].owner == owner);
                            assert(before.contains(id));
                            let k = choose|k: int| 0 <= k < before.len() && before[k] == id;
                            assert(out@[k] == id);
                        } else {
                            assert(out@[out@.len() - 1] == id);
                        }
                    }
                }
                if i + 1 < self.vaults().len() {
                    assert(self.vaults()[i as int].vault_id < self.vaults()[i as int
                        + 1].vault_id);
                }
            }
            i = i + 1;
        }
        proof {
            assert(self.vaults().take(i as int) =~= self.vaults());
            assert forall|id: u64| out@.contains(id) <==> crate::vault::vault_ids_of(
                self.principal_to_vault_ids@,
                owner,
            ).contains(id) by {
                let e = OwnerIndexEntry { owner, vault_id: id };
                assert(self.principal_to_vault_ids@.contains(e) <==> crate::vault::owns(
                    self.vaults(),
                    e.owner,
                    e.vault_id,
                ));
            }
        }
        out
    }

    /// Puts `vault` in the place of the vault at `i`, which has its
    /// identifier and owner.
    pub(crate) fn update_vault_at(&mut self, i: usize, vault: Vault)
        requires
            old(self).wf(),
            i < old(self).vaults().len(),
            vault.vault_id == old(self).vaults()[i as int].vault_id,
            vault.owner == old(self).vaults()[i as int].owner,
            total_debt(old(self).vaults()) - old(self).vaults()[i as int].debt() + vault.debt()
                <= u64::MAX,
            total_margin(old(self).vaults()) - old(self).vaults()[i as int].margin()
                + vault.margin() <= u64::MAX,
        ensures
            final(self).wf(),
            final(self).vaults() == old(self).vaults().update(i as int, vault),
            final(self).vaults() == crate::vault::replaced(old(self).vaults(), vault),
            total_debt(final(self).vaults()) == total_debt(old(self).vaults()) - old(self).vaults()[i as int].debt() + vault.debt(),
            total_margin(final(self).vaults()) == total_margin(old(self).vaults()) - old(self).vaults()[i as int].margin() + vault.margin(),
            final(self).principal_to_vault_ids@ == old(self).principal_to_vault_ids@,
            final(self).differs_only_in(old(self), (Touched { store: true, ..nothing() })),
    {
        proof {
            lemma_store_update(
                self.vaults(),
                self.principal_to_vault_ids@,
                self.next_available_vault_id,
                i as int,
                vault,
            );
            lemma_totals_update(self.vaults(), i as int, vault);
            lemma_position_unique(self.vaults(), i as int);
        }
        self.vault_id_to_vaults.set(i, vault);
    }

    /// Takes the vault at `i` out of the store and out of the owner index.
    pub(crate) fn remove_vault_at(&mut self, i: usize) -> (vault: Vault)
        requires
            old(self).wf(),
            i < old(self).vaults().len(),
        ensures
            final(self).wf(),
            vault == old(self).vaults()[i as int],
            final(self).vaults() == old(self).vaults().remove(i as int),
            final(self).vaults() == without(old(self).vaults(), vault.vault_id),
            total_debt(final(self).vaults()) == total_debt(old(self).vaults()) - vault.debt(),
            total_margin(final(self).vaults()) == total_margin(old(self).vaults())
                - vault.margin(),
            final(self).differs_only_in(old(self), (Touched { store: true, ..nothing() })),
    {
        let vault = self.vault_id_to_vaults[i];
        let ghost entry = OwnerIndexEntry { owner: vault.owner, vault_id: vault.vault_id };
        proof {
            assert(crate::vault::owns(self.vaults(), vault.owner, vault.vault_id)) by {
                assert(self.vaults()[i as int].vault_id == vault.vault_id);
            }
            assert(self.principal_to_vault_ids@.contains(entry));
            lemma_without_at(self.vaults(), i as int);
            lemma_totals_remove(self.vaults(), i as int);
        }
        match self.find_index_entry(vault.owner, vault.vault_id) {
            Some(k) => {
                proof {
                    lemma_store_remove(
                        self.vaults(),
                        self.principal_to_vault_ids@,
                        self.next_available_vault_id,
                        i as int,
                        k as int,
                    );
                }
                let _ = self.principal_to_vault_ids.remove(k);
                let _ = self.vault_id_to_vaults.remove(i);
            },
            None => {
                assert(false);
            },
        }
        vault
    }

    /// Adds a vault to the store and lists it under its owner.
    ///
    /// The vault's identifier has been given out and is not in use, and the
    /// sums of debt and margin still fit in a `u64` with the vault.
    pub fn open_vault(&mut self, vault: Vault)
        requires
            old(self).wf(),
            vault.vault_id < old(self).next_available_vault_id,
            !has_vault(old(self).vaults(), vault.vault_id),
            total_debt(old(self).vaults()) + vault.debt() <= u64::MAX,
            total_margin(old(self).vaults()) + vault.margin() <= u64::MAX,
        ensures
            final(self).wf(),
            final(self).vaults() == sorted_insert(old(self).vaults(), vault),
            has_vault(final(self).vaults(), vault.vault_id),
            vault_with(final(self).vaults(), vault.vault_id) == vault,
            total_debt(final(self).vaults()) == total_debt(old(self).vaults()) + vault.debt(),
            total_margin(final(self).vaults()) == total_margin(old(self).vaults())
                + vault.margin(),
            final(self).differs_only_in(old(self), (Touched { store: true, ..nothing() })),
    {
        let mut p: usize = 0;
        while p < self.vault_id_to_vaults.len() && self.vault_id_to_vaults[p].vault_id
            < vault.vault_id
            invariant
                p <= self.vaults().len(),
                forall|k: int| 0 <= k < p ==> (#[trigger] self.vaults()[k]).vault_id < vault.vault_id,
            decreases self.vaults().len() - p,
        {
            p = p + 1;
        }
        proof {
            assert forall|k: int| p <= k < self.vaults().len() implies (
            #[trigger] self.vaults()[k]).vault_id > vault.vault_id by {
                assert(self.vaults()[k].vault_id != vault.vault_id);
                if k > p {
                    assert(self.vaults()[p as int].vault_id < self.vaults()[k].vault_id);
                }
            }
            lemma_sorted_insert_at(self.vaults(), vault, p as int);
            lemma_store_insert(
                self.vaults(),
                self.principal_to_vault_ids@,
                self.next_available_vault_id,
                vault,
                p as int,
            );
            lemma_totals_insert(self.vaults(), p as int, vault);
        }
        self.vault_id_to_vaults.insert(p, vault);
        self.principal_to_vault_ids.push(
            OwnerIndexEntry { owner: vault.owner, vault_id: vault.vault_id },
        );
        proof {
            lemma_position_unique(self.vaults(), p as int);
        }
    }

    /// Removes a vault and queues its collateral, less the ledger's fee, for
    /// its owner.
    ///
    /// The vault exists and holds at least the fee.
    pub fn close_vault(&mut self, vault_id: u64)
        requires
            old(self).wf(),
            has_vault(old(self).vaults(), vault_id),
            vault_with(old(self).vaults(), vault_id).margin() >= old(self).icp_ledger_fee.0,
        ensures
            final(self).wf(),
            final(self).vaults() == without(old(self).vaults(), vault_id),
            !has_vault(final(self).vaults(), vault_id),
            total_debt(final(self).vaults()) == total_debt(old(self).vaults()) - vault_with(
                old(self).vaults(),
                vault_id,
            ).debt(),
            total_margin(final(self).vaults()) == total_margin(old(self).vaults()) - vault_with(
                old(self).vaults(),
                vault_id,
            ).margin(),
            final(self).pending_margin_transfers@ == old(self).pending_margin_transfers@.insert(
                vault_id,
                PendingMarginTransfer {
                    owner: vault_with(old(self).vaults(), vault_id).owner,
                    margin: ICP::spec_new(
                        (vault_with(old(self).vaults(), vault_id).margin() - old(self).icp_ledger_fee.0) as u64,
                    ),
                },
            ),
            final(self).pending_redemption_transfer.entries@ == old(self).pending_redemption_transfer.entries@,
            final(self).differs_only_in(
                old(self),
                (Touched { store: true, pending: true, ..nothing() }),
            ),
    {
        match self.find_vault(vault_id) {
            Some(i) => {
                let vault = self.remove_vault_at(i);
                let margin = ICP::new(vault.icp_margin_amount.0 - self.icp_ledger_fee.0);
                self.pending_margin_transfers.insert(
                    vault_id,
                    PendingMarginTransfer { owner: vault.owner, margin },
                );
                proof {
                    lemma_removed_is_gone(old(self).vaults(), i as int);
                }
            },
            None => {
                assert(false);
            },
        }
    }

    /// Adds to what a vault owes.
    ///
    /// The vault exists, and the sum of debt still fits in a `u64`.
    pub fn borrow_from_vault(&mut self, vault_id: u64, borrowed_amount: ICUSD)
        requires
            old(self).wf(),
            has_vault(old(self).vaults(), vault_id),
            total_debt(old(self).vaults()) + borrowed_amount.0 <= u64::MAX,
        ensures
            final(self).wf(),
            final(self).vaults() == crate::vault::replaced(
                old(self).vaults(),
                vault_with(old(self).vaults(), vault_id).with_debt(
                    (vault_with(old(self).vaults(), vault_id).debt() + borrowed_amount.0) as u64,
                ),
            ),
            has_vault(final(self).vaults(), vault_id),
            total_debt(final(self).vaults()) == total_debt(old(self).vaults())
                + borrowed_amount.0,
            total_margin(final(self).vaults()) == total_margin(old(self).vaults()),
            final(self).differs_only_in(old(self), (Touched { store: true, ..nothing() })),
    {
        match self.find_vault(vault_id) {
            Some(i) => {
                let vault = self.vault_id_to_vaults[i];
                proof {
                    lemma_vault_within_totals(self.vaults(), i as int);
                }
                let changed = Vault {
                    owner: vault.owner,
                    borrowed_icusd_amount: ICUSD::new(
                        vault.borrowed_icusd_amount.0 + borrowed_amount.0,
                    ),
                    icp_margin_amount: vault.icp_margin_amount,
                    vault_id: vault.vault_id,
                };
                self.update_vault_at(i, changed);
                proof {
                    assert(self.vaults()[i as int].vault_id == vault_id);
                }
            },
            None => {
                assert(false);
            },
        }
    }

    /// Adds to the collateral of a vault.
    ///
    /// The vault exists, and the sum of margin still fits in a `u64`.
    pub fn add_margin_to_vault(&mut self, vault_id: u64, add_margin: ICP)
        requires
            old(self).wf(),
            has_vault(old(self).vaults(), vault_id),
            total_margin(old(self).vaults()) + add_margin.0 <= u64::MAX,
        ensures
            final(self).wf(),
            final(self).vaults() == crate::vault::replaced(
                old(self).vaults(),
                vault_with(old(self).vaults(), vault_id).with_margin(
                    (vault_with(old(self).vaults(), vault_id).margin() + add_margin.0) as u64,
                ),
            ),
            has_vault(final(self).vaults(), vault_id),
            total_margin(final(self).vaults()) == total_margin(old(self).vaults())
                + add_margin.0,
            total_debt(final(self).vaults()) == total_debt(old(self).vaults()),
            final(self).differs_only_in(old(self), (Touched { store: true, ..nothing() })),
    {
        match self.find_vault(vault_id) {
            Some(i) => {
                let vault = self.vault_id_to_vaults[i];
                proof {
                    lemma_vault_within_totals(self.vaults(), i as int);
                }
                let changed = Vault {
                    owner: vault.owner,
                    borrowed_icusd_amount: vault.borrowed_icusd_amount,
                    icp_margin_amount: ICP::new(vault.icp_margin_amount.0 + add_margin.0),
                    vault_id: vault.vault_id,
                };
                self.update_vault_at(i, changed);
                proof {
                    assert(self.vaults()[i as int].vault_id == vault_id);
                }
            },
            None => {
                assert(false);
            },
        }
    }

    /// Takes from what a vault owes.
    ///
    /// The vault exists and owes at least `repayed_amount`.
    pub fn repay_to_vault(&mut self, vault_id: u64, repayed_amount: ICUSD)
        requires
            old(self).wf(),
            has_vault(old(self).vaults(), vault_id),
            repayed_amount.0 <= vault_with(old(self).vaults(), vault_id).debt(),
        ensures
            final(self).wf(),
            final(self).vaults() == crate::vault::replaced(
                old(self).vaults(),
                vault_with(old(self).vaults(), vault_id).with_debt(
                    (vault_with(old(self).vaults(), vault_id).debt() - repayed_amount.0) as u64,
                ),
            ),
            has_vault(final(self).vaults(), vault_id),
            total_debt(final(self).vaults()) == total_debt(old(self).vaults())
                - repayed_amount.0,
            total_margin(final(self).vaults()) == total_margin(old(self).vaults()),
            final(self).differs_only_in(old(self), (Touched { store: true, ..nothing() })),
    {
        match self.find_vault(vault_id) {
            Some(i) => {
                let vault = self.vault_id_to_vaults[i];
                proof {
                    lemma_vault_within_totals(self.vaults(), i as int);
                }
                let changed = Vault {
                    owner: vault.owner,
                    borrowed_icusd_amount: ICUSD::new(
                        vault.borrowed_icusd_amount.0 - repayed_amount.0,
                    ),
                    icp_margin_amount: vault.icp_margin_amount,
                    vault_id: vault.vault_id,
                };
                self.update_vault_at(i, changed);
                proof {
                    assert(self.vaults()[i as int].vault_id == vault_id);
                }
            },
            None => {
                assert(false);
            },
        }
    }
}

/// A vault that was taken out of a sequence with growing identifiers does
/// not occur in what is left.
pub proof fn lemma_removed_is_gone(vaults: Seq<Vault>, i: int)
    requires
        ids_increasing(vaults),
        0 <= i < vaults.len(),
    ensures
        !has_vault(vaults.remove(i), vaults[i].vault_id),
{
    let after = vaults.remove(i);
    if has_vault(after, vaults[i].vault_id) {
        let k = position_of(after, vaults[i].vault_id);
        let ok = if k < i { k } else { k + 1 };
        assert(vaults[ok].vault_id == vaults[i].vault_id);
        if ok < i {
            assert(vaults[ok].vault_id < vaults[i].vault_id);
        } else {
            assert(vaults[i].vault_id < vaults[ok].vault_id);
        }
    }
}

/// 1: under this ratio for the whole system the protocol is read-only.
pub open spec fn spec_one_ratio() -> Ratio {
    Ratio::spec_new(DecimalValue { mantissa: 10, scale: 1 })
}

/// 0.01: under this price the protocol is read-only.
pub open spec fn spec_price_floor() -> UsdIcp {
    UsdIcp::spec_new(DecimalValue { mantissa: 1, scale: 2 })
}

/// 0.005: the least base rate after a redemption.
pub open spec fn spec_min_base_rate() -> Ratio {
    Ratio::spec_new(DecimalValue { mantissa: 5, scale: 3 })
}

/// 0.05: the largest base rate.
pub open spec fn spec_max_base_rate() -> Ratio {
    Ratio::spec_new(DecimalValue { mantissa: 5, scale: 2 })
}

/// 0.94: what is left of the base rate after an hour.
pub open spec fn spec_decay_factor() -> Ratio {
    Ratio::spec_new(DecimalValue { mantissa: 94, scale: 2 })
}

/// 0.5: the part of the redeemed proportion that is added to the base rate.
pub open spec fn spec_redeemed_proportion() -> Ratio {
    Ratio::spec_new(DecimalValue { mantissa: 5, scale: 1 })
}

/// The borrowing fee that is set where no other is given: 0.005.
pub open spec fn spec_default_borrow_fee() -> Ratio {
    Ratio::spec_new(DecimalValue { mantissa: 5, scale: 3 })
}

pub fn default_borrow_fee() -> (r: Ratio)
    ensures
        r == spec_default_borrow_fee(),
        r.valid(),
{
    Ratio::new(DecimalValue { mantissa: 5, scale: 3 })
}

/// The mode that goes with a total collateral ratio and a price: read-only
/// under the price floor or under a ratio of 1, recovery under a ratio of
/// 1.5, and general availability from there on.
pub open spec fn spec_mode_for(total_collateral_ratio: Ratio, icp_rate: UsdIcp) -> Mode {
    if icp_rate.0.value_lt(spec_price_floor().0) {
        Mode::ReadOnly
    } else if total_collateral_ratio.0.value_lt(spec_one_ratio().0) {
        Mode::ReadOnly
    } else if total_collateral_ratio.0.value_lt(spec_recovery_collateral_ratio().0) {
        Mode::Recovery
    } else {
        Mode::GeneralAvailability
    }
}

/// The mode that goes with a total collateral ratio and a price.
pub fn mode_for(total_collateral_ratio: Ratio, icp_rate: UsdIcp) -> (mode: Mode)
    requires
        total_collateral_ratio.valid(),
        icp_rate.valid(),
    ensures
        mode == spec_mode_for(total_collateral_ratio, icp_rate),
{
    if icp_rate.lt(UsdIcp::new(DecimalValue { mantissa: 1, scale: 2 })) {
        Mode::ReadOnly
    } else if total_collateral_ratio.lt(Ratio::new(DecimalValue { mantissa: 10, scale: 1 })) {
        Mode::ReadOnly
    } else if total_collateral_ratio.lt(recovery_collateral_ratio()) {
        Mode::Recovery
    } else {
        Mode::GeneralAvailability
    }
}

/// The rate between the least and the largest base rate that is nearest to
/// `total_rate`.
pub open spec fn spec_clamp_rate(total_rate: Ratio) -> Ratio {
    let raised = if spec_min_base_rate().0.value_lt(total_rate.0) {
        total_rate
    } else {
        spec_min_base_rate()
    };
    if spec_max_base_rate().0.value_lt(raised.0) {
        spec_max_base_rate()
    } else {
        raised
    }
}

/// Brings a rate into the range from 0.005 to 0.05.
pub fn clamp_rate(total_rate: Ratio) -> (r: Ratio)
    requires
        total_rate.valid(),
    ensures
        r == spec_clamp_rate(total_rate),
        r.valid(),
        spec_min_base_rate().0.value_le(r.0),
        r.0.value_le(spec_max_base_rate().0),
{
    let least = Ratio::new(DecimalValue { mantissa: 5, scale: 3 });
    let largest = Ratio::new(DecimalValue { mantissa: 5, scale: 2 });
    proof {
        lemma_clamp_bounds(total_rate);
    }
    total_rate.max(least).min(largest)
}

/// A clamped rate is at least 0.005 and at most 0.05.
pub proof fn lemma_clamp_bounds(total_rate: Ratio)
    ensures
        spec_min_base_rate().0.value_le(spec_clamp_rate(total_rate).0),
        spec_clamp_rate(total_rate).0.value_le(spec_max_base_rate().0),
{
    reveal_with_fuel(crate::decimal::pow10, 4);
    let r = spec_clamp_rate(total_rate);
    assert(spec_min_base_rate().0.value_le(spec_max_base_rate().0));
    assert(spec_min_base_rate().0.value_le(spec_min_base_rate().0));
    assert(spec_max_base_rate().0.value_le(spec_max_base_rate().0));
}

/// The base rate after a redemption: what is left of the rate before after
/// the hours that have passed, plus half of the part of all debt that is
/// redeemed, brought into the range from 0.005 to 0.05.  Zero where there is
/// no debt.
pub open spec fn spec_redemption_fee(
    elapsed_hours: u64,
    redeemed_amount: u64,
    total_borrowed: u64,
    current_base_rate: Ratio,
) -> Option<Ratio> {
    if total_borrowed == 0 {
        Some(Ratio::spec_new(crate::decimal::spec_zero()))
    } else {
        match crate::numeric::decimal_pow(spec_decay_factor().0, elapsed_hours as nat) {
            None => None,
            Some(decay) => match crate::decimal::decimal_product(current_base_rate.0, decay) {
                None => None,
                Some(rate) => match crate::numeric::token_ratio(redeemed_amount, total_borrowed) {
                    None => None,
                    Some(part) => match crate::decimal::decimal_product(
                        part,
                        spec_redeemed_proportion().0,
                    ) {
                        None => None,
                        Some(added) => match crate::decimal::decimal_sum(rate, added) {
                            None => None,
                            Some(total_rate) => Some(
                                spec_clamp_rate(Ratio::spec_new(total_rate)),
                            ),
                        },
                    },
                },
            },
        }
    }
}

/// The base rate after a redemption of `redeemed_amount` out of
/// `total_borrowed_icusd_amount`, `elapsed_hours` after the last one.
pub fn compute_redemption_fee(
    elapsed_hours: u64,
    redeemed_amount: ICUSD,
    total_borrowed_icusd_amount: ICUSD,
    current_base_rate: Ratio,
) -> (r: Option<Ratio>)
    requires
        current_base_rate.valid(),
    ensures
        r == spec_redemption_fee(
            elapsed_hours,
            redeemed_amount.0,
            total_borrowed_icusd_amount.0,
            current_base_rate,
        ),
        r is Some ==> r->0.valid(),
        r is Some && total_borrowed_icusd_amount.0 != 0 ==> spec_min_base_rate().0.value_le(
            r->0.value(),
        ) && r->0.value().value_le(spec_max_base_rate().0),
{
    if total_borrowed_icusd_amount.0 == 0 {
        return Some(Ratio::new(DecimalValue::zero()));
    }
    let decay_factor = Ratio::new(DecimalValue { mantissa: 94, scale: 2 });
    let redeemed_proportion = Ratio::new(DecimalValue { mantissa: 5, scale: 1 });
    let decay = match decay_factor.pow(elapsed_hours) {
        Some(decay) => decay,
        None => {
            return None;
        },
    };
    let rate = match current_base_rate.checked_mul(decay) {
        Some(rate) => rate,
        None => {
            return None;
        },
    };
    let part = match redeemed_amount.checked_div(total_borrowed_icusd_amount) {
        Some(part) => part,
        None => {
            return None;
        },
    };
    let added = match part.checked_mul(redeemed_proportion) {
        Some(added) => added,
        None => {
            return None;
        },
    };
    match rate.checked_add(added) {
        Some(total_rate) => Some(clamp_rate(total_rate)),
        None => None,
    }
}

/// Nanoseconds in an hour.
pub const HOUR_NANOS: u64 = 3_600_000_000_000;

/// A price older than this is not used: ten minutes.
pub const PRICE_MAX_AGE_NANOS: u64 = 600_000_000_000;

/// The whole hours from `since` to `now`; none if the clock went back.
pub open spec fn spec_elapsed_hours(now: u64, since: u64) -> u64 {
    if now >= since {
        ((now - since) / (HOUR_NANOS as int)) as u64
    } else {
        0
    }
}

/// How an update of the mode ended.
#[derive(Clone, Copy, Debug, PartialEq, Eq, Structural)]
pub enum ModeUpdate {
    /// The mode is as before.
    Unchanged,
    /// The mode has changed, and the change is in the event log.
    Changed { from: Mode, to: Mode },
    /// The total collateral ratio could not be computed: nothing has changed.
    Failed,
}

impl State {
    /// The state at the start: no vaults, no price, general availability.
    /// `None` where the fee cannot be brought into a decimal.
    pub fn new(args: crate::InitArg) -> (r: Option<State>)
        ensures
            r is Some <==> crate::numeric::token_as_decimal(args.fee_e8s) is Some,
            r is Some ==> {
                &&& r->0.wf()
                &&& r->0.vaults().len() == 0
                &&& r->0.events@.len() == 0
                &&& r->0.operation_guards.entries@.len() == 0
                &&& r->0.pending_margin_transfers.entries@.len() == 0
                &&& r->0.pending_redemption_transfer.entries@.len() == 0
                &&& r->0.liquidity_pool.entries@.len() == 0
                &&& r->0.liquidity_returns.entries@.len() == 0
                &&& r->0.mode == Mode::GeneralAvailability
                &&& r->0.fee == Ratio::spec_new(crate::numeric::token_as_decimal(args.fee_e8s)->0)
                &&& r->0.next_available_vault_id == 0
                &&& r->0.last_icp_rate is None
                &&& r->0.last_icp_timestamp is None
                &&& r->0.icp_ledger_fee == ICP::spec_new(ICP_TRANSFER_FEE)
                &&& r->0.current_base_rate == Ratio::spec_new(crate::decimal::spec_zero())
                &&& r->0.last_redemption_time == 0
                &&& r->0.total_collateral_ratio == Ratio::spec_new(
                    crate::decimal::spec_max_value(),
                )
                &&& r->0.developer_principal == args.developer_principal
                &&& r->0.xrc_principal == args.xrc_principal
                &&& r->0.icusd_ledger_principal == args.icusd_ledger_principal
                &&& r->0.icp_ledger_principal == args.icp_ledger_principal
                &&& !r->0.is_timer_running
                &&& !r->0.is_fetching_rate
            },
    {
        let fee = match crate::numeric::fee_from_e8s(args.fee_e8s) {
            Some(fee) => fee,
            None => {
                return None;
            },
        };
        let state = State {
            last_redemption_time: 0,
            current_base_rate: Ratio::new(DecimalValue::zero()),
            fee,
            developer_principal: args.developer_principal,
            principal_to_vault_ids: Vec::new(),
            pending_redemption_transfer: PendingTransfers::new(),
            vault_id_to_vaults: Vec::new(),
            xrc_principal: args.xrc_principal,
            icusd_ledger_principal: args.icusd_ledger_principal,
            icp_ledger_principal: args.icp_ledger_principal,
            icp_ledger_fee: ICP::new(ICP_TRANSFER_FEE),
            mode: Mode::GeneralAvailability,
            total_collateral_ratio: Ratio::new(DecimalValue::max_value()),
            last_icp_timestamp: None,
            last_icp_rate: None,
            next_available_vault_id: 0,
            operation_guards: GuardTable::new(),
            pending_margin_transfers: PendingTransfers::new(),
            is_timer_running: false,
            is_fetching_rate: false,
            liquidity_pool: Balances::new(),
            liquidity_returns: Balances::new(),
            events: Vec::new(),
        };
        proof {
            assert(crate::vault::debts(state.vaults()) =~= Seq::<int>::empty());
            assert(crate::vault::margins(state.vaults()) =~= Seq::<int>::empty());
            assert forall|e: OwnerIndexEntry| #[trigger]
                state.principal_to_vault_ids@.contains(e) <==> crate::vault::owns(
                    state.vaults(),
                    e.owner,
                    e.vault_id,
                ) by {}
        }
        Some(state)
    }

    /// Sets what an upgrade sets: the mode, where one is given.
    pub fn upgrade(&mut self, args: crate::UpgradeArg)
        ensures
            final(self).mode == match args.mode {
                Some(mode) => mode,
                None => old(self).mode,
            },
            final(self).total_collateral_ratio == old(self).total_collateral_ratio,
            final(self).differs_only_in(old(self), (Touched { mode: true, ..nothing() })),
            old(self).wf() ==> final(self).wf(),
    {
        if let Some(mode) = args.mode {
            self.mode = mode;
        }
    }

    /// Whether the last price is fresh at `now`: there is one, and it is not
    /// older than ten minutes.
    pub open spec fn price_is_fresh(&self, now: u64) -> bool {
        self.last_icp_timestamp matches Some(at) && crate::guard::age(now, at)
            <= PRICE_MAX_AGE_NANOS
    }

    /// Turns the caller away where no price is known or the last one is too
    /// old.
    pub fn check_price_not_too_old(&self, now: u64) -> (r: Result<(), crate::ProtocolError>)
        ensures
            r is Ok <==> self.price_is_fresh(now),
            r is Err ==> r->Err_0 is TemporarilyUnavailable,
    {
        let last_icp_timestamp = match self.last_icp_timestamp {
            Some(last_icp_timestamp) => last_icp_timestamp,
            None => {
                return Err(
                    crate::ProtocolError::TemporarilyUnavailable("No ICP price fetched".to_owned()),
                );
            },
        };
        let elapsed = if now >= last_icp_timestamp {
            now - last_icp_timestamp
        } else {
            0
        };
        if elapsed > PRICE_MAX_AGE_NANOS {
            return Err(
                crate::ProtocolError::TemporarilyUnavailable(
                    "Last known ICP price too old".to_owned(),
                ),
            );
        }
        Ok(())
    }

    /// The total collateral ratio at a price: the value of all collateral
    /// over all debt.
    pub open spec fn spec_total_collateral_ratio(&self, icp_rate: UsdIcp) -> Option<Ratio> {
        crate::spec_ratio_of(
            total_margin(self.vaults()) as u64,
            total_debt(self.vaults()) as u64,
            icp_rate,
        )
    }

    pub fn compute_total_collateral_ratio(&self, icp_rate: UsdIcp) -> (r: Option<Ratio>)
        requires
            self.wf(),
            icp_rate.valid(),
        ensures
            r == self.spec_total_collateral_ratio(icp_rate),
            r is Some ==> r->0.valid(),
    {
        crate::ratio_of(
            self.total_icp_margin_amount(),
            self.total_borrowed_icusd_amount(),
            icp_rate,
        )
    }

    /// The base rate that a redemption of `redeemed_amount` at `now` sets.
    pub fn get_redemption_fee(&self, redeemed_amount: ICUSD, now: u64) -> (r: Option<Ratio>)
        requires
            self.wf(),
        ensures
            r == spec_redemption_fee(
                spec_elapsed_hours(now, self.last_redemption_time),
                redeemed_amount.0,
                total_debt(self.vaults()) as u64,
                self.current_base_rate,
            ),
            r is Some ==> r->0.valid(),
            r is Some && total_debt(self.vaults()) != 0 ==> spec_min_base_rate().0.value_le(
                r->0.value(),
            ) && r->0.value().value_le(spec_max_base_rate().0),
    {
        let elapsed_hours = if now >= self.last_redemption_time {
            (now - self.last_redemption_time) / HOUR_NANOS
        } else {
            0
        };
        proof {
            crate::vault::lemma_total_nonnegative(crate::vault::debts(self.vaults()));
        }
        compute_redemption_fee(
            elapsed_hours,
            redeemed_amount,
            self.total_borrowed_icusd_amount(),
            self.current_base_rate,
        )
    }

    /// The fee on borrowing: none in recovery, the configured fee otherwise.
    pub fn get_borrowing_fee(&self) -> (r: Ratio)
        ensures
            r == if self.mode == Mode::Recovery {
                Ratio::spec_new(crate::decimal::spec_zero())
            } else {
                self.fee
            },
            self.wf() ==> r.valid(),
    {
        match self.mode {
            Mode::Recovery => Ratio::new(DecimalValue::zero()),
            Mode::GeneralAvailability => self.fee,
            Mode::ReadOnly => self.fee,
        }
    }

    /// Computes the total collateral ratio at the price `icp_rate`, and sets
    /// the mode that goes with it.  A change of mode is logged.
    pub fn update_total_collateral_ratio_and_mode(&mut self, icp_rate: UsdIcp) -> (update:
        ModeUpdate)
        requires
            old(self).wf(),
            icp_rate.valid(),
        ensures
            final(self).wf(),
            final(self).differs_only_in(
                old(self),
                (Touched { mode: true, events: true, ..nothing() }),
            ),
            match old(self).spec_total_collateral_ratio(icp_rate) {
                None => update is Failed && final(self).mode == old(self).mode && final(self).total_collateral_ratio == old(self).total_collateral_ratio && final(self).events@ == old(self).events@,
                Some(ratio) => {
                    &&& final(self).total_collateral_ratio == ratio
                    &&& final(self).mode == spec_mode_for(ratio, icp_rate)
                    &&& if final(self).mode == old(self).mode {
                        update is Unchanged && final(self).events@ == old(self).events@
                    } else {
                        update == (ModeUpdate::Changed {
                            from: old(self).mode,
                            to: final(self).mode,
                        }) && final(self).events@ == old(self).events@.push(
                            Event::ModeChange { from: old(self).mode, to: final(self).mode },
                        )
                    }
                },
            },
    {
        let previous_mode = self.mode;
        let ratio = match self.compute_total_collateral_ratio(icp_rate) {
            Some(ratio) => ratio,
            None => {
                return ModeUpdate::Failed;
            },
        };
        self.total_collateral_ratio = ratio;
        self.mode = mode_for(ratio, icp_rate);
        if previous_mode != self.mode {
            self.events.push(Event::ModeChange { from: previous_mode, to: self.mode });
            ModeUpdate::Changed { from: previous_mode, to: self.mode }
        } else {
            ModeUpdate::Unchanged
        }
    }
}

/// The total collateral ratio of `vaults` at a price.
pub open spec fn spec_tcr(vaults: Seq<Vault>, icp_rate: UsdIcp) -> Option<Ratio> {
    crate::spec_ratio_of(total_margin(vaults) as u64, total_debt(vaults) as u64, icp_rate)
}

/// The mode after the mode is brought up to date: the mode that goes with
/// the total collateral ratio of `vaults` at the last price; the mode before
/// where no price is known or the ratio cannot be computed.
pub open spec fn mode_after(vaults: Seq<Vault>, icp_rate: Option<UsdIcp>, before: Mode) -> Mode {
    match icp_rate {
        Some(rate) => match spec_tcr(vaults, rate) {
            Some(ratio) => spec_mode_for(ratio, rate),
            None => before,
        },
        None => before,
    }
}

/// The total collateral ratio that is recorded after the mode is brought up
/// to date.
pub open spec fn ratio_after(vaults: Seq<Vault>, icp_rate: Option<UsdIcp>, before: Ratio) -> Ratio {
    match icp_rate {
        Some(rate) => match spec_tcr(vaults, rate) {
            Some(ratio) => ratio,
            None => before,
        },
        None => before,
    }
}

/// The event log after a change of mode from `from` to `to`, if it is one.
pub open spec fn logged(events: Seq<Event>, from: Mode, to: Mode) -> Seq<Event> {
    if from == to {
        events
    } else {
        events.push(Event::ModeChange { from, to })
    }
}

impl State {
    /// The mode is the one that goes with the vaults and the last price.
    pub open spec fn mode_is_current(&self) -> bool {
        &&& self.mode == mode_after(self.vaults(), self.last_icp_rate, self.mode)
        &&& self.total_collateral_ratio == ratio_after(
            self.vaults(),
            self.last_icp_rate,
            self.total_collateral_ratio,
        )
    }

    /// Brings the mode up to date with the vaults at the last price, where
    /// one is known.  A change of mode is logged.
    pub fn refresh_mode(&mut self) -> (update: ModeUpdate)
        requires
            old(self).wf(),
        ensures
            final(self).wf(),
            final(self).differs_only_in(
                old(self),
                (Touched { mode: true, events: true, ..nothing() }),
            ),
            final(self).mode == mode_after(
                old(self).vaults(),
                old(self).last_icp_rate,
                old(self).mode,
            ),
            final(self).total_collateral_ratio == ratio_after(
                old(self).vaults(),
                old(self).last_icp_rate,
                old(self).total_collateral_ratio,
            ),
            final(self).events@ == logged(old(self).events@, old(self).mode, final(self).mode),
            final(self).mode_is_current(),
            update == if old(self).last_icp_rate is Some && spec_tcr(
                old(self).vaults(),
                old(self).last_icp_rate->0,
            ) is None {
                ModeUpdate::Failed
            } else if final(self).mode == old(self).mode {
                ModeUpdate::Unchanged
            } else {
                ModeUpdate::Changed { from: old(self).mode, to: final(self).mode }
            },
    {
        match self.last_icp_rate {
            Some(rate) => self.update_total_collateral_ratio_and_mode(rate),
            None => ModeUpdate::Unchanged,
        }
    }

    /// Appends an event to the log.
    pub fn record_event(&mut self, event: Event)
        ensures
            final(self).events@ == old(self).events@.push(event),
            final(self).differs_only_in(old(self), (Touched { events: true, ..nothing() })),
            old(self).wf() ==> final(self).wf(),
    {
        self.events.push(event);
    }
}

impl State {
    /// Takes in liquidity of `caller`.  Nothing changes nothing.
    ///
    /// What the caller has provided with `amount` fits in a `u64`.
    pub fn provide_liquidity(&mut self, amount: ICUSD, caller: Principal)
        requires
            old(self).wf(),
            old(self).liquidity_pool.spec_get(caller) + amount.0 <= u64::MAX,
        ensures
            final(self).wf(),
            final(self).liquidity_pool.spec_get(caller) == old(self).liquidity_pool.spec_get(
                caller,
            ) + amount.0,
            forall|other: Principal|
                other != caller ==> final(self).liquidity_pool.spec_get(other) == old(self).liquidity_pool.spec_get(other),
            final(self).liquidity_pool.spec_total() == old(self).liquidity_pool.spec_total()
                + amount.0,
            final(self).liquidity_returns.entries@ == old(self).liquidity_returns.entries@,
            final(self).differs_only_in(old(self), (Touched { liquidity: true, ..nothing() })),
    {
        self.liquidity_pool.add(caller, amount.0);
    }

    /// Gives back liquidity of `caller`.
    ///
    /// The caller has provided at least `amount`.
    pub fn withdraw_liquidity(&mut self, amount: ICUSD, caller: Principal)
        requires
            old(self).wf(),
            crate::balances::has_entry(old(self).liquidity_pool.entries@, caller),
            amount.0 <= old(self).liquidity_pool.spec_get(caller),
        ensures
            final(self).wf(),
            final(self).liquidity_pool.spec_get(caller) == old(self).liquidity_pool.spec_get(
                caller,
            ) - amount.0,
            forall|other: Principal|
                other != caller ==> final(self).liquidity_pool.spec_get(other) == old(self).liquidity_pool.spec_get(other),
            final(self).liquidity_pool.spec_total() == old(self).liquidity_pool.spec_total()
                - amount.0,
            final(self).liquidity_returns.entries@ == old(self).liquidity_returns.entries@,
            final(self).differs_only_in(old(self), (Touched { liquidity: true, ..nothing() })),
    {
        self.liquidity_pool.take(caller, amount.0);
    }

    /// Hands out returns of `caller`.
    ///
    /// The caller can claim at least `amount`.
    pub fn claim_liquidity_returns(&mut self, amount: ICP, caller: Principal)
        requires
            old(self).wf(),
            crate::balances::has_entry(old(self).liquidity_returns.entries@, caller),
            amount.0 <= old(self).liquidity_returns.spec_get(caller),
        ensures
            final(self).wf(),
            final(self).liquidity_returns.spec_get(caller) == old(self).liquidity_returns.spec_get(caller) - amount.0,
            forall|other: Principal|
                other != caller ==> final(self).liquidity_returns.spec_get(other) == old(self).liquidity_returns.spec_get(other),
            final(self).liquidity_returns.spec_total() == old(self).liquidity_returns.spec_total()
                - amount.0,
            final(self).liquidity_pool.entries@ == old(self).liquidity_pool.entries@,
            final(self).differs_only_in(old(self), (Touched { liquidity: true, ..nothing() })),
    {
        self.liquidity_returns.take(caller, amount.0);
    }

    /// What `principal` can claim.
    pub fn get_liquidity_returns_of(&self, principal: Principal) -> (r: ICP)
        requires
            self.wf(),
        ensures
            r == ICP::spec_new(self.liquidity_returns.spec_get(principal)),
    {
        ICP::new(self.liquidity_returns.get(principal))
    }

    /// What `principal` has provided.
    pub fn get_provided_liquidity(&self, principal: Principal) -> (r: ICUSD)
        requires
            self.wf(),
        ensures
            r == ICUSD::spec_new(self.liquidity_pool.spec_get(principal)),
    {
        ICUSD::new(self.liquidity_pool.get(principal))
    }

    /// All liquidity that is provided.
    ///
    /// The sum fits in a `u64`.
    pub fn total_provided_liquidity_amount(&self) -> (r: ICUSD)
        requires
            self.liquidity_pool.spec_total() <= u64::MAX,
        ensures
            r == ICUSD::spec_new(self.liquidity_pool.spec_total() as u64),
    {
        ICUSD::new(self.liquidity_pool.total())
    }

    /// All returns that can be claimed.
    ///
    /// The sum fits in a `u64`.
    pub fn total_available_returns(&self) -> (r: ICP)
        requires
            self.liquidity_returns.spec_total() <= u64::MAX,
        ensures
            r == ICP::spec_new(self.liquidity_returns.spec_total() as u64),
    {
        ICP::new(self.liquidity_returns.total())
    }

    /// Every entry of the owner index names a vault of the store, and the
    /// index has as many entries as there are vaults.
    pub open spec fn index_is_sound(&self) -> bool {
        &&& self.vault_id_to_vaults@.len() <= self.principal_to_vault_ids@.len()
        &&& forall|k: int|
            0 <= k < self.principal_to_vault_ids@.len() ==> has_vault(
                self.vaults(),
                (#[trigger] self.principal_to_vault_ids@[k]).vault_id,
            )
    }

    /// Checks the owner index against the vaults: see
    /// [`State::index_is_sound`].
    pub fn check_invariants(&self) -> (r: Result<(), String>)
        requires
            ids_increasing(self.vaults()),
        ensures
            r is Ok <==> self.index_is_sound(),
    {
        if self.vault_id_to_vaults.len() > self.principal_to_vault_ids.len() {
            return Err("Inconsistent vault count".to_owned());
        }
        let mut k: usize = 0;
        while k < self.principal_to_vault_ids.len()
            invariant
                k <= self.principal_to_vault_ids@.len(),
                ids_increasing(self.vaults()),
                forall|m: int|
                    0 <= m < k ==> has_vault(
                        self.vaults(),
                        (#[trigger] self.principal_to_vault_ids@[m]).vault_id,
                    ),
            decreases self.principal_to_vault_ids@.len() - k,
        {
            if self.find_vault(self.principal_to_vault_ids[k].vault_id).is_none() {
                return Err("Not all vault ids are in the id -> Vault map.".to_owned());
            }
            k = k + 1;
        }
        Ok(())
    }

    /// The two states have the same vaults, owner index, waiting transfers
    /// of margin, and ledgers.
    pub open spec fn semantically_eq(&self, other: &State) -> bool {
        &&& self.vault_id_to_vaults@ == other.vault_id_to_vaults@
        &&& self.pending_margin_transfers.entries@ == other.pending_margin_transfers.entries@
        &&& self.principal_to_vault_ids@ == other.principal_to_vault_ids@
        &&& self.xrc_principal == other.xrc_principal
        &&& self.icusd_ledger_principal == other.icusd_ledger_principal
        &&& self.icp_ledger_principal == other.icp_ledger_principal
    }

    /// Checks that the two states are the same in what is recorded of them:
    /// see [`State::semantically_eq`].
    pub fn check_semantically_eq(&self, other: &State) -> (r: Result<(), String>)
        ensures
            r is Ok <==> self.semantically_eq(other),
    {
        if !same_vaults(&self.vault_id_to_vaults, &other.vault_id_to_vaults) {
            return Err("vault_id_to_vaults does not match".to_owned());
        }
        if !same_transfers(
            &self.pending_margin_transfers.entries,
            &other.pending_margin_transfers.entries,
        ) {
            return Err("pending_margin_transfers does not match".to_owned());
        }
        if !same_index(&self.principal_to_vault_ids, &other.principal_to_vault_ids) {
            return Err("principal_to_vault_ids does not match".to_owned());
        }
        if self.xrc_principal != other.xrc_principal {
            return Err("xrc_principal does not match".to_owned());
        }
        if self.icusd_ledger_principal != other.icusd_ledger_principal {
            return Err("icusd_ledger_principal does not match".to_owned());
        }
        if self.icp_ledger_principal != other.icp_ledger_principal {
            return Err("icp_ledger_principal does not match".to_owned());
        }
        Ok(())
    }
}

fn same_vaults(a: &Vec<Vault>, b: &Vec<Vault>) -> (r: bool)
    ensures
        r == (a@ == b@),
{
    if a.len() != b.len() {
        return false;
    }
    let mut i: usize = 0;
    while i < a.len()
        invariant
            i <= a@.len(),
            a@.len() == b@.len(),
            a@.take(i as int) == b@.take(i as int),
        decreases a@.len() - i,
    {
        let x = a[i];
        let y = b[i];
        if x.owner != y.owner || x.vault_id != y.vault_id || x.borrowed_icusd_amount.0
            != y.borrowed_icusd_amount.0 || x.icp_margin_amount.0 != y.icp_margin_amount.0 {
            return false;
        }
        proof {
            assert(a@.take(i as int + 1) =~= a@.take(i as int).push(a@[i as int]));
            assert(b@.take(i as int + 1) =~= b@.take(i as int).push(b@[i as int]));
        }
        i = i + 1;
    }
    proof {
        assert(a@.take(i as int) =~= a@);
        assert(b@.take(i as int) =~= b@);
    }
    true
}

fn same_index(a: &Vec<OwnerIndexEntry>, b: &Vec<OwnerIndexEntry>) -> (r: bool)
    ensures
        r == (a@ == b@),
{
    if a.len() != b.len() {
        return false;
    }
    let mut i: usize = 0;
    while i < a.len()
        invariant
            i <= a@.len(),
            a@.len() == b@.len(),
            a@.take(i as int) == b@.take(i as int),
        decreases a@.len() - i,
    {
        if a[i] != b[i] {
            return false;
        }
        proof {
            assert(a@.take(i as int + 1) =~= a@.take(i as int).push(a@[i as int]));
            assert(b@.take(i as int + 1) =~= b@.take(i as int).push(b@[i as int]));
        }
        i = i + 1;
    }
    proof {
        assert(a@.take(i as int) =~= a@);
        assert(b@.take(i as int) =~= b@);
    }
    true
}

fn same_transfers(
    a: &Vec<crate::transfers::PendingEntry>,
    b: &Vec<crate::transfers::PendingEntry>,
) -> (r: bool)
    ensures
        r == (a@ == b@),
{
    if a.len() != b.len() {
        return false;
    }
    let mut i: usize = 0;
    while i < a.len()
        invariant
            i <= a@.len(),
            a@.len() == b@.len(),
            a@.take(i as int) == b@.take(i as int),
        decreases a@.len() - i,
    {
        let x = a[i];
        let y = b[i];
        if x.key != y.key || x.transfer.owner != y.transfer.owner || x.transfer.margin.0
            != y.transfer.margin.0 {
            return false;
        }
        proof {
            assert(a@.take(i as int + 1) =~= a@.take(i as int).push(a@[i as int]));
            assert(b@.take(i as int + 1) =~= b@.take(i as int).push(b@[i as int]));
        }
        i = i + 1;
    }
    proof {
        assert(a@.take(i as int) =~= a@);
        assert(b@.take(i as int) =~= b@);
    }
    true
}

} // verus!
