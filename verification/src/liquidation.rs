//! Liquidation and redistribution.
//!
//! A vault whose collateral no longer covers its debt is liquidated.  In
//! recovery a vault that is still above the minimum ratio gives up just the
//! collateral that covers its debt; otherwise the vault goes, and what it
//! owed and held is shared out among the vaults that stay, each by its part
//! of their collateral.

use vstd::prelude::*;
use crate::numeric::ICP;
use crate::numeric::ICUSD;
use crate::numeric::token_ratio;
use crate::numeric::token_over;
use crate::numeric::Ratio;
use crate::numeric::UsdIcp;
use crate::compute_collateral_ratio;
use crate::spec_collateral_ratio;
use crate::state::minimum_collateral_ratio;
use crate::state::spec_minimum_collateral_ratio;
use crate::state::spec_recovery_collateral_ratio;
use crate::transfers::PendingMarginTransfer;
use crate::numeric::token_times;
use crate::state::Mode;
use crate::state::State;
use crate::state::Touched;
use crate::state::nothing;
use crate::vault::Vault;
use crate::vault::has_vault;
use crate::vault::position_of;
use crate::vault::total_debt;
use crate::vault::vault_with;
use crate::vault::margins;
use crate::vault::total;
use crate::vault::total_margin;
use crate::vault::without;

verus! {

/// What one surviving vault takes over from a liquidated one.
#[derive(Clone, Copy, Debug)]
pub struct DistributeToVaultEntry {
    pub vault_id: u64,
    pub icp_share_amount: ICP,
    pub icusd_share_amount: ICUSD,
}

/// The part of `amount` that goes with `margin` out of `total_margin`:
/// `amount × (margin ÷ total_margin)`.
pub open spec fn spec_share(amount: u64, margin: u64, total_margin: u64) -> Option<u64> {
    match token_ratio(margin, total_margin) {
        Some(share) => token_times(amount, share),
        None => None,
    }
}

/// The shares of `amount` that go to the survivors, before the remainder is
/// placed.
pub open spec fn raw_shares(survivors: Seq<Vault>, amount: u64) -> Seq<Option<u64>> {
    Seq::new(
        survivors.len(),
        |i: int| spec_share(amount, survivors[i].icp_margin_amount.0, total_margin(survivors) as u64),
    )
}

/// Every share could be computed.
pub open spec fn all_computed(shares: Seq<Option<u64>>) -> bool {
    forall|i: int| 0 <= i < shares.len() ==> (#[trigger] shares[i]) is Some
}

/// The shares as numbers.
pub open spec fn amounts(shares: Seq<Option<u64>>) -> Seq<int> {
    Seq::new(shares.len(), |i: int| shares[i]->0 as int)
}

/// The shares add up to no more than `amount`.
pub open spec fn shares_fit(survivors: Seq<Vault>, amount: u64) -> bool {
    &&& all_computed(raw_shares(survivors, amount))
    &&& total(amounts(raw_shares(survivors, amount))) <= amount
}

/// What is left of `amount` after the shares.
pub open spec fn remainder(survivors: Seq<Vault>, amount: u64) -> int {
    amount - total(amounts(raw_shares(survivors, amount)))
}

/// The vaults that take over from `target`: all others.
pub open spec fn survivors_of(vaults: Seq<Vault>, target: Vault) -> Seq<Vault> {
    without(vaults, target.vault_id)
}

/// `target` can be shared out among the other vaults: there are others, they
/// hold collateral, each share can be computed, and the shares do not add up
/// to more than there is.
pub open spec fn can_distribute(vaults: Seq<Vault>, target: Vault) -> bool {
    let survivors = survivors_of(vaults, target);
    &&& survivors.len() > 0
    &&& total_margin(survivors) != 0
    &&& shares_fit(survivors, target.icp_margin_amount.0)
    &&& shares_fit(survivors, target.borrowed_icusd_amount.0)
}

/// What each survivor takes over: its share by collateral, and the first
/// survivor the remainder as well.
pub open spec fn spec_distribution(vaults: Seq<Vault>, target: Vault) -> Seq<
    DistributeToVaultEntry,
> {
    let survivors = survivors_of(vaults, target);
    let icp = raw_shares(survivors, target.icp_margin_amount.0);
    let icusd = raw_shares(survivors, target.borrowed_icusd_amount.0);
    Seq::new(
        survivors.len(),
        |i: int|
            DistributeToVaultEntry {
                vault_id: survivors[i].vault_id,
                icp_share_amount: ICP::spec_new(
                    (icp[i]->0 + if i == 0 {
                        remainder(survivors, target.icp_margin_amount.0)
                    } else {
                        0
                    }) as u64,
                ),
                icusd_share_amount: ICUSD::spec_new(
                    (icusd[i]->0 + if i == 0 {
                        remainder(survivors, target.borrowed_icusd_amount.0)
                    } else {
                        0
                    }) as u64,
                ),
            },
    )
}

/// The collateral that the entries hand out, in their order.
pub open spec fn icp_handed(entries: Seq<DistributeToVaultEntry>) -> Seq<int> {
    Seq::new(entries.len(), |i: int| entries[i].icp_share_amount.0 as int)
}

/// The debt that the entries hand out, in their order.
pub open spec fn icusd_handed(entries: Seq<DistributeToVaultEntry>) -> Seq<int> {
    Seq::new(entries.len(), |i: int| entries[i].icusd_share_amount.0 as int)
}

/// The entries hand out all of what the liquidated vault owed and held.
pub proof fn lemma_distribution_conserves(vaults: Seq<Vault>, target: Vault)
    requires
        can_distribute(vaults, target),
    ensures
        total(icp_handed(spec_distribution(vaults, target))) == target.icp_margin_amount.0,
        total(icusd_handed(spec_distribution(vaults, target))) == target.borrowed_icusd_amount.0,
{
    let survivors = survivors_of(vaults, target);
    let entries = spec_distribution(vaults, target);
    let icp = amounts(raw_shares(survivors, target.icp_margin_amount.0));
    let icusd = amounts(raw_shares(survivors, target.borrowed_icusd_amount.0));
    crate::vault::lemma_total_nonnegative(icp);
    crate::vault::lemma_total_nonnegative(icusd);
    crate::vault::lemma_total_bounds(icp, 0);
    crate::vault::lemma_total_bounds(icusd, 0);
    assert(icp_handed(entries) =~= icp.update(
        0,
        icp[0] + remainder(survivors, target.icp_margin_amount.0),
    ));
    assert(icusd_handed(entries) =~= icusd.update(
        0,
        icusd[0] + remainder(survivors, target.borrowed_icusd_amount.0),
    ));
    crate::vault::lemma_total_update(
        icp,
        0,
        icp[0] + remainder(survivors, target.icp_margin_amount.0),
    );
    crate::vault::lemma_total_update(
        icusd,
        0,
        icusd[0] + remainder(survivors, target.borrowed_icusd_amount.0),
    );
}

/// The part of `amount` that goes with `margin` out of `total_margin`.
fn share_of(amount: u64, margin: u64, total_margin: u64) -> (r: Option<u64>)
    ensures
        r == spec_share(amount, margin, total_margin),
{
    match ICP::new(margin).checked_div(ICP::new(total_margin)) {
        Some(share) => match ICP::new(amount).checked_mul_ratio(share) {
            Some(part) => Some(part.0),
            None => None,
        },
        None => None,
    }
}

/// Shares out what `target_vault` owes and holds among the other vaults of
/// `vaults`, each by its part of their collateral.  What rounding leaves
/// over goes to the first of them.
///
/// There is no distribution where there are no other vaults, where they hold
/// no collateral, where a share cannot be computed, or where the shares add
/// up to more than there is to share.
pub fn distribute_across_vaults(vaults: &Vec<Vault>, target_vault: Vault) -> (r: Option<
    Vec<DistributeToVaultEntry>,
>)
    requires
        total_margin(vaults@) <= u64::MAX,
    ensures
        r is Some <==> can_distribute(vaults@, target_vault),
        r is Some ==> r->0@ == spec_distribution(vaults@, target_vault),
        r is Some ==> total(icp_handed(r->0@)) == target_vault.icp_margin_amount.0,
        r is Some ==> total(icusd_handed(r->0@)) == target_vault.borrowed_icusd_amount.0,
{
    let survivors = crate::vault::others(vaults, target_vault.vault_id);
    if survivors.len() == 0 {
        return None;
    }
    proof {
        crate::vault::lemma_without_totals(vaults@, target_vault.vault_id);
    }
    let total_icp_margin = crate::vault::sum_margins(&survivors);
    if total_icp_margin == 0 {
        return None;
    }
    let target_icp = target_vault.icp_margin_amount.0;
    let target_icusd = target_vault.borrowed_icusd_amount.0;
    let ghost icp = raw_shares(survivors@, target_icp);
    let ghost icusd = raw_shares(survivors@, target_icusd);
    let mut result: Vec<DistributeToVaultEntry> = Vec::new();
    let mut distributed_icp: u64 = 0;
    let mut distributed_icusd: u64 = 0;
    let mut i: usize = 0;
    while i < survivors.len()
        invariant
            i <= survivors@.len(),
            survivors@ == survivors_of(vaults@, target_vault),
            total_icp_margin == total_margin(survivors@),
            total_icp_margin != 0,
            target_icp == target_vault.icp_margin_amount.0,
            target_icusd == target_vault.borrowed_icusd_amount.0,
            icp == raw_shares(survivors@, target_icp),
            icusd == raw_shares(survivors@, target_icusd),
            result@.len() == i,
            forall|j: int| 0 <= j < i ==> (#[trigger] icp[j]) is Some,
            forall|j: int| 0 <= j < i ==> (#[trigger] icusd[j]) is Some,
            forall|j: int|
                0 <= j < i ==> (#[trigger] result@[j]).vault_id == survivors@[j].vault_id
                    && result@[j].icp_share_amount.0 == icp[j]->0
                    && result@[j].icusd_share_amount.0 == icusd[j]->0,
            distributed_icp == total(amounts(icp).take(i as int)),
            distributed_icusd == total(amounts(icusd).take(i as int)),
            distributed_icp <= target_icp,
            distributed_icusd <= target_icusd,
        decreases survivors@.len() - i,
    {
        let vault = survivors[i];
        proof {
            assert(amounts(icp).take(i as int + 1).drop_last() =~= amounts(icp).take(i as int));
            assert(amounts(icusd).take(i as int + 1).drop_last() =~= amounts(icusd).take(
                i as int,
            ));
            crate::vault::lemma_total_prefix(amounts(icp), i as int + 1);
            crate::vault::lemma_total_prefix(amounts(icusd), i as int + 1);
        }
        let icp_share = match share_of(target_icp, vault.icp_margin_amount.0, total_icp_margin) {
            Some(part) => part,
            None => {
                assert(icp[i as int] is None);
                return None;
            },
        };
        let icusd_share = match share_of(target_icusd, vault.icp_margin_amount.0, total_icp_margin) {
            Some(part) => part,
            None => {
                assert(icusd[i as int] is None);
                return None;
            },
        };
        assert(icp[i as int] == Some(icp_share));
        assert(icusd[i as int] == Some(icusd_share));
        if icp_share > target_icp - distributed_icp {
            return None;
        }
        if icusd_share > target_icusd - distributed_icusd {
            return None;
        }
        distributed_icp = distributed_icp + icp_share;
        distributed_icusd = distributed_icusd + icusd_share;
        result.push(
            DistributeToVaultEntry {
                vault_id: vault.vault_id,
                icp_share_amount: ICP::new(icp_share),
                icusd_share_amount: ICUSD::new(icusd_share),
            },
        );
        i = i + 1;
    }
    proof {
        assert(amounts(icp).take(i as int) =~= amounts(icp));
        assert(amounts(icusd).take(i as int) =~= amounts(icusd));
        assert(can_distribute(vaults@, target_vault));
        lemma_distribution_conserves(vaults@, target_vault);
        crate::vault::lemma_total_bounds(amounts(icp), 0);
        crate::vault::lemma_total_bounds(amounts(icusd), 0);
    }
    let first = result[0];
    result.set(
        0,
        DistributeToVaultEntry {
            vault_id: first.vault_id,
            icp_share_amount: ICP::new(first.icp_share_amount.0 + (target_icp - distributed_icp)),
            icusd_share_amount: ICUSD::new(
                first.icusd_share_amount.0 + (target_icusd - distributed_icusd),
            ),
        },
    );
    proof {
        assert(result@ =~= spec_distribution(vaults@, target_vault));
    }
    Some(result)
}

/// The survivors after each has taken over its part of `target`.
pub open spec fn spec_absorbed(vaults: Seq<Vault>, target: Vault) -> Seq<Vault> {
    let survivors = survivors_of(vaults, target);
    let entries = spec_distribution(vaults, target);
    Seq::new(
        survivors.len(),
        |i: int|
            Vault {
                owner: survivors[i].owner,
                borrowed_icusd_amount: ICUSD::spec_new(
                    (survivors[i].debt() + entries[i].icusd_share_amount.0) as u64,
                ),
                icp_margin_amount: ICP::spec_new(
                    (survivors[i].margin() + entries[i].icp_share_amount.0) as u64,
                ),
                vault_id: survivors[i].vault_id,
            },
    )
}

/// How a redistribution ended.
#[derive(Clone, Copy, Debug, PartialEq, Eq, Structural)]
pub enum RedistributionOutcome {
    /// The vault is gone and the others have taken over what it owed and held.
    Redistributed,
    /// There is no other vault: the vault stays, and the protocol is read-only.
    NoSurvivors,
    /// The shares could not be computed: nothing has changed.
    Failed,
}

impl State {
    /// Removes a vault and hands what it owed and held to the other vaults.
    ///
    /// The vault exists.
    pub fn redistribute_vault(&mut self, vault_id: u64) -> (outcome: RedistributionOutcome)
        requires
            old(self).wf(),
            has_vault(old(self).vaults(), vault_id),
        ensures
            final(self).wf(),
            match outcome {
                RedistributionOutcome::Redistributed => {
                    &&& can_distribute(
                        old(self).vaults(),
                        vault_with(old(self).vaults(), vault_id),
                    )
                    &&& final(self).vaults() == spec_absorbed(
                        old(self).vaults(),
                        vault_with(old(self).vaults(), vault_id),
                    )
                    &&& total_debt(final(self).vaults()) == total_debt(old(self).vaults())
                    &&& total_margin(final(self).vaults()) == total_margin(old(self).vaults())
                    &&& !has_vault(final(self).vaults(), vault_id)
                    &&& final(self).differs_only_in(
                        old(self),
                        (Touched { store: true, ..nothing() }),
                    )
                },
                RedistributionOutcome::NoSurvivors => {
                    &&& survivors_of(
                        old(self).vaults(),
                        vault_with(old(self).vaults(), vault_id),
                    ).len() == 0
                    &&& final(self).mode == Mode::ReadOnly
                    &&& final(self).total_collateral_ratio == old(self).total_collateral_ratio
                    &&& final(self).differs_only_in(old(self), (Touched { mode: true, ..nothing() }))
                },
                RedistributionOutcome::Failed => {
                    &&& survivors_of(
                        old(self).vaults(),
                        vault_with(old(self).vaults(), vault_id),
                    ).len() > 0
                    &&& !can_distribute(
                        old(self).vaults(),
                        vault_with(old(self).vaults(), vault_id),
                    )
                    &&& final(self).differs_only_in(old(self), nothing())
                },
            },
    {
        let p = match self.find_vault(vault_id) {
            Some(p) => p,
            None => {
                assert(false);
                return RedistributionOutcome::Failed;
            },
        };
        let target = self.vault_id_to_vaults[p];
        let ghost before = self.vaults();
        proof {
            crate::vault::lemma_without_at(before, p as int);
            crate::vault::lemma_totals_remove(before, p as int);
            crate::vault::lemma_vault_within_totals(before, p as int);
        }
        let entries = match distribute_across_vaults(&self.vault_id_to_vaults, target) {
            Some(entries) => entries,
            None => {
                if self.vault_id_to_vaults.len() == 1 {
                    self.mode = Mode::ReadOnly;
                    return RedistributionOutcome::NoSurvivors;
                }
                return RedistributionOutcome::Failed;
            },
        };
        let survivors = crate::vault::others(&self.vault_id_to_vaults, vault_id);
        let ghost handed_icp = icp_handed(entries@);
        let ghost handed_icusd = icusd_handed(entries@);
        let ghost goal = spec_absorbed(before, target);
        proof {
            assert forall|i: int| 0 <= i < survivors@.len() implies (
            #[trigger] survivors@[i]).debt() + entries@[i].icusd_share_amount.0 <= u64::MAX
                && survivors@[i].margin() + entries@[i].icp_share_amount.0 <= u64::MAX by {
                crate::vault::lemma_vault_within_totals(survivors@, i);
                crate::vault::lemma_total_bounds(handed_icusd, i);
                crate::vault::lemma_total_bounds(handed_icp, i);
            }
            crate::vault::lemma_total_added(crate::vault::debts(survivors@), handed_icusd);
            crate::vault::lemma_total_added(margins(survivors@), handed_icp);
            assert(crate::vault::debts(goal) =~= Seq::new(
                survivors@.len(),
                |i: int| crate::vault::debts(survivors@)[i] + handed_icusd[i],
            ));
            assert(margins(goal) =~= Seq::new(
                survivors@.len(),
                |i: int| margins(survivors@)[i] + handed_icp[i],
            ));
        }
        let mut absorbed: Vec<Vault> = Vec::new();
        let mut i: usize = 0;
        while i < survivors.len()
            invariant
                i <= survivors@.len(),
                entries@.len() == survivors@.len(),
                survivors@ == survivors_of(before, target),
                entries@ == spec_distribution(before, target),
                goal == spec_absorbed(before, target),
                goal.len() == survivors@.len(),
                absorbed@ == goal.take(i as int),
                forall|j: int|
                    0 <= j < survivors@.len() ==> (#[trigger] survivors@[j]).debt()
                        + entries@[j].icusd_share_amount.0 <= u64::MAX && survivors@[j].margin()
                        + entries@[j].icp_share_amount.0 <= u64::MAX,
            decreases survivors@.len() - i,
        {
            let vault = survivors[i];
            let entry = entries[i];
            absorbed.push(
                Vault {
                    owner: vault.owner,
                    borrowed_icusd_amount: ICUSD::new(
                        vault.borrowed_icusd_amount.0 + entry.icusd_share_amount.0,
                    ),
                    icp_margin_amount: ICP::new(
                        vault.icp_margin_amount.0 + entry.icp_share_amount.0,
                    ),
                    vault_id: vault.vault_id,
                },
            );
            proof {
                assert(goal.take(i as int + 1) =~= goal.take(i as int).push(goal[i as int]));
            }
            i = i + 1;
        }
        proof {
            assert(goal.take(i as int) =~= goal);
            assert(crate::vault::owns(before, target.owner, target.vault_id)) by {
                assert(before[p as int].vault_id == target.vault_id);
            }
        }
        match self.find_index_entry(target.owner, target.vault_id) {
            Some(k) => {
                proof {
                    crate::vault::lemma_store_remove(
                        before,
                        self.principal_to_vault_ids@,
                        self.next_available_vault_id,
                        p as int,
                        k as int,
                    );
                    crate::vault::lemma_store_same_keys(
                        before.remove(p as int),
                        goal,
                        self.principal_to_vault_ids@.remove(k as int),
                        self.next_available_vault_id,
                    );
                    crate::state::lemma_removed_is_gone(before, p as int);
                    lemma_same_ids(before.remove(p as int), goal, vault_id);
                }
                let _ = self.principal_to_vault_ids.remove(k);
                self.vault_id_to_vaults = absorbed;
            },
            None => {
                assert(false);
            },
        }
        RedistributionOutcome::Redistributed
    }
}

/// Sequences with the same identifiers, place by place, hold the same
/// vaults by identifier.
pub proof fn lemma_same_ids(vaults: Seq<Vault>, changed: Seq<Vault>, vault_id: u64)
    requires
        changed.len() == vaults.len(),
        forall|i: int|
            0 <= i < vaults.len() ==> (#[trigger] changed[i]).vault_id == vaults[i].vault_id,
    ensures
        has_vault(changed, vault_id) == has_vault(vaults, vault_id),
{
    if has_vault(changed, vault_id) {
        let i = position_of(changed, vault_id);
        assert(vaults[i].vault_id == vault_id);
    }
    if has_vault(vaults, vault_id) {
        let i = position_of(vaults, vault_id);
        assert(changed[i].vault_id == vault_id);
    }
}

/// What is done with a vault at a given collateral ratio.
#[derive(Clone, Copy, Debug, PartialEq, Eq, Structural)]
pub enum LiquidationKind {
    /// The ratio is not below the mode's liquidation ratio: nothing is done.
    Healthy,
    /// The vault gives up the collateral that covers its debt.
    Partial,
    /// The vault goes, and the others take over what it owed and held.
    Full,
}

/// A vault is liquidated where its ratio is below the liquidation ratio of
/// the mode; in part where the protocol is in recovery and the ratio is
/// above the minimum ratio, in full otherwise.
pub open spec fn spec_liquidation_kind(mode: Mode, ratio: Ratio) -> LiquidationKind {
    if !ratio.0.value_lt(mode.spec_minimum_liquidation_collateral_ratio().0) {
        LiquidationKind::Healthy
    } else if mode == Mode::Recovery && spec_minimum_collateral_ratio().0.value_lt(ratio.0) {
        LiquidationKind::Partial
    } else {
        LiquidationKind::Full
    }
}

/// What is done with a vault whose collateral ratio is `ratio`.
pub fn liquidation_kind(mode: Mode, ratio: Ratio) -> (kind: LiquidationKind)
    requires
        ratio.valid(),
    ensures
        kind == spec_liquidation_kind(mode, ratio),
{
    if !ratio.lt(mode.get_minimum_liquidation_collateral_ratio()) {
        LiquidationKind::Healthy
    } else {
        let recovery = match mode {
            Mode::Recovery => true,
            _ => false,
        };
        if recovery && minimum_collateral_ratio().lt(ratio) {
            LiquidationKind::Partial
        } else {
            LiquidationKind::Full
        }
    }
}

/// A vault is liquidated in part only in recovery, and only with a ratio
/// above the minimum ratio (1.33) and below the recovery ratio (1.5).
pub proof fn lemma_partial_only_in_recovery(mode: Mode, ratio: Ratio)
    ensures
        spec_liquidation_kind(mode, ratio) == LiquidationKind::Partial <==> mode == Mode::Recovery
            && spec_minimum_collateral_ratio().0.value_lt(ratio.0) && ratio.0.value_lt(
            spec_recovery_collateral_ratio().0,
        ),
{
}

/// The collateral that covers the debt of `vault` at the minimum ratio:
/// `(debt × 1.33) ÷ price`.
pub open spec fn spec_partial_margin(vault: Vault, icp_rate: UsdIcp) -> Option<u64> {
    match token_times(vault.borrowed_icusd_amount.0, spec_minimum_collateral_ratio().0) {
        Some(covered) => token_over(covered, icp_rate.0),
        None => None,
    }
}

/// How a liquidation ended.
#[derive(Clone, Copy, Debug)]
pub enum LiquidationOutcome {
    /// The vault is not to be liquidated.
    Healthy,
    /// The vault gave up `seized`; `returned` waits to be sent to its owner.
    Partial { seized: ICP, returned: ICP },
    /// The vault is gone and the others have taken over.
    Redistributed,
    /// There is no other vault: the vault stays, and the protocol is read-only.
    NoSurvivors,
    /// The arithmetic failed, or the vault holds less than covers its debt:
    /// nothing has changed.
    Failed,
}

/// The parts of the state that a liquidation with this outcome may touch.
pub open spec fn touched_by(outcome: LiquidationOutcome) -> Touched {
    match outcome {
        LiquidationOutcome::Healthy => nothing(),
        LiquidationOutcome::Failed => nothing(),
        LiquidationOutcome::Partial { .. } => Touched { store: true, pending: true, ..nothing() },
        LiquidationOutcome::Redistributed => Touched { store: true, ..nothing() },
        LiquidationOutcome::NoSurvivors => Touched { mode: true, ..nothing() },
    }
}

/// The vaults and the waiting transfers after a liquidation, and how it
/// ended.
pub struct Liquidated {
    pub vaults: Seq<Vault>,
    pub pending: Map<u64, PendingMarginTransfer>,
    pub outcome: LiquidationOutcome,
}

/// What the liquidation of a vault does to the vaults and to the waiting
/// transfers, and how it ends.
///
/// Where the ratio of the vault cannot be computed the liquidation fails.  A
/// healthy vault is left alone.  A vault that is liquidated in part ends
/// without debt and without collateral: the collateral that covers its debt
/// at the minimum ratio is kept, and the rest waits to be sent to its owner;
/// where that collateral cannot be computed or is more than the vault holds,
/// the liquidation fails.  A vault that is liquidated in full is shared out
/// among the others; without others it stays; where the shares cannot be
/// computed the liquidation fails.  A failed liquidation changes nothing.
pub open spec fn spec_liquidation(
    vaults: Seq<Vault>,
    pending: Map<u64, PendingMarginTransfer>,
    vault_id: u64,
    mode: Mode,
    icp_rate: UsdIcp,
) -> Liquidated {
    let vault = vault_with(vaults, vault_id);
    let failed = Liquidated { vaults, pending, outcome: LiquidationOutcome::Failed };
    match spec_collateral_ratio(vault, icp_rate) {
        None => failed,
        Some(ratio) => match spec_liquidation_kind(mode, ratio) {
            LiquidationKind::Healthy => Liquidated {
                vaults,
                pending,
                outcome: LiquidationOutcome::Healthy,
            },
            LiquidationKind::Partial => match spec_partial_margin(vault, icp_rate) {
                Some(partial) if partial <= vault.margin() => Liquidated {
                    vaults: crate::vault::replaced(vaults, vault.with_debt(0).with_margin(0)),
                    pending: pending.insert(
                        vault_id,
                        PendingMarginTransfer {
                            owner: vault.owner,
                            margin: ICP::spec_new((vault.margin() - partial) as u64),
                        },
                    ),
                    outcome: LiquidationOutcome::Partial {
                        seized: ICP::spec_new(partial),
                        returned: ICP::spec_new((vault.margin() - partial) as u64),
                    },
                },
                _ => failed,
            },
            LiquidationKind::Full => if survivors_of(vaults, vault).len() == 0 {
                Liquidated { vaults, pending, outcome: LiquidationOutcome::NoSurvivors }
            } else if can_distribute(vaults, vault) {
                Liquidated {
                    vaults: spec_absorbed(vaults, vault),
                    pending,
                    outcome: LiquidationOutcome::Redistributed,
                }
            } else {
                failed
            },
        },
    }
}

impl State {
    /// Liquidates a vault at the price `icp_rate`, as `mode` asks: see
    /// [`spec_liquidation`].  Where there is no other vault to take over,
    /// the protocol becomes read-only.
    ///
    /// The vault exists.
    pub fn liquidate_vault(&mut self, vault_id: u64, mode: Mode, icp_rate: UsdIcp) -> (outcome:
        LiquidationOutcome)
        requires
            old(self).wf(),
            has_vault(old(self).vaults(), vault_id),
            icp_rate.valid(),
        ensures
            final(self).wf(),
            spec_liquidation(
                old(self).vaults(),
                old(self).pending_margin_transfers@,
                vault_id,
                mode,
                icp_rate,
            ) == (Liquidated {
                vaults: final(self).vaults(),
                pending: final(self).pending_margin_transfers@,
                outcome,
            }),
            total_debt(final(self).vaults()) <= total_debt(old(self).vaults()),
            total_margin(final(self).vaults()) <= total_margin(old(self).vaults()),
            outcome is Partial ==> total_debt(final(self).vaults()) == total_debt(
                old(self).vaults(),
            ) - vault_with(old(self).vaults(), vault_id).debt() && total_margin(
                final(self).vaults(),
            ) == total_margin(old(self).vaults()) - vault_with(old(self).vaults(), vault_id).margin(),
            outcome is Redistributed ==> total_debt(final(self).vaults()) == total_debt(
                old(self).vaults(),
            ) && total_margin(final(self).vaults()) == total_margin(old(self).vaults()),
            final(self).differs_only_in(old(self), touched_by(outcome)),
            final(self).pending_redemption_transfer.entries@ == old(
                self,
            ).pending_redemption_transfer.entries@,
            final(self).total_collateral_ratio == old(self).total_collateral_ratio,
            final(self).mode == if outcome is NoSurvivors {
                Mode::ReadOnly
            } else {
                old(self).mode
            },
    {
        let p = match self.find_vault(vault_id) {
            Some(p) => p,
            None => {
                assert(false);
                return LiquidationOutcome::Failed;
            },
        };
        let vault = self.vault_id_to_vaults[p];
        let ratio = match compute_collateral_ratio(&vault, icp_rate) {
            Some(ratio) => ratio,
            None => {
                return LiquidationOutcome::Failed;
            },
        };
        match liquidation_kind(mode, ratio) {
            LiquidationKind::Healthy => LiquidationOutcome::Healthy,
            LiquidationKind::Partial => {
                let covered = match vault.borrowed_icusd_amount.checked_mul_ratio(
                    minimum_collateral_ratio(),
                ) {
                    Some(covered) => covered,
                    None => {
                        return LiquidationOutcome::Failed;
                    },
                };
                let partial_margin = match covered.checked_div_rate(icp_rate) {
                    Some(partial_margin) => partial_margin,
                    None => {
                        return LiquidationOutcome::Failed;
                    },
                };
                if partial_margin.0 > vault.icp_margin_amount.0 {
                    return LiquidationOutcome::Failed;
                }
                let returned = ICP::new(vault.icp_margin_amount.0 - partial_margin.0);
                proof {
                    crate::vault::lemma_vault_within_totals(self.vaults(), p as int);
                }
                self.update_vault_at(
                    p,
                    Vault {
                        owner: vault.owner,
                        borrowed_icusd_amount: ICUSD::new(0),
                        icp_margin_amount: ICP::new(0),
                        vault_id: vault.vault_id,
                    },
                );
                self.pending_margin_transfers.insert(
                    vault_id,
                    PendingMarginTransfer { owner: vault.owner, margin: returned },
                );
                LiquidationOutcome::Partial { seized: partial_margin, returned }
            },
            LiquidationKind::Full => match self.redistribute_vault(vault_id) {
                RedistributionOutcome::Redistributed => LiquidationOutcome::Redistributed,
                RedistributionOutcome::NoSurvivors => LiquidationOutcome::NoSurvivors,
                RedistributionOutcome::Failed => LiquidationOutcome::Failed,
            },
        }
    }
}

/// The identifiers of the vaults whose ratio at the price is below the
/// liquidation ratio of `mode`, in growing order.
pub open spec fn spec_unhealthy(vaults: Seq<Vault>, mode: Mode, icp_rate: UsdIcp) -> Seq<u64>
    decreases vaults.len(),
{
    if vaults.len() == 0 {
        Seq::empty()
    } else {
        let rest = spec_unhealthy(vaults.drop_last(), mode, icp_rate);
        match spec_collateral_ratio(vaults.last(), icp_rate) {
            Some(ratio) if ratio.0.value_lt(mode.spec_minimum_liquidation_collateral_ratio().0) => {
                rest.push(vaults.last().vault_id)
            },
            _ => rest,
        }
    }
}

/// The ratio of every vault can be computed at the price.
pub open spec fn all_ratios_known(vaults: Seq<Vault>, icp_rate: UsdIcp) -> bool {
    forall|i: int|
        0 <= i < vaults.len() ==> spec_collateral_ratio(#[trigger] vaults[i], icp_rate) is Some
}

/// The vaults that are to be liquidated at the price `icp_rate` in the mode
/// `mode`; `None` where the ratio of a vault cannot be computed.
pub fn unhealthy_vaults(vaults: &Vec<Vault>, mode: Mode, icp_rate: UsdIcp) -> (r: Option<Vec<u64>>)
    requires
        icp_rate.valid(),
    ensures
        r is Some <==> all_ratios_known(vaults@, icp_rate),
        r is Some ==> r->0@ == spec_unhealthy(vaults@, mode, icp_rate),
{
    let limit = mode.get_minimum_liquidation_collateral_ratio();
    let mut out: Vec<u64> = Vec::new();
    let mut i: usize = 0;
    while i < vaults.len()
        invariant
            i <= vaults@.len(),
            icp_rate.valid(),
            limit == mode.spec_minimum_liquidation_collateral_ratio(),
            limit.valid(),
            all_ratios_known(vaults@.take(i as int), icp_rate),
            out@ == spec_unhealthy(vaults@.take(i as int), mode, icp_rate),
        decreases vaults@.len() - i,
    {
        let vault = vaults[i];
        proof {
            assert(vaults@.take(i as int + 1).drop_last() =~= vaults@.take(i as int));
        }
        match compute_collateral_ratio(&vault, icp_rate) {
            Some(ratio) => {
                if ratio.lt(limit) {
                    out.push(vault.vault_id);
                }
            },
            None => {
                assert(spec_collateral_ratio(vaults@[i as int], icp_rate) is None);
                return None;
            },
        }
        proof {
            let seen = vaults@.take(i as int + 1);
            assert forall|k: int| 0 <= k < seen.len() implies spec_collateral_ratio(
                #[trigger] seen[k],
                icp_rate,
            ) is Some by {
                if k < i {
                    assert(vaults@.take(i as int)[k] == seen[k]);
                }
            }
        }
        i = i + 1;
    }
    proof {
        assert(vaults@.take(i as int) =~= vaults@);
    }
    Some(out)
}

} // verus!
