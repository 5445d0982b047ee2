//! Vaults, and what is said of a sequence of them.
//!
//! The store keeps its vaults in a vector ordered by identifier.  The spec
//! functions here speak of such sequences: which identifiers occur, where,
//! and what the debts and margins add up to.

use vstd::prelude::*;
use crate::numeric::ICP;
use crate::numeric::ICUSD;

verus! {

/// Who owns a vault or calls an operation: the bytes of a principal, at most
/// 29 of them, read as one number, the first byte the most significant, that
/// is held in two words.  See [`crate::principal`] for the bytes.
#[derive(Clone, Copy, Debug, PartialEq, Eq, Structural, PartialOrd, Ord, Hash)]
pub struct Principal {
    /// How many bytes the principal has.
    pub len: u8,
    /// The bytes before the last sixteen.
    pub high: u128,
    /// The last sixteen bytes.
    pub low: u128,
}

impl Principal {
    /// The principal of a caller who did not sign: the one byte `0x04`.
    pub open spec fn spec_anonymous() -> Principal {
        Principal { len: 1, high: 0, low: 4 }
    }

    pub fn anonymous() -> (r: Principal)
        ensures
            r == Principal::spec_anonymous(),
    {
        Principal { len: 1, high: 0, low: 4 }
    }

    pub fn is_anonymous(&self) -> (r: bool)
        ensures
            r == (*self == Principal::spec_anonymous()),
    {
        self.len == 1 && self.high == 0 && self.low == 4
    }
}

/// One user's position: collateral locked, and stable tokens owed.
#[derive(Clone, Copy, Debug, PartialEq, Eq)]
pub struct Vault {
    pub owner: Principal,
    pub borrowed_icusd_amount: ICUSD,
    pub icp_margin_amount: ICP,
    pub vault_id: u64,
}

/// What opening a vault returns.
#[derive(Clone, Copy, Debug, PartialEq, Eq, Structural)]
pub struct OpenVaultSuccess {
    pub vault_id: u64,
    pub block_index: u64,
}

/// A vault and an amount: the argument of the operations on one vault.
#[derive(Clone, Copy, Debug, PartialEq, Eq, Structural)]
pub struct VaultArg {
    pub vault_id: u64,
    pub amount: u64,
}

/// A vault as it is shown to clients, with plain numbers.
#[derive(Clone, Copy, Debug, PartialEq, Eq, Structural)]
pub struct CandidVault {
    pub owner: Principal,
    pub borrowed_icusd_amount: u64,
    pub icp_margin_amount: u64,
    pub vault_id: u64,
}

impl Vault {
    /// The vault owing `debt` instead of what it owes.
    pub open spec fn with_debt(self, debt: u64) -> Vault {
        Vault {
            owner: self.owner,
            borrowed_icusd_amount: ICUSD::spec_new(debt),
            icp_margin_amount: self.icp_margin_amount,
            vault_id: self.vault_id,
        }
    }

    /// The vault holding `margin` instead of what it holds.
    pub open spec fn with_margin(self, margin: u64) -> Vault {
        Vault {
            owner: self.owner,
            borrowed_icusd_amount: self.borrowed_icusd_amount,
            icp_margin_amount: ICP::spec_new(margin),
            vault_id: self.vault_id,
        }
    }

    pub open spec fn debt(self) -> int {
        self.borrowed_icusd_amount.0 as int
    }

    pub open spec fn margin(self) -> int {
        self.icp_margin_amount.0 as int
    }

    pub open spec fn spec_to_candid(self) -> CandidVault {
        CandidVault {
            owner: self.owner,
            borrowed_icusd_amount: self.borrowed_icusd_amount.0,
            icp_margin_amount: self.icp_margin_amount.0,
            vault_id: self.vault_id,
        }
    }

    /// The vault with plain numbers.
    pub fn to_candid(self) -> (r: CandidVault)
        ensures
            r == self.spec_to_candid(),
    {
        CandidVault {
            owner: self.owner,
            borrowed_icusd_amount: self.borrowed_icusd_amount.to_u64(),
            icp_margin_amount: self.icp_margin_amount.to_u64(),
            vault_id: self.vault_id,
        }
    }
}

/// The sum of a sequence of numbers.
pub open spec fn total(s: Seq<int>) -> int
    decreases s.len(),
{
    if s.len() == 0 {
        0
    } else {
        total(s.drop_last()) + s.last()
    }
}

/// The debts of the vaults, in their order.
pub open spec fn debts(vaults: Seq<Vault>) -> Seq<int> {
    Seq::new(vaults.len(), |i: int| vaults[i].debt())
}

/// The margins of the vaults, in their order.
pub open spec fn margins(vaults: Seq<Vault>) -> Seq<int> {
    Seq::new(vaults.len(), |i: int| vaults[i].margin())
}

/// Σ debt.
pub open spec fn total_debt(vaults: Seq<Vault>) -> int {
    total(debts(vaults))
}

/// Σ collateral.
pub open spec fn total_margin(vaults: Seq<Vault>) -> int {
    total(margins(vaults))
}

/// The identifiers grow strictly along the sequence.
pub open spec fn ids_increasing(vaults: Seq<Vault>) -> bool {
    forall|i: int, j: int|
        0 <= i < j < vaults.len() ==> (#[trigger] vaults[i]).vault_id < (
        #[trigger] vaults[j]).vault_id
}

/// A vault with this identifier occurs.
pub open spec fn has_vault(vaults: Seq<Vault>, vault_id: u64) -> bool {
    exists|i: int| 0 <= i < vaults.len() && (#[trigger] vaults[i]).vault_id == vault_id
}

/// Where the vault with this identifier stands, if it occurs.
pub open spec fn position_of(vaults: Seq<Vault>, vault_id: u64) -> int {
    choose|i: int| 0 <= i < vaults.len() && (#[trigger] vaults[i]).vault_id == vault_id
}

/// The vaults with `vault` in the place of the one with its identifier.
pub open spec fn replaced(vaults: Seq<Vault>, vault: Vault) -> Seq<Vault> {
    vaults.update(position_of(vaults, vault.vault_id), vault)
}

/// The vault with this identifier, if it occurs.
pub open spec fn vault_with(vaults: Seq<Vault>, vault_id: u64) -> Vault {
    vaults[position_of(vaults, vault_id)]
}

/// In a sequence with growing identifiers a vault stands where its
/// identifier is found.
pub proof fn lemma_position_unique(vaults: Seq<Vault>, i: int)
    requires
        ids_increasing(vaults),
        0 <= i < vaults.len(),
    ensures
        has_vault(vaults, vaults[i].vault_id),
        position_of(vaults, vaults[i].vault_id) == i,
        vault_with(vaults, vaults[i].vault_id) == vaults[i],
{
    let id = vaults[i].vault_id;
    let p = position_of(vaults, id);
    assert(0 <= p < vaults.len() && vaults[p].vault_id == id);
    if p < i {
        assert(vaults[p].vault_id < vaults[i].vault_id);
    } else if i < p {
        assert(vaults[i].vault_id < vaults[p].vault_id);
    }
}

pub proof fn lemma_total_push(s: Seq<int>, v: int)
    ensures
        total(s.push(v)) == total(s) + v,
{
    assert(s.push(v).drop_last() =~= s);
}

pub proof fn lemma_total_insert(s: Seq<int>, i: int, v: int)
    requires
        0 <= i <= s.len(),
    ensures
        total(s.insert(i, v)) == total(s) + v,
    decreases s.len(),
{
    if i == s.len() {
        assert(s.insert(i, v) =~= s.push(v));
        lemma_total_push(s, v);
    } else {
        assert(s.insert(i, v).drop_last() =~= s.drop_last().insert(i, v));
        assert(s.insert(i, v).last() == s.last());
        lemma_total_insert(s.drop_last(), i, v);
    }
}

pub proof fn lemma_total_remove(s: Seq<int>, i: int)
    requires
        0 <= i < s.len(),
    ensures
        total(s.remove(i)) == total(s) - s[i],
    decreases s.len(),
{
    if i == s.len() - 1 {
        assert(s.remove(i) =~= s.drop_last());
    } else {
        assert(s.remove(i).drop_last() =~= s.drop_last().remove(i));
        assert(s.remove(i).last() == s.last());
        lemma_total_remove(s.drop_last(), i);
    }
}

pub proof fn lemma_total_update(s: Seq<int>, i: int, v: int)
    requires
        0 <= i < s.len(),
    ensures
        total(s.update(i, v)) == total(s) - s[i] + v,
    decreases s.len(),
{
    if i == s.len() - 1 {
        assert(s.update(i, v).drop_last() =~= s.drop_last());
    } else {
        assert(s.update(i, v).drop_last() =~= s.drop_last().update(i, v));
        lemma_total_update(s.drop_last(), i, v);
    }
}

/// In a sequence of non-negative numbers no element exceeds the sum.
pub proof fn lemma_total_bounds(s: Seq<int>, i: int)
    requires
        forall|k: int| 0 <= k < s.len() ==> 0 <= #[trigger] s[k],
        0 <= i < s.len(),
    ensures
        0 <= s[i] <= total(s),
        0 <= total(s.drop_last()),
    decreases s.len(),
{
    lemma_total_nonnegative(s.drop_last());
    if i < s.len() - 1 {
        lemma_total_bounds(s.drop_last(), i);
    }
}

pub proof fn lemma_total_nonnegative(s: Seq<int>)
    requires
        forall|k: int| 0 <= k < s.len() ==> 0 <= #[trigger] s[k],
    ensures
        0 <= total(s),
    decreases s.len(),
{
    if s.len() > 0 {
        lemma_total_nonnegative(s.drop_last());
    }
}

/// The sum of a prefix of non-negative numbers does not exceed the sum.
pub proof fn lemma_total_prefix(s: Seq<int>, n: int)
    requires
        forall|k: int| 0 <= k < s.len() ==> 0 <= #[trigger] s[k],
        0 <= n <= s.len(),
    ensures
        0 <= total(s.take(n)) <= total(s),
    decreases s.len() - n,
{
    lemma_total_nonnegative(s.take(n));
    if n < s.len() {
        assert(s.take(n + 1).drop_last() =~= s.take(n));
        lemma_total_prefix(s, n + 1);
    } else {
        assert(s.take(n) =~= s);
    }
}

/// No vault owes or holds more than all of them together.
pub proof fn lemma_vault_within_totals(vaults: Seq<Vault>, i: int)
    requires
        0 <= i < vaults.len(),
    ensures
        vaults[i].debt() <= total_debt(vaults),
        vaults[i].margin() <= total_margin(vaults),
        0 <= total_debt(vaults),
        0 <= total_margin(vaults),
{
    lemma_total_bounds(debts(vaults), i);
    lemma_total_bounds(margins(vaults), i);
}

/// What replacing one vault does to the sums.
pub proof fn lemma_totals_update(vaults: Seq<Vault>, i: int, v: Vault)
    requires
        0 <= i < vaults.len(),
    ensures
        total_debt(vaults.update(i, v)) == total_debt(vaults) - vaults[i].debt() + v.debt(),
        total_margin(vaults.update(i, v)) == total_margin(vaults) - vaults[i].margin()
            + v.margin(),
{
    assert(debts(vaults.update(i, v)) =~= debts(vaults).update(i, v.debt()));
    assert(margins(vaults.update(i, v)) =~= margins(vaults).update(i, v.margin()));
    lemma_total_update(debts(vaults), i, v.debt());
    lemma_total_update(margins(vaults), i, v.margin());
}

/// What taking one vault out does to the sums.
pub proof fn lemma_totals_remove(vaults: Seq<Vault>, i: int)
    requires
        0 <= i < vaults.len(),
    ensures
        total_debt(vaults.remove(i)) == total_debt(vaults) - vaults[i].debt(),
        total_margin(vaults.remove(i)) == total_margin(vaults) - vaults[i].margin(),
{
    assert(debts(vaults.remove(i)) =~= debts(vaults).remove(i));
    assert(margins(vaults.remove(i)) =~= margins(vaults).remove(i));
    lemma_total_remove(debts(vaults), i);
    lemma_total_remove(margins(vaults), i);
}

/// What putting one vault in does to the sums.
pub proof fn lemma_totals_insert(vaults: Seq<Vault>, i: int, v: Vault)
    requires
        0 <= i <= vaults.len(),
    ensures
        total_debt(vaults.insert(i, v)) == total_debt(vaults) + v.debt(),
        total_margin(vaults.insert(i, v)) == total_margin(vaults) + v.margin(),
{
    assert(debts(vaults.insert(i, v)) =~= debts(vaults).insert(i, v.debt()));
    assert(margins(vaults.insert(i, v)) =~= margins(vaults).insert(i, v.margin()));
    lemma_total_insert(debts(vaults), i, v.debt());
    lemma_total_insert(margins(vaults), i, v.margin());
}

/// An owner and one of the owner's vaults: an entry of the owner index.
#[derive(Clone, Copy, Debug, PartialEq, Eq, Structural)]
pub struct OwnerIndexEntry {
    pub owner: Principal,
    pub vault_id: u64,
}

/// The vaults with `vault` put in where its identifier belongs.
pub open spec fn sorted_insert(vaults: Seq<Vault>, vault: Vault) -> Seq<Vault>
    decreases vaults.len(),
{
    if vaults.len() == 0 {
        seq![vault]
    } else if vaults.last().vault_id < vault.vault_id {
        vaults.push(vault)
    } else {
        sorted_insert(vaults.drop_last(), vault).push(vaults.last())
    }
}

/// The vaults without the one with this identifier.
pub open spec fn without(vaults: Seq<Vault>, vault_id: u64) -> Seq<Vault>
    decreases vaults.len(),
{
    if vaults.len() == 0 {
        vaults
    } else if vaults.last().vault_id == vault_id {
        without(vaults.drop_last(), vault_id)
    } else {
        without(vaults.drop_last(), vault_id).push(vaults.last())
    }
}

/// `owner` owns the vault with this identifier.
pub open spec fn owns(vaults: Seq<Vault>, owner: Principal, vault_id: u64) -> bool {
    exists|i: int|
        0 <= i < vaults.len() && (#[trigger] vaults[i]).vault_id == vault_id && vaults[i].owner
            == owner
}

/// No entry occurs twice.
pub open spec fn index_distinct(index: Seq<OwnerIndexEntry>) -> bool {
    forall|i: int, j: int| 0 <= i < j < index.len() ==> #[trigger] index[i] != #[trigger] index[j]
}

/// The index lists a vault under an owner exactly where the store holds that
/// vault for that owner.
pub open spec fn index_matches(vaults: Seq<Vault>, index: Seq<OwnerIndexEntry>) -> bool {
    forall|e: OwnerIndexEntry| #[trigger] index.contains(e) <==> owns(vaults, e.owner, e.vault_id)
}

/// The identifiers of the vaults that the index lists under `owner`.
pub open spec fn vault_ids_of(index: Seq<OwnerIndexEntry>, owner: Principal) -> Set<u64> {
    Set::new(|id: u64| index.contains(OwnerIndexEntry { owner, vault_id: id }))
}

/// What holds of a vault store: the vaults stand in the order of their
/// identifiers, which are all below the next one to be given out; the sums
/// of debt and margin fit in a `u64`; the owner index lists each vault once,
/// under its owner, and nothing else.
pub open spec fn store_wf(vaults: Seq<Vault>, index: Seq<OwnerIndexEntry>, next_id: u64) -> bool {
    &&& ids_increasing(vaults)
    &&& forall|i: int| 0 <= i < vaults.len() ==> (#[trigger] vaults[i]).vault_id < next_id
    &&& total_debt(vaults) <= u64::MAX
    &&& total_margin(vaults) <= u64::MAX
    &&& index_distinct(index)
    &&& index_matches(vaults, index)
}

pub proof fn lemma_sorted_insert_at(vaults: Seq<Vault>, vault: Vault, p: int)
    requires
        0 <= p <= vaults.len(),
        forall|i: int| 0 <= i < p ==> (#[trigger] vaults[i]).vault_id < vault.vault_id,
        forall|i: int| p <= i < vaults.len() ==> (#[trigger] vaults[i]).vault_id > vault.vault_id,
    ensures
        sorted_insert(vaults, vault) == vaults.insert(p, vault),
    decreases vaults.len(),
{
    if vaults.len() == 0 {
        assert(vaults.insert(p, vault) =~= seq![vault]);
    } else if vaults.last().vault_id < vault.vault_id {
        if p < vaults.len() {
            assert(vaults[vaults.len() - 1].vault_id > vault.vault_id);
        }
        assert(vaults.insert(p, vault) =~= vaults.push(vault));
    } else {
        if p == vaults.len() {
            assert(vaults[vaults.len() - 1].vault_id < vault.vault_id);
        }
        let rest = vaults.drop_last();
        lemma_sorted_insert_at(rest, vault, p);
        assert(vaults.insert(p, vault) =~= rest.insert(p, vault).push(vaults.last()));
    }
}

pub proof fn lemma_without_at(vaults: Seq<Vault>, p: int)
    requires
        ids_increasing(vaults),
        0 <= p < vaults.len(),
    ensures
        without(vaults, vaults[p].vault_id) == vaults.remove(p),
    decreases vaults.len(),
{
    let id = vaults[p].vault_id;
    let rest = vaults.drop_last();
    if p == vaults.len() - 1 {
        lemma_without_absent(rest, id);
        assert(vaults.remove(p) =~= rest);
    } else {
        assert(vaults[p].vault_id < vaults[vaults.len() - 1].vault_id);
        lemma_without_at(rest, p);
        assert(vaults.remove(p) =~= rest.remove(p).push(vaults.last()));
    }
}

pub proof fn lemma_without_absent(vaults: Seq<Vault>, vault_id: u64)
    requires
        forall|i: int| 0 <= i < vaults.len() ==> (#[trigger] vaults[i]).vault_id != vault_id,
    ensures
        without(vaults, vault_id) == vaults,
    decreases vaults.len(),
{
    if vaults.len() > 0 {
        assert(vaults[vaults.len() - 1].vault_id != vault_id);
        lemma_without_absent(vaults.drop_last(), vault_id);
        assert(vaults.drop_last().push(vaults.last()) =~= vaults);
    }
}

/// Putting a new vault into a store, and its entry into the index, leaves a
/// store.
pub proof fn lemma_store_insert(
    vaults: Seq<Vault>,
    index: Seq<OwnerIndexEntry>,
    next_id: u64,
    vault: Vault,
    p: int,
)
    requires
        store_wf(vaults, index, next_id),
        vault.vault_id < next_id,
        0 <= p <= vaults.len(),
        forall|i: int| 0 <= i < p ==> (#[trigger] vaults[i]).vault_id < vault.vault_id,
        forall|i: int| p <= i < vaults.len() ==> (#[trigger] vaults[i]).vault_id > vault.vault_id,
        total_debt(vaults) + vault.debt() <= u64::MAX,
        total_margin(vaults) + vault.margin() <= u64::MAX,
    ensures
        store_wf(
            vaults.insert(p, vault),
            index.push(OwnerIndexEntry { owner: vault.owner, vault_id: vault.vault_id }),
            next_id,
        ),
{
    let after = vaults.insert(p, vault);
    let entry = OwnerIndexEntry { owner: vault.owner, vault_id: vault.vault_id };
    let listed = index.push(entry);
    lemma_totals_insert(vaults, p, vault);
    assert forall|i: int, j: int| 0 <= i < j < after.len() implies (#[trigger] after[i]).vault_id < (
    #[trigger] after[j]).vault_id by {
        let oi = if i < p { i } else { i - 1 };
        let oj = if j < p { j } else { j - 1 };
        if i != p && j != p {
            assert(vaults[oi].vault_id < vaults[oj].vault_id);
        } else if i == p {
            assert(vaults[oj].vault_id > vault.vault_id);
        } else {
            assert(vaults[oi].vault_id < vault.vault_id);
        }
    }
    assert forall|i: int| 0 <= i < after.len() implies (#[trigger] after[i]).vault_id < next_id by {
        if i != p {
            let oi = if i < p { i } else { i - 1 };
            assert(vaults[oi].vault_id < next_id);
        }
    }
    assert(!owns(vaults, vault.owner, vault.vault_id)) by {
        if owns(vaults, vault.owner, vault.vault_id) {
            let i = choose|i: int|
                0 <= i < vaults.len() && (#[trigger] vaults[i]).vault_id == vault.vault_id
                    && vaults[i].owner == vault.owner;
            assert(vaults[i].vault_id == vault.vault_id);
        }
    }
    assert(!index.contains(entry));
    assert forall|i: int, j: int| 0 <= i < j < listed.len() implies #[trigger] listed[i]
        != #[trigger] listed[j] by {
        if j < index.len() {
            assert(index[i] != index[j]);
        } else {
            assert(index.contains(index[i]));
        }
    }
    assert forall|e: OwnerIndexEntry| #[trigger] listed.contains(e) <==> owns(
        after,
        e.owner,
        e.vault_id,
    ) by {
        if listed.contains(e) {
            let k = choose|k: int| 0 <= k < listed.len() && listed[k] == e;
            if k < index.len() {
                assert(index[k] == e);
                assert(index.contains(e));
                let i = choose|i: int|
                    0 <= i < vaults.len() && (#[trigger] vaults[i]).vault_id == e.vault_id
                        && vaults[i].owner == e.owner;
                let ni = if i < p { i } else { i + 1 };
                assert(after[ni].vault_id == e.vault_id && after[ni].owner == e.owner);
            } else {
                assert(after[p].vault_id == e.vault_id && after[p].owner == e.owner);
            }
        }
        if owns(after, e.owner, e.vault_id) {
            let i = choose|i: int|
                0 <= i < after.len() && (#[trigger] after[i]).vault_id == e.vault_id
                    && after[i].owner == e.owner;
            if i == p {
                assert(listed[listed.len() - 1] == e);
            } else {
                let oi = if i < p { i } else { i - 1 };
                assert(vaults[oi].vault_id == e.vault_id && vaults[oi].owner == e.owner);
                assert(index.contains(e));
                let k = choose|k: int| 0 <= k < index.len() && index[k] == e;
                assert(listed[k] == e);
            }
        }
    }
}

/// Taking a vault out of a store, and its entry out of the index, leaves a
/// store.
pub proof fn lemma_store_remove(
    vaults: Seq<Vault>,
    index: Seq<OwnerIndexEntry>,
    next_id: u64,
    p: int,
    k: int,
)
    requires
        store_wf(vaults, index, next_id),
        0 <= p < vaults.len(),
        0 <= k < index.len(),
        index[k] == (OwnerIndexEntry { owner: vaults[p].owner, vault_id: vaults[p].vault_id }),
    ensures
        store_wf(vaults.remove(p), index.remove(k), next_id),
{
    let after = vaults.remove(p);
    let listed = index.remove(k);
    let gone = index[k];
    lemma_totals_remove(vaults, p);
    lemma_vault_within_totals(vaults, p);
    assert forall|i: int, j: int| 0 <= i < j < after.len() implies (#[trigger] after[i]).vault_id < (
    #[trigger] after[j]).vault_id by {
        let oi = if i < p { i } else { i + 1 };
        let oj = if j < p { j } else { j + 1 };
        assert(vaults[oi].vault_id < vaults[oj].vault_id);
    }
    assert forall|i: int| 0 <= i < after.len() implies (#[trigger] after[i]).vault_id < next_id by {
        let oi = if i < p { i } else { i + 1 };
        assert(vaults[oi].vault_id < next_id);
    }
    assert forall|i: int, j: int| 0 <= i < j < listed.len() implies #[trigger] listed[i]
        != #[trigger] listed[j] by {
        let oi = if i < k { i } else { i + 1 };
        let oj = if j < k { j } else { j + 1 };
        assert(index[oi] != index[oj]);
    }
    assert forall|e: OwnerIndexEntry| #[trigger] listed.contains(e) <==> owns(
        after,
        e.owner,
        e.vault_id,
    ) by {
        if listed.contains(e) {
            let m = choose|m: int| 0 <= m < listed.len() && listed[m] == e;
            let om = if m < k { m } else { m + 1 };
            assert(index[om] == e);
            assert(index.contains(e));
            if om < k {
                assert(index[om] != index[k]);
            } else {
                assert(index[k] != index[om]);
            }
            let i = choose|i: int|
                0 <= i < vaults.len() && (#[trigger] vaults[i]).vault_id == e.vault_id
                    && vaults[i].owner == e.owner;
            if i == p {
                assert(e == gone);
            }
            if i < p {
                assert(after[i].vault_id == e.vault_id && after[i].owner == e.owner);
            } else {
                assert(after[i - 1].vault_id == e.vault_id && after[i - 1].owner == e.owner);
            }
        }
        if owns(after, e.owner, e.vault_id) {
            let i = choose|i: int|
                0 <= i < after.len() && (#[trigger] after[i]).vault_id == e.vault_id
                    && after[i].owner == e.owner;
            let oi = if i < p { i } else { i + 1 };
            assert(vaults[oi].vault_id == e.vault_id && vaults[oi].owner == e.owner);
            if oi < p {
                assert(vaults[oi].vault_id < vaults[p].vault_id);
            } else {
                assert(vaults[p].vault_id < vaults[oi].vault_id);
            }
            assert(index.contains(e));
            let m = choose|m: int| 0 <= m < index.len() && index[m] == e;
            assert(m != k);
            let nm = if m < k { m } else { m - 1 };
            assert(listed[nm] == e);
        }
    }
}

/// Changing what a vault owes and holds, but not whose it is or which,
/// leaves a store, provided the sums still fit.
pub proof fn lemma_store_update(
    vaults: Seq<Vault>,
    index: Seq<OwnerIndexEntry>,
    next_id: u64,
    p: int,
    vault: Vault,
)
    requires
        store_wf(vaults, index, next_id),
        0 <= p < vaults.len(),
        vault.vault_id == vaults[p].vault_id,
        vault.owner == vaults[p].owner,
        total_debt(vaults) - vaults[p].debt() + vault.debt() <= u64::MAX,
        total_margin(vaults) - vaults[p].margin() + vault.margin() <= u64::MAX,
    ensures
        store_wf(vaults.update(p, vault), index, next_id),
{
    let after = vaults.update(p, vault);
    lemma_totals_update(vaults, p, vault);
    assert forall|i: int, j: int| 0 <= i < j < after.len() implies (#[trigger] after[i]).vault_id < (
    #[trigger] after[j]).vault_id by {
        assert(vaults[i].vault_id < vaults[j].vault_id);
    }
    assert forall|i: int| 0 <= i < after.len() implies (#[trigger] after[i]).vault_id < next_id by {
        assert(vaults[i].vault_id < next_id);
    }
    assert forall|e: OwnerIndexEntry| #[trigger] index.contains(e) <==> owns(
        after,
        e.owner,
        e.vault_id,
    ) by {
        if index.contains(e) {
            let i = choose|i: int|
                0 <= i < vaults.len() && (#[trigger] vaults[i]).vault_id == e.vault_id
                    && vaults[i].owner == e.owner;
            assert(after[i].vault_id == e.vault_id && after[i].owner == e.owner);
        }
        if owns(after, e.owner, e.vault_id) {
            let i = choose|i: int|
                0 <= i < after.len() && (#[trigger] after[i]).vault_id == e.vault_id
                    && after[i].owner == e.owner;
            assert(vaults[i].vault_id == e.vault_id && vaults[i].owner == e.owner);
        }
    }
}

/// What is left without a vault owes and holds no more than all did.
pub proof fn lemma_without_totals(vaults: Seq<Vault>, vault_id: u64)
    ensures
        0 <= total_debt(without(vaults, vault_id)) <= total_debt(vaults),
        0 <= total_margin(without(vaults, vault_id)) <= total_margin(vaults),
        without(vaults, vault_id).len() <= vaults.len(),
    decreases vaults.len(),
{
    if vaults.len() > 0 {
        let rest = vaults.drop_last();
        lemma_without_totals(rest, vault_id);
        let kept = without(rest, vault_id);
        assert(debts(vaults).drop_last() =~= debts(rest));
        assert(margins(vaults).drop_last() =~= margins(rest));
        assert(debts(kept.push(vaults.last())).drop_last() =~= debts(kept));
        assert(margins(kept.push(vaults.last())).drop_last() =~= margins(kept));
    }
}

/// Σ debt of `vaults`.
pub fn sum_debts(vaults: &Vec<Vault>) -> (r: u64)
    requires
        total_debt(vaults@) <= u64::MAX,
    ensures
        r == total_debt(vaults@),
{
    let mut sum: u64 = 0;
    let mut i: usize = 0;
    while i < vaults.len()
        invariant
            i <= vaults@.len(),
            total_debt(vaults@) <= u64::MAX,
            sum == total_debt(vaults@.take(i as int)),
        decreases vaults@.len() - i,
    {
        proof {
            let next = vaults@.take(i as int + 1);
            assert(debts(next).drop_last() =~= debts(vaults@.take(i as int)));
            lemma_total_prefix(debts(vaults@), i as int + 1);
            assert(debts(vaults@).take(i as int + 1) =~= debts(next));
        }
        sum = sum + vaults[i].borrowed_icusd_amount.0;
        i = i + 1;
    }
    proof {
        assert(vaults@.take(i as int) =~= vaults@);
    }
    sum
}

/// Σ collateral of `vaults`.
pub fn sum_margins(vaults: &Vec<Vault>) -> (r: u64)
    requires
        total_margin(vaults@) <= u64::MAX,
    ensures
        r == total_margin(vaults@),
{
    let mut sum: u64 = 0;
    let mut i: usize = 0;
    while i < vaults.len()
        invariant
            i <= vaults@.len(),
            total_margin(vaults@) <= u64::MAX,
            sum == total_margin(vaults@.take(i as int)),
        decreases vaults@.len() - i,
    {
        proof {
            let next = vaults@.take(i as int + 1);
            assert(margins(next).drop_last() =~= margins(vaults@.take(i as int)));
            lemma_total_prefix(margins(vaults@), i as int + 1);
            assert(margins(vaults@).take(i as int + 1) =~= margins(next));
        }
        sum = sum + vaults[i].icp_margin_amount.0;
        i = i + 1;
    }
    proof {
        assert(vaults@.take(i as int) =~= vaults@);
    }
    sum
}

/// The vaults other than the one with this identifier, in their order.
pub fn others(vaults: &Vec<Vault>, vault_id: u64) -> (r: Vec<Vault>)
    ensures
        r@ == without(vaults@, vault_id),
{
    let mut out: Vec<Vault> = Vec::new();
    let mut i: usize = 0;
    while i < vaults.len()
        invariant
            i <= vaults@.len(),
            out@ == without(vaults@.take(i as int), vault_id),
        decreases vaults@.len() - i,
    {
        proof {
            assert(vaults@.take(i as int + 1).drop_last() =~= vaults@.take(i as int));
        }
        if vaults[i].vault_id != vault_id {
            out.push(vaults[i]);
        }
        i = i + 1;
    }
    proof {
        assert(vaults@.take(i as int) =~= vaults@);
    }
    out
}

/// The sum of two sequences added place by place is the sum of their sums.
pub proof fn lemma_total_added(a: Seq<int>, b: Seq<int>)
    requires
        a.len() == b.len(),
    ensures
        total(Seq::new(a.len(), |i: int| a[i] + b[i])) == total(a) + total(b),
    decreases a.len(),
{
    let c = Seq::new(a.len(), |i: int| a[i] + b[i]);
    if a.len() > 0 {
        lemma_total_added(a.drop_last(), b.drop_last());
        assert(c.drop_last() =~= Seq::new(
            a.drop_last().len(),
            |i: int| a.drop_last()[i] + b.drop_last()[i],
        ));
    }
}

/// Vaults with the same identifiers and owners, place by place, as the
/// vaults of a store make a store with the same index, provided their sums
/// fit.
pub proof fn lemma_store_same_keys(
    vaults: Seq<Vault>,
    changed: Seq<Vault>,
    index: Seq<OwnerIndexEntry>,
    next_id: u64,
)
    requires
        store_wf(vaults, index, next_id),
        changed.len() == vaults.len(),
        forall|i: int|
            0 <= i < vaults.len() ==> (#[trigger] changed[i]).vault_id == vaults[i].vault_id
                && changed[i].owner == vaults[i].owner,
        total_debt(changed) <= u64::MAX,
        total_margin(changed) <= u64::MAX,
    ensures
        store_wf(changed, index, next_id),
{
    assert forall|i: int, j: int| 0 <= i < j < changed.len() implies (
    #[trigger] changed[i]).vault_id < (#[trigger] changed[j]).vault_id by {
        assert(vaults[i].vault_id < vaults[j].vault_id);
    }
    assert forall|i: int| 0 <= i < changed.len() implies (#[trigger] changed[i]).vault_id
        < next_id by {
        assert(vaults[i].vault_id < next_id);
    }
    assert forall|e: OwnerIndexEntry| #[trigger] index.contains(e) <==> owns(
        changed,
        e.owner,
        e.vault_id,
    ) by {
        if index.contains(e) {
            let i = choose|i: int|
                0 <= i < vaults.len() && (#[trigger] vaults[i]).vault_id == e.vault_id
                    && vaults[i].owner == e.owner;
            assert(changed[i].vault_id == e.vault_id && changed[i].owner == e.owner);
        }
        if owns(changed, e.owner, e.vault_id) {
            let i = choose|i: int|
                0 <= i < changed.len() && (#[trigger] changed[i]).vault_id == e.vault_id
                    && changed[i].owner == e.owner;
            assert(vaults[i].vault_id == e.vault_id && vaults[i].owner == e.owner);
        }
    }
}

/// Where the vault with this identifier stands in `vaults`.
pub fn find_position(vaults: &Vec<Vault>, vault_id: u64) -> (r: Option<usize>)
    requires
        ids_increasing(vaults@),
    ensures
        r is Some <==> has_vault(vaults@, vault_id),
        r is Some ==> r->0 == position_of(vaults@, vault_id) && r->0 < vaults@.len()
            && vaults@[r->0 as int].vault_id == vault_id,
{
    let mut i: usize = 0;
    while i < vaults.len()
        invariant
            i <= vaults@.len(),
            ids_increasing(vaults@),
            forall|k: int| 0 <= k < i ==> (#[trigger] vaults@[k]).vault_id != vault_id,
        decreases vaults@.len() - i,
    {
        if vaults[i].vault_id == vault_id {
            proof {
                lemma_position_unique(vaults@, i as int);
            }
            return Some(i);
        }
        i = i + 1;
    }
    None
}

/// A copy of the vaults.
pub fn copy_of(vaults: &Vec<Vault>) -> (r: Vec<Vault>)
    ensures
        r@ == vaults@,
{
    let mut out: Vec<Vault> = Vec::new();
    let mut i: usize = 0;
    while i < vaults.len()
        invariant
            i <= vaults@.len(),
            out@ == vaults@.take(i as int),
        decreases vaults@.len() - i,
    {
        out.push(vaults[i]);
        proof {
            assert(vaults@.take(i as int + 1) =~= vaults@.take(i as int).push(vaults@[i as int]));
        }
        i = i + 1;
    }
    proof {
        assert(vaults@.take(i as int) =~= vaults@);
    }
    out
}

/// Vaults that owe nothing owe nothing together.
pub proof fn lemma_no_debt(vaults: Seq<Vault>)
    requires
        forall|i: int| 0 <= i < vaults.len() ==> (#[trigger] vaults[i]).debt() == 0,
    ensures
        total_debt(vaults) == 0,
    decreases vaults.len(),
{
    if vaults.len() > 0 {
        let rest = vaults.drop_last();
        assert forall|i: int| 0 <= i < rest.len() implies (#[trigger] rest[i]).debt() == 0 by {
            assert(vaults[i].debt() == 0);
        }
        lemma_no_debt(rest);
        assert(debts(vaults).drop_last() =~= debts(rest));
        assert(vaults[vaults.len() - 1].debt() == 0);
    }
}

} // verus!
