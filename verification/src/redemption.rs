//! Redemption: stable tokens are given back for collateral at the oracle
//! price, against the vaults with the least collateral for their debt.

use vstd::prelude::*;
use crate::decimal::at_full_scale;
use crate::decimal::lemma_order_at_full_scale;
use crate::decimal::Comparison;
use crate::numeric::ICP;
use crate::numeric::ICUSD;
use crate::numeric::Ratio;
use crate::numeric::UsdIcp;
use crate::numeric::token_over;
use crate::compute_collateral_ratio;
use crate::spec_collateral_ratio;
use crate::state::State;
use crate::state::Touched;
use crate::state::nothing;
use crate::vault::Vault;
use crate::vault::has_vault;
use crate::vault::ids_increasing;
use crate::vault::position_of;
use crate::vault::replaced;
use crate::vault::total_debt;
use crate::vault::total_margin;
use crate::vault::vault_with;

verus! {

/// By what the vaults are ordered for redemption: the collateral ratio at
/// the price, then the identifier.
#[derive(Clone, Copy, Debug)]
pub struct RedemptionKey {
    pub ratio: Ratio,
    pub vault_id: u64,
}

/// `a` comes before `b`: its ratio is the smaller, or the ratios have one
/// value and its identifier is the smaller.
pub open spec fn key_before(a: RedemptionKey, b: RedemptionKey) -> bool {
    a.ratio.0.value_lt(b.ratio.0) || (a.ratio.0.value_eq(b.ratio.0) && a.vault_id < b.vault_id)
}

/// Each key comes before every later one.
pub open spec fn keys_sorted(keys: Seq<RedemptionKey>) -> bool {
    forall|i: int, j: int|
        0 <= i < j < keys.len() ==> key_before(#[trigger] keys[i], #[trigger] keys[j])
}

/// The key of a vault at a price, where its ratio can be computed.
pub open spec fn key_of(vault: Vault, icp_rate: UsdIcp) -> Option<RedemptionKey> {
    match spec_collateral_ratio(vault, icp_rate) {
        Some(ratio) => Some(RedemptionKey { ratio, vault_id: vault.vault_id }),
        None => None,
    }
}

/// The ratio of every vault can be computed at the price.
pub open spec fn all_rated(vaults: Seq<Vault>, icp_rate: UsdIcp) -> bool {
    forall|i: int| 0 <= i < vaults.len() ==> key_of(#[trigger] vaults[i], icp_rate) is Some
}

/// `keys` are the keys of the vaults at the price, in growing order.
pub open spec fn is_redemption_order(
    vaults: Seq<Vault>,
    icp_rate: UsdIcp,
    keys: Seq<RedemptionKey>,
) -> bool {
    &&& keys.len() == vaults.len()
    &&& keys_sorted(keys)
    &&& all_rated(vaults, icp_rate)
    &&& forall|j: int| 0 <= j < keys.len() ==> (#[trigger] keys[j]).ratio.valid()
    &&& forall|i: int|
        0 <= i < vaults.len() ==> keys.contains(key_of(#[trigger] vaults[i], icp_rate)->0)
    &&& forall|j: int| 0 <= j < keys.len() ==> is_key_of_one(vaults, icp_rate, #[trigger] keys[j])
}

/// `key` is the key of one of the vaults.
pub open spec fn is_key_of_one(vaults: Seq<Vault>, icp_rate: UsdIcp, key: RedemptionKey) -> bool {
    exists|i: int| 0 <= i < vaults.len() && key_of(#[trigger] vaults[i], icp_rate) == Some(key)
}

/// The keys of the vaults at the price, in growing order: the order in
/// which the vaults are redeemed against.
pub open spec fn spec_redemption_order(vaults: Seq<Vault>, icp_rate: UsdIcp) -> Seq<RedemptionKey> {
    choose|keys: Seq<RedemptionKey>| is_redemption_order(vaults, icp_rate, keys)
}

/// There is one order of redemption.
pub proof fn lemma_one_redemption_order(
    vaults: Seq<Vault>,
    icp_rate: UsdIcp,
    a: Seq<RedemptionKey>,
    b: Seq<RedemptionKey>,
)
    requires
        is_redemption_order(vaults, icp_rate, a),
        is_redemption_order(vaults, icp_rate, b),
    ensures
        a == b,
{
    assert forall|i: int| 0 <= i < a.len() implies a[i] == b[i] by {
        lemma_same_key_at(vaults, icp_rate, a, b, i);
    }
    assert(a =~= b);
}

/// Two orders of redemption have the same key at every place.
proof fn lemma_same_key_at(
    vaults: Seq<Vault>,
    icp_rate: UsdIcp,
    a: Seq<RedemptionKey>,
    b: Seq<RedemptionKey>,
    i: int,
)
    requires
        is_redemption_order(vaults, icp_rate, a),
        is_redemption_order(vaults, icp_rate, b),
        0 <= i < a.len(),
    ensures
        a[i] == b[i],
    decreases i,
{
    // where a's key at i stands in b, and b's key at i in a
    assert(is_key_of_one(vaults, icp_rate, a[i]));
    let va = choose|v: int|
        0 <= v < vaults.len() && key_of(#[trigger] vaults[v], icp_rate) == Some(a[i]);
    assert(b.contains(key_of(vaults[va], icp_rate)->0));
    let k = choose|k: int| 0 <= k < b.len() && b[k] == a[i];
    assert(is_key_of_one(vaults, icp_rate, b[i]));
    let vb = choose|v: int|
        0 <= v < vaults.len() && key_of(#[trigger] vaults[v], icp_rate) == Some(b[i]);
    assert(a.contains(key_of(vaults[vb], icp_rate)->0));
    let m = choose|m: int| 0 <= m < a.len() && a[m] == b[i];
    if k < i {
        lemma_same_key_at(vaults, icp_rate, a, b, k);
        assert(key_before(a[k], a[i]));
        lemma_key_order(a[k], a[i], a[i]);
    } else if m < i {
        lemma_same_key_at(vaults, icp_rate, a, b, m);
        assert(key_before(b[m], b[i]));
        lemma_key_order(b[m], b[i], b[i]);
    } else if k > i && m > i {
        assert(key_before(b[i], b[k]));
        assert(key_before(a[i], a[m]));
        lemma_key_order(a[i], b[i], a[i]);
    }
}

/// Whether `a` comes before `b`.
pub fn before(a: &RedemptionKey, b: &RedemptionKey) -> (r: bool)
    requires
        a.ratio.valid(),
        b.ratio.valid(),
    ensures
        r == key_before(*a, *b),
{
    match a.ratio.0.compare(b.ratio.0) {
        Comparison::Less => true,
        Comparison::Equal => a.vault_id < b.vault_id,
        Comparison::Greater => false,
    }
}

/// Of two keys with different identifiers one comes before the other, and
/// coming before carries over from key to key.
pub proof fn lemma_key_order(a: RedemptionKey, b: RedemptionKey, c: RedemptionKey)
    requires
        a.ratio.valid(),
        b.ratio.valid(),
        c.ratio.valid(),
    ensures
        a.vault_id != b.vault_id ==> key_before(a, b) || key_before(b, a),
        key_before(a, b) && key_before(b, c) ==> key_before(a, c),
        !(key_before(a, b) && key_before(b, a)),
{
    lemma_order_at_full_scale(a.ratio.0, b.ratio.0);
    lemma_order_at_full_scale(b.ratio.0, a.ratio.0);
    lemma_order_at_full_scale(b.ratio.0, c.ratio.0);
    lemma_order_at_full_scale(a.ratio.0, c.ratio.0);
}

/// The keys of the vaults at the price, in growing order; `None` where the
/// ratio of a vault cannot be computed.
pub fn redemption_order(vaults: &Vec<Vault>, icp_rate: UsdIcp) -> (r: Option<Vec<RedemptionKey>>)
    requires
        ids_increasing(vaults@),
        icp_rate.valid(),
    ensures
        r is Some <==> all_rated(vaults@, icp_rate),
        r is Some ==> is_redemption_order(vaults@, icp_rate, r->0@),
        r is Some ==> r->0@ == spec_redemption_order(vaults@, icp_rate),
{
    let mut sorted: Vec<RedemptionKey> = Vec::new();
    let mut i: usize = 0;
    while i < vaults.len()
        invariant
            i <= vaults@.len(),
            ids_increasing(vaults@),
            icp_rate.valid(),
            sorted@.len() == i,
            keys_sorted(sorted@),
            forall|j: int| 0 <= j < sorted@.len() ==> (#[trigger] sorted@[j]).ratio.valid(),
            forall|m: int| 0 <= m < i ==> key_of(#[trigger] vaults@[m], icp_rate) is Some,
            forall|m: int|
                0 <= m < i ==> sorted@.contains(key_of(#[trigger] vaults@[m], icp_rate)->0),
            forall|j: int|
                0 <= j < sorted@.len() ==> is_key_of_one(
                    vaults@.take(i as int),
                    icp_rate,
                    #[trigger] sorted@[j],
                ),
        decreases vaults@.len() - i,
    {
        let vault = vaults[i];
        let ratio = match compute_collateral_ratio(&vault, icp_rate) {
            Some(ratio) => ratio,
            None => {
                assert(key_of(vaults@[i as int], icp_rate) is None);
                return None;
            },
        };
        let key = RedemptionKey { ratio, vault_id: vault.vault_id };
        let mut p: usize = 0;
        while p < sorted.len() && before(&sorted[p], &key)
            invariant
                p <= sorted@.len(),
                key.ratio.valid(),
                forall|j: int| 0 <= j < sorted@.len() ==> (#[trigger] sorted@[j]).ratio.valid(),
                forall|a: int| 0 <= a < p ==> key_before(#[trigger] sorted@[a], key),
            decreases sorted@.len() - p,
        {
            p = p + 1;
        }
        let ghost earlier = sorted@;
        proof {
            assert forall|a: int| p <= a < earlier.len() implies key_before(
                key,
                #[trigger] earlier[a],
            ) by {
                assert(is_key_of_one(vaults@.take(i as int), icp_rate, earlier[p as int]));
                let m = choose|m: int|
                    0 <= m < i && key_of(#[trigger] vaults@.take(i as int)[m], icp_rate) == Some(
                        earlier[p as int],
                    );
                assert(vaults@[m].vault_id < vaults@[i as int].vault_id);
                lemma_key_order(earlier[p as int], key, earlier[a]);
                lemma_key_order(key, earlier[p as int], earlier[a]);
            }
        }
        sorted.insert(p, key);
        proof {
            let later = sorted@;
            assert forall|a: int, b: int| 0 <= a < b < later.len() implies key_before(
                #[trigger] later[a],
                #[trigger] later[b],
            ) by {
                let oa = if a < p { a } else { a - 1 };
                let ob = if b < p { b } else { b - 1 };
                if a != p && b != p {
                    assert(key_before(earlier[oa], earlier[ob]));
                } else if a == p {
                    assert(key_before(key, earlier[ob]));
                } else {
                    assert(key_before(earlier[oa], key));
                }
            }
            assert forall|j: int| 0 <= j < later.len() implies (#[trigger] later[j]).ratio.valid() by {
                if j != p {
                    let oj = if j < p { j } else { j - 1 };
                    assert(earlier[oj].ratio.valid());
                }
            }
            assert forall|m: int| 0 <= m < i + 1 implies later.contains(
                key_of(#[trigger] vaults@[m], icp_rate)->0,
            ) by {
                if m < i {
                    let wanted = key_of(vaults@[m], icp_rate)->0;
                    assert(earlier.contains(wanted));
                    let j = choose|j: int| 0 <= j < earlier.len() && earlier[j] == wanted;
                    let nj = if j < p { j } else { j + 1 };
                    assert(later[nj] == wanted);
                } else {
                    assert(later[p as int] == key);
                }
            }
            let seen = vaults@.take(i as int + 1);
            assert forall|j: int| 0 <= j < later.len() implies is_key_of_one(
                seen,
                icp_rate,
                #[trigger] later[j],
            ) by {
                if j == p {
                    assert(key_of(seen[i as int], icp_rate) == Some(later[j]));
                } else {
                    let oj = if j < p { j } else { j - 1 };
                    assert(is_key_of_one(vaults@.take(i as int), icp_rate, earlier[oj]));
                    let m = choose|m: int|
                        0 <= m < i && key_of(#[trigger] vaults@.take(i as int)[m], icp_rate)
                            == Some(earlier[oj]);
                    assert(key_of(seen[m], icp_rate) == Some(later[j]));
                }
            }
        }
        i = i + 1;
    }
    proof {
        assert(vaults@.take(i as int) =~= vaults@);
        assert(is_redemption_order(vaults@, icp_rate, sorted@));
        lemma_one_redemption_order(
            vaults@,
            icp_rate,
            sorted@,
            spec_redemption_order(vaults@, icp_rate),
        );
    }
    Some(sorted)
}

/// What a vault is after `take` of its debt is redeemed for `icp` of its
/// collateral.
pub open spec fn redeemed_from(vault: Vault, take: u64, icp: u64) -> Vault {
    vault.with_debt((vault.debt() - take) as u64).with_margin((vault.margin() - icp) as u64)
}

/// The vaults after `remaining` is redeemed against them in the order of
/// `order`: each vault in turn gives up as much of its debt as is still to
/// be redeemed, and that debt's worth of collateral at the price.  `None`
/// where the collateral cannot be computed or a vault holds less.
pub open spec fn spec_redeem(
    vaults: Seq<Vault>,
    order: Seq<RedemptionKey>,
    remaining: u64,
    icp_rate: UsdIcp,
) -> Option<Seq<Vault>>
    decreases order.len(),
{
    if remaining == 0 || order.len() == 0 {
        Some(vaults)
    } else {
        let vault = vault_with(vaults, order[0].vault_id);
        let take = if remaining <= vault.debt() {
            remaining
        } else {
            vault.borrowed_icusd_amount.0
        };
        match token_over(take, icp_rate.0) {
            Some(icp) if icp <= vault.margin() => spec_redeem(
                replaced(vaults, redeemed_from(vault, take, icp)),
                order.drop_first(),
                (remaining - take) as u64,
                icp_rate,
            ),
            _ => None,
        }
    }
}

/// What redeeming `amount` at the price makes of `vaults`: see
/// [`spec_redeem`], with the vaults in the order of redemption.  `None`
/// where the ratio of a vault cannot be computed, or the redemption fails on
/// the way.
pub open spec fn spec_redeemed(vaults: Seq<Vault>, amount: u64, icp_rate: UsdIcp) -> Option<
    Seq<Vault>,
> {
    if all_rated(vaults, icp_rate) {
        spec_redeem(vaults, spec_redemption_order(vaults, icp_rate), amount, icp_rate)
    } else {
        None
    }
}

/// `after` is what redeeming `amount` at the price makes of `vaults`.
pub open spec fn redeemed(vaults: Seq<Vault>, after: Seq<Vault>, amount: u64, icp_rate: UsdIcp) -> bool {
    spec_redeemed(vaults, amount, icp_rate) == Some(after)
}

/// `amount` cannot be redeemed against `vaults` at the price.
pub open spec fn cannot_redeem(vaults: Seq<Vault>, amount: u64, icp_rate: UsdIcp) -> bool {
    spec_redeemed(vaults, amount, icp_rate) is None
}

/// Two sequences hold vaults with the same identifiers and owners, place by
/// place.
pub open spec fn same_keys(a: Seq<Vault>, b: Seq<Vault>) -> bool {
    &&& a.len() == b.len()
    &&& forall|i: int|
        0 <= i < a.len() ==> (#[trigger] a[i]).vault_id == b[i].vault_id && a[i].owner
            == b[i].owner
}

/// Redeems `amount` against `start` in the order of `order`, and returns the
/// vaults as they are then with the collateral that they gave up.
///
/// No more is redeemed than the vaults owe together.
pub fn redeem_in_order(
    start: &Vec<Vault>,
    order: &Vec<RedemptionKey>,
    amount: u64,
    icp_rate: UsdIcp,
) -> (r: Option<(Vec<Vault>, u64)>)
    requires
        ids_increasing(start@),
        total_debt(start@) <= u64::MAX,
        total_margin(start@) <= u64::MAX,
        is_redemption_order(start@, icp_rate, order@),
        icp_rate.valid(),
        amount <= total_debt(start@),
    ensures
        match r {
            None => spec_redeem(start@, order@, amount, icp_rate) is None,
            Some((vaults, released)) => {
                &&& spec_redeem(start@, order@, amount, icp_rate) == Some(vaults@)
                &&& same_keys(vaults@, start@)
                &&& total_debt(vaults@) == total_debt(start@) - amount
                &&& total_margin(vaults@) == total_margin(start@) - released
            },
        },
{
    let mut vaults = crate::vault::copy_of(start);
    let mut remaining: u64 = amount;
    let mut released: u64 = 0;
    let mut i: usize = 0;
    proof {
        assert(order@.skip(0) =~= order@);
    }
    while remaining > 0 && i < order.len()
        invariant
            i <= order@.len(),
            icp_rate.valid(),
            ids_increasing(start@),
            total_debt(start@) <= u64::MAX,
            total_margin(start@) <= u64::MAX,
            is_redemption_order(start@, icp_rate, order@),
            same_keys(vaults@, start@),
            remaining <= amount,
            spec_redeem(start@, order@, amount, icp_rate) == spec_redeem(
                vaults@,
                order@.skip(i as int),
                remaining,
                icp_rate,
            ),
            total_debt(vaults@) == total_debt(start@) - (amount - remaining),
            total_margin(vaults@) == total_margin(start@) - released,
            remaining > 0 ==> forall|j: int|
                0 <= j < i ==> vault_with(vaults@, (#[trigger] order@[j]).vault_id).debt() == 0,
        decreases order@.len() - i,
    {
        let ghost rest = order@.skip(i as int);
        let ghost current = vaults@;
        proof {
            assert(rest[0] == order@[i as int]);
            assert(rest.drop_first() =~= order@.skip(i as int + 1));
            lemma_same_keys_increasing(current, start@);
            lemma_order_names_vaults(start@, icp_rate, order@, i as int);
            crate::liquidation::lemma_same_ids(start@, current, order@[i as int].vault_id);
        }
        let p = match crate::vault::find_position(&vaults, order[i].vault_id) {
            Some(p) => p,
            None => {
                assert(false);
                return None;
            },
        };
        let vault = vaults[p];
        let take = if remaining <= vault.borrowed_icusd_amount.0 {
            remaining
        } else {
            vault.borrowed_icusd_amount.0
        };
        let icp = match ICUSD::new(take).checked_div_rate(icp_rate) {
            Some(icp) => icp,
            None => {
                return None;
            },
        };
        if icp.0 > vault.icp_margin_amount.0 {
            return None;
        }
        let changed = Vault {
            owner: vault.owner,
            borrowed_icusd_amount: ICUSD::new(vault.borrowed_icusd_amount.0 - take),
            icp_margin_amount: ICP::new(vault.icp_margin_amount.0 - icp.0),
            vault_id: vault.vault_id,
        };
        proof {
            crate::vault::lemma_totals_update(current, p as int, changed);
            crate::vault::lemma_vault_within_totals(current, p as int);
        }
        vaults.set(p, changed);
        proof {
            let after = vaults@;
            assert(after == replaced(current, redeemed_from(vault, take, icp.0)));
            lemma_same_keys_increasing(after, start@);
            if remaining - take > 0 {
                assert forall|j: int| 0 <= j < i + 1 implies vault_with(
                    after,
                    (#[trigger] order@[j]).vault_id,
                ).debt() == 0 by {
                    lemma_order_names_vaults(start@, icp_rate, order@, j);
                    crate::liquidation::lemma_same_ids(start@, current, order@[j].vault_id);
                    crate::liquidation::lemma_same_ids(start@, after, order@[j].vault_id);
                    let q = position_of(current, order@[j].vault_id);
                    crate::vault::lemma_position_unique(current, q);
                    crate::vault::lemma_position_unique(after, q);
                    if q != p {
                        assert(j < i);
                    }
                }
            }
        }
        remaining = remaining - take;
        released = released + icp.0;
        i = i + 1;
    }
    proof {
        if remaining > 0 {
            assert forall|k: int| 0 <= k < vaults@.len() implies (#[trigger] vaults@[k]).debt()
                == 0 by {
                let wanted = key_of(start@[k], icp_rate)->0;
                assert(key_of(start@[k], icp_rate) is Some);
                assert(order@.contains(wanted));
                let j = choose|j: int| 0 <= j < order@.len() && order@[j] == wanted;
                assert(start@[k].vault_id == vaults@[k].vault_id);
                lemma_same_keys_increasing(vaults@, start@);
                crate::vault::lemma_position_unique(vaults@, k);
                assert(vault_with(vaults@, order@[j].vault_id).debt() == 0);
            }
            crate::vault::lemma_no_debt(vaults@);
        }
        assert(remaining == 0);
        lemma_redeem_nothing(vaults@, order@.skip(i as int), icp_rate);
    }
    Some((vaults, released))
}

impl State {
    /// Redeems `icusd_amount` against the vaults, those with the least
    /// collateral for their debt first, and returns the collateral that the
    /// vaults gave up.  `None`, and nothing changed, where the arithmetic
    /// fails or a vault holds less collateral than its debt is worth.
    ///
    /// No more is redeemed than all vaults owe together.
    pub fn redeem_on_vaults(&mut self, icusd_amount: ICUSD, current_icp_rate: UsdIcp) -> (released:
        Option<ICP>)
        requires
            old(self).wf(),
            current_icp_rate.valid(),
            icusd_amount.0 <= total_debt(old(self).vaults()),
        ensures
            final(self).wf(),
            released is None ==> final(self).differs_only_in(old(self), nothing()),
            released is None <==> cannot_redeem(
                old(self).vaults(),
                icusd_amount.0,
                current_icp_rate,
            ),
            released is Some ==> {
                &&& redeemed(
                    old(self).vaults(),
                    final(self).vaults(),
                    icusd_amount.0,
                    current_icp_rate,
                )
                &&& same_keys(final(self).vaults(), old(self).vaults())
                &&& total_debt(final(self).vaults()) == total_debt(old(self).vaults())
                    - icusd_amount.0
                &&& total_margin(final(self).vaults()) == total_margin(old(self).vaults())
                    - released->0.units()
                &&& final(self).differs_only_in(old(self), (Touched { store: true, ..nothing() }))
            },
    {
        let order = match redemption_order(&self.vault_id_to_vaults, current_icp_rate) {
            Some(order) => order,
            None => {
                return None;
            },
        };
        match redeem_in_order(&self.vault_id_to_vaults, &order, icusd_amount.0, current_icp_rate) {
            Some((vaults, released)) => {
                proof {
                    crate::vault::lemma_total_nonnegative(crate::vault::margins(vaults@));
                    crate::vault::lemma_store_same_keys(
                        self.vaults(),
                        vaults@,
                        self.principal_to_vault_ids@,
                        self.next_available_vault_id,
                    );
                    lemma_one_redemption_order(
                        old(self).vaults(),
                        current_icp_rate,
                        order@,
                        spec_redemption_order(old(self).vaults(), current_icp_rate),
                    );
                }
                self.vault_id_to_vaults = vaults;
                Some(ICP::new(released))
            },
            None => {
                proof {
                    lemma_one_redemption_order(
                        old(self).vaults(),
                        current_icp_rate,
                        order@,
                        spec_redemption_order(old(self).vaults(), current_icp_rate),
                    );
                }
                None
            },
        }
    }
}

/// With nothing left to redeem the vaults stay as they are.
pub proof fn lemma_redeem_nothing(vaults: Seq<Vault>, order: Seq<RedemptionKey>, icp_rate: UsdIcp)
    ensures
        spec_redeem(vaults, order, 0, icp_rate) == Some(vaults),
{
}

/// Vaults with the identifiers of vaults in growing order are in growing
/// order.
pub proof fn lemma_same_keys_increasing(a: Seq<Vault>, b: Seq<Vault>)
    requires
        same_keys(a, b),
        ids_increasing(b),
    ensures
        ids_increasing(a),
{
    assert forall|i: int, j: int| 0 <= i < j < a.len() implies (#[trigger] a[i]).vault_id < (
    #[trigger] a[j]).vault_id by {
        assert(b[i].vault_id < b[j].vault_id);
    }
}

/// Each key of a redemption order names one of the vaults.
pub proof fn lemma_order_names_vaults(
    vaults: Seq<Vault>,
    icp_rate: UsdIcp,
    order: Seq<RedemptionKey>,
    j: int,
)
    requires
        is_redemption_order(vaults, icp_rate, order),
        0 <= j < order.len(),
    ensures
        has_vault(vaults, order[j].vault_id),
{
    assert(is_key_of_one(vaults, icp_rate, order[j]));
    let i = choose|i: int|
        0 <= i < vaults.len() && key_of(#[trigger] vaults[i], icp_rate) == Some(order[j]);
    assert(vaults[i].vault_id == order[j].vault_id);
}

} // verus!
