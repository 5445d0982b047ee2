//! Balances by owner: what each provider of liquidity has put in, and what
//! each can claim.

use vstd::prelude::*;
use crate::vault::total;
use crate::vault::Principal;

verus! {

/// What one owner has.
#[derive(Clone, Copy, Debug, PartialEq, Eq, Structural)]
pub struct BalanceEntry {
    pub owner: Principal,
    pub amount: u64,
}

/// The balances: one entry for each owner who has anything.
#[derive(Debug)]
pub struct Balances {
    pub entries: Vec<BalanceEntry>,
}

/// No owner has two entries.
pub open spec fn owners_distinct(entries: Seq<BalanceEntry>) -> bool {
    forall|i: int, j: int|
        0 <= i < j < entries.len() ==> (#[trigger] entries[i]).owner != (
        #[trigger] entries[j]).owner
}

/// `owner` has an entry.
pub open spec fn has_entry(entries: Seq<BalanceEntry>, owner: Principal) -> bool {
    exists|i: int| 0 <= i < entries.len() && (#[trigger] entries[i]).owner == owner
}

/// Where the entry of `owner` stands.
pub open spec fn entry_position(entries: Seq<BalanceEntry>, owner: Principal) -> int {
    choose|i: int| 0 <= i < entries.len() && (#[trigger] entries[i]).owner == owner
}

/// What `owner` has: nothing without an entry.
pub open spec fn balance(entries: Seq<BalanceEntry>, owner: Principal) -> u64 {
    if has_entry(entries, owner) {
        entries[entry_position(entries, owner)].amount
    } else {
        0
    }
}

/// The amounts, in the order of the entries.
pub open spec fn amounts_of(entries: Seq<BalanceEntry>) -> Seq<int> {
    Seq::new(entries.len(), |i: int| entries[i].amount as int)
}

/// With distinct owners, the entry at a place is the one its owner leads to.
pub proof fn lemma_entry_found(entries: Seq<BalanceEntry>, i: int)
    requires
        owners_distinct(entries),
        0 <= i < entries.len(),
    ensures
        has_entry(entries, entries[i].owner),
        entry_position(entries, entries[i].owner) == i,
        balance(entries, entries[i].owner) == entries[i].amount,
{
    let p = entry_position(entries, entries[i].owner);
    if p < i {
        assert(entries[p].owner != entries[i].owner);
    } else if i < p {
        assert(entries[i].owner != entries[p].owner);
    }
}

/// What a change at one place does to the balances.
pub proof fn lemma_balances_after_update(before: Seq<BalanceEntry>, i: int, amount: u64)
    requires
        owners_distinct(before),
        0 <= i < before.len(),
    ensures
        ({
            let after = before.update(i, BalanceEntry { owner: before[i].owner, amount });
            &&& owners_distinct(after)
            &&& balance(after, before[i].owner) == amount
            &&& forall|other: Principal|
                other != before[i].owner ==> balance(after, other) == balance(before, other)
            &&& total(amounts_of(after)) == total(amounts_of(before)) - before[i].amount + amount
        }),
{
    let after = before.update(i, BalanceEntry { owner: before[i].owner, amount });
    assert forall|a: int, b: int| 0 <= a < b < after.len() implies (#[trigger] after[a]).owner != (
    #[trigger] after[b]).owner by {
        assert(before[a].owner != before[b].owner);
    }
    lemma_entry_found(after, i);
    assert forall|other: Principal| other != before[i].owner implies balance(after, other)
        == balance(before, other) by {
        if has_entry(before, other) {
            let p = entry_position(before, other);
            assert(after[p].owner == other);
            lemma_entry_found(after, p);
        }
        if has_entry(after, other) {
            let p = entry_position(after, other);
            assert(before[p].owner == other);
            lemma_entry_found(before, p);
        }
    }
    assert(amounts_of(after) =~= amounts_of(before).update(i, amount as int));
    crate::vault::lemma_total_update(amounts_of(before), i, amount as int);
}

/// What a new entry does to the balances.
pub proof fn lemma_balances_after_push(before: Seq<BalanceEntry>, entry: BalanceEntry)
    requires
        owners_distinct(before),
        !has_entry(before, entry.owner),
    ensures
        owners_distinct(before.push(entry)),
        balance(before.push(entry), entry.owner) == entry.amount,
        forall|other: Principal|
            other != entry.owner ==> balance(before.push(entry), other) == balance(before, other),
        total(amounts_of(before.push(entry))) == total(amounts_of(before)) + entry.amount,
{
    let after = before.push(entry);
    let n = before.len() as int;
    assert forall|a: int, b: int| 0 <= a < b < after.len() implies (#[trigger] after[a]).owner != (
    #[trigger] after[b]).owner by {
        if b < n {
            assert(before[a].owner != before[b].owner);
        } else {
            assert(before[a].owner == after[a].owner);
        }
    }
    lemma_entry_found(after, n);
    assert forall|other: Principal| other != entry.owner implies balance(after, other) == balance(
        before,
        other,
    ) by {
        if has_entry(before, other) {
            let p = entry_position(before, other);
            assert(after[p].owner == other);
            lemma_entry_found(after, p);
        }
        if has_entry(after, other) {
            let p = entry_position(after, other);
            assert(before[p].owner == other);
            lemma_entry_found(before, p);
        }
    }
    assert(amounts_of(after) =~= amounts_of(before).push(entry.amount as int));
    crate::vault::lemma_total_push(amounts_of(before), entry.amount as int);
}

/// What taking an entry out does to the balances.
pub proof fn lemma_balances_after_remove(before: Seq<BalanceEntry>, i: int)
    requires
        owners_distinct(before),
        0 <= i < before.len(),
    ensures
        owners_distinct(before.remove(i)),
        balance(before.remove(i), before[i].owner) == 0,
        forall|other: Principal|
            other != before[i].owner ==> balance(before.remove(i), other) == balance(before, other),
        total(amounts_of(before.remove(i))) == total(amounts_of(before)) - before[i].amount,
{
    let after = before.remove(i);
    assert forall|a: int, b: int| 0 <= a < b < after.len() implies (#[trigger] after[a]).owner != (
    #[trigger] after[b]).owner by {
        let oa = if a < i { a } else { a + 1 };
        let ob = if b < i { b } else { b + 1 };
        assert(before[oa].owner != before[ob].owner);
    }
    lemma_entry_found(before, i);
    if has_entry(after, before[i].owner) {
        let p = entry_position(after, before[i].owner);
        let op = if p < i { p } else { p + 1 };
        assert(before[op].owner == before[i].owner);
        lemma_entry_found(before, op);
    }
    assert forall|other: Principal| other != before[i].owner implies balance(after, other)
        == balance(before, other) by {
        if has_entry(before, other) {
            let p = entry_position(before, other);
            let np = if p < i { p } else { p - 1 };
            assert(after[np].owner == other);
            lemma_entry_found(after, np);
        }
        if has_entry(after, other) {
            let p = entry_position(after, other);
            let op = if p < i { p } else { p + 1 };
            assert(before[op].owner == other);
            lemma_entry_found(before, op);
        }
    }
    assert(amounts_of(after) =~= amounts_of(before).remove(i));
    crate::vault::lemma_total_remove(amounts_of(before), i);
}

impl Balances {
    /// No owner has two entries.
    pub open spec fn wf(&self) -> bool {
        owners_distinct(self.entries@)
    }

    /// What `owner` has.
    pub open spec fn spec_get(&self, owner: Principal) -> u64 {
        balance(self.entries@, owner)
    }

    /// All balances together.
    pub open spec fn spec_total(&self) -> int {
        total(amounts_of(self.entries@))
    }

    /// No balances.
    pub fn new() -> (r: Balances)
        ensures
            r.wf(),
            r.entries@.len() == 0,
            r.spec_total() == 0,
    {
        let r = Balances { entries: Vec::new() };
        assert(amounts_of(r.entries@) =~= Seq::<int>::empty());
        r
    }

    fn find(&self, owner: Principal) -> (r: Option<usize>)
        requires
            self.wf(),
        ensures
            r is Some <==> has_entry(self.entries@, owner),
            r is Some ==> r->0 == entry_position(self.entries@, owner) && r->0
                < self.entries@.len() && self.entries@[r->0 as int].owner == owner,
    {
        let mut i: usize = 0;
        while i < self.entries.len()
            invariant
                i <= self.entries@.len(),
                self.wf(),
                forall|k: int| 0 <= k < i ==> (#[trigger] self.entries@[k]).owner != owner,
            decreases self.entries@.len() - i,
        {
            if self.entries[i].owner == owner {
                proof {
                    lemma_entry_found(self.entries@, i as int);
                }
                return Some(i);
            }
            i = i + 1;
        }
        None
    }

    /// What `owner` has.
    pub fn get(&self, owner: Principal) -> (r: u64)
        requires
            self.wf(),
        ensures
            r == self.spec_get(owner),
    {
        match self.find(owner) {
            Some(i) => self.entries[i].amount,
            None => 0,
        }
    }

    /// All balances together.
    ///
    /// The sum fits in a `u64`.
    pub fn total(&self) -> (r: u64)
        requires
            self.spec_total() <= u64::MAX,
        ensures
            r == self.spec_total(),
    {
        let mut sum: u64 = 0;
        let mut i: usize = 0;
        while i < self.entries.len()
            invariant
                i <= self.entries@.len(),
                self.spec_total() <= u64::MAX,
                sum == total(amounts_of(self.entries@.take(i as int))),
            decreases self.entries@.len() - i,
        {
            proof {
                let next = self.entries@.take(i as int + 1);
                assert(amounts_of(next).drop_last() =~= amounts_of(self.entries@.take(i as int)));
                crate::vault::lemma_total_prefix(amounts_of(self.entries@), i as int + 1);
                assert(amounts_of(self.entries@).take(i as int + 1) =~= amounts_of(next));
            }
            sum = sum + self.entries[i].amount;
            i = i + 1;
        }
        proof {
            assert(self.entries@.take(i as int) =~= self.entries@);
        }
        sum
    }

    /// Adds `amount` to what `owner` has.
    ///
    /// What the owner has with `amount` fits in a `u64`.
    pub fn add(&mut self, owner: Principal, amount: u64)
        requires
            old(self).wf(),
            old(self).spec_get(owner) + amount <= u64::MAX,
        ensures
            final(self).wf(),
            final(self).spec_get(owner) == old(self).spec_get(owner) + amount,
            forall|other: Principal|
                other != owner ==> final(self).spec_get(other) == old(self).spec_get(other),
            final(self).spec_total() == old(self).spec_total() + amount,
            amount == 0 ==> final(self).entries@ == old(self).entries@,
    {
        if amount == 0 {
            return ;
        }
        match self.find(owner) {
            Some(i) => {
                let entry = BalanceEntry { owner, amount: self.entries[i].amount + amount };
                proof {
                    lemma_entry_found(self.entries@, i as int);
                    lemma_balances_after_update(self.entries@, i as int, entry.amount);
                }
                self.entries.set(i, entry);
            },
            None => {
                proof {
                    lemma_balances_after_push(self.entries@, BalanceEntry { owner, amount });
                }
                self.entries.push(BalanceEntry { owner, amount });
            },
        }
    }

    /// Takes `amount` from what `owner` has.  An entry that is left empty
    /// goes.
    ///
    /// The owner has an entry, with at least `amount`.
    pub fn take(&mut self, owner: Principal, amount: u64)
        requires
            old(self).wf(),
            has_entry(old(self).entries@, owner),
            amount <= old(self).spec_get(owner),
        ensures
            final(self).wf(),
            final(self).spec_get(owner) == old(self).spec_get(owner) - amount,
            forall|other: Principal|
                other != owner ==> final(self).spec_get(other) == old(self).spec_get(other),
            final(self).spec_total() == old(self).spec_total() - amount,
            old(self).spec_get(owner) == amount ==> !has_entry(final(self).entries@, owner),
    {
        match self.find(owner) {
            Some(i) => {
                proof {
                    lemma_entry_found(self.entries@, i as int);
                }
                let left = self.entries[i].amount - amount;
                if left == 0 {
                    proof {
                        lemma_balances_after_remove(self.entries@, i as int);
                        let after = self.entries@.remove(i as int);
                        if has_entry(after, owner) {
                            let p = entry_position(after, owner);
                            lemma_entry_found(after, p);
                            let op = if p < i { p } else { p + 1 };
                            assert(self.entries@[op].owner == owner);
                            lemma_entry_found(self.entries@, op);
                        }
                    }
                    let _ = self.entries.remove(i);
                } else {
                    proof {
                        lemma_balances_after_update(self.entries@, i as int, left);
                    }
                    self.entries.set(i, BalanceEntry { owner, amount: left });
                }
            },
            None => {
                assert(false);
            },
        }
    }
}

} // verus!
