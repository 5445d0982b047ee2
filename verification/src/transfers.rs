//! Outbound collateral transfers that wait to be sent.
//!
//! Closing or liquidating a vault does not pay its owner at once: it leaves
//! an entry here, under the vault's identifier, and a timer sends what it
//! finds.  A transfer that fails stays where it is and is tried again.

use vstd::prelude::*;
use crate::numeric::ICP;
use crate::vault::Principal;

verus! {

/// Collateral owed to an owner.
#[derive(Clone, Copy, Debug, PartialEq, Eq)]
pub struct PendingMarginTransfer {
    pub owner: Principal,
    pub margin: ICP,
}

/// One waiting transfer, under the key it was queued with.
#[derive(Clone, Copy, Debug, PartialEq, Eq)]
pub struct PendingEntry {
    pub key: u64,
    pub transfer: PendingMarginTransfer,
}

/// The waiting transfers, ordered by key, one for each key.
#[derive(Debug)]
pub struct PendingTransfers {
    pub entries: Vec<PendingEntry>,
}

/// The keys grow strictly along the sequence.
pub open spec fn keys_increasing(entries: Seq<PendingEntry>) -> bool {
    forall|i: int, j: int|
        0 <= i < j < entries.len() ==> (#[trigger] entries[i]).key < (#[trigger] entries[j]).key
}

/// An entry with this key occurs.
pub open spec fn has_key(entries: Seq<PendingEntry>, key: u64) -> bool {
    exists|i: int| 0 <= i < entries.len() && (#[trigger] entries[i]).key == key
}

/// The transfer queued under this key, if one is.
pub open spec fn transfer_at(entries: Seq<PendingEntry>, key: u64) -> PendingMarginTransfer {
    entries[choose|i: int| 0 <= i < entries.len() && (#[trigger] entries[i]).key == key].transfer
}

/// The entries as a map from key to transfer.
pub open spec fn as_map(entries: Seq<PendingEntry>) -> Map<u64, PendingMarginTransfer> {
    Map::new(|key: u64| has_key(entries, key), |key: u64| transfer_at(entries, key))
}

/// With growing keys, the entry at a place is the one its key leads to.
pub proof fn lemma_entry_found(entries: Seq<PendingEntry>, i: int)
    requires
        keys_increasing(entries),
        0 <= i < entries.len(),
    ensures
        has_key(entries, entries[i].key),
        transfer_at(entries, entries[i].key) == entries[i].transfer,
        as_map(entries).contains_key(entries[i].key),
        as_map(entries)[entries[i].key] == entries[i].transfer,
{
    let key = entries[i].key;
    let p = choose|p: int| 0 <= p < entries.len() && (#[trigger] entries[p]).key == key;
    if p < i {
        assert(entries[p].key < entries[i].key);
    } else if i < p {
        assert(entries[i].key < entries[p].key);
    }
}

impl View for PendingTransfers {
    type V = Map<u64, PendingMarginTransfer>;

    open spec fn view(&self) -> Map<u64, PendingMarginTransfer> {
        as_map(self.entries@)
    }
}

impl PendingTransfers {
    /// The entries stand in the order of their keys, and no key twice.
    pub open spec fn wf(&self) -> bool {
        keys_increasing(self.entries@)
    }

    /// No transfer waits.
    pub fn new() -> (r: PendingTransfers)
        ensures
            r.wf(),
            r@ == Map::<u64, PendingMarginTransfer>::empty(),
            r.entries@.len() == 0,
    {
        let r = PendingTransfers { entries: Vec::new() };
        assert(r@ =~= Map::<u64, PendingMarginTransfer>::empty());
        r
    }

    pub fn len(&self) -> (r: usize)
        ensures
            r == self.entries@.len(),
    {
        self.entries.len()
    }

    pub fn is_empty(&self) -> (r: bool)
        ensures
            r == (self.entries@.len() == 0),
    {
        self.entries.len() == 0
    }

    /// The place of the first entry whose key is not below `key`.
    fn lower_bound(&self, key: u64) -> (r: usize)
        requires
            self.wf(),
        ensures
            r <= self.entries@.len(),
            forall|i: int| 0 <= i < r ==> (#[trigger] self.entries@[i]).key < key,
            forall|i: int| r <= i < self.entries@.len() ==> (#[trigger] self.entries@[i]).key >= key,
    {
        let mut i: usize = 0;
        while i < self.entries.len() && self.entries[i].key < key
            invariant
                i <= self.entries@.len(),
                self.wf(),
                forall|k: int| 0 <= k < i ==> (#[trigger] self.entries@[k]).key < key,
            decreases self.entries@.len() - i,
        {
            i = i + 1;
        }
        proof {
            if i < self.entries@.len() {
                assert forall|k: int| i <= k < self.entries@.len() implies (
                #[trigger] self.entries@[k]).key >= key by {
                    if k > i {
                        assert(self.entries@[i as int].key < self.entries@[k].key);
                    }
                }
            }
        }
        i
    }

    /// The transfer that waits under `key`, if one does.
    pub fn get(&self, key: u64) -> (r: Option<PendingMarginTransfer>)
        requires
            self.wf(),
        ensures
            r == if self@.contains_key(key) {
                Some(self@[key])
            } else {
                None
            },
    {
        let i = self.lower_bound(key);
        if i < self.entries.len() && self.entries[i].key == key {
            proof {
                lemma_entry_found(self.entries@, i as int);
            }
            Some(self.entries[i].transfer)
        } else {
            proof {
                if has_key(self.entries@, key) {
                    let p = choose|p: int|
                        0 <= p < self.entries@.len() && (#[trigger] self.entries@[p]).key == key;
                    assert(self.entries@[p].key == key);
                }
            }
            None
        }
    }

    /// Queues `transfer` under `key`, in place of what waited there.
    pub fn insert(&mut self, key: u64, transfer: PendingMarginTransfer)
        requires
            old(self).wf(),
        ensures
            final(self).wf(),
            final(self)@ == old(self)@.insert(key, transfer),
    {
        let i = self.lower_bound(key);
        let entry = PendingEntry { key, transfer };
        let ghost before = self.entries@;
        if i < self.entries.len() && self.entries[i].key == key {
            self.entries.set(i, entry);
            proof {
                let after = self.entries@;
                assert(after == before.update(i as int, entry));
                assert(keys_increasing(after)) by {
                    assert forall|a: int, b: int| 0 <= a < b < after.len() implies (
                    #[trigger] after[a]).key < (#[trigger] after[b]).key by {
                        assert(before[a].key < before[b].key);
                    }
                }
                assert forall|k: u64| has_key(after, k) == (k == key || has_key(before, k)) by {
                    if has_key(after, k) {
                        let p = choose|p: int| 0 <= p < after.len() && (#[trigger] after[p]).key == k;
                        assert(before[p].key == k);
                    }
                    if has_key(before, k) {
                        let p = choose|p: int|
                            0 <= p < before.len() && (#[trigger] before[p]).key == k;
                        assert(after[p].key == k);
                    }
                    if k == key {
                        assert(after[i as int].key == k);
                    }
                }
                assert forall|k: u64| has_key(after, k) implies transfer_at(after, k) == (if k
                    == key {
                    transfer
                } else {
                    transfer_at(before, k)
                }) by {
                    let p = choose|p: int| 0 <= p < after.len() && (#[trigger] after[p]).key == k;
                    lemma_entry_found(after, p);
                    lemma_entry_found(before, p);
                }
                assert(self@ =~= old(self)@.insert(key, transfer));
            }
        } else {
            self.entries.insert(i, entry);
            proof {
                let after = self.entries@;
                assert(after == before.insert(i as int, entry));
                assert(keys_increasing(after)) by {
                    assert forall|a: int, b: int| 0 <= a < b < after.len() implies (
                    #[trigger] after[a]).key < (#[trigger] after[b]).key by {
                        let oa = if a < i { a } else { a - 1 };
                        let ob = if b < i { b } else { b - 1 };
                        if a != i && b != i {
                            assert(before[oa].key < before[ob].key);
                        } else if a == i {
                            assert(before[ob].key >= key);
                        } else {
                            assert(before[oa].key < key);
                        }
                    }
                }
                assert forall|k: u64| has_key(after, k) == (k == key || has_key(before, k)) by {
                    if has_key(after, k) {
                        let p = choose|p: int| 0 <= p < after.len() && (#[trigger] after[p]).key == k;
                        if p != i {
                            let op = if p < i { p } else { p - 1 };
                            assert(before[op].key == k);
                        }
                    }
                    if has_key(before, k) {
                        let p = choose|p: int|
                            0 <= p < before.len() && (#[trigger] before[p]).key == k;
                        let np = if p < i { p } else { p + 1 };
                        assert(after[np].key == k);
                    }
                    if k == key {
                        assert(after[i as int].key == k);
                    }
                }
                assert forall|k: u64| has_key(after, k) implies transfer_at(after, k) == (if k
                    == key {
                    transfer
                } else {
                    transfer_at(before, k)
                }) by {
                    let p = choose|p: int| 0 <= p < after.len() && (#[trigger] after[p]).key == k;
                    lemma_entry_found(after, p);
                    if p != i {
                        let op = if p < i { p } else { p - 1 };
                        lemma_entry_found(before, op);
                    }
                }
                assert(self@ =~= old(self)@.insert(key, transfer));
            }
        }
    }

    /// Takes out what waits under `key`, and returns it.
    pub fn remove(&mut self, key: u64) -> (r: Option<PendingMarginTransfer>)
        requires
            old(self).wf(),
        ensures
            final(self).wf(),
            final(self)@ == old(self)@.remove(key),
            r == if old(self)@.contains_key(key) {
                Some(old(self)@[key])
            } else {
                None
            },
    {
        let i = self.lower_bound(key);
        let ghost before = self.entries@;
        if i < self.entries.len() && self.entries[i].key == key {
            let entry = self.entries.remove(i);
            proof {
                let after = self.entries@;
                assert(after == before.remove(i as int));
                lemma_entry_found(before, i as int);
                assert(keys_increasing(after)) by {
                    assert forall|a: int, b: int| 0 <= a < b < after.len() implies (
                    #[trigger] after[a]).key < (#[trigger] after[b]).key by {
                        let oa = if a < i { a } else { a + 1 };
                        let ob = if b < i { b } else { b + 1 };
                        assert(before[oa].key < before[ob].key);
                    }
                }
                assert forall|k: u64| has_key(after, k) == (k != key && has_key(before, k)) by {
                    if has_key(after, k) {
                        let p = choose|p: int| 0 <= p < after.len() && (#[trigger] after[p]).key == k;
                        let op = if p < i { p } else { p + 1 };
                        assert(before[op].key == k);
                        if op < i {
                            assert(before[op].key < before[i as int].key);
                        } else {
                            assert(before[i as int].key < before[op].key);
                        }
                    }
                    if k != key && has_key(before, k) {
                        let p = choose|p: int|
                            0 <= p < before.len() && (#[trigger] before[p]).key == k;
                        let np = if p < i { p } else { p - 1 };
                        assert(after[np].key == k);
                    }
                }
                assert forall|k: u64| has_key(after, k) implies transfer_at(after, k)
                    == transfer_at(before, k) by {
                    let p = choose|p: int| 0 <= p < after.len() && (#[trigger] after[p]).key == k;
                    let op = if p < i { p } else { p + 1 };
                    lemma_entry_found(after, p);
                    lemma_entry_found(before, op);
                }
                assert(self@ =~= old(self)@.remove(key));
            }
            Some(entry.transfer)
        } else {
            proof {
                if has_key(before, key) {
                    let p = choose|p: int|
                        0 <= p < before.len() && (#[trigger] before[p]).key == key;
                    assert(before[p].key == key);
                }
                assert(self@ =~= old(self)@.remove(key));
            }
            None
        }
    }

    /// The waiting transfers in the order of their keys.
    pub fn to_vec(&self) -> (r: Vec<PendingEntry>)
        ensures
            r@ == self.entries@,
    {
        let mut out: Vec<PendingEntry> = Vec::new();
        let mut i: usize = 0;
        while i < self.entries.len()
            invariant
                i <= self.entries@.len(),
                out@ == self.entries@.take(i as int),
            decreases self.entries@.len() - i,
        {
            out.push(self.entries[i]);
            proof {
                assert(self.entries@.take(i as int + 1) =~= self.entries@.take(i as int).push(
                    self.entries@[i as int],
                ));
            }
            i = i + 1;
        }
        proof {
            assert(self.entries@.take(i as int) =~= self.entries@);
        }
        out
    }
}

} // verus!
