//! The bytes of a principal.
//!
//! A principal is at most 29 bytes.  It is held as the number that its bytes
//! stand for, the first byte the most significant: the last sixteen bytes in
//! one word, the bytes before them in another.

use vstd::prelude::*;
use crate::vault::Principal;

verus! {

/// The most bytes that a principal has.
pub const MAX_LENGTH_IN_BYTES: usize = 29;

/// `256^n`.
pub open spec fn pow256(n: nat) -> nat
    decreases n,
{
    if n == 0 {
        1
    } else {
        256 * pow256((n - 1) as nat)
    }
}

/// The number that the bytes stand for, the first byte the most significant.
pub open spec fn be_value(bytes: Seq<u8>) -> nat
    decreases bytes.len(),
{
    if bytes.len() == 0 {
        0
    } else {
        be_value(bytes.drop_last()) * 256 + bytes.last() as nat
    }
}

/// How many of the bytes go into the high word: all but the last sixteen.
pub open spec fn high_count(len: nat) -> nat {
    if len > 16 {
        (len - 16) as nat
    } else {
        0
    }
}

/// The principal with these bytes.
pub open spec fn spec_from_bytes(bytes: Seq<u8>) -> Principal {
    let split = high_count(bytes.len()) as int;
    Principal {
        len: bytes.len() as u8,
        high: be_value(bytes.take(split)) as u128,
        low: be_value(bytes.skip(split)) as u128,
    }
}

/// The words of the principal are those of as many bytes as it has.
pub open spec fn well_formed(p: Principal) -> bool {
    &&& p.len <= MAX_LENGTH_IN_BYTES
    &&& p.high < pow256(high_count(p.len as nat))
    &&& p.low < pow256((p.len - high_count(p.len as nat)) as nat)
}

pub proof fn lemma_pow256_grows(a: nat, b: nat)
    requires
        a <= b,
    ensures
        1 <= pow256(a) <= pow256(b),
    decreases b,
{
    if a == 0 {
        if b > 0 {
            lemma_pow256_grows(0, (b - 1) as nat);
        }
    } else {
        lemma_pow256_grows((a - 1) as nat, (b - 1) as nat);
    }
}

pub proof fn lemma_pow256_sixteen()
    ensures
        pow256(16) == 0x1_0000_0000_0000_0000_0000_0000_0000_0000,
{
    reveal_with_fuel(pow256, 17);
}

/// Bytes stand for a number below `256` to the power of their count.
pub proof fn lemma_be_value_bound(bytes: Seq<u8>)
    ensures
        be_value(bytes) < pow256(bytes.len()),
    decreases bytes.len(),
{
    if bytes.len() > 0 {
        lemma_be_value_bound(bytes.drop_last());
    }
}

/// A byte in front counts `256` to the power of the bytes behind it.
pub proof fn lemma_be_value_front(first: u8, rest: Seq<u8>)
    ensures
        be_value(seq![first] + rest) == first * pow256(rest.len()) + be_value(rest),
    decreases rest.len(),
{
    let all = seq![first] + rest;
    if rest.len() == 0 {
        assert(all.drop_last() =~= Seq::<u8>::empty());
        assert(all.last() == first);
        assert(be_value(all.drop_last()) == 0);
    } else {
        assert(all.drop_last() =~= seq![first] + rest.drop_last());
        assert(all.last() == rest.last());
        lemma_be_value_front(first, rest.drop_last());
        let p = pow256((rest.len() - 1) as nat);
        let f = first as nat;
        assert((f * p) * 256 == f * (256 * p)) by (nonlinear_arith);
    }
}

/// The number that the bytes from `from` up to `to` stand for.
fn fold(bytes: &[u8], from: usize, to: usize) -> (r: u128)
    requires
        from <= to <= bytes@.len(),
        to - from <= 16,
    ensures
        r == be_value(bytes@.subrange(from as int, to as int)),
{
    let mut acc: u128 = 0;
    let mut k: usize = from;
    proof {
        assert(bytes@.subrange(from as int, from as int) =~= Seq::<u8>::empty());
    }
    while k < to
        invariant
            from <= k <= to <= bytes@.len(),
            to - from <= 16,
            acc == be_value(bytes@.subrange(from as int, k as int)),
        decreases to - k,
    {
        proof {
            let seen = bytes@.subrange(from as int, k as int);
            let next = bytes@.subrange(from as int, k as int + 1);
            assert(next.drop_last() =~= seen);
            assert(next.last() == bytes@[k as int]);
            lemma_be_value_bound(seen);
            lemma_be_value_bound(next);
            lemma_pow256_grows(next.len(), 16);
            lemma_pow256_sixteen();
        }
        acc = acc * 256 + bytes[k] as u128;
        k = k + 1;
    }
    acc
}

/// The `count` bytes that stand for `value`.
fn unfold(value: u128, count: usize) -> (r: Vec<u8>)
    requires
        count <= 16,
        value < pow256(count as nat),
    ensures
        r@.len() == count,
        be_value(r@) == value,
{
    let mut out: Vec<u8> = Vec::new();
    let mut n: usize = 0;
    while n < count
        invariant
            n <= count,
            out@.len() == n,
        decreases count - n,
    {
        out.push(0);
        n = n + 1;
    }
    let mut left: u128 = value;
    let mut k: usize = count;
    proof {
        assert(out@.skip(count as int) =~= Seq::<u8>::empty());
        assert(left * pow256(0) == left) by (nonlinear_arith)
            requires
                pow256(0) == 1,
        ;
    }
    while k > 0
        invariant
            k <= count <= 16,
            out@.len() == count,
            left * pow256((count - k) as nat) + be_value(out@.skip(k as int)) == value,
        decreases k,
    {
        let byte = (left % 256) as u8;
        let ghost before = out@;
        let ghost power = pow256((count - k) as nat);
        out.set(k - 1, byte);
        proof {
            assert(out@.skip(k as int - 1) =~= seq![byte] + before.skip(k as int));
            lemma_be_value_front(byte, before.skip(k as int));
            let q = (left / 256) as nat;
            let b = byte as nat;
            let l = left as nat;
            assert(l == q * 256 + b);
            assert(q * (256 * power) + b * power == l * power) by (nonlinear_arith)
                requires
                    l == q * 256 + b,
            ;
        }
        left = left / 256;
        k = k - 1;
    }
    proof {
        assert(out@.skip(0) =~= out@);
        let p = pow256(count as nat);
        lemma_pow256_grows(0, count as nat);
        let l = left as nat;
        assert(l == 0) by (nonlinear_arith)
            requires
                l * p <= value,
                value < p,
                p >= 1,
        ;
    }
    out
}

/// Whether `value` is below `256` to the power of `count`.
fn fits(value: u128, count: usize) -> (r: bool)
    requires
        count <= 16,
    ensures
        r == (value < pow256(count as nat)),
{
    if count == 16 {
        proof {
            lemma_pow256_sixteen();
        }
        return true;
    }
    let mut power: u128 = 1;
    let mut n: usize = 0;
    while n < count
        invariant
            n <= count < 16,
            power == pow256(n as nat),
        decreases count - n,
    {
        proof {
            lemma_pow256_grows((n + 1) as nat, 15);
            lemma_pow256_sixteen();
            assert(pow256(16) == 256 * pow256(15));
        }
        power = power * 256;
        n = n + 1;
    }
    value < power
}

impl Principal {
    /// Whether the words of the principal are those of as many bytes as it
    /// has.
    pub fn is_well_formed(&self) -> (r: bool)
        ensures
            r == well_formed(*self),
    {
        let len = self.len as usize;
        if len > MAX_LENGTH_IN_BYTES {
            return false;
        }
        let split = if len > 16 {
            len - 16
        } else {
            0
        };
        fits(self.high, split) && fits(self.low, len - split)
    }

    /// The principal with these bytes; none for more than 29 bytes.
    pub fn from_slice(bytes: &[u8]) -> (r: Option<Principal>)
        ensures
            r == if bytes@.len() <= MAX_LENGTH_IN_BYTES {
                Some(spec_from_bytes(bytes@))
            } else {
                None
            },
            r is Some ==> well_formed(r->0),
    {
        let len = bytes.len();
        if len > MAX_LENGTH_IN_BYTES {
            return None;
        }
        let split = if len > 16 {
            len - 16
        } else {
            0
        };
        proof {
            assert(bytes@.subrange(0, split as int) =~= bytes@.take(split as int));
            assert(bytes@.subrange(split as int, len as int) =~= bytes@.skip(split as int));
            lemma_be_value_bound(bytes@.take(split as int));
            lemma_be_value_bound(bytes@.skip(split as int));
        }
        let high = fold(bytes, 0, split);
        let low = fold(bytes, split, len);
        Some(Principal { len: len as u8, high, low })
    }

    /// The bytes of the principal.
    ///
    /// The words of the principal are those of as many bytes as it has.
    pub fn to_bytes(&self) -> (r: Vec<u8>)
        requires
            well_formed(*self),
        ensures
            r@.len() == self.len,
            spec_from_bytes(r@) == *self,
    {
        let len = self.len as usize;
        let split = if len > 16 {
            len - 16
        } else {
            0
        };
        let mut out = unfold(self.high, split);
        let low = unfold(self.low, len - split);
        let ghost front = out@;
        let mut k: usize = 0;
        while k < low.len()
            invariant
                k <= low@.len(),
                out@ == front + low@.take(k as int),
            decreases low@.len() - k,
        {
            out.push(low[k]);
            proof {
                assert(low@.take(k as int + 1) =~= low@.take(k as int).push(low@[k as int]));
            }
            k = k + 1;
        }
        proof {
            assert(low@.take(k as int) =~= low@);
            assert(out@.take(split as int) =~= front);
            assert(out@.skip(split as int) =~= low@);
        }
        out
    }
}

} // verus!
