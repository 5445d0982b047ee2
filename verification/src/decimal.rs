//! Fixed-precision decimal numbers, as plain values.
//!
//! A [`DecimalValue`] is a signed 96-bit mantissa and a scale between 0 and
//! 28; it stands for `mantissa / 10^scale`.  The arithmetic itself is done by
//! the `rust_decimal` crate: the private functions of this file that are
//! marked `external_body` hand it the two parts of each operand and take the
//! two parts of the result back.  What is assumed of that crate is stated in
//! their contracts and nowhere else.  Where the crate's result is more than
//! a few lines can say, the contract gives it a name: a function of the
//! operands' parts of which nothing else is known.

use vstd::prelude::*;
use rust_decimal::prelude::FromPrimitive;
use rust_decimal::prelude::ToPrimitive;

verus! {

/// Largest magnitude of a mantissa: `2^96 - 1`.
pub const MAX_MANTISSA: i128 = 79_228_162_514_264_337_593_543_950_335;

/// Largest scale.
pub const MAX_SCALE: u32 = 28;

/// `10^n`.
pub open spec fn pow10(n: nat) -> int
    decreases n,
{
    if n == 0 {
        1
    } else {
        10 * pow10((n - 1) as nat)
    }
}

/// A decimal number `mantissa / 10^scale`.
#[derive(Clone, Copy, Debug, PartialEq, Eq, Structural)]
pub struct DecimalValue {
    pub mantissa: i128,
    pub scale: u32,
}

/// How the values of two decimals relate.
#[derive(Clone, Copy, Debug, PartialEq, Eq, Structural)]
pub enum Comparison {
    Less,
    Equal,
    Greater,
}

impl DecimalValue {
    /// The mantissa fits in 96 bits and the scale is at most 28.
    pub open spec fn valid(self) -> bool {
        &&& -MAX_MANTISSA <= self.mantissa <= MAX_MANTISSA
        &&& self.scale <= MAX_SCALE
    }

    /// The mantissa, brought to the scale `self.scale + extra`.
    pub open spec fn scaled_by(self, extra: nat) -> int {
        self.mantissa * pow10(extra)
    }

    /// `self < other`, by value.
    pub open spec fn value_lt(self, other: DecimalValue) -> bool {
        self.scaled_by(other.scale as nat) < other.scaled_by(self.scale as nat)
    }

    /// `self == other`, by value: `1.50` and `1.5` are the same value.
    pub open spec fn value_eq(self, other: DecimalValue) -> bool {
        self.scaled_by(other.scale as nat) == other.scaled_by(self.scale as nat)
    }

    /// `self <= other`, by value.
    pub open spec fn value_le(self, other: DecimalValue) -> bool {
        self.scaled_by(other.scale as nat) <= other.scaled_by(self.scale as nat)
    }

    /// The integral part of a non-negative decimal, rounded towards zero.
    pub open spec fn truncated(self) -> int {
        (self.mantissa as int) / pow10(self.scale as nat)
    }

    /// The decimal with the given parts, if they are those of a decimal.
    pub fn new(mantissa: i128, scale: u32) -> (r: Option<DecimalValue>)
        ensures
            r == spec_new(mantissa, scale),
    {
        if scale <= MAX_SCALE && -MAX_MANTISSA <= mantissa && mantissa <= MAX_MANTISSA {
            Some(DecimalValue { mantissa, scale })
        } else {
            None
        }
    }

    /// Whether the parts are those of a decimal.
    pub fn is_valid(&self) -> (r: bool)
        ensures
            r == self.valid(),
    {
        self.scale <= MAX_SCALE && -MAX_MANTISSA <= self.mantissa && self.mantissa <= MAX_MANTISSA
    }

    /// The value zero, with scale 0.
    pub fn zero() -> (r: DecimalValue)
        ensures
            r == spec_zero(),
    {
        DecimalValue { mantissa: 0, scale: 0 }
    }

    /// The value one, with scale 0.
    pub fn one() -> (r: DecimalValue)
        ensures
            r == spec_one(),
    {
        DecimalValue { mantissa: 1, scale: 0 }
    }

    /// The largest decimal: `2^96 - 1`.
    pub fn max_value() -> (r: DecimalValue)
        ensures
            r == spec_max_value(),
    {
        DecimalValue { mantissa: MAX_MANTISSA, scale: 0 }
    }

    /// The whole number `n`.
    pub fn from_u64(n: u64) -> (r: DecimalValue)
        ensures
            r == spec_from_u64(n),
    {
        match decimal_from_u64(n) {
            Some(d) => d,
            None => vstd::pervasive::unreached(),
        }
    }

    /// The integral part as a `u64`: `None` for a negative decimal and for
    /// one whose integral part does not fit.
    pub fn to_u64(self) -> (r: Option<u64>)
        requires
            self.valid(),
        ensures
            r == spec_to_u64(self),
    {
        decimal_to_u64(self)
    }

    /// The product, `None` where it overflows.
    pub fn checked_mul(self, other: DecimalValue) -> (r: Option<DecimalValue>)
        requires
            self.valid(),
            other.valid(),
        ensures
            r == decimal_product(self, other),
            r is Some ==> r->0.valid(),
            self.mantissa == 0 || other.mantissa == 0 ==> r == Some(spec_zero()),
            product_is_exact(self, other) ==> r == Some(exact_product(self, other)),
    {
        decimal_checked_mul(self, other)
    }

    /// The quotient, `None` where `other` is zero or the quotient overflows.
    pub fn checked_div(self, other: DecimalValue) -> (r: Option<DecimalValue>)
        requires
            self.valid(),
            other.valid(),
        ensures
            r == decimal_quotient(self, other),
            r is Some ==> r->0.valid(),
            other.mantissa == 0 ==> r is None,
            self.mantissa == 0 && other.mantissa != 0 ==> r == Some(spec_zero()),
    {
        decimal_checked_div(self, other)
    }

    /// The sum, `None` where it overflows.
    pub fn checked_add(self, other: DecimalValue) -> (r: Option<DecimalValue>)
        requires
            self.valid(),
            other.valid(),
        ensures
            r == decimal_sum(self, other),
            r is Some ==> r->0.valid(),
    {
        decimal_checked_add(self, other)
    }

    /// The decimal in sixteen bytes.
    pub fn serialize(self) -> (r: [u8; 16])
        requires
            self.valid(),
        ensures
            r@ == decimal_bytes(self),
    {
        decimal_serialize(self)
    }

    /// The decimal that sixteen bytes stand for.  The bytes that
    /// [`DecimalValue::serialize`] gave for a decimal stand for that decimal.
    pub fn deserialize(bytes: [u8; 16]) -> (r: DecimalValue)
        ensures
            r == decimal_of_bytes(bytes@),
            r.valid(),
            forall|d: DecimalValue| d.valid() && bytes@ == #[trigger] decimal_bytes(d) ==> r == d,
    {
        decimal_deserialize(bytes)
    }

    /// How the two values relate.
    pub fn compare(self, other: DecimalValue) -> (r: Comparison)
        requires
            self.valid(),
            other.valid(),
        ensures
            r == spec_compare(self, other),
    {
        decimal_compare(self, other)
    }

    /// `self < other`, by value.
    pub fn lt(self, other: DecimalValue) -> (r: bool)
        requires
            self.valid(),
            other.valid(),
        ensures
            r == self.value_lt(other),
    {
        match decimal_compare(self, other) {
            Comparison::Less => true,
            _ => false,
        }
    }

    /// `self <= other`, by value.
    pub fn le(self, other: DecimalValue) -> (r: bool)
        requires
            self.valid(),
            other.valid(),
        ensures
            r == self.value_le(other),
    {
        match decimal_compare(self, other) {
            Comparison::Greater => false,
            _ => true,
        }
    }

    /// `self == other`, by value.
    pub fn same_value(self, other: DecimalValue) -> (r: bool)
        requires
            self.valid(),
            other.valid(),
        ensures
            r == self.value_eq(other),
    {
        match decimal_compare(self, other) {
            Comparison::Equal => true,
            _ => false,
        }
    }
}

pub open spec fn spec_new(mantissa: i128, scale: u32) -> Option<DecimalValue> {
    let d = DecimalValue { mantissa, scale };
    if d.valid() {
        Some(d)
    } else {
        None
    }
}

pub open spec fn spec_zero() -> DecimalValue {
    DecimalValue { mantissa: 0, scale: 0 }
}

pub open spec fn spec_one() -> DecimalValue {
    DecimalValue { mantissa: 1, scale: 0 }
}

pub open spec fn spec_max_value() -> DecimalValue {
    DecimalValue { mantissa: MAX_MANTISSA, scale: 0 }
}

pub open spec fn spec_from_u64(n: u64) -> DecimalValue {
    DecimalValue { mantissa: n as i128, scale: 0 }
}

pub open spec fn spec_to_u64(d: DecimalValue) -> Option<u64> {
    if 0 <= d.mantissa && d.truncated() <= u64::MAX {
        Some(d.truncated() as u64)
    } else {
        None
    }
}

pub open spec fn spec_compare(a: DecimalValue, b: DecimalValue) -> Comparison {
    if a.value_lt(b) {
        Comparison::Less
    } else if a.value_eq(b) {
        Comparison::Equal
    } else {
        Comparison::Greater
    }
}

/// The product of two non-zero decimals whose mantissas multiply within 96
/// bits and whose scales add up within 28 is exact.
pub open spec fn product_is_exact(a: DecimalValue, b: DecimalValue) -> bool {
    &&& a.mantissa != 0
    &&& b.mantissa != 0
    &&& a.scale + b.scale <= MAX_SCALE
    &&& -MAX_MANTISSA <= a.mantissa * b.mantissa <= MAX_MANTISSA
}

pub open spec fn exact_product(a: DecimalValue, b: DecimalValue) -> DecimalValue {
    DecimalValue { mantissa: (a.mantissa * b.mantissa) as i128, scale: (a.scale + b.scale) as u32 }
}

/// What `Decimal::checked_mul` returns for two decimals with these parts.
pub uninterp spec fn decimal_product(a: DecimalValue, b: DecimalValue) -> Option<DecimalValue>;

/// What `Decimal::checked_div` returns for two decimals with these parts.
pub uninterp spec fn decimal_quotient(a: DecimalValue, b: DecimalValue) -> Option<DecimalValue>;

/// What `Decimal::checked_add` returns for two decimals with these parts.
pub uninterp spec fn decimal_sum(a: DecimalValue, b: DecimalValue) -> Option<DecimalValue>;

/// The sixteen bytes that `Decimal::serialize` gives for a decimal with
/// these parts.
pub uninterp spec fn decimal_bytes(d: DecimalValue) -> Seq<u8>;

/// The parts of the decimal that `Decimal::deserialize` reads from sixteen
/// bytes.
pub uninterp spec fn decimal_of_bytes(bytes: Seq<u8>) -> DecimalValue;

/// `Decimal::serialize`: the flags, with sign and scale, and the three words
/// of the mantissa, each in four bytes.  The bytes are a function of the
/// decimal's parts.
#[verifier::external_body]
fn decimal_serialize(a: DecimalValue) -> (r: [u8; 16])
    requires
        a.valid(),
    ensures
        r@ == decimal_bytes(a),
{
    rust_decimal::Decimal::from_i128_with_scale(a.mantissa, a.scale).serialize()
}

/// `Decimal::deserialize`: reads what `Decimal::serialize` wrote.  Whatever
/// the bytes, the result is a decimal, and a function of the bytes; from the
/// bytes of a decimal it is that decimal.
#[verifier::external_body]
fn decimal_deserialize(bytes: [u8; 16]) -> (r: DecimalValue)
    ensures
        r == decimal_of_bytes(bytes@),
        r.valid(),
        forall|d: DecimalValue| d.valid() && bytes@ == #[trigger] decimal_bytes(d) ==> r == d,
{
    let d = rust_decimal::Decimal::deserialize(bytes);
    DecimalValue { mantissa: d.mantissa(), scale: d.scale() }
}

/// `<Decimal as FromPrimitive>::from_u64`: the whole number `n`, with scale 0.
/// The call never fails: a `u64` fits in the 96-bit mantissa.
#[verifier::external_body]
fn decimal_from_u64(n: u64) -> (r: Option<DecimalValue>)
    ensures
        r == Some(spec_from_u64(n)),
{
    match rust_decimal::Decimal::from_u64(n) {
        Some(d) => Some(DecimalValue { mantissa: d.mantissa(), scale: d.scale() }),
        None => None,
    }
}

/// `<Decimal as ToPrimitive>::to_u64`: `None` for a negative decimal;
/// otherwise the fraction is cut off without rounding, and the call gives
/// `None` where what is left does not fit in 64 bits.
#[verifier::external_body]
fn decimal_to_u64(a: DecimalValue) -> (r: Option<u64>)
    requires
        a.valid(),
    ensures
        r == spec_to_u64(a),
{
    rust_decimal::Decimal::from_i128_with_scale(a.mantissa, a.scale).to_u64()
}

/// `Decimal::checked_mul`.  The result is a function of the operands' parts.
/// With a zero operand it is zero with scale 0; where the mantissas multiply
/// within 96 bits and the scales add up within 28 it is that mantissa with
/// that scale, unrounded; elsewhere the crate rounds or reports overflow, and
/// nothing is claimed but that a result is a decimal.
#[verifier::external_body]
fn decimal_checked_mul(a: DecimalValue, b: DecimalValue) -> (r: Option<DecimalValue>)
    requires
        a.valid(),
        b.valid(),
    ensures
        r == decimal_product(a, b),
        r is Some ==> r->0.valid(),
        a.mantissa == 0 || b.mantissa == 0 ==> r == Some(spec_zero()),
        product_is_exact(a, b) ==> r == Some(exact_product(a, b)),
{
    let x = rust_decimal::Decimal::from_i128_with_scale(a.mantissa, a.scale);
    let y = rust_decimal::Decimal::from_i128_with_scale(b.mantissa, b.scale);
    match x.checked_mul(y) {
        Some(d) => Some(DecimalValue { mantissa: d.mantissa(), scale: d.scale() }),
        None => None,
    }
}

/// `Decimal::checked_div`.  The result is a function of the operands' parts.
/// A zero divisor gives `None`; a zero dividend over a non-zero divisor gives
/// zero with scale 0.  Elsewhere nothing is claimed but that a result is a
/// decimal.
#[verifier::external_body]
fn decimal_checked_div(a: DecimalValue, b: DecimalValue) -> (r: Option<DecimalValue>)
    requires
        a.valid(),
        b.valid(),
    ensures
        r == decimal_quotient(a, b),
        r is Some ==> r->0.valid(),
        b.mantissa == 0 ==> r is None,
        a.mantissa == 0 && b.mantissa != 0 ==> r == Some(spec_zero()),
{
    let x = rust_decimal::Decimal::from_i128_with_scale(a.mantissa, a.scale);
    let y = rust_decimal::Decimal::from_i128_with_scale(b.mantissa, b.scale);
    match x.checked_div(y) {
        Some(d) => Some(DecimalValue { mantissa: d.mantissa(), scale: d.scale() }),
        None => None,
    }
}

/// `Decimal::checked_add`.  The result is a function of the operands' parts;
/// nothing more is claimed but that a result is a decimal.
#[verifier::external_body]
fn decimal_checked_add(a: DecimalValue, b: DecimalValue) -> (r: Option<DecimalValue>)
    requires
        a.valid(),
        b.valid(),
    ensures
        r == decimal_sum(a, b),
        r is Some ==> r->0.valid(),
{
    let x = rust_decimal::Decimal::from_i128_with_scale(a.mantissa, a.scale);
    let y = rust_decimal::Decimal::from_i128_with_scale(b.mantissa, b.scale);
    match x.checked_add(y) {
        Some(d) => Some(DecimalValue { mantissa: d.mantissa(), scale: d.scale() }),
        None => None,
    }
}

/// `<Decimal as Ord>::cmp`: decimals are ordered by value, whatever their
/// scales.
#[verifier::external_body]
fn decimal_compare(a: DecimalValue, b: DecimalValue) -> (r: Comparison)
    requires
        a.valid(),
        b.valid(),
    ensures
        r == spec_compare(a, b),
{
    let x = rust_decimal::Decimal::from_i128_with_scale(a.mantissa, a.scale);
    let y = rust_decimal::Decimal::from_i128_with_scale(b.mantissa, b.scale);
    match x.cmp(&y) {
        std::cmp::Ordering::Less => Comparison::Less,
        std::cmp::Ordering::Equal => Comparison::Equal,
        std::cmp::Ordering::Greater => Comparison::Greater,
    }
}

/// The mantissa that a valid decimal has at scale 28: two decimals compare
/// as these do.
pub open spec fn at_full_scale(d: DecimalValue) -> int {
    d.mantissa * pow10((MAX_SCALE - d.scale) as nat)
}

pub proof fn lemma_pow10_positive(n: nat)
    ensures
        pow10(n) > 0,
    decreases n,
{
    if n > 0 {
        lemma_pow10_positive((n - 1) as nat);
    }
}

pub proof fn lemma_pow10_adds(a: nat, b: nat)
    ensures
        pow10(a + b) == pow10(a) * pow10(b),
    decreases a,
{
    if a == 0 {
        assert(pow10(0) == 1);
        assert(1 * pow10(b) == pow10(b));
    } else {
        lemma_pow10_adds((a - 1) as nat, b);
        let x = pow10((a - 1) as nat);
        let y = pow10(b);
        assert(pow10(a + b) == 10 * pow10((a - 1 + b) as nat));
        assert(10 * (x * y) == (10 * x) * y) by (nonlinear_arith);
    }
}

/// Decimals are ordered as their mantissas at scale 28 are.
pub proof fn lemma_order_at_full_scale(a: DecimalValue, b: DecimalValue)
    requires
        a.scale <= MAX_SCALE,
        b.scale <= MAX_SCALE,
    ensures
        a.value_lt(b) == (at_full_scale(a) < at_full_scale(b)),
        a.value_eq(b) == (at_full_scale(a) == at_full_scale(b)),
        a.value_le(b) == (at_full_scale(a) <= at_full_scale(b)),
{
    let sa = a.scale as nat;
    let sb = b.scale as nat;
    let ra = (MAX_SCALE - a.scale) as nat;
    let rb = (MAX_SCALE - b.scale) as nat;
    lemma_pow10_adds(sa, ra);
    lemma_pow10_adds(sb, rb);
    lemma_pow10_positive(sa);
    lemma_pow10_positive(sb);
    lemma_pow10_positive(ra);
    lemma_pow10_positive(rb);
    let full = pow10(28);
    let pa = pow10(sa);
    let pb = pow10(sb);
    let qa = pow10(ra);
    let qb = pow10(rb);
    let ma = a.mantissa as int;
    let mb = b.mantissa as int;
    assert(pa * qa == full);
    assert(pb * qb == full);
    // x = a's side of the comparison, y = b's side; both times qa * qb.
    let x = ma * pb;
    let y = mb * pa;
    let k = qa * qb;
    assert(k > 0) by (nonlinear_arith)
        requires
            k == qa * qb,
            qa > 0,
            qb > 0,
    ;
    assert(x * k == (ma * qa) * full) by (nonlinear_arith)
        requires
            x == ma * pb,
            k == qa * qb,
            pb * qb == full,
    ;
    assert(y * k == (mb * qb) * full) by (nonlinear_arith)
        requires
            y == mb * pa,
            k == qa * qb,
            pa * qa == full,
    ;
    let na = ma * qa;
    let nb = mb * qb;
    lemma_pow10_positive(28);
    assert((x < y) == (na < nb)) by (nonlinear_arith)
        requires
            x * k == na * full,
            y * k == nb * full,
            k > 0,
            full > 0,
    ;
    assert((x == y) == (na == nb)) by (nonlinear_arith)
        requires
            x * k == na * full,
            y * k == nb * full,
            k > 0,
            full > 0,
    ;
}

} // verus!
