//! Typed amounts.
//!
//! Token amounts are whole numbers of base units (`10^-8` of a token), tagged
//! with the token they count.  Prices and ratios are decimals, tagged in the
//! same way.  Only the pairings that the protocol needs are defined, so an
//! amount of one token cannot be taken for an amount of the other.
//!
//! Every operation that goes through decimal arithmetic returns an `Option`:
//! `None` where a step overflows, divides by zero, or leaves no `u64`.

use vstd::prelude::*;
use vstd::pervasive::unreached;
use std::marker::PhantomData;
use std::ops::Add;
use std::ops::Div;
use std::ops::Mul;
use std::ops::Sub;
use vstd::std_specs::cmp::PartialEqSpecImpl;
use vstd::std_specs::convert::FromSpecImpl;
use vstd::std_specs::ops::AddSpecImpl;
use vstd::std_specs::ops::DivSpecImpl;
use vstd::std_specs::ops::MulSpecImpl;
use vstd::std_specs::ops::SubSpecImpl;
use crate::decimal::DecimalValue;
use crate::decimal::decimal_product;
use crate::decimal::decimal_quotient;
use crate::decimal::decimal_sum;
use crate::decimal::spec_from_u64;
use crate::decimal::spec_one;
use crate::decimal::spec_to_u64;
use crate::decimal::spec_zero;
use crate::decimal::pow10;
use crate::decimal::product_is_exact;

verus! {

/// Base units in one token.
pub const E8S: u64 = 100_000_000;

/// Tag of the stable token.
#[derive(PartialEq, Eq, Debug, Ord, PartialOrd, Clone, Copy)]
pub enum IcusdTag {
    Icusd,
}

/// Tag of the collateral token.
#[derive(PartialEq, Eq, Debug, Ord, PartialOrd, Clone, Copy)]
pub enum IcpTag {
    Icp,
}

/// Tag of the price of one collateral token in USD.
#[derive(PartialEq, Eq, Debug, Ord, PartialOrd, Clone, Copy)]
pub enum UsdIcpTag {
    UsdIcp,
}

/// Tag of a dimensionless ratio.
#[derive(PartialEq, Eq, Debug, Ord, PartialOrd, Clone, Copy)]
pub enum RatioTag {
    Ratio,
}

/// A count of base units of the token `T`.
#[derive(Debug)]
pub struct Token<T>(pub u64, pub PhantomData<T>);

/// A decimal quantity of kind `T`.
#[derive(Debug)]
pub struct Amount<T>(pub DecimalValue, pub PhantomData<T>);

/// An amount of the stable token.
pub type ICUSD = Token<IcusdTag>;

/// An amount of the collateral token.
pub type ICP = Token<IcpTag>;

/// USD per collateral token.
pub type UsdIcp = Amount<UsdIcpTag>;

/// A dimensionless ratio.
pub type Ratio = Amount<RatioTag>;

/// `10^8` as a decimal: the base units in one token.
pub open spec fn spec_e8() -> DecimalValue {
    DecimalValue { mantissa: 100_000_000, scale: 0 }
}

/// A count of base units as a decimal count of tokens.
pub open spec fn token_as_decimal(units: u64) -> Option<DecimalValue> {
    decimal_quotient(spec_from_u64(units), spec_e8())
}

/// A decimal count of tokens as a count of base units, the fraction of a
/// base unit cut off.
pub open spec fn decimal_as_token(tokens: DecimalValue) -> Option<u64> {
    match decimal_product(tokens, spec_e8()) {
        Some(units) => spec_to_u64(units),
        None => None,
    }
}

/// `units × factor`, in base units.
pub open spec fn token_times(units: u64, factor: DecimalValue) -> Option<u64> {
    match token_as_decimal(units) {
        Some(tokens) => match decimal_product(tokens, factor) {
            Some(p) => decimal_as_token(p),
            None => None,
        },
        None => None,
    }
}

/// `units ÷ divisor`, in base units.
pub open spec fn token_over(units: u64, divisor: DecimalValue) -> Option<u64> {
    match token_as_decimal(units) {
        Some(tokens) => match decimal_quotient(tokens, divisor) {
            Some(q) => decimal_as_token(q),
            None => None,
        },
        None => None,
    }
}

/// `a ÷ b` for two counts of the same token.
pub open spec fn token_ratio(a: u64, b: u64) -> Option<DecimalValue> {
    decimal_quotient(spec_from_u64(a), spec_from_u64(b))
}

/// `base^exponent`: one for exponent 0, and `base × base^(exponent - 1)`
/// after that.
pub open spec fn decimal_pow(base: DecimalValue, exponent: nat) -> Option<DecimalValue>
    decreases exponent,
{
    if exponent == 0 {
        Some(spec_one())
    } else {
        match decimal_pow(base, (exponent - 1) as nat) {
            Some(p) => decimal_product(base, p),
            None => None,
        }
    }
}

/// The eight digits of a fraction of a token, most significant first.
pub open spec fn fraction_digits(frac: u64) -> Seq<u8> {
    seq![
        ((frac / 10_000_000) % 10) as u8,
        ((frac / 1_000_000) % 10) as u8,
        ((frac / 100_000) % 10) as u8,
        ((frac / 10_000) % 10) as u8,
        ((frac / 1_000) % 10) as u8,
        ((frac / 100) % 10) as u8,
        ((frac / 10) % 10) as u8,
        (frac % 10) as u8,
    ]
}

/// The token amount with these base units, where there are any.
pub open spec fn lift_token<T>(units: Option<u64>) -> Option<Token<T>> {
    match units {
        Some(u) => Some(Token(u, PhantomData)),
        None => None,
    }
}

/// The amount with this value, where there is one.
pub open spec fn lift_amount<T>(value: Option<DecimalValue>) -> Option<Amount<T>> {
    match value {
        Some(v) => Some(Amount(v, PhantomData)),
        None => None,
    }
}

fn e8() -> (r: DecimalValue)
    ensures
        r == spec_e8(),
        r.valid(),
{
    DecimalValue { mantissa: 100_000_000, scale: 0 }
}

fn to_decimal(units: u64) -> (r: Option<DecimalValue>)
    ensures
        r == token_as_decimal(units),
        r is Some ==> r->0.valid(),
{
    DecimalValue::from_u64(units).checked_div(e8())
}

fn to_units(tokens: DecimalValue) -> (r: Option<u64>)
    requires
        tokens.valid(),
    ensures
        r == decimal_as_token(tokens),
{
    match tokens.checked_mul(e8()) {
        Some(units) => units.to_u64(),
        None => None,
    }
}

/// The fee of `fee_e8s` hundred-millionths as a ratio.
pub fn fee_from_e8s(fee_e8s: u64) -> (r: Option<Ratio>)
    ensures
        r == lift_amount::<RatioTag>(token_as_decimal(fee_e8s)),
        r is Some ==> r->0.valid(),
{
    match to_decimal(fee_e8s) {
        Some(d) => Some(Amount(d, PhantomData)),
        None => None,
    }
}

fn units_times(units: u64, factor: DecimalValue) -> (r: Option<u64>)
    requires
        factor.valid(),
    ensures
        r == token_times(units, factor),
{
    match to_decimal(units) {
        Some(tokens) => match tokens.checked_mul(factor) {
            Some(p) => to_units(p),
            None => None,
        },
        None => None,
    }
}

fn units_over(units: u64, divisor: DecimalValue) -> (r: Option<u64>)
    requires
        divisor.valid(),
    ensures
        r == token_over(units, divisor),
        divisor.mantissa == 0 ==> r is None,
{
    match to_decimal(units) {
        Some(tokens) => match tokens.checked_div(divisor) {
            Some(q) => to_units(q),
            None => None,
        },
        None => None,
    }
}

fn units_ratio(a: u64, b: u64) -> (r: Option<DecimalValue>)
    ensures
        r == token_ratio(a, b),
        r is Some ==> r->0.valid(),
        b == 0 ==> r is None,
        a == 0 && b != 0 ==> r == Some(spec_zero()),
{
    DecimalValue::from_u64(a).checked_div(DecimalValue::from_u64(b))
}

impl<T> Clone for Token<T> {
    fn clone(&self) -> (r: Self)
        ensures
            r == *self,
    {
        Token(self.0, PhantomData)
    }
}

impl<T> Copy for Token<T> {

}

impl<T> PartialEq for Token<T> {
    fn eq(&self, other: &Self) -> (r: bool) {
        self.0 == other.0
    }
}

impl<T> Eq for Token<T> {

}

impl<T> PartialEqSpecImpl for Token<T> {
    open spec fn obeys_eq_spec() -> bool {
        true
    }

    open spec fn eq_spec(&self, other: &Self) -> bool {
        self.0 == other.0
    }
}

impl<T> Add for Token<T> {
    type Output = Token<T>;

    /// Exact addition; the sum has to fit in a `u64`.
    fn add(self, rhs: Token<T>) -> (r: Token<T>) {
        Token(self.0 + rhs.0, PhantomData)
    }
}

impl<T> AddSpecImpl for Token<T> {
    open spec fn obeys_add_spec() -> bool {
        true
    }

    open spec fn add_req(self, rhs: Token<T>) -> bool {
        self.0 + rhs.0 <= u64::MAX
    }

    open spec fn add_spec(self, rhs: Token<T>) -> Token<T> {
        Token((self.0 + rhs.0) as u64, PhantomData)
    }
}

impl<T> Sub for Token<T> {
    type Output = Token<T>;

    /// Exact subtraction; taking more than there is is an error of the caller.
    fn sub(self, rhs: Token<T>) -> (r: Token<T>) {
        Token(self.0 - rhs.0, PhantomData)
    }
}

impl<T> SubSpecImpl for Token<T> {
    open spec fn obeys_sub_spec() -> bool {
        true
    }

    open spec fn sub_req(self, rhs: Token<T>) -> bool {
        rhs.0 <= self.0
    }

    open spec fn sub_spec(self, rhs: Token<T>) -> Token<T> {
        Token((self.0 - rhs.0) as u64, PhantomData)
    }
}

impl<T> Token<T> {
    /// The count of base units.
    pub open spec fn units(self) -> u64 {
        self.0
    }

    /// The count of base units.
    pub fn to_u64(self) -> (r: u64)
        ensures
            r == self.0,
    {
        self.0
    }

    /// The whole tokens of the amount, and the digits of its fraction, most
    /// significant first, without the zeros at the end; one zero where there
    /// is no fraction.  `150_000_000` is one token and the digit 5.
    pub fn display_parts(self) -> (r: (u64, Vec<u8>))
        ensures
            r.0 == self.0 / E8S,
            1 <= r.1@.len() <= 8,
            ({
                let all = fraction_digits((self.0 % E8S) as u64);
                &&& r.1@ == all.take(r.1@.len() as int)
                &&& forall|i: int| r.1@.len() <= i < 8 ==> #[trigger] all[i] == 0
            }),
            r.1@.len() > 1 ==> r.1@.last() != 0,
    {
        let whole: u64 = self.0 / E8S;
        let frac: u64 = self.0 % E8S;
        let mut digits: Vec<u8> = Vec::new();
        digits.push(((frac / 10_000_000) % 10) as u8);
        digits.push(((frac / 1_000_000) % 10) as u8);
        digits.push(((frac / 100_000) % 10) as u8);
        digits.push(((frac / 10_000) % 10) as u8);
        digits.push(((frac / 1_000) % 10) as u8);
        digits.push(((frac / 100) % 10) as u8);
        digits.push(((frac / 10) % 10) as u8);
        digits.push((frac % 10) as u8);
        let ghost all = fraction_digits(frac);
        assert(digits@ =~= all);
        while digits.len() > 1 && digits[digits.len() - 1] == 0
            invariant
                1 <= digits@.len() <= 8,
                all.len() == 8,
                digits@ == all.take(digits@.len() as int),
                forall|i: int| digits@.len() <= i < 8 ==> #[trigger] all[i] == 0,
            decreases digits@.len(),
        {
            let ghost before = digits@;
            let _ = digits.pop();
            proof {
                assert(digits@ =~= all.take(digits@.len() as int));
            }
        }
        (whole, digits)
    }

    /// `self - other`, or zero where `other` is the larger.
    pub fn saturating_sub(self, other: Token<T>) -> (r: Token<T>)
        ensures
            r.0 == if other.0 > self.0 {
                0
            } else {
                self.0 - other.0
            },
    {
        if other.0 > self.0 {
            return Token::<T>(0, PhantomData::<T>);
        }
        Token::<T>(self.0 - other.0, PhantomData::<T>)
    }

    /// The sum, `None` where it does not fit in a `u64`.
    pub fn checked_add(self, other: Token<T>) -> (r: Option<Token<T>>)
        ensures
            self.0 + other.0 <= u64::MAX ==> r is Some && r->0.units() == self.0 + other.0,
            self.0 + other.0 > u64::MAX ==> r is None,
    {
        if other.0 <= u64::MAX - self.0 {
            Some(Token(self.0 + other.0, PhantomData))
        } else {
            None
        }
    }

    /// The proportional share `self × ratio`, in the same token.
    pub fn checked_mul_ratio(self, ratio: Ratio) -> (r: Option<Token<T>>)
        requires
            ratio.0.valid(),
        ensures
            r == lift_token::<T>(token_times(self.0, ratio.0)),
    {
        match units_times(self.0, ratio.0) {
            Some(units) => Some(Token(units, PhantomData)),
            None => None,
        }
    }
}

impl From<u64> for ICP {
    fn from(value: u64) -> (r: Self) {
        Token(value, PhantomData::<IcpTag>)
    }
}

impl FromSpecImpl<u64> for ICP {
    open spec fn obeys_from_spec() -> bool {
        true
    }

    open spec fn from_spec(value: u64) -> Self {
        Token(value, PhantomData::<IcpTag>)
    }
}

impl From<u64> for ICUSD {
    fn from(value: u64) -> (r: Self) {
        Token(value, PhantomData::<IcusdTag>)
    }
}

impl FromSpecImpl<u64> for ICUSD {
    open spec fn obeys_from_spec() -> bool {
        true
    }

    open spec fn from_spec(value: u64) -> Self {
        Token(value, PhantomData::<IcusdTag>)
    }
}

impl ICUSD {
    pub open spec fn spec_new(value: u64) -> Self {
        Token(value, PhantomData::<IcusdTag>)
    }

    pub fn new(value: u64) -> (r: Self)
        ensures
            r == Self::spec_new(value),
    {
        Token(value, PhantomData::<IcusdTag>)
    }

    /// The collateral that `self` is worth at `rate` where the rate is read
    /// as collateral per USD: `self × rate`.
    pub fn checked_mul_rate(self, rate: UsdIcp) -> (r: Option<ICP>)
        requires
            rate.0.valid(),
        ensures
            r == lift_token::<IcpTag>(token_times(self.0, rate.0)),
    {
        match units_times(self.0, rate.0) {
            Some(units) => Some(Token(units, PhantomData)),
            None => None,
        }
    }

    /// The collateral that `self` buys at `rate` USD per token:
    /// `self ÷ rate`.  There is none at a rate of zero.
    pub fn checked_div_rate(self, rate: UsdIcp) -> (r: Option<ICP>)
        requires
            rate.0.valid(),
        ensures
            r == lift_token::<IcpTag>(token_over(self.0, rate.0)),
            rate.0.mantissa == 0 ==> r is None,
    {
        match units_over(self.0, rate.0) {
            Some(units) => Some(Token(units, PhantomData)),
            None => None,
        }
    }

    /// `self ÷ ratio`, in the same token.  There is none for a ratio of zero.
    pub fn checked_div_ratio(self, ratio: Ratio) -> (r: Option<ICUSD>)
        requires
            ratio.0.valid(),
        ensures
            r == lift_token::<IcusdTag>(token_over(self.0, ratio.0)),
            ratio.0.mantissa == 0 ==> r is None,
    {
        match units_over(self.0, ratio.0) {
            Some(units) => Some(Token(units, PhantomData)),
            None => None,
        }
    }

    /// `self ÷ other` as a ratio.  There is none where `other` is zero.
    pub fn checked_div(self, other: ICUSD) -> (r: Option<Ratio>)
        ensures
            r == lift_amount::<RatioTag>(token_ratio(self.0, other.0)),
            r is Some ==> r->0.valid(),
            other.0 == 0 ==> r is None,
            self.0 == 0 && other.0 != 0 ==> r == Some(Amount(spec_zero(), PhantomData::<RatioTag>)),
    {
        match units_ratio(self.0, other.0) {
            Some(q) => Some(Amount(q, PhantomData)),
            None => None,
        }
    }
}

impl ICP {
    pub open spec fn spec_new(value: u64) -> Self {
        Token(value, PhantomData::<IcpTag>)
    }

    pub fn new(value: u64) -> (r: Self)
        ensures
            r == Self::spec_new(value),
    {
        Token(value, PhantomData::<IcpTag>)
    }

    /// The value of `self` in USD at `rate` USD per token: `self × rate`.
    pub fn checked_mul_rate(self, rate: UsdIcp) -> (r: Option<ICUSD>)
        requires
            rate.0.valid(),
        ensures
            r == lift_token::<IcusdTag>(token_times(self.0, rate.0)),
    {
        match units_times(self.0, rate.0) {
            Some(units) => Some(Token(units, PhantomData)),
            None => None,
        }
    }

    /// `self ÷ other` as a ratio.  There is none where `other` is zero.
    pub fn checked_div(self, other: ICP) -> (r: Option<Ratio>)
        ensures
            r == lift_amount::<RatioTag>(token_ratio(self.0, other.0)),
            r is Some ==> r->0.valid(),
            other.0 == 0 ==> r is None,
            self.0 == 0 && other.0 != 0 ==> r == Some(Amount(spec_zero(), PhantomData::<RatioTag>)),
    {
        match units_ratio(self.0, other.0) {
            Some(q) => Some(Amount(q, PhantomData)),
            None => None,
        }
    }
}

impl<T> Clone for Amount<T> {
    fn clone(&self) -> (r: Self)
        ensures
            r == *self,
    {
        Amount(self.0, PhantomData)
    }
}

impl<T> Copy for Amount<T> {

}

impl<T> PartialEq for Amount<T> {
    /// Amounts are equal where they have one value; amounts that hold no
    /// decimal are equal where their parts are.
    fn eq(&self, other: &Self) -> (r: bool) {
        if self.0.is_valid() && other.0.is_valid() {
            self.0.same_value(other.0)
        } else {
            self.0.mantissa == other.0.mantissa && self.0.scale == other.0.scale
        }
    }
}

impl<T> Eq for Amount<T> {

}

impl<T> PartialEqSpecImpl for Amount<T> {
    open spec fn obeys_eq_spec() -> bool {
        true
    }

    open spec fn eq_spec(&self, other: &Self) -> bool {
        if self.0.valid() && other.0.valid() {
            self.0.value_eq(other.0)
        } else {
            self.0.mantissa == other.0.mantissa && self.0.scale == other.0.scale
        }
    }
}

impl<T> Amount<T> {
    /// The decimal that the amount holds.
    pub open spec fn value(self) -> DecimalValue {
        self.0
    }

    /// The amount holds a decimal.
    pub open spec fn valid(self) -> bool {
        self.0.valid()
    }

    /// `self < other`, by value.
    pub fn lt(self, other: Amount<T>) -> (r: bool)
        requires
            self.0.valid(),
            other.0.valid(),
        ensures
            r == self.0.value_lt(other.0),
    {
        self.0.lt(other.0)
    }

    /// `self <= other`, by value.
    pub fn le(self, other: Amount<T>) -> (r: bool)
        requires
            self.0.valid(),
            other.0.valid(),
        ensures
            r == self.0.value_le(other.0),
    {
        self.0.le(other.0)
    }

    /// `self == other`, by value.
    pub fn same_value(self, other: Amount<T>) -> (r: bool)
        requires
            self.0.valid(),
            other.0.valid(),
        ensures
            r == self.0.value_eq(other.0),
    {
        self.0.same_value(other.0)
    }

    /// The larger of the two by value; `other` where they are equal.
    pub fn max(self, other: Amount<T>) -> (r: Amount<T>)
        requires
            self.0.valid(),
            other.0.valid(),
        ensures
            r == if other.0.value_lt(self.0) {
                self
            } else {
                other
            },
    {
        if other.0.lt(self.0) {
            self
        } else {
            other
        }
    }

    /// The smaller of the two by value; `self` where they are equal.
    pub fn min(self, other: Amount<T>) -> (r: Amount<T>)
        requires
            self.0.valid(),
            other.0.valid(),
        ensures
            r == if other.0.value_lt(self.0) {
                other
            } else {
                self
            },
    {
        if other.0.lt(self.0) {
            other
        } else {
            self
        }
    }

    /// The amount in sixteen bytes.
    pub fn to_array(&self) -> (r: [u8; 16])
        requires
            self.valid(),
        ensures
            r@ == crate::decimal::decimal_bytes(self.0),
    {
        self.0.serialize()
    }

    /// The sum, `None` where it overflows.
    pub fn checked_add(self, other: Amount<T>) -> (r: Option<Amount<T>>)
        requires
            self.0.valid(),
            other.0.valid(),
        ensures
            r == lift_amount::<T>(decimal_sum(self.0, other.0)),
            r is Some ==> r->0.valid(),
    {
        match self.0.checked_add(other.0) {
            Some(s) => Some(Amount(s, PhantomData)),
            None => None,
        }
    }
}

impl UsdIcp {
    pub open spec fn spec_new(value: DecimalValue) -> Self {
        Amount(value, PhantomData::<UsdIcpTag>)
    }

    pub fn new(value: DecimalValue) -> (r: Self)
        ensures
            r == Self::spec_new(value),
    {
        Amount(value, PhantomData::<UsdIcpTag>)
    }

    /// The price in sixteen bytes.
    pub fn serialize(self) -> (r: [u8; 16])
        requires
            self.valid(),
        ensures
            r@ == crate::decimal::decimal_bytes(self.0),
    {
        self.0.serialize()
    }

    /// The price that sixteen bytes stand for.
    pub fn deserialize(array: [u8; 16]) -> (r: Self)
        ensures
            r == Self::spec_new(crate::decimal::decimal_of_bytes(array@)),
            r.valid(),
            forall|p: UsdIcp|
                p.valid() && array@ == #[trigger] crate::decimal::decimal_bytes(p.0) ==> r == p,
    {
        UsdIcp::new(DecimalValue::deserialize(array))
    }

    /// The price in base units of USD, the fraction of a unit cut off.
    pub fn to_e8s(self) -> (r: Option<u64>)
        requires
            self.0.valid(),
        ensures
            r == decimal_as_token(self.0),
    {
        to_units(self.0)
    }
}

impl Ratio {
    pub open spec fn spec_new(value: DecimalValue) -> Self {
        Amount(value, PhantomData::<RatioTag>)
    }

    pub fn new(value: DecimalValue) -> (r: Self)
        ensures
            r == Self::spec_new(value),
    {
        Amount(value, PhantomData::<RatioTag>)
    }

    /// The product of two ratios, `None` where it overflows.
    pub fn checked_mul(self, other: Ratio) -> (r: Option<Ratio>)
        requires
            self.0.valid(),
            other.0.valid(),
        ensures
            r == lift_amount::<RatioTag>(decimal_product(self.0, other.0)),
            r is Some ==> r->0.valid(),
    {
        match self.0.checked_mul(other.0) {
            Some(p) => Some(Amount(p, PhantomData)),
            None => None,
        }
    }

    /// `self^exponent`, `None` where a product on the way overflows.
    ///
    /// The power with exponent 0 is one; with exponent 1 it has the value of
    /// `self`, and is `self` itself unless `self` is a zero with a scale.
    pub fn pow(self, exponent: u64) -> (r: Option<Ratio>)
        requires
            self.0.valid(),
        ensures
            r == lift_amount::<RatioTag>(decimal_pow(self.0, exponent as nat)),
            r is Some ==> r->0.valid(),
            exponent == 1 ==> r is Some && r->0.value().value_eq(self.0),
            exponent == 1 && self.0.mantissa != 0 ==> r == Some(self),
    {
        let mut result = DecimalValue::one();
        let mut done: u64 = 0;
        while done < exponent
            invariant
                done <= exponent,
                self.0.valid(),
                result.valid(),
                decimal_pow(self.0, done as nat) == Some(result),
                done == 1 ==> result.value_eq(self.0),
                done == 1 && self.0.mantissa != 0 ==> result == self.0,
            decreases exponent - done,
        {
            let ghost before = result;
            match self.0.checked_mul(result) {
                Some(p) => {
                    result = p;
                },
                None => {
                    proof {
                        lemma_pow_fails_onwards(self.0, (done + 1) as nat, exponent as nat);
                    }
                    return None;
                },
            }
            proof {
                if done == 0 {
                    assert(before == spec_one());
                    assert(pow10(0) == 1);
                    if self.0.mantissa != 0 {
                        assert(self.0.mantissa * 1 == self.0.mantissa);
                        assert(product_is_exact(self.0, before));
                        assert(result == self.0);
                    } else {
                        assert(result == spec_zero());
                    }
                    assert(result.mantissa == self.0.mantissa);
                    lemma_same_mantissa_zero_or_same(result, self.0);
                }
            }
            done = done + 1;
        }
        Some(Amount(result, PhantomData))
    }
}

/// Once a power overflows, every higher power does.
pub proof fn lemma_pow_fails_onwards(base: DecimalValue, from: nat, to: nat)
    requires
        from <= to,
        decimal_pow(base, from) is None,
    ensures
        decimal_pow(base, to) is None,
    decreases to - from,
{
    if from < to {
        lemma_pow_fails_onwards(base, from, (to - 1) as nat);
    }
}

/// Two decimals with one mantissa have one value where they have one scale
/// or the mantissa is zero.
proof fn lemma_same_mantissa_zero_or_same(a: DecimalValue, b: DecimalValue)
    requires
        a == b || (a.mantissa == 0 && b.mantissa == 0),
    ensures
        a.value_eq(b),
{
    if a != b {
        assert(0 * pow10(b.scale as nat) == 0);
        assert(0 * pow10(a.scale as nat) == 0);
    }
}

/// The laws of exponentiation: the power with exponent 0 is one, and each
/// further power is the base times the power before it.
pub proof fn lemma_pow_unfolds(base: DecimalValue, exponent: nat)
    ensures
        decimal_pow(base, 0) == Some(spec_one()),
        decimal_pow(base, 1) == decimal_product(base, spec_one()),
        exponent > 0 ==> decimal_pow(base, exponent) == match decimal_pow(
            base,
            (exponent - 1) as nat,
        ) {
            Some(p) => decimal_product(base, p),
            None => None,
        },
{
    reveal_with_fuel(decimal_pow, 2);
}

impl From<DecimalValue> for UsdIcp {
    fn from(value: DecimalValue) -> (r: Self) {
        Amount(value, PhantomData::<UsdIcpTag>)
    }
}

impl FromSpecImpl<DecimalValue> for UsdIcp {
    open spec fn obeys_from_spec() -> bool {
        true
    }

    open spec fn from_spec(value: DecimalValue) -> Self {
        Amount(value, PhantomData::<UsdIcpTag>)
    }
}

impl From<DecimalValue> for Ratio {
    fn from(value: DecimalValue) -> (r: Self) {
        Amount(value, PhantomData::<RatioTag>)
    }
}

impl FromSpecImpl<DecimalValue> for Ratio {
    open spec fn obeys_from_spec() -> bool {
        true
    }

    open spec fn from_spec(value: DecimalValue) -> Self {
        Amount(value, PhantomData::<RatioTag>)
    }
}

impl From<ICP> for ICUSD {
    /// The same count of base units, read as stable tokens.
    fn from(value: ICP) -> (r: Self) {
        Token(value.0, PhantomData::<IcusdTag>)
    }
}

impl FromSpecImpl<ICP> for ICUSD {
    open spec fn obeys_from_spec() -> bool {
        true
    }

    open spec fn from_spec(value: ICP) -> Self {
        Token(value.0, PhantomData::<IcusdTag>)
    }
}

// The operators.  Each stands for the checked operation of the same pairing,
// for operands on which that operation gives a result.

impl Mul<UsdIcp> for ICP {
    type Output = ICUSD;

    /// The value of the collateral in USD: see [`ICP::checked_mul_rate`].
    fn mul(self, other: UsdIcp) -> (r: ICUSD) {
        match self.checked_mul_rate(other) {
            Some(value) => value,
            None => unreached(),
        }
    }
}

impl MulSpecImpl<UsdIcp> for ICP {
    open spec fn obeys_mul_spec() -> bool {
        true
    }

    open spec fn mul_req(self, other: UsdIcp) -> bool {
        other.valid() && lift_token::<IcusdTag>(token_times(self.0, other.0)) is Some
    }

    open spec fn mul_spec(self, other: UsdIcp) -> ICUSD {
        lift_token::<IcusdTag>(token_times(self.0, other.0))->0
    }
}

impl Mul<UsdIcp> for ICUSD {
    type Output = ICP;

    /// See [`ICUSD::checked_mul_rate`].
    fn mul(self, other: UsdIcp) -> (r: ICP) {
        match self.checked_mul_rate(other) {
            Some(value) => value,
            None => unreached(),
        }
    }
}

impl MulSpecImpl<UsdIcp> for ICUSD {
    open spec fn obeys_mul_spec() -> bool {
        true
    }

    open spec fn mul_req(self, other: UsdIcp) -> bool {
        other.valid() && lift_token::<IcpTag>(token_times(self.0, other.0)) is Some
    }

    open spec fn mul_spec(self, other: UsdIcp) -> ICP {
        lift_token::<IcpTag>(token_times(self.0, other.0))->0
    }
}

impl Div<UsdIcp> for ICUSD {
    type Output = ICP;

    /// The collateral that the amount buys: see [`ICUSD::checked_div_rate`].
    fn div(self, other: UsdIcp) -> (r: ICP) {
        match self.checked_div_rate(other) {
            Some(value) => value,
            None => unreached(),
        }
    }
}

impl DivSpecImpl<UsdIcp> for ICUSD {
    open spec fn obeys_div_spec() -> bool {
        true
    }

    open spec fn div_req(self, other: UsdIcp) -> bool {
        other.valid() && lift_token::<IcpTag>(token_over(self.0, other.0)) is Some
    }

    open spec fn div_spec(self, other: UsdIcp) -> ICP {
        lift_token::<IcpTag>(token_over(self.0, other.0))->0
    }
}

impl Div<Ratio> for ICUSD {
    type Output = ICUSD;

    /// See [`ICUSD::checked_div_ratio`].
    fn div(self, other: Ratio) -> (r: ICUSD) {
        match self.checked_div_ratio(other) {
            Some(value) => value,
            None => unreached(),
        }
    }
}

impl DivSpecImpl<Ratio> for ICUSD {
    open spec fn obeys_div_spec() -> bool {
        true
    }

    open spec fn div_req(self, other: Ratio) -> bool {
        other.valid() && lift_token::<IcusdTag>(token_over(self.0, other.0)) is Some
    }

    open spec fn div_spec(self, other: Ratio) -> ICUSD {
        lift_token::<IcusdTag>(token_over(self.0, other.0))->0
    }
}

impl Div<ICUSD> for ICUSD {
    type Output = Ratio;

    /// The ratio of the two amounts: see [`ICUSD::checked_div`].
    fn div(self, other: ICUSD) -> (r: Ratio) {
        match self.checked_div(other) {
            Some(value) => value,
            None => unreached(),
        }
    }
}

impl DivSpecImpl<ICUSD> for ICUSD {
    open spec fn obeys_div_spec() -> bool {
        true
    }

    open spec fn div_req(self, other: ICUSD) -> bool {
        lift_amount::<RatioTag>(token_ratio(self.0, other.0)) is Some
    }

    open spec fn div_spec(self, other: ICUSD) -> Ratio {
        lift_amount::<RatioTag>(token_ratio(self.0, other.0))->0
    }
}

impl Div<ICP> for ICP {
    type Output = Ratio;

    /// The ratio of the two amounts: see [`ICP::checked_div`].
    fn div(self, other: ICP) -> (r: Ratio) {
        match self.checked_div(other) {
            Some(value) => value,
            None => unreached(),
        }
    }
}

impl DivSpecImpl<ICP> for ICP {
    open spec fn obeys_div_spec() -> bool {
        true
    }

    open spec fn div_req(self, other: ICP) -> bool {
        lift_amount::<RatioTag>(token_ratio(self.0, other.0)) is Some
    }

    open spec fn div_spec(self, other: ICP) -> Ratio {
        lift_amount::<RatioTag>(token_ratio(self.0, other.0))->0
    }
}

impl<T> Mul<Ratio> for Token<T> {
    type Output = Token<T>;

    /// The proportional share: see [`Token::checked_mul_ratio`].
    fn mul(self, other: Ratio) -> (r: Token<T>) {
        match self.checked_mul_ratio(other) {
            Some(value) => value,
            None => unreached(),
        }
    }
}

impl<T> MulSpecImpl<Ratio> for Token<T> {
    open spec fn obeys_mul_spec() -> bool {
        true
    }

    open spec fn mul_req(self, other: Ratio) -> bool {
        other.valid() && lift_token::<T>(token_times(self.0, other.0)) is Some
    }

    open spec fn mul_spec(self, other: Ratio) -> Token<T> {
        lift_token::<T>(token_times(self.0, other.0))->0
    }
}

impl Mul<Ratio> for Ratio {
    type Output = Ratio;

    /// The product of the ratios: see [`Ratio::checked_mul`].
    fn mul(self, other: Ratio) -> (r: Ratio) {
        match self.checked_mul(other) {
            Some(value) => value,
            None => unreached(),
        }
    }
}

impl MulSpecImpl<Ratio> for Ratio {
    open spec fn obeys_mul_spec() -> bool {
        true
    }

    open spec fn mul_req(self, other: Ratio) -> bool {
        self.valid() && other.valid() && lift_amount::<RatioTag>(decimal_product(self.0, other.0)) is Some
    }

    open spec fn mul_spec(self, other: Ratio) -> Ratio {
        lift_amount::<RatioTag>(decimal_product(self.0, other.0))->0
    }
}

impl<T> Add<Amount<T>> for Amount<T> {
    type Output = Amount<T>;

    /// The sum of the amounts: see [`Amount::checked_add`].
    fn add(self, other: Amount<T>) -> (r: Amount<T>) {
        match self.checked_add(other) {
            Some(value) => value,
            None => unreached(),
        }
    }
}

impl<T> AddSpecImpl<Amount<T>> for Amount<T> {
    open spec fn obeys_add_spec() -> bool {
        true
    }

    open spec fn add_req(self, other: Amount<T>) -> bool {
        self.valid() && other.valid() && lift_amount::<T>(decimal_sum(self.0, other.0)) is Some
    }

    open spec fn add_spec(self, other: Amount<T>) -> Amount<T> {
        lift_amount::<T>(decimal_sum(self.0, other.0))->0
    }
}

} // verus!
