//! Ratio and fixed-point arithmetic on token amounts.

use vstd::prelude::*;

verus! {

/// Why a ratio multiplication produced no value.
#[derive(Clone, Copy, Debug, PartialEq, Eq, Structural)]
pub enum RatioError {
    DivideByZero,
    Overflow,
}

/// The number of atomic units in the decimal `1.0`.
pub const DECIMAL_FRACTIONAL: u128 = 1_000_000_000_000_000_000u128;

/// A non-negative fixed-point number with 18 fractional digits: the value is
/// `atomics / 10^18`.
#[derive(Clone, Copy, Debug, PartialEq, Eq, Structural)]
pub struct Decimal {
    pub atomics: u128,
}

/// `value * numerator / denominator` rounded down, as a mathematical integer.
pub open spec fn mul_div(value: int, numerator: int, denominator: int) -> int {
    (value * numerator) / denominator
}

/// `value * numerator / denominator` rounded down, or the reason why there is no such
/// 128-bit value.
pub open spec fn ratio(
    value: u128,
    numerator: u128,
    denominator: u128,
) -> Result<u128, RatioError> {
    if denominator == 0 {
        Err(RatioError::DivideByZero)
    } else if mul_div(value as int, numerator as int, denominator as int) > u128::MAX {
        Err(RatioError::Overflow)
    } else {
        Ok(mul_div(value as int, numerator as int, denominator as int) as u128)
    }
}

/// The product of two decimals rounded down to 18 fractional digits, in atomic units,
/// when it fits in 128 bits.
pub open spec fn decimal_product(a: u128, b: u128) -> Option<u128> {
    if mul_div(a as int, b as int, DECIMAL_FRACTIONAL as int) > u128::MAX {
        None
    } else {
        Some(mul_div(a as int, b as int, DECIMAL_FRACTIONAL as int) as u128)
    }
}

/// Calls `cosmwasm_std::Uint128::checked_multiply_ratio`.
///
/// Trusted: the result is `value * numerator / denominator` rounded down, computed without
/// intermediate overflow; a zero denominator is reported as `DivideByZero`, and a quotient
/// that does not fit in 128 bits as `Overflow`.
#[verifier::external_body]
pub(crate) fn checked_multiply_ratio(
    value: u128,
    numerator: u128,
    denominator: u128,
) -> (r: Result<u128, RatioError>)
    ensures
        r == ratio(value, numerator, denominator),
{
    match cosmwasm_std::Uint128::new(value).checked_multiply_ratio(numerator, denominator) {
        Ok(v) => Ok(v.u128()),
        Err(cosmwasm_std::CheckedMultiplyRatioError::DivideByZero) => Err(RatioError::DivideByZero),
        Err(cosmwasm_std::CheckedMultiplyRatioError::Overflow) => Err(RatioError::Overflow),
    }
}

/// Calls `cosmwasm_std::Uint128::multiply_ratio`.
///
/// Trusted: for a denominator other than zero and a quotient that fits in 128 bits, the
/// inputs on which the outside function does not panic, the result is
/// `value * numerator / denominator` rounded down, computed without intermediate overflow.
#[verifier::external_body]
pub(crate) fn multiply_ratio(value: u128, numerator: u128, denominator: u128) -> (r: u128)
    requires
        denominator != 0,
        mul_div(value as int, numerator as int, denominator as int) <= u128::MAX,
    ensures
        r == mul_div(value as int, numerator as int, denominator as int),
{
    cosmwasm_std::Uint128::new(value).multiply_ratio(numerator, denominator).u128()
}

/// Calls `cosmwasm_std::Decimal::checked_mul` on the decimals with the given atomic units.
///
/// Trusted: the result is the product rounded down to 18 fractional digits, computed without
/// intermediate overflow, and `None` when it does not fit in 128 bits of atomic units.
#[verifier::external_body]
pub(crate) fn decimal_checked_mul(a: Decimal, b: Decimal) -> (r: Option<Decimal>)
    ensures
        r == match decimal_product(a.atomics, b.atomics) {
            Some(p) => Some(Decimal { atomics: p }),
            None => None,
        },
{
    let x = cosmwasm_std::Decimal::new(cosmwasm_std::Uint128::new(a.atomics));
    let y = cosmwasm_std::Decimal::new(cosmwasm_std::Uint128::new(b.atomics));
    match x.checked_mul(y) {
        Ok(p) => Some(Decimal { atomics: p.atomics().u128() }),
        Err(_) => None,
    }
}

/// A quotient of a product is at most the factor that the ratio scales, when the ratio is
/// at most one.
pub proof fn lemma_mul_div_le(value: int, numerator: int, denominator: int)
    requires
        0 <= value,
        0 <= numerator <= denominator,
        0 < denominator,
    ensures
        0 <= mul_div(value, numerator, denominator) <= value,
{
    assert(0 <= value * numerator <= value * denominator) by (nonlinear_arith)
        requires
            0 <= value,
            0 <= numerator <= denominator,
    ;
    assert((value * denominator) / denominator == value) by (nonlinear_arith)
        requires
            0 < denominator,
    ;
    assert(0 <= (value * numerator) / denominator <= (value * denominator) / denominator)
        by (nonlinear_arith)
        requires
            0 <= value * numerator <= value * denominator,
            0 < denominator,
    ;
}

impl Decimal {
    /// The decimal `1.0`.
    pub fn one() -> (r: Decimal)
        ensures
            r.atomics == DECIMAL_FRACTIONAL,
    {
        Decimal { atomics: DECIMAL_FRACTIONAL }
    }

    /// The whole number `n` as a decimal. Every 64-bit number fits.
    pub fn from_integer(n: u64) -> (r: Decimal)
        ensures
            r.atomics == n * DECIMAL_FRACTIONAL,
    {
        assert(n * DECIMAL_FRACTIONAL <= u128::MAX) by (nonlinear_arith)
            requires
                n <= u64::MAX,
                DECIMAL_FRACTIONAL == 1_000_000_000_000_000_000u128,
        ;
        Decimal { atomics: (n as u128) * DECIMAL_FRACTIONAL }
    }

    /// The sum, when it fits.
    pub fn checked_add(self, other: Decimal) -> (r: Option<Decimal>)
        ensures
            r == if self.atomics + other.atomics > u128::MAX {
                None
            } else {
                Some(Decimal { atomics: (self.atomics + other.atomics) as u128 })
            },
    {
        match self.atomics.checked_add(other.atomics) {
            Some(s) => Some(Decimal { atomics: s }),
            None => None,
        }
    }

    /// `amount` scaled by this decimal and rounded down, when it fits.
    pub fn mul_floor(self, amount: u128) -> (r: Option<u128>)
        ensures
            r == decimal_product(amount, self.atomics),
    {
        match checked_multiply_ratio(amount, self.atomics, DECIMAL_FRACTIONAL) {
            Ok(v) => Some(v),
            Err(_) => None,
        }
    }
}

} // verus!
