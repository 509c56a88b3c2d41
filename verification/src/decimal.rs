use vstd::prelude::*;
use scrypto::prelude::Decimal as LedgerDecimal;
use scrypto::prelude::I192;
use scrypto::prelude::RoundingMode;
use scrypto::prelude::{CheckedAdd, CheckedSub, CheckedMul, CheckedDiv, CheckedNeg};

verus! {

/// 2^64
pub open spec fn two_64() -> int {
    18446744073709551616int
}

/// 2^128
pub open spec fn two_128() -> int {
    340282366920938463463374607431768211456int
}

/// 2^191, the first value beyond the signed 192-bit range.
pub open spec fn two_191() -> int {
    3138550867693340381917894711603833208051177722232017256448int
}

/// 2^192
pub open spec fn two_192() -> int {
    6277101735386680763835789423207666416102355444464034512896int
}

/// Number of attos in one unit: decimals carry 18 fractional digits.
pub open spec fn scale() -> int {
    1_000_000_000_000_000_000
}

/// Whether an integer number of attos fits a decimal (a signed 192-bit integer).
pub open spec fn in_range(x: int) -> bool {
    -two_191() <= x < two_191()
}

/// Whether a product or quotient can be had: in the decimal range, and not its
/// least value, which the ledger's conversion of a product or quotient back to
/// a decimal refuses (it converts the magnitude, and `2^191` does not fit).
pub open spec fn in_quotient_range(x: int) -> bool {
    -two_191() < x < two_191()
}

/// The signed value of three little-endian 64-bit digits in two's complement.
pub open spec fn digits_value(d: [u64; 3]) -> int {
    let u = d[0] as int + d[1] as int * two_64() + d[2] as int * two_128();
    if d[2] >= 0x8000_0000_0000_0000u64 {
        u - two_192()
    } else {
        u
    }
}

pub open spec fn abs(x: int) -> int {
    if x < 0 {
        -x
    } else {
        x
    }
}

/// Integer division rounding toward zero (the division of machine integers).
pub open spec fn tdiv(a: int, b: int) -> int {
    if b == 0 {
        0
    } else {
        let q = abs(a) / abs(b);
        if (a < 0) == (b < 0) {
            q
        } else {
            -q
        }
    }
}

/// Product of two decimals given in attos, truncated toward zero.
pub open spec fn mul_attos(a: int, b: int) -> int {
    tdiv(a * b, scale())
}

/// Quotient of two decimals given in attos, truncated toward zero.
pub open spec fn div_attos(a: int, b: int) -> int {
    tdiv(a * scale(), b)
}

/// Checked sum: `None` when the result leaves the decimal range.
pub open spec fn oadd(a: Option<int>, b: Option<int>) -> Option<int> {
    match (a, b) {
        (Some(x), Some(y)) => if in_range(x + y) {
            Some(x + y)
        } else {
            None
        },
        _ => None,
    }
}

/// Checked difference.
pub open spec fn osub(a: Option<int>, b: Option<int>) -> Option<int> {
    match (a, b) {
        (Some(x), Some(y)) => if in_range(x - y) {
            Some(x - y)
        } else {
            None
        },
        _ => None,
    }
}

/// Checked product: `None` when the result cannot be had (see
/// [`in_quotient_range`]).
pub open spec fn omul(a: Option<int>, b: Option<int>) -> Option<int> {
    match (a, b) {
        (Some(x), Some(y)) => if in_quotient_range(mul_attos(x, y)) {
            Some(mul_attos(x, y))
        } else {
            None
        },
        _ => None,
    }
}

/// Checked quotient: `None` on a zero divisor or when the result cannot be had
/// (see [`in_quotient_range`]).
pub open spec fn odiv(a: Option<int>, b: Option<int>) -> Option<int> {
    match (a, b) {
        (Some(x), Some(y)) => if y != 0 && in_quotient_range(div_attos(x, y)) {
            Some(div_attos(x, y))
        } else {
            None
        },
        _ => None,
    }
}

/// Checked negation.
pub open spec fn oneg(a: Option<int>) -> Option<int> {
    match a {
        Some(x) => if in_range(-x) {
            Some(-x)
        } else {
            None
        },
        None => None,
    }
}

/// Checked absolute value.
pub open spec fn oabs(a: Option<int>) -> Option<int> {
    match a {
        Some(x) => if in_range(abs(x)) {
            Some(abs(x))
        } else {
            None
        },
        None => None,
    }
}

pub open spec fn omin(a: Option<int>, b: Option<int>) -> Option<int> {
    match (a, b) {
        (Some(x), Some(y)) => Some(if x <= y { x } else { y }),
        _ => None,
    }
}

pub open spec fn omax(a: Option<int>, b: Option<int>) -> Option<int> {
    match (a, b) {
        (Some(x), Some(y)) => Some(if x >= y { x } else { y }),
        _ => None,
    }
}

/// `x` clamped into `[lo, hi]` (for `lo <= hi`).
pub open spec fn clamp_int(x: int, lo: int, hi: int) -> int {
    if x < lo {
        lo
    } else if x > hi {
        hi
    } else {
        x
    }
}

/// A fixed-point decimal with 18 fractional digits, held as the three
/// little-endian 64-bit digits of its signed 192-bit number of attos.
#[derive(Clone, Copy, Debug)]
pub struct Decimal {
    pub digits: [u64; 3],
}

impl View for Decimal {
    type V = int;

    /// The number of attos (10^-18 units) that the decimal holds.
    open spec fn view(&self) -> int {
        digits_value(self.digits)
    }
}

/// Every digit triple stands for a value in the decimal range.
pub proof fn lemma_digits_in_range(d: [u64; 3])
    ensures
        in_range(digits_value(d)),
{
}

/// Every decimal's value is in the decimal range.
pub proof fn lemma_decimal_in_range(d: Decimal)
    ensures
        in_range(d@),
{
    lemma_digits_in_range(d.digits);
}

/// The ledger's checked sum of two decimals (`Decimal::checked_add`): the exact sum
/// of the attos, or `None` when it leaves the signed 192-bit range.
#[verifier::external_body]
fn ledger_checked_add(a: Decimal, b: Decimal) -> (r: Option<Decimal>)
    ensures
        r matches Some(c) ==> in_range(a@ + b@) && c@ == a@ + b@,
        r is None ==> !in_range(a@ + b@),
{
    let x = LedgerDecimal::from_attos(I192::from_digits(a.digits));
    let y = LedgerDecimal::from_attos(I192::from_digits(b.digits));
    match x.checked_add(y) {
        Some(c) => Some(Decimal { digits: c.attos().to_digits() }),
        None => None,
    }
}

/// The ledger's checked difference (`Decimal::checked_sub`).
#[verifier::external_body]
fn ledger_checked_sub(a: Decimal, b: Decimal) -> (r: Option<Decimal>)
    ensures
        r matches Some(c) ==> in_range(a@ - b@) && c@ == a@ - b@,
        r is None ==> !in_range(a@ - b@),
{
    let x = LedgerDecimal::from_attos(I192::from_digits(a.digits));
    let y = LedgerDecimal::from_attos(I192::from_digits(b.digits));
    match x.checked_sub(y) {
        Some(c) => Some(Decimal { digits: c.attos().to_digits() }),
        None => None,
    }
}

/// The ledger's checked product (`Decimal::checked_mul`): the product of the attos
/// divided by 10^18, truncated toward zero, or `None` when that leaves the range
/// or is the range's least value (the conversion back to 192 bits takes the
/// magnitude first, and refuses `2^191`).
#[verifier::external_body]
fn ledger_checked_mul(a: Decimal, b: Decimal) -> (r: Option<Decimal>)
    ensures
        r matches Some(c) ==> in_quotient_range(mul_attos(a@, b@)) && c@ == mul_attos(a@, b@),
        r is None ==> !in_quotient_range(mul_attos(a@, b@)),
{
    let x = LedgerDecimal::from_attos(I192::from_digits(a.digits));
    let y = LedgerDecimal::from_attos(I192::from_digits(b.digits));
    match x.checked_mul(y) {
        Some(c) => Some(Decimal { digits: c.attos().to_digits() }),
        None => None,
    }
}

/// The ledger's checked quotient (`Decimal::checked_div`): the attos times 10^18
/// divided by the divisor's attos, truncated toward zero; `None` for a zero divisor
/// or when the quotient leaves the range or is the range's least value (the
/// conversion back to 192 bits takes the magnitude first, and refuses `2^191`).
#[verifier::external_body]
fn ledger_checked_div(a: Decimal, b: Decimal) -> (r: Option<Decimal>)
    ensures
        r matches Some(c) ==> b@ != 0 && in_quotient_range(div_attos(a@, b@)) && c@ == div_attos(a@, b@),
        r is None ==> b@ == 0 || !in_quotient_range(div_attos(a@, b@)),
{
    let x = LedgerDecimal::from_attos(I192::from_digits(a.digits));
    let y = LedgerDecimal::from_attos(I192::from_digits(b.digits));
    match x.checked_div(y) {
        Some(c) => Some(Decimal { digits: c.attos().to_digits() }),
        None => None,
    }
}

/// The ledger's checked negation (`Decimal::checked_neg`).
#[verifier::external_body]
fn ledger_checked_neg(a: Decimal) -> (r: Option<Decimal>)
    ensures
        r matches Some(c) ==> in_range(-a@) && c@ == -a@,
        r is None ==> !in_range(-a@),
{
    let x = LedgerDecimal::from_attos(I192::from_digits(a.digits));
    match x.checked_neg() {
        Some(c) => Some(Decimal { digits: c.attos().to_digits() }),
        None => None,
    }
}

/// The ledger's checked absolute value (`Decimal::checked_abs`): `None` only for
/// the minimum value, whose absolute value is out of range.
#[verifier::external_body]
fn ledger_checked_abs(a: Decimal) -> (r: Option<Decimal>)
    ensures
        r matches Some(c) ==> in_range(abs(a@)) && c@ == abs(a@),
        r is None ==> !in_range(abs(a@)),
{
    let x = LedgerDecimal::from_attos(I192::from_digits(a.digits));
    match x.checked_abs() {
        Some(c) => Some(Decimal { digits: c.attos().to_digits() }),
        None => None,
    }
}

/// The ledger's ordering of decimals (`<` on `Decimal`), which orders them by
/// their number of attos.
#[verifier::external_body]
fn ledger_lt(a: Decimal, b: Decimal) -> (r: bool)
    ensures
        r == (a@ < b@),
{
    LedgerDecimal::from_attos(I192::from_digits(a.digits)) < LedgerDecimal::from_attos(
        I192::from_digits(b.digits),
    )
}

/// The ledger's conversion of a 128-bit integer number of attos into a decimal
/// (`I192::from(i128)` then `Decimal::from_attos`): exact.
#[verifier::external_body]
fn ledger_from_attos_i128(x: i128) -> (r: Decimal)
    ensures
        r@ == x as int,
{
    Decimal { digits: LedgerDecimal::from_attos(I192::from(x)).attos().to_digits() }
}

/// 10^n.
pub open spec fn pow10(n: nat) -> int
    decreases n,
{
    if n == 0 {
        1
    } else {
        10 * pow10((n - 1) as nat)
    }
}

/// The number of attos in one unit of the last of `places` decimal places.
pub open spec fn place_unit(places: u8) -> int {
    pow10((18 - places) as nat)
}

/// `x` rounded up to a multiple of `u` (for `u > 0`).
pub open spec fn round_up_to(x: int, u: int) -> int {
    x + (u - x % u) % u
}

/// `x` rounded toward zero to a multiple of `u` (for `u > 0`).
pub open spec fn round_to_zero_to(x: int, u: int) -> int {
    tdiv(x, u) * u
}

/// The ledger's rounding of a decimal up to `places` decimal places
/// (`Decimal::checked_round` toward positive infinity): the least multiple of
/// the last place's unit at or above the value; `None` when that leaves the range.
#[verifier::external_body]
fn ledger_round_up(a: Decimal, places: u8) -> (r: Option<Decimal>)
    requires
        places <= 18,
    ensures
        r matches Some(c) ==> c@ == round_up_to(a@, place_unit(places)),
        r is None ==> !in_range(round_up_to(a@, place_unit(places))),
{
    let x = LedgerDecimal::from_attos(I192::from_digits(a.digits));
    match x.checked_round(places, RoundingMode::ToPositiveInfinity) {
        Some(c) => Some(Decimal { digits: c.attos().to_digits() }),
        None => None,
    }
}

/// The ledger's rounding of a decimal toward zero to `places` decimal places
/// (`Decimal::checked_round` toward zero): the value truncated to a multiple of
/// the last place's unit, which is always in range.
#[verifier::external_body]
fn ledger_round_to_zero(a: Decimal, places: u8) -> (r: Option<Decimal>)
    requires
        places <= 18,
    ensures
        r is Some,
        r matches Some(c) ==> c@ == round_to_zero_to(a@, place_unit(places)),
{
    let x = LedgerDecimal::from_attos(I192::from_digits(a.digits));
    match x.checked_round(places, RoundingMode::ToZero) {
        Some(c) => Some(Decimal { digits: c.attos().to_digits() }),
        None => None,
    }
}

impl Decimal {
    /// A decimal from its number of attos.
    pub fn from_attos(x: i128) -> (r: Decimal)
        ensures
            r@ == x as int,
    {
        ledger_from_attos_i128(x)
    }

    /// A decimal from a whole number of units.
    pub fn from_int(x: i64) -> (r: Decimal)
        ensures
            r@ == x as int * scale(),
    {
        let attos: i128 = x as i128 * 1_000_000_000_000_000_000i128;
        ledger_from_attos_i128(attos)
    }

    pub fn zero() -> (r: Decimal)
        ensures
            r@ == 0,
    {
        Decimal { digits: [0, 0, 0] }
    }

    pub fn one() -> (r: Decimal)
        ensures
            r@ == scale(),
    {
        Decimal { digits: [1_000_000_000_000_000_000u64, 0, 0] }
    }

    /// The largest decimal.
    pub fn max_value() -> (r: Decimal)
        ensures
            r@ == two_191() - 1,
    {
        Decimal { digits: [0xffff_ffff_ffff_ffffu64, 0xffff_ffff_ffff_ffffu64, 0x7fff_ffff_ffff_ffffu64] }
    }

    pub fn checked_add(self, other: Decimal) -> (r: Option<Decimal>)
        ensures
            r matches Some(c) ==> c@ == self@ + other@,
            r is Some <==> in_range(self@ + other@),
    {
        ledger_checked_add(self, other)
    }

    pub fn checked_sub(self, other: Decimal) -> (r: Option<Decimal>)
        ensures
            r matches Some(c) ==> c@ == self@ - other@,
            r is Some <==> in_range(self@ - other@),
    {
        ledger_checked_sub(self, other)
    }

    pub fn checked_mul(self, other: Decimal) -> (r: Option<Decimal>)
        ensures
            r matches Some(c) ==> c@ == mul_attos(self@, other@),
            r is Some <==> in_quotient_range(mul_attos(self@, other@)),
    {
        ledger_checked_mul(self, other)
    }

    pub fn checked_div(self, other: Decimal) -> (r: Option<Decimal>)
        ensures
            r matches Some(c) ==> c@ == div_attos(self@, other@),
            r is Some <==> other@ != 0 && in_quotient_range(div_attos(self@, other@)),
    {
        ledger_checked_div(self, other)
    }

    pub fn checked_abs(self) -> (r: Option<Decimal>)
        ensures
            r matches Some(c) ==> c@ == abs(self@),
            r is Some <==> in_range(abs(self@)),
    {
        ledger_checked_abs(self)
    }

    /// Sum; the caller shows that it stays in range.
    pub fn add(self, other: Decimal) -> (r: Decimal)
        requires
            in_range(self@ + other@),
        ensures
            r@ == self@ + other@,
    {
        ledger_checked_add(self, other).unwrap()
    }

    pub fn sub(self, other: Decimal) -> (r: Decimal)
        requires
            in_range(self@ - other@),
        ensures
            r@ == self@ - other@,
    {
        ledger_checked_sub(self, other).unwrap()
    }

    pub fn mul(self, other: Decimal) -> (r: Decimal)
        requires
            in_quotient_range(mul_attos(self@, other@)),
        ensures
            r@ == mul_attos(self@, other@),
    {
        ledger_checked_mul(self, other).unwrap()
    }

    pub fn div(self, other: Decimal) -> (r: Decimal)
        requires
            other@ != 0,
            in_quotient_range(div_attos(self@, other@)),
        ensures
            r@ == div_attos(self@, other@),
    {
        ledger_checked_div(self, other).unwrap()
    }

    pub fn neg(self) -> (r: Decimal)
        requires
            in_range(-self@),
        ensures
            r@ == -self@,
    {
        ledger_checked_neg(self).unwrap()
    }

    pub fn abs(self) -> (r: Decimal)
        requires
            in_range(abs(self@)),
        ensures
            r@ == abs(self@),
    {
        ledger_checked_abs(self).unwrap()
    }

    pub fn lt(self, other: Decimal) -> (r: bool)
        ensures
            r == (self@ < other@),
    {
        ledger_lt(self, other)
    }

    pub fn le(self, other: Decimal) -> (r: bool)
        ensures
            r == (self@ <= other@),
    {
        !ledger_lt(other, self)
    }

    pub fn gt(self, other: Decimal) -> (r: bool)
        ensures
            r == (self@ > other@),
    {
        ledger_lt(other, self)
    }

    pub fn ge(self, other: Decimal) -> (r: bool)
        ensures
            r == (self@ >= other@),
    {
        !ledger_lt(self, other)
    }

    pub fn eq(self, other: Decimal) -> (r: bool)
        ensures
            r == (self@ == other@),
    {
        !ledger_lt(self, other) && !ledger_lt(other, self)
    }

    pub fn is_zero(self) -> (r: bool)
        ensures
            r == (self@ == 0),
    {
        self.eq(Decimal::zero())
    }

    pub fn is_positive(self) -> (r: bool)
        ensures
            r == (self@ > 0),
    {
        self.gt(Decimal::zero())
    }

    pub fn is_negative(self) -> (r: bool)
        ensures
            r == (self@ < 0),
    {
        self.lt(Decimal::zero())
    }

    /// The smaller of two decimals (the second when they are equal).
    pub fn min(self, other: Decimal) -> (r: Decimal)
        ensures
            r@ == (if self@ <= other@ { self@ } else { other@ }),
    {
        if other.lt(self) {
            other
        } else {
            self
        }
    }

    /// The larger of two decimals.
    pub fn max(self, other: Decimal) -> (r: Decimal)
        ensures
            r@ == (if self@ >= other@ { self@ } else { other@ }),
    {
        if self.lt(other) {
            other
        } else {
            self
        }
    }

    /// `self` clamped into `[lo, hi]`.
    pub fn clamp(self, lo: Decimal, hi: Decimal) -> (r: Decimal)
        requires
            lo@ <= hi@,
        ensures
            r@ == clamp_int(self@, lo@, hi@),
    {
        if self.lt(lo) {
            lo
        } else if hi.lt(self) {
            hi
        } else {
            self
        }
    }

    /// The value rounded up to `places` decimal places, as the ledger rounds an
    /// amount it takes in; `None` when that leaves the range.
    pub fn round_up(self, places: u8) -> (r: Option<Decimal>)
        requires
            places <= 18,
        ensures
            r matches Some(c) ==> c@ == round_up_to(self@, place_unit(places)),
            r is None <==> !in_range(round_up_to(self@, place_unit(places))),
    {
        let r = ledger_round_up(self, places);
        proof {
            if let Some(c) = r {
                lemma_decimal_in_range(c);
            }
        }
        r
    }

    /// The value rounded toward zero to `places` decimal places, as the ledger
    /// rounds an amount it pays out.
    pub fn round_to_zero(self, places: u8) -> (r: Decimal)
        requires
            places <= 18,
        ensures
            r@ == round_to_zero_to(self@, place_unit(places)),
    {
        ledger_round_to_zero(self, places).unwrap()
    }

    /// The number of attos as a 64-bit integer, when it fits.
    pub fn to_i64(self) -> (r: Option<i64>)
        ensures
            r matches Some(v) ==> v == self@,
            r is None <==> !(i64::MIN <= self@ <= i64::MAX),
    {
        let d0 = self.digits[0];
        let d1 = self.digits[1];
        let d2 = self.digits[2];
        if d1 == 0 && d2 == 0 && d0 <= 0x7fff_ffff_ffff_ffff {
            Some(d0 as i64)
        } else if d1 == 0xffff_ffff_ffff_ffff && d2 == 0xffff_ffff_ffff_ffff && d0 >= 0x8000_0000_0000_0000 {
            Some((d0 as i128 - 0x1_0000_0000_0000_0000i128) as i64)
        } else {
            None
        }
    }
}

} // verus!
