use vstd::prelude::*;
use vstd::arithmetic::div_mod::lemma_div_multiples_vanish_quotient;
use crate::decimal::{Decimal, abs, div_attos, in_range, pow10, scale, tdiv, two_191};

verus! {

/// A decimal floating-point number in 16 bits: a 5-bit exponent above an
/// 11-bit significand, each stored with an offset (15 and 1023), standing for
/// the significand times ten to the exponent, in units of 10^-15.
#[derive(Clone, Copy, Debug, PartialEq, Eq, Structural)]
pub struct DFloat16(pub u16);

/// 2^n.
pub open spec fn two_pow(n: nat) -> int
    decreases n,
{
    if n == 0 {
        1
    } else {
        2 * two_pow((n - 1) as nat)
    }
}

/// The number of bits of `v`: the least `n` with `v < 2^n`.
pub open spec fn bit_length(v: nat) -> nat
    decreases v,
{
    if v == 0 {
        0
    } else {
        1 + bit_length(v / 2)
    }
}

/// A number at least 2^(n-1) and below 2^n has `n` bits.
pub proof fn lemma_bit_length(v: nat, n: nat)
    requires
        n >= 1,
        two_pow((n - 1) as nat) <= v < two_pow(n),
    ensures
        bit_length(v) == n,
    decreases n,
{
    if n > 1 {
        assert(two_pow((n - 1) as nat) == 2 * two_pow((n - 2) as nat));
        lemma_bit_length(v / 2, (n - 1) as nat);
    } else {
        assert(v == 1);
        assert(bit_length(0) == 0);
    }
}

/// The exponent and significand that stand for `x` attos, as the ledger's
/// conversion finds them: from the number of bits of `|x|`, an estimate of
/// its number of digits (at least three), the value divided down to about
/// three digits (rounding toward zero), one digit less when the significand is
/// out of its range. `None` when no number in 16 bits is found.
pub open spec fn dfloat_parts(x: int) -> Option<(int, int)> {
    if x == 0 {
        Some((0, 0))
    } else {
        let b = bit_length(abs(x) as nat);
        let p10 = if b * 30103 / 100000 >= 3 {
            b * 30103 / 100000
        } else {
            3
        };
        let e = p10 - 18;
        let s = tdiv(x, pow10((p10 - 3) as nat));
        if !(-32768 <= s <= 32767) {
            None
        } else {
            let (e2, s2) = if s > 1024 || s < -1023 {
                (e + 1, tdiv(s, 10))
            } else {
                (e, s)
            };
            if -15 <= e2 <= 16 && -1023 <= s2 <= 1024 {
                Some((e2, s2))
            } else {
                None
            }
        }
    }
}

/// The bits that stand for exponent `exp` and significand `sig`.
pub open spec fn dfloat_bits(exp: int, sig: int) -> int {
    (exp + 15) * 2048 + (sig + 1023)
}

/// The 16 bits that storing `x` attos gives (meaningful when `dfloat_parts`
/// finds parts for `x`).
pub open spec fn packed(x: int) -> DFloat16 {
    let (e, s) = dfloat_parts(x).unwrap();
    DFloat16(dfloat_bits(e, s) as u16)
}

/// 10^a times 10^b.
pub proof fn lemma_pow10_add(a: nat, b: nat)
    ensures
        pow10(a + b) == pow10(a) * pow10(b),
        pow10(a) > 0,
    decreases a,
{
    if a > 0 {
        lemma_pow10_add((a - 1) as nat, b);
        assert(pow10(a + b) == 10 * pow10((a - 1 + b) as nat));
        assert(pow10(a) * pow10(b) == 10 * (pow10((a - 1) as nat) * pow10(b))) by (nonlinear_arith)
            requires
                pow10(a) == 10 * pow10((a - 1) as nat),
        ;
    }
}

/// Some powers of ten.
pub proof fn lemma_pow10_values()
    ensures
        pow10(18) == scale(),
        pow10(31) == 10_000_000_000_000_000_000_000_000_000_000,
        pow10(49) < two_191(),
{
    reveal_with_fuel(pow10, 50);
}

/// 2^(a + b) is 2^a times 2^b.
pub proof fn lemma_two_pow_add(a: nat, b: nat)
    ensures
        two_pow(a + b) == two_pow(a) * two_pow(b),
    decreases a,
{
    if a > 0 {
        lemma_two_pow_add((a - 1) as nat, b);
        assert(two_pow(a + b) == 2 * two_pow((a - 1 + b) as nat));
        assert(two_pow(a) * two_pow(b) == 2 * (two_pow((a - 1) as nat) * two_pow(b))) by (nonlinear_arith)
            requires
                two_pow(a) == 2 * two_pow((a - 1) as nat),
        ;
    }
}

/// 2^191 is the first value beyond the decimal range.
pub proof fn lemma_two_pow_191()
    ensures
        two_pow(191) == two_191(),
{
    reveal_with_fuel(two_pow, 65);
    assert(two_pow(64) == 18446744073709551616int);
    assert(two_pow(63) == 9223372036854775808int);
    lemma_two_pow_add(64, 64);
    lemma_two_pow_add(128, 63);
    assert(18446744073709551616int * 18446744073709551616int == 340282366920938463463374607431768211456int)
        by (nonlinear_arith);
    assert(340282366920938463463374607431768211456int * 9223372036854775808int == two_191()) by (nonlinear_arith);
}

/// A number with at most 191 bits: the estimate of digits is at most 57.
pub proof fn lemma_bit_length_bound(v: nat, b: nat)
    requires
        b == bit_length(v),
        b <= 191,
    ensures
        b * 30103 / 100000 <= 57,
{
}

/// Powers of ten grow.
pub proof fn lemma_pow10_mono(a: nat, b: nat)
    requires
        a <= b,
    ensures
        pow10(a) <= pow10(b),
        pow10(a) > 0,
    decreases b,
{
    if a < b {
        lemma_pow10_mono(a, (b - 1) as nat);
    }
    lemma_pow10_add(a, 0);
}

/// Scaling the dividend and the divisor alike leaves a quotient alone.
pub proof fn lemma_tdiv_cancel(x: int, d: int, c: int)
    requires
        d > 0,
        c > 0,
    ensures
        tdiv(x * c, d * c) == tdiv(x, d),
{
    let ax = abs(x);
    assert(abs(x * c) == ax * c) by (nonlinear_arith)
        requires
            c > 0,
            ax == abs(x),
    ;
    assert(d * c > 0) by (nonlinear_arith)
        requires
            c > 0,
            d > 0,
    ;
    assert((x * c < 0) == (x < 0)) by (nonlinear_arith)
        requires
            c > 0,
    ;
    if ax > 0 {
        lemma_div_multiples_vanish_quotient(c, ax, d);
        assert(c * ax == ax * c && c * d == d * c) by (nonlinear_arith);
        assert((ax * c) / (d * c) == ax / d);
    } else {
        assert(x == 0);
        assert(x * c == 0);
    }
    assert(abs(d * c) == d * c);
    assert(abs(d) == d);
}

/// The decimal with `k` attos... ten to the `k` attos.
pub fn pow10_decimal(k: u32) -> (r: Decimal)
    requires
        pow10(k as nat) < two_191(),
    ensures
        r@ == pow10(k as nat),
{
    let mut p = Decimal::from_attos(1);
    let mut i: u32 = 0;
    while i < k
        invariant
            i <= k,
            p@ == pow10(i as nat),
            pow10(k as nat) < two_191(),
        decreases k - i,
    {
        proof {
            lemma_pow10_mono((i + 1) as nat, k as nat);
            assert(pow10((i + 1) as nat) == 10 * pow10(i as nat));
        }
        let p2 = p.add(p);
        let p4 = p2.add(p2);
        let p8 = p4.add(p4);
        p = p8.add(p2);
        i = i + 1;
    }
    p
}

/// The number of bits of a decimal that is not negative.
pub fn bit_length_of(m: Decimal) -> (r: u32)
    requires
        m@ >= 0,
    ensures
        r == bit_length(m@ as nat),
        r <= 191,
{
    if m.is_zero() {
        return 0;
    }
    proof {
        lemma_two_pow_191();
        crate::decimal::lemma_decimal_in_range(m);
    }
    let mut n: u32 = 1;
    let mut p = Decimal::from_attos(2);
    assert(two_pow(0) == 1);
    assert(two_pow(1) == 2);
    while n < 190 && p.le(m)
        invariant
            1 <= n <= 190,
            p@ == two_pow(n as nat),
            two_pow((n - 1) as nat) <= m@,
            m@ < two_pow(191),
            two_pow(191) == two_191(),
        decreases 190 - n,
    {
        proof {
            lemma_two_pow_mono((n + 1) as nat, 190);
            assert(two_pow((n + 1) as nat) == 2 * two_pow(n as nat));
            assert(two_pow(191) == 2 * two_pow(190));
        }
        p = p.add(p);
        n = n + 1;
    }
    if p.le(m) {
        proof {
            lemma_bit_length(m@ as nat, 191);
        }
        191
    } else {
        proof {
            lemma_bit_length(m@ as nat, n as nat);
        }
        n
    }
}

/// Powers of two grow.
pub proof fn lemma_two_pow_mono(a: nat, b: nat)
    requires
        a <= b,
    ensures
        0 < two_pow(a) <= two_pow(b),
    decreases b,
{
    if a < b {
        lemma_two_pow_mono(a, (b - 1) as nat);
    }
    if a > 0 {
        lemma_two_pow_mono((a - 1) as nat, (a - 1) as nat);
    }
}

/// A positive number lies between the powers of two that its bit count gives.
pub proof fn lemma_bit_length_bounds(v: nat)
    requires
        v > 0,
    ensures
        bit_length(v) >= 1,
        two_pow((bit_length(v) - 1) as nat) <= v < two_pow(bit_length(v)),
    decreases v,
{
    if v == 1 {
        assert(bit_length(0) == 0);
        assert(bit_length(1) == 1);
        assert(two_pow(1) == 2 * two_pow(0));
    } else {
        lemma_bit_length_bounds(v / 2);
        let b = bit_length(v / 2);
        assert(bit_length(v) == b + 1);
        assert(two_pow(b + 1) == 2 * two_pow(b));
        if b >= 1 {
            assert(two_pow(b) == 2 * two_pow((b - 1) as nat));
        }
    }
}

/// Dividing by one changes nothing.
proof fn lemma_tdiv_one(x: int)
    ensures
        tdiv(x, 1) == x,
{
    assert(abs(x) / 1 == abs(x));
    assert(abs(1) == 1);
}

/// The bits that an exponent and a significand in range are stored in give them back.
pub proof fn lemma_decode(e: int, s: int)
    requires
        -15 <= e <= 16,
        -1023 <= s <= 1024,
    ensures
        DFloat16(dfloat_bits(e, s) as u16).exp() == e,
        DFloat16(dfloat_bits(e, s) as u16).sig() == s,
        DFloat16(dfloat_bits(e, s) as u16).value() == s * pow10((e + 15) as nat),
{
    let v = dfloat_bits(e, s);
    assert(0 <= v < 65536);
    assert((v as u16) as int == v);
    let d = DFloat16(v as u16);
    assert(d.0 as int == (e + 15) * 2048 + (s + 1023));
    vstd::arithmetic::div_mod::lemma_fundamental_div_mod_converse(
        d.0 as int,
        2048,
        e + 15,
        s + 1023,
    );
}

/// Storing a number that 16 bits can hold and reading it back gives the number
/// again: for every exponent from -15 to 16 and significand from -1023 to 1024,
/// the significand times 10^(exponent + 15) attos fits a decimal, has parts to
/// store, and the stored number's value is that number.
#[verifier::spinoff_prover]
#[verifier::rlimit(40)]
pub proof fn law_round_trip(exp: int, sig: int)
    requires
        -15 <= exp <= 16,
        -1023 <= sig <= 1024,
    ensures
        ({
            let x = sig * pow10((exp + 15) as nat);
            &&& in_range(abs(x))
            &&& dfloat_parts(x) is Some
            &&& packed(x).value() == x
        }),
{
    let k: nat = (exp + 15) as nat;
    let x = sig * pow10(k);
    lemma_pow10_values();
    lemma_pow10_mono(k, 31);
    let pk = pow10(k);
    assert(abs(x) <= 1024 * pk) by (nonlinear_arith)
        requires
            x == sig * pk,
            -1023 <= sig <= 1024,
            pk > 0,
            abs(x) == if x < 0 { -x } else { x },
    ;
    assert(in_range(abs(x))) by (nonlinear_arith)
        requires
            0 <= abs(x) <= 1024 * pk,
            pk <= 10_000_000_000_000_000_000_000_000_000_000,
            two_191() == 3138550867693340381917894711603833208051177722232017256448int,
    ;
    if sig == 0 {
        assert(x == 0) by (nonlinear_arith)
            requires
                x == sig * pk,
                sig == 0,
        ;
        lemma_decode(0, 0);
        return;
    }
    let a = abs(x);
    assert(a >= 1) by (nonlinear_arith)
        requires
            x == sig * pk,
            sig != 0,
            pk > 0,
            a == if x < 0 { -x } else { x },
    ;
    lemma_bit_length_bounds(a as nat);
    let b = bit_length(a as nat);
    let q = b * 30103 / 100000;
    let p10: int = if q >= 3 { q as int } else { 3 };
    let d: nat = (p10 - 3) as nat;
    // The estimate of digits is at most k + 3.
    crate::powers::lemma_bits_bound(k);
    let n = (100000 * (k + 4) + 30102) / 30103;
    assert(two_pow((b - 1) as nat) < two_pow((n - 1) as nat));
    if b > n - 1 {
        lemma_two_pow_mono((n - 1) as nat, (b - 1) as nat);
    }
    assert(b <= n - 1);
    assert(q <= k + 3);
    assert(d <= k);
    // The number is below 10^(p10 + 1).
    crate::powers::lemma_digits_bound(q as nat);
    let m = (100000 * (q + 1) - 1) / 30103;
    assert(b <= m);
    lemma_two_pow_mono(b, m as nat);
    lemma_pow10_mono((q + 1) as nat, (p10 + 1) as nat);
    assert(a < pow10((p10 + 1) as nat));
    // The quotient is the significand shifted by k - d places.
    let j: nat = (k - d) as nat;
    lemma_pow10_add(j, d);
    lemma_pow10_mono(d, d);
    lemma_pow10_mono(j, j);
    let pd = pow10(d);
    let pj = pow10(j);
    assert(pk == pj * pd);
    let s0 = sig * pj;
    assert(x == s0 * pd) by (nonlinear_arith)
        requires
            x == sig * pk,
            pk == pj * pd,
            s0 == sig * pj,
    ;
    lemma_tdiv_cancel(s0, 1, pd);
    lemma_tdiv_one(s0);
    assert(1 * pd == pd);
    assert(tdiv(x, pd) == s0);
    // The quotient has at most four digits.
    lemma_pow10_add(4, d);
    assert(pow10(4) == 10000) by {
        reveal_with_fuel(pow10, 5);
    }
    assert(pow10((p10 + 1) as nat) == pow10(4 + d));
    let as0 = abs(s0);
    assert(a == as0 * pd) by (nonlinear_arith)
        requires
            x == s0 * pd,
            pd > 0,
            a == abs(x),
            as0 == abs(s0),
    ;
    assert(as0 < 10000) by (nonlinear_arith)
        requires
            a == as0 * pd,
            a < 10000 * pd,
            pd > 0,
            as0 >= 0,
    ;
    let e = p10 - 18;
    if s0 > 1024 || s0 < -1023 {
        // Then at least one place was shifted in, and dropping it is exact.
        assert(j >= 1) by {
            if j == 0 {
                assert(pj == 1);
                assert(s0 == sig) by (nonlinear_arith)
                    requires
                        s0 == sig * pj,
                        pj == 1,
                ;
            }
        }
        let i: nat = (j - 1) as nat;
        lemma_pow10_add(1, i);
        assert(pow10(1) == 10) by {
            reveal_with_fuel(pow10, 2);
        }
        let pi = pow10(i);
        let s1 = sig * pi;
        assert(s0 == s1 * 10) by (nonlinear_arith)
            requires
                s0 == sig * pj,
                pj == 10 * pi,
                s1 == sig * pi,
        ;
        lemma_tdiv_cancel(s1, 1, 10);
        lemma_tdiv_one(s1);
        assert(tdiv(s0, 10) == s1);
        assert(abs(s1) < 1000);
        assert(dfloat_parts(x) == Some((e + 1, s1)));
        lemma_decode(e + 1, s1);
        lemma_pow10_add(i, d + 1);
        lemma_pow10_add(1, d);
        assert(pow10((d + 1) as nat) == 10 * pd);
        assert(packed(x).value() == s1 * pow10((d + 1) as nat));
        assert(s1 * pow10((d + 1) as nat) == x) by (nonlinear_arith)
            requires
                pow10((d + 1) as nat) == 10 * pd,
                s0 == s1 * 10,
                x == s0 * pd,
        ;
    } else {
        assert(dfloat_parts(x) == Some((e, s0)));
        lemma_decode(e, s0);
        assert(packed(x).value() == s0 * pd);
    }
}

/// Cutting a number down to a whole number of `b`s, toward zero, never makes it
/// larger in size or turns its sign.
pub proof fn lemma_tdiv_cut(x: int, b: int)
    requires
        b > 0,
    ensures
        x >= 0 ==> 0 <= tdiv(x, b) * b <= x,
        x <= 0 ==> x <= tdiv(x, b) * b <= 0,
{
    let ax = abs(x);
    vstd::arithmetic::div_mod::lemma_fundamental_div_mod(ax, b);
    vstd::arithmetic::div_mod::lemma_mod_bound(ax, b);
    assert(ax / b >= 0) by (nonlinear_arith)
        requires
            ax >= 0,
            b > 0,
    ;
    assert((ax / b) * b == b * (ax / b)) by (nonlinear_arith);
    assert((ax / b) * b >= 0) by (nonlinear_arith)
        requires
            ax / b >= 0,
            b > 0,
    ;
    assert((-(ax / b)) * b == -((ax / b) * b)) by (nonlinear_arith);
}

/// Storing a decimal in 16 bits keeps its leading digits and cuts the rest
/// toward zero: the number read back is never larger in size than the one
/// stored, and never of the other sign.
pub proof fn law_store_truncates(x: int)
    requires
        dfloat_parts(x) is Some,
    ensures
        x >= 0 ==> 0 <= packed(x).value() <= x,
        x <= 0 ==> x <= packed(x).value() <= 0,
{
    let (e2, s2) = dfloat_parts(x).unwrap();
    lemma_decode(e2, s2);
    if x == 0 {
        assert(packed(x).value() == 0 * pow10(15));
    } else {
        let b = bit_length(abs(x) as nat);
        let p10 = if b * 30103 / 100000 >= 3 { b * 30103 / 100000 } else { 3 };
        let d = pow10((p10 - 3) as nat);
        lemma_pow10_add((p10 - 3) as nat, 0);
        let q = tdiv(x, d);
        lemma_tdiv_cut(x, d);
        if q > 1024 || q < -1023 {
            lemma_pow10_add((p10 - 3) as nat, 1);
            assert(pow10(1) == 10) by {
                reveal_with_fuel(pow10, 2);
            }
            assert(e2 + 15 == p10 - 2);
            assert(((p10 - 3) as nat + 1) as nat == (e2 + 15) as nat);
            lemma_tdiv_cut(q, 10);
            let t = tdiv(q, 10);
            assert(packed(x).value() == t * (d * 10));
            assert(t * (d * 10) == (t * 10) * d) by (nonlinear_arith);
            assert(q >= 0 ==> 0 <= (t * 10) * d <= q * d) by (nonlinear_arith)
                requires
                    q >= 0 ==> 0 <= t * 10 <= q,
                    d > 0,
            ;
            assert(q <= 0 ==> q * d <= (t * 10) * d <= 0) by (nonlinear_arith)
                requires
                    q <= 0 ==> q <= t * 10 <= 0,
                    d > 0,
            ;
            assert(x >= 0 ==> q >= 0) by {
                lemma_tdiv_sign_q(x, d);
            }
            assert(x <= 0 ==> q <= 0) by {
                lemma_tdiv_sign_q(x, d);
            }
        } else {
            assert(e2 + 15 == p10 - 3);
            assert(packed(x).value() == q * d);
        }
    }
}

/// A quotient truncated toward zero keeps the dividend's sign.
proof fn lemma_tdiv_sign_q(x: int, b: int)
    requires
        b > 0,
    ensures
        x >= 0 ==> tdiv(x, b) >= 0,
        x <= 0 ==> tdiv(x, b) <= 0,
{
    assert(abs(x) / b >= 0) by (nonlinear_arith)
        requires
            abs(x) >= 0,
            b > 0,
    ;
}

impl DFloat16 {
    /// The exponent that the number stores.
    pub open spec fn exp(self) -> int {
        (self.0 / 2048) as int - 15
    }

    /// The significand that the number stores.
    pub open spec fn sig(self) -> int {
        (self.0 % 2048) as int - 1023
    }

    /// The number in attos (units of 10^-18): the significand times 10^(exp + 15).
    pub open spec fn value(self) -> int {
        self.sig() * pow10((self.exp() + 15) as nat)
    }

    /// The number with exponent `exp` (from -15 to 16) and significand `sig`
    /// (from -1023 to 1024).
    pub fn new(exp: i16, sig: i16) -> (r: DFloat16)
        requires
            -15 <= exp <= 16,
            -1023 <= sig <= 1024,
        ensures
            r.0 == dfloat_bits(exp as int, sig as int),
            r.exp() == exp,
            r.sig() == sig,
    {
        let e: u16 = (exp + 15) as u16;
        let s: u16 = (sig + 1023) as u16;
        let bits = (e << 11) | s;
        assert(bits == e * 2048 + s) by (bit_vector)
            requires
                e < 32,
                s < 2048,
                bits == (e << 11) | s,
        ;
        DFloat16(bits)
    }

    /// The number as a decimal.
    pub fn to_decimal(self) -> (r: Decimal)
        ensures
            r@ == self.value(),
    {
        let bits: u16 = self.0;
        let exp: u16 = bits >> 11;
        let sig_bits: u16 = bits & 2047;
        assert(exp == bits / 2048 && sig_bits == bits % 2048 && exp < 32) by (bit_vector)
            requires
                exp == bits >> 11,
                sig_bits == bits & 2047,
        ;
        let sig: i128 = sig_bits as i128 - 1023;
        let mut p: i128 = 1;
        let mut i: u16 = 0;
        proof {
            lemma_pow10_mono(0, 31);
            assert(pow10(0) == 1);
        }
        while i < exp
            invariant
                i <= exp,
                exp < 32,
                p == pow10(i as nat),
                0 < p <= pow10(31),
            decreases exp - i,
        {
            proof {
                lemma_pow10_mono((i + 1) as nat, 31);
                assert(pow10((i + 1) as nat) == 10 * pow10(i as nat));
                lemma_pow10_values();
            }
            p = p * 10;
            i = i + 1;
        }
        proof {
            lemma_pow10_values();
        }
        assert(-1023 * pow10(31) <= sig * p <= 1024 * pow10(31)) by (nonlinear_arith)
            requires
                -1023 <= sig <= 1024,
                0 < p <= pow10(31),
        ;
        Decimal::from_attos(sig * p)
    }

    /// The number in 16 bits that stands for a decimal (see [`dfloat_parts`]).
    pub fn from_decimal(value: Decimal) -> (r: DFloat16)
        requires
            in_range(abs(value@)),
            dfloat_parts(value@) is Some,
        ensures
            ({
                let (e, s) = dfloat_parts(value@).unwrap();
                r.0 == dfloat_bits(e, s)
            }),
            r == packed(value@),
    {
        if value.is_zero() {
            return DFloat16::new(0, 0);
        }
        let magnitude = value.abs();
        let bits = bit_length_of(magnitude);
        let estimate = bits * 30103 / 100000;
        let p10: u32 = if estimate >= 3 {
            estimate
        } else {
            3
        };
        proof {
            lemma_bit_length_bound(magnitude@ as nat, bits as nat);
            assert(p10 <= 34);
            lemma_pow10_add((p10 - 3) as nat, 18);
            lemma_pow10_values();
            lemma_pow10_mono((p10 + 15) as nat, 49);
            lemma_tdiv_cancel(value@, pow10((p10 - 3) as nat), scale());
        }
        let divisor = pow10_decimal(p10 + 15);
        let quotient = value.div(divisor);
        let mut exp: i64 = p10 as i64 - 18;
        let mut sig: i64 = quotient.to_i64().unwrap();
        if sig > 1024 || sig < -1023 {
            sig = if sig < 0 {
                -((-sig) / 10)
            } else {
                sig / 10
            };
            exp = exp + 1;
        }
        DFloat16::new(exp as i16, sig as i16)
    }
}

} // verus!
