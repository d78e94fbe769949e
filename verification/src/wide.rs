//! Exact 256-bit products and quotients of 128-bit amounts.

use vstd::arithmetic::div_mod::lemma_fundamental_div_mod;
use vstd::arithmetic::div_mod::lemma_fundamental_div_mod_converse;
use vstd::arithmetic::power2::{
    lemma2_to64, lemma2_to64_rest, lemma_pow2_adds, lemma_pow2_pos, lemma_pow2_unfold, pow2,
};
use vstd::prelude::*;

verus! {

/// Two to the power of 64, the base in which products are formed.
const BASE: u128 = 0x1_0000_0000_0000_0000;

/// Splitting both factors in base `b` and collecting the partial products
/// gives the high and the low digit pair of the product.
proof fn lemma_schoolbook(x1: int, x0: int, y1: int, y0: int, b: int)
    ensures
        (x1 * b + x0) * (y1 * b + y0) == (x1 * y1) * (b * b) + (x1 * y0 + x0 * y1) * b + x0 * y0,
{
    let y = y1 * b + y0;
    assert((x1 * b + x0) * y == (x1 * b) * y + x0 * y) by (nonlinear_arith);
    assert((x1 * b) * y == (x1 * b) * (y1 * b) + (x1 * b) * y0) by (nonlinear_arith)
        requires
            y == y1 * b + y0,
    ;
    assert(x0 * y == x0 * (y1 * b) + x0 * y0) by (nonlinear_arith)
        requires
            y == y1 * b + y0,
    ;
    assert((x1 * b) * (y1 * b) == (x1 * y1) * (b * b)) by (nonlinear_arith);
    assert((x1 * b) * y0 + x0 * (y1 * b) == (x1 * y0 + x0 * y1) * b) by (nonlinear_arith);
}

/// Regroups the digits of a product once the carries have been taken.
proof fn lemma_regroup(p11: int, m_hi: int, n_hi: int, n_lo: int, lo0: int, m_lo: int, b: int)
    by (nonlinear_arith)
    ensures
        (p11 + m_hi + n_hi) * (b * b) + n_lo * b + lo0 == p11 * (b * b) + (m_hi * b + m_lo) * b + (
        n_hi * b + n_lo - m_lo) * b + lo0,
{
}

proof fn lemma_digit_product_bound(x: int, y: int)
    by (nonlinear_arith)
    requires
        0 <= x < 0x1_0000_0000_0000_0000,
        0 <= y < 0x1_0000_0000_0000_0000,
    ensures
        0 <= x * y <= 0xffff_ffff_ffff_ffff * 0xffff_ffff_ffff_ffff,
{
}

/// The product of two 128-bit numbers as a high and a low half.
pub fn wide_mul(a: u128, b: u128) -> (r: (u128, u128))
    ensures
        a * b == r.0 * (u128::MAX + 1) + r.1,
{
    let a1: u128 = a / BASE;
    let a0: u128 = a % BASE;
    let b1: u128 = b / BASE;
    let b0: u128 = b % BASE;
    proof {
        lemma_digit_product_bound(a0 as int, b0 as int);
        lemma_digit_product_bound(a0 as int, b1 as int);
        lemma_digit_product_bound(a1 as int, b0 as int);
        lemma_digit_product_bound(a1 as int, b1 as int);
    }
    let p00: u128 = a0 * b0;
    let p01: u128 = a0 * b1;
    let p10: u128 = a1 * b0;
    let p11: u128 = a1 * b1;
    let mid: u128 = p10 + p00 / BASE;
    let cross: u128 = p01 + mid % BASE;
    let hi: u128 = p11 + mid / BASE + cross / BASE;
    let lo: u128 = (cross % BASE) * BASE + p00 % BASE;
    proof {
        let base = BASE as int;
        lemma_schoolbook(a1 as int, a0 as int, b1 as int, b0 as int, base);
        lemma_regroup(
            p11 as int,
            mid as int / base,
            cross as int / base,
            cross as int % base,
            p00 as int % base,
            mid as int % base,
            base,
        );
        assert(a * b == p11 * (base * base) + (p10 + p01) * base + p00);
        assert(mid as int == (mid as int / base) * base + mid as int % base);
        assert(cross as int == (cross as int / base) * base + cross as int % base);
        assert(p00 as int == (p00 as int / base) * base + p00 as int % base);
    }
    (hi, lo)
}

/// One step of long division keeps the running equation.
proof fn lemma_division_step(n: int, q: int, d: int, rem: int, half: int, rest: int, bit: int)
    by (nonlinear_arith)
    requires
        n == (q * d + rem) * (2 * half) + rest,
    ensures
        n == (2 * q * d + (2 * rem + bit)) * half + (rest - bit * half),
        (2 * q + 1) * d == 2 * q * d + d,
{
}

/// `a * b / d`, rounded down; `None` if the quotient needs more than 128 bits.
pub fn mul_div(a: u128, b: u128, d: u128) -> (r: Option<u128>)
    requires
        d > 0,
    ensures
        match r {
            Some(q) => q == (a * b) / (d as int),
            None => (a * b) / (d as int) > u128::MAX,
        },
{
    let (hi, lo) = wide_mul(a, b);
    let ghost n: int = a * b;
    if hi >= d {
        proof {
            let two128: int = (u128::MAX + 1);
            assert(n >= d * two128) by (nonlinear_arith)
                requires
                    n == hi * two128 + lo,
                    hi >= d,
                    lo >= 0,
                    two128 == (u128::MAX + 1),
            ;
            lemma_fundamental_div_mod(n, d as int);
            assert(n / (d as int) >= two128) by (nonlinear_arith)
                requires
                    n >= d * two128,
                    n == d * (n / (d as int)) + n % (d as int),
                    0 <= n % (d as int) < d,
                    d > 0,
            ;
        }
        return None;
    }
    let mut q: u128 = 0;
    let mut rem: u128 = hi;
    let mut rest: u128 = lo;
    let mut half: u128 = 0x8000_0000_0000_0000_0000_0000_0000_0000;
    let mut i: u32 = 0;
    proof {
        lemma2_to64();
        lemma2_to64_rest();
        lemma_pow2_adds(63, 64);
    }
    while i < 128
        invariant
            0 <= i <= 128,
            d > 0,
            rem < d,
            i < 128 ==> half == pow2((127 - i) as nat),
            i < 128 ==> n == (q * d + rem) * (2 * half) + rest && rest < 2 * half,
            i == 128 ==> n == q * d + rem,
            q < pow2(i as nat),
        decreases 128 - i,
    {
        proof {
            lemma_pow2_pos((127 - i) as nat);
            lemma_pow2_unfold((i + 1) as nat);
            if i < 127 {
                lemma_pow2_unfold((127 - i) as nat);
            } else {
                lemma2_to64();
            }
            lemma_pow2_adds((i + 1) as nat, (127 - i) as nat);
            lemma2_to64();
            lemma2_to64_rest();
            lemma_pow2_adds(64, 64);
            assert(pow2((i + 1) as nat) * 1 <= pow2((i + 1) as nat) * pow2((127 - i) as nat))
                by (nonlinear_arith)
                requires
                    pow2((127 - i) as nat) >= 1,
                    pow2((i + 1) as nat) >= 0,
            ;
        }
        let ghost q0: int = q as int;
        let ghost rem0: int = rem as int;
        let ghost rest0: int = rest as int;
        let bit: u128 = if rest >= half {
            1
        } else {
            0
        };
        proof {
            lemma_division_step(n, q0, d as int, rem0, half as int, rest0, bit as int);
            assert(bit * half == if bit == 1 {
                half as int
            } else {
                0int
            });
        }
        if bit == 1 {
            rest = rest - half;
        }
        if rem + bit >= d - rem {
            rem = rem + bit - (d - rem);
            q = 2 * q + 1;
        } else {
            rem = rem + rem + bit;
            q = 2 * q;
        }
        proof {
            assert(n == (q * d + rem) * half + rest);
        }
        half = half / 2;
        i = i + 1;
    }
    proof {
        lemma_fundamental_div_mod_converse(n, d as int, q as int, rem as int);
    }
    Some(q)
}

/// `a * b / d`, rounded up; `None` if the quotient needs more than 128 bits.
pub fn mul_div_up(a: u128, b: u128, d: u128) -> (r: Option<u128>)
    requires
        d > 0,
    ensures
        match r {
            Some(q) => q == (a * b + d - 1) / (d as int),
            None => (a * b + d - 1) / (d as int) > u128::MAX,
        },
{
    let floor = mul_div(a, b, d);
    proof {
        lemma_round_up(a * b, d as int);
    }
    match floor {
        None => None,
        Some(q) => {
            let product = wide_mul(a, b);
            let covered = wide_mul(q, d);
            proof {
                lemma_fundamental_div_mod(a * b, d as int);
                assert(d * q == q * d) by (nonlinear_arith);
            }
            if product.0 == covered.0 && product.1 == covered.1 {
                Some(q)
            } else {
                q.checked_add(1)
            }
        },
    }
}

/// Rounding up adds one to the rounded-down quotient unless the division is exact.
pub proof fn lemma_round_up(n: int, d: int)
    requires
        n >= 0,
        d > 0,
    ensures
        (n + d - 1) / d == if n % d == 0 {
            n / d
        } else {
            n / d + 1
        },
{
    lemma_fundamental_div_mod(n, d);
    let q = n / d;
    let r = n % d;
    assert(d * q == q * d) by (nonlinear_arith);
    assert((q + 1) * d == q * d + d) by (nonlinear_arith);
    if r == 0 {
        lemma_fundamental_div_mod_converse(n + d - 1, d, q, d - 1);
    } else {
        lemma_fundamental_div_mod_converse(n + d - 1, d, q + 1, r - 1);
    }
}

} // verus!
