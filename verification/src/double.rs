//! Double-precision numbers, in whole numbers: a mantissa and a power of two.
use vstd::arithmetic::power2::*;
use vstd::prelude::*;
use crate::fit;
use crate::json::JsonNumber;

verus! {

/// The number of values that a mantissa can have.
pub const MANTISSAS: u128 = 0x20_0000_0000_0000;

/// By how many binary digits a whole number is too long for a mantissa.
pub open spec fn excess(n: nat) -> nat
    decreases n,
{
    if n < MANTISSAS {
        0
    } else {
        1 + excess(n / 2)
    }
}

/// The double-precision number nearest to a whole number, as a mantissa and a power of two;
/// of two that are equally near the one with the even mantissa.
pub open spec fn rounded(n: nat) -> (nat, nat) {
    let k = excess(n);
    let unit = pow2(k);
    let q = n / unit;
    let rest = n % unit;
    if 2 * rest > unit || (2 * rest == unit && q % 2 == 1) {
        (q + 1, k)
    } else {
        (q, k)
    }
}

/// The whole part of `mantissa` times two to the power of `exponent`.
pub open spec fn whole_part(mantissa: nat, exponent: int) -> nat {
    if exponent >= 0 {
        mantissa * pow2(exponent as nat)
    } else {
        mantissa / pow2((-exponent) as nat)
    }
}

/// A number that is above one, as a mantissa and a power of two.
pub open spec fn above_one(x: JsonNumber) -> Option<(nat, int)> {
    match x {
        JsonNumber::Unsigned(n) => if n > 1 {
            Some((rounded(n as nat).0, rounded(n as nat).1 as int))
        } else {
            None
        },
        JsonNumber::Negative(_) => None,
        JsonNumber::Float(bits) => if 0x3FF0_0000_0000_0000 < bits < 0x7FF0_0000_0000_0000 {
            Some(
                (
                    (bits % 0x10_0000_0000_0000 + 0x10_0000_0000_0000) as nat,
                    bits / 0x10_0000_0000_0000 - 1075,
                ),
            )
        } else {
            None
        },
    }
}

/// The product of two double-precision numbers, in double precision.
pub open spec fn product(a: (nat, int), b: (nat, int)) -> (nat, int) {
    let (m, k) = rounded(a.0 * b.0);
    (m, k + a.1 + b.1)
}

/// `n` times a factor above one, reckoned in double precision and cut to a whole number; `n`
/// itself for any other factor. What is too large for the machine is its largest number.
pub open spec fn stretched(n: usize, factor: JsonNumber) -> usize {
    match above_one(factor) {
        Some(f) => {
            let (m, k) = rounded(n as nat);
            let p = product((m, k as int), f);
            let w = whole_part(p.0, p.1);
            if w > usize::MAX {
                usize::MAX
            } else {
                w as usize
            }
        },
        None => n,
    }
}

/// The double-precision number nearest to `a / b`, for an `a` that is less than `b` and at
/// least a sixteenth of it: sixty binary digits behind the point hold more than a mantissa,
/// and one more says whether anything is left behind them.
pub open spec fn quotient(a: nat, b: nat) -> (nat, int) {
    let scaled = a * 0x1000_0000_0000_0000;
    let left: nat = if scaled % b == 0 {
        0
    } else {
        1
    };
    let (m, k) = rounded(2 * (scaled / b) + left);
    (m, k - 61)
}

/// How many whole percents `a` is of `b`, with the quotient and its hundredfold reckoned in
/// double precision. Less than a sixteenth counts as none, and all of it or more as a hundred.
pub open spec fn percents(a: nat, b: nat) -> nat {
    if a >= b {
        100
    } else if 16 * a < b {
        0
    } else {
        let p = product(quotient(a, b), (100, 0));
        whole_part(p.0, p.1)
    }
}

/// Tenths of the number with the given bits, to the nearest, and to an even number half way
/// between two. They are told of numbers that are not negative and below two to the power of
/// sixty-four.
pub open spec fn tenths_of(bits: u64) -> Option<int> {
    if bits >= 0x43F0_0000_0000_0000 {
        None
    } else if bits < 0x10_0000_0000_0000 {
        Some(fit::tenths_of(bits as int, pow2(1074) as int))
    } else {
        let mantissa = bits % 0x10_0000_0000_0000 + 0x10_0000_0000_0000;
        let exponent = bits / 0x10_0000_0000_0000 - 1075;
        if exponent >= 0 {
            Some(10 * mantissa * pow2(exponent as nat))
        } else {
            Some(fit::tenths_of(mantissa, pow2((-exponent) as nat) as int))
        }
    }
}

/// How far a number is too long for a mantissa.
fn excess_of(n: u128) -> (r: u32)
    ensures
        r == excess(n as nat),
        pow2(r as nat) <= n || r == 0,
        n < MANTISSAS * pow2(r as nat),
        r <= 75,
    decreases n,
{
    proof {
        lemma2_to64();
    }
    if n < MANTISSAS {
        return 0;
    }
    let k = excess_of(n / 2);
    proof {
        lemma_pow2_unfold((k + 1) as nat);
        let u = pow2(k as nat);
        assert(n < MANTISSAS * (2 * u)) by (nonlinear_arith)
            requires
                (n as int) / 2 < MANTISSAS * u,
        ;
        if k >= 75 {
            lemma_pow2_adds(64, 11);
            lemma2_to64();
            lemma2_to64_rest();
            assert(pow2(75) == 0x1_0000_0000_0000_0000 * 0x800) by {
                assert(64nat + 11nat == 75nat);
            }
            assert(false) by {
                lemma_excess_small(n as nat, 75);
            }
        }
    }
    k + 1
}

proof fn lemma_excess_small(n: nat, k: nat)
    requires
        n < MANTISSAS * pow2(k),
    ensures
        excess(n) <= k,
    decreases k,
{
    lemma2_to64();
    if n >= MANTISSAS {
        if k > 0 {
            lemma_pow2_unfold(k);
            lemma_excess_small(n / 2, (k - 1) as nat);
        }
    }
}

fn pow2_of(k: u32) -> (r: u128)
    requires
        k <= 75,
    ensures
        r == pow2(k as nat),
        r <= 0x800_0000_0000_0000_0000,
    decreases k,
{
    proof {
        lemma2_to64();
    }
    if k == 0 {
        return 1;
    }
    proof {
        lemma_pow2_unfold(k as nat);
        lemma_pow2_adds(64, 11);
        lemma2_to64_rest();
        if k < 75 {
            lemma_pow2_strictly_increases(k as nat, 75);
        }
        assert(64nat + 11nat == 75nat);
    }
    2 * pow2_of(k - 1)
}

/// The double-precision number nearest to a whole number.
fn round(n: u128) -> (r: (u64, u32))
    ensures
        (r.0 as nat, r.1 as nat) == rounded(n as nat),
        r.0 <= MANTISSAS,
        r.1 <= 75,
{
    let k = excess_of(n);
    let unit = pow2_of(k);
    proof {
        lemma_pow2_pos(k as nat);
    }
    let q: u128 = n / unit;
    let rest: u128 = n % unit;
    assert(q < MANTISSAS) by (nonlinear_arith)
        requires
            n < MANTISSAS * unit,
            unit > 0,
            q == n / unit,
    ;
    if 2 * rest > unit || (2 * rest == unit && q % 2 == 1) {
        ((q + 1) as u64, k)
    } else {
        (q as u64, k)
    }
}

/// The whole part of a mantissa times a power of two that is not negative, or the largest
/// number of the machine where that is too large.
fn shifted_up(m: u128, e: u32) -> (r: usize)
    requires
        m <= 0x1_0000_0000_0000_0000,
    ensures
        r == (if m * pow2(e as nat) > usize::MAX {
            usize::MAX as int
        } else {
            m * pow2(e as nat)
        }),
{
    let mut x: u128 = m;
    let mut k: u32 = 0;
    proof {
        lemma2_to64();
    }
    while k < e && x <= usize::MAX as u128
        invariant
            k <= e,
            x == m * pow2(k as nat),
            x <= 2 * usize::MAX as int || k == 0,
            m <= 0x1_0000_0000_0000_0000,
        decreases e - k,
    {
        proof {
            lemma_pow2_unfold((k + 1) as nat);
            let u = pow2(k as nat);
            assert(m * (2 * u) == 2 * (m * u)) by (nonlinear_arith);
        }
        x = 2 * x;
        k = k + 1;
    }
    if x > usize::MAX as u128 {
        proof {
            let d = (e - k) as nat;
            lemma_pow2_adds(k as nat, d);
            lemma_pow2_pos(d);
            let u = pow2(k as nat);
            let v = pow2(d);
            assert((k as nat) + d == e as nat);
            assert(m * (u * v) >= m * u) by (nonlinear_arith)
                requires
                    v >= 1,
                    m >= 0,
                    u >= 0,
            ;
        }
        return usize::MAX;
    }
    x as usize
}

/// The whole part of a mantissa divided by a power of two.
fn shifted_down(m: u128, e: u32) -> (r: u128)
    ensures
        r == m as nat / pow2(e as nat),
    decreases e,
{
    proof {
        lemma2_to64();
    }
    if e == 0 {
        return m;
    }
    let half = shifted_down(m, e - 1);
    proof {
        lemma_pow2_unfold(e as nat);
        lemma_pow2_pos((e - 1) as nat);
        let u = pow2((e - 1) as nat) as int;
        assert((m as int / u) / 2 == m as int / (u * 2)) by {
            vstd::arithmetic::div_mod::lemma_div_denominator(m as int, u, 2);
        }
    }
    half / 2
}

/// `n` times a factor above one, cut to a whole number; `n` itself for any other factor.
pub fn stretch(n: usize, factor: JsonNumber) -> (r: usize)
    ensures
        r == stretched(n, factor),
{
    let (fm, fe): (u64, i32) = match factor {
        JsonNumber::Unsigned(x) => {
            if x <= 1 {
                return n;
            }
            let (m, k) = round(x as u128);
            (m, k as i32)
        },
        JsonNumber::Negative(_) => {
            return n;
        },
        JsonNumber::Float(bits) => {
            if bits <= 0x3FF0_0000_0000_0000 || bits >= 0x7FF0_0000_0000_0000 {
                return n;
            }
            (
                bits % 0x10_0000_0000_0000 + 0x10_0000_0000_0000,
                (bits / 0x10_0000_0000_0000) as i32 - 1075,
            )
        },
    };
    let (m, k) = round(n as u128);
    assert(0 <= m * fm <= 0x20_0000_0000_0000 * 0x20_0000_0000_0000) by (nonlinear_arith)
        requires
            0 <= m <= 0x20_0000_0000_0000,
            0 <= fm <= 0x20_0000_0000_0000,
    ;
    let (pm, pk) = round(m as u128 * fm as u128);
    let e: i32 = pk as i32 + k as i32 + fe;
    if e >= 0 {
        shifted_up(pm as u128, e as u32)
    } else {
        let w: u128 = shifted_down(pm as u128, (-e) as u32);
        if w > usize::MAX as u128 {
            usize::MAX
        } else {
            w as usize
        }
    }
}

/// How many whole percents `a` is of `b`, reckoned in double precision.
pub fn percent(a: u64, b: u64) -> (r: u128)
    ensures
        r == percents(a as nat, b as nat),
{
    if a >= b {
        return 100;
    }
    if 16 * (a as u128) < (b as u128) {
        return 0;
    }
    let scaled: u128 = a as u128 * 0x1000_0000_0000_0000;
    let d: u128 = b as u128;
    let q: u128 = scaled / d;
    assert(q < 0x1000_0000_0000_0000) by (nonlinear_arith)
        requires
            a < b,
            d == b,
            scaled == a * 0x1000_0000_0000_0000,
            q == scaled / d,
    ;
    let left: u128 = if scaled % d == 0 {
        0
    } else {
        1
    };
    let x: u128 = 2 * q + left;
    let (m, k) = round(x);
    let (pm, pk) = round(m as u128 * 100);
    proof {
        lemma2_to64();
        lemma_excess_small(x as nat, 8);
        lemma_excess_small((m * 100) as nat, 7);
        assert(pow2(0) == 1);
    }
    shifted_down(pm as u128, 61 - k - pk)
}

/// Tenths of a mantissa divided by a power of two, to the nearest.
fn divided(m: u64, k: u32) -> (r: u128)
    requires
        m < MANTISSAS,
    ensures
        r == fit::tenths_of(m as int, pow2(k as nat) as int),
        r <= 10 * m + 1,
{
    proof {
        lemma2_to64();
        lemma2_to64_rest();
        lemma_pow2_pos(k as nat);
    }
    let n: u128 = 10 * m as u128;
    if k >= 60 {
        proof {
            if k > 60 {
                lemma_pow2_strictly_increases(60, k as nat);
            }
            let d = pow2(k as nat) as int;
            assert(n as int / d == 0 && n as int % d == n) by (nonlinear_arith)
                requires
                    0 <= n < d,
            ;
        }
        return 0;
    }
    let d: u128 = pow2_of(k);
    let q: u128 = n / d;
    let rest: u128 = n % d;
    assert(q <= n) by (nonlinear_arith)
        requires
            q == n / d,
            d >= 1,
    ;
    if 2 * rest > d || (2 * rest == d && q % 2 == 1) {
        q + 1
    } else {
        q
    }
}

/// Tenths of the number with the given bits, to the nearest.
pub fn tenths(bits: u64) -> (r: Option<u128>)
    ensures
        match r {
            Some(t) => tenths_of(bits) == Some(t as int) && t / 10 <= u64::MAX,
            None => tenths_of(bits) is None,
        },
{
    if bits >= 0x43F0_0000_0000_0000 {
        return None;
    }
    if bits < 0x10_0000_0000_0000 {
        return Some(divided(bits, 1074));
    }
    let mantissa: u64 = bits % 0x10_0000_0000_0000 + 0x10_0000_0000_0000;
    let field: u64 = bits / 0x10_0000_0000_0000;
    if field >= 1075 {
        let e: u32 = (field - 1075) as u32;
        let unit: u128 = pow2_of(e);
        proof {
            lemma2_to64();
            if e < 11 {
                lemma_pow2_strictly_increases(e as nat, 11);
            }
            let n = 10 * mantissa;
            assert(n * unit <= 10 * 0x1f_ffff_ffff_ffff * 0x800 && n * unit == 10 * (mantissa
                * unit)) by (nonlinear_arith)
                requires
                    n == 10 * mantissa,
                    0 <= mantissa <= 0x1f_ffff_ffff_ffff,
                    0 <= unit <= 0x800,
            ;
        }
        Some(10 * mantissa as u128 * unit)
    } else {
        Some(divided(mantissa, (1075 - field) as u32))
    }
}

/// A factor of one or less, or none at all, leaves a number as it is.
pub proof fn law_small_factors_do_nothing(n: usize, bits: u64)
    requires
        bits <= 0x3FF0_0000_0000_0000,
    ensures
        stretched(n, JsonNumber::Float(bits)) == n,
        stretched(n, JsonNumber::Unsigned(1)) == n,
        stretched(n, JsonNumber::Unsigned(0)) == n,
{
}

/// Rounding takes the nearest number that has a mantissa: it is off by at most half of the
/// unit, by just that only where the mantissa is even, and not at all where the number is short
/// enough.
pub proof fn law_rounding_is_near(n: nat)
    ensures
        ({
            let (m, k) = rounded(n);
            &&& 2 * (m * pow2(k) - n) <= pow2(k)
            &&& 2 * (n - m * pow2(k)) <= pow2(k)
            &&& 2 * (m * pow2(k) - n) == pow2(k) || 2 * (n - m * pow2(k)) == pow2(k) ==> m % 2 == 0
            &&& n < MANTISSAS ==> m == n && k == 0
        }),
{
    let k = excess(n);
    let unit = pow2(k) as int;
    lemma_pow2_pos(k);
    lemma2_to64();
    let q = n as int / unit;
    let rest = n as int % unit;
    assert(n == q * unit + rest && 0 <= rest < unit && (q + 1) * unit == q * unit + unit)
        by (nonlinear_arith)
        requires
            unit > 0,
            q == n as int / unit,
            rest == n as int % unit,
    ;
    let m = rounded(n).0 as int;
    assert(m == q || m == q + 1);
    assert(m * unit == q * unit || m * unit == (q + 1) * unit);
    if n < MANTISSAS {
        assert(pow2(0) == 1);
        assert(n as int / 1 == n && n as int % 1 == 0);
    }
}

/// A whole number that is stretched by a whole factor is their product, where that is short
/// enough to be held.
pub proof fn law_whole_factors_multiply(n: usize, factor: u64)
    requires
        factor > 1,
        n * factor < MANTISSAS,
        n * factor <= usize::MAX,
    ensures
        factor < MANTISSAS ==> stretched(n, JsonNumber::Unsigned(factor)) == n * factor,
{
    if factor < MANTISSAS {
        assert(n <= n * factor && 0 <= n * factor) by (nonlinear_arith)
            requires
                factor > 1,
                n >= 0,
        ;
        lemma2_to64();
        law_rounding_is_near(n as nat);
        law_rounding_is_near(factor as nat);
        law_rounding_is_near((n * factor) as nat);
        assert((n as nat * factor as nat) == n * factor);
        assert(pow2(0) == 1);
        let w = (n * factor) as nat;
        assert(w * 1 == w);
    }
}

} // verus!
