//! Double-precision numbers (IEEE 754 binary64), computed with integers alone.
//!
//! Every finite double is a whole multiple of 2^-1074, the smallest one. The model of a finite
//! double is its sign and that multiple, its size.

use crate::json::NumberV;
use vstd::arithmetic::div_mod::*;
use vstd::arithmetic::mul::*;
use vstd::prelude::*;

verus! {

pub enum FloatV {
    Nan,
    /// Infinity; whether it is the negative one.
    Infinite(bool),
    /// Whether the sign is minus, and the size in units of 2^-1074.
    Finite(bool, nat),
}

pub open spec fn two_to(k: nat) -> nat
    decreases k,
{
    if k == 0 {
        1
    } else {
        2 * two_to((k - 1) as nat)
    }
}

/// How many units the number 1 has.
pub open spec fn one() -> nat {
    two_to(1074)
}

/// The double with a given bit pattern.
pub open spec fn float_of_bits(bits: u64) -> FloatV {
    let negative = bits >= 0x8000_0000_0000_0000;
    let exponent = (bits / 0x10_0000_0000_0000) % 2048;
    let fraction = bits % 0x10_0000_0000_0000;
    if exponent == 2047 {
        if fraction == 0 {
            FloatV::Infinite(negative)
        } else {
            FloatV::Nan
        }
    } else if exponent == 0 {
        FloatV::Finite(negative, fraction as nat)
    } else {
        FloatV::Finite(negative, (0x10_0000_0000_0000 + fraction) as nat * two_to((exponent - 1) as nat))
    }
}

/// By how many bits `n` is longer than the 53 bits that a double keeps.
pub open spec fn excess(n: nat) -> nat
    decreases n,
{
    if n < 0x20_0000_0000_0000 {
        0
    } else {
        1 + excess(n / 2)
    }
}

/// The multiple of 2^k nearest to `n`; of two that are equally near, the even multiple.
pub open spec fn round_to(n: nat, k: nat) -> nat {
    let p = two_to(k);
    let q = n / p;
    let r = n % p;
    if 2 * r > p || (2 * r == p && q % 2 == 1) {
        (q + 1) * p
    } else {
        q * p
    }
}

/// `n` rounded to 53 significant bits.
pub open spec fn round53(n: nat) -> nat {
    round_to(n, excess(n))
}

/// The double nearest to an integer of machine size.
pub open spec fn float_of_int(n: int) -> FloatV {
    if n < 0 {
        FloatV::Finite(true, round53((-n) as nat) * one())
    } else {
        FloatV::Finite(false, round53(n as nat) * one())
    }
}

/// The double that a JSON number stands for.
pub open spec fn float_of_number(n: NumberV) -> FloatV {
    match n {
        NumberV::Pos(u) => float_of_int(u as int),
        NumberV::Neg(i) => float_of_int(i as int),
        NumberV::Float(b) => float_of_bits(b),
    }
}

pub open spec fn clamp_i64(n: int) -> i64 {
    if n < i64::MIN {
        i64::MIN
    } else if n > i64::MAX {
        i64::MAX
    } else {
        n as i64
    }
}

/// The double without its fraction, held in the range of `i64`; not-a-number gives 0.
pub open spec fn float_to_i64(f: FloatV) -> i64 {
    match f {
        FloatV::Nan => 0,
        FloatV::Infinite(negative) => if negative {
            i64::MIN
        } else {
            i64::MAX
        },
        FloatV::Finite(negative, size) => if negative {
            clamp_i64(-((size / one()) as int))
        } else {
            clamp_i64((size / one()) as int)
        },
    }
}

pub open spec fn float_is_zero(f: FloatV) -> bool {
    f matches FloatV::Finite(_, size) && size == 0
}

/// Not less than zero; minus zero counts, not-a-number does not.
pub open spec fn float_at_least_zero(f: FloatV) -> bool {
    match f {
        FloatV::Nan => false,
        FloatV::Infinite(negative) => !negative,
        FloatV::Finite(negative, size) => !negative || size == 0,
    }
}

/// A whole number from 0 to 65535, as a `u16`.
pub open spec fn float_to_u16(f: FloatV) -> Option<u16> {
    match f {
        FloatV::Finite(negative, size) => if size % one() == 0 && size / one() <= 65535 && (!negative || size == 0) {
            Some((size / one()) as u16)
        } else {
            None
        },
        _ => None,
    }
}

pub open spec fn signed_size(negative: bool, size: nat) -> int {
    if negative {
        -(size as int)
    } else {
        size as int
    }
}

/// The double nearest to an exact result; beyond the largest double it is infinite.
pub open spec fn float_rounded(negative: bool, size: nat) -> FloatV {
    if round53(size) >= two_to(2098) {
        FloatV::Infinite(negative)
    } else {
        FloatV::Finite(negative, round53(size))
    }
}

/// `a - b` as IEEE 754 defines it, with ties to even.
pub open spec fn float_sub(a: FloatV, b: FloatV) -> FloatV {
    match (a, b) {
        (FloatV::Nan, _) => FloatV::Nan,
        (_, FloatV::Nan) => FloatV::Nan,
        (FloatV::Infinite(x), FloatV::Infinite(y)) => if x == y {
            FloatV::Nan
        } else {
            FloatV::Infinite(x)
        },
        (FloatV::Infinite(x), FloatV::Finite(_, _)) => FloatV::Infinite(x),
        (FloatV::Finite(_, _), FloatV::Infinite(y)) => FloatV::Infinite(!y),
        (FloatV::Finite(na, sa), FloatV::Finite(nb, sb)) => {
            let d = signed_size(na, sa) - signed_size(nb, sb);
            if d == 0 {
                FloatV::Finite(na && !nb && sa == 0, 0)
            } else if d < 0 {
                float_rounded(true, (-d) as nat)
            } else {
                float_rounded(false, d as nat)
            }
        },
    }
}

// ── powers of two ──────────────────────────────────────────────

pub proof fn lemma_two_to_sum(a: nat, b: nat)
    ensures
        two_to(a + b) == two_to(a) * two_to(b),
    decreases a,
{
    if a > 0 {
        lemma_two_to_sum((a - 1) as nat, b);
        assert(two_to(a) * two_to(b) == 2 * (two_to((a - 1) as nat) * two_to(b))) by (nonlinear_arith)
            requires
                two_to(a) == 2 * two_to((a - 1) as nat),
        ;
        assert((a + b - 1) as nat == (a - 1) as nat + b);
    } else {
        assert(1 * two_to(b) == two_to(b));
    }
}

proof fn lemma_two_to_pos(k: nat)
    ensures
        two_to(k) >= 1,
    decreases k,
{
    if k > 0 {
        lemma_two_to_pos((k - 1) as nat);
    }
}

proof fn lemma_two_to_grows(a: nat, b: nat)
    requires
        a <= b,
    ensures
        two_to(a) <= two_to(b),
    decreases b,
{
    if a < b {
        lemma_two_to_grows(a, (b - 1) as nat);
    }
}

proof fn lemma_two_to_values()
    ensures
        two_to(10) == 0x400,
        two_to(52) == 0x10_0000_0000_0000,
        two_to(53) == 0x20_0000_0000_0000,
        two_to(64) == 0x1_0000_0000_0000_0000,
        two_to(128) == 0x1_0000_0000_0000_0000_0000_0000_0000_0000,
{
    reveal_with_fuel(two_to, 14);
    assert(two_to(13) == 0x2000);
    lemma_two_to_sum(13, 13);
    lemma_two_to_sum(26, 26);
    lemma_two_to_sum(1, 52);
    lemma_two_to_sum(11, 53);
    lemma_two_to_sum(64, 64);
    assert(two_to(26) == 0x400_0000);
    assert(two_to(52) == 0x400_0000 * 0x400_0000) by (nonlinear_arith)
        requires
            two_to(52) == two_to(26) * two_to(26),
            two_to(26) == 0x400_0000,
    ;
    assert(two_to(64) == 0x1_0000_0000_0000_0000) by (nonlinear_arith)
        requires
            two_to(64) == two_to(11) * two_to(53),
            two_to(11) == 0x800,
            two_to(53) == 0x20_0000_0000_0000,
    ;
    assert(two_to(128) == 0x1_0000_0000_0000_0000_0000_0000_0000_0000) by (nonlinear_arith)
        requires
            two_to(128) == two_to(64) * two_to(64),
            two_to(64) == 0x1_0000_0000_0000_0000,
    ;
}

// ── rounding ───────────────────────────────────────────────────

/// A number of at most 53 bits is exact.
pub proof fn lemma_round_short(n: nat)
    requires
        n <= 0x20_0000_0000_0000,
    ensures
        round53(n) == n,
{
    let p = two_to(excess(n));
    let q = n / p;
    if n < 0x20_0000_0000_0000 {
        assert(p == 1);
        assert(q * p == n) by (nonlinear_arith)
            requires
                p == 1,
                q == n / p,
        ;
    } else {
        assert(excess(n / 2) == 0);
        reveal_with_fuel(two_to, 2);
        assert(p == 2);
        assert(q * p == n) by (nonlinear_arith)
            requires
                p == 2,
                q == n / p,
                n == 0x20_0000_0000_0000,
        ;
    }
}

/// Doubling commutes with rounding.
proof fn lemma_round_double(n: nat)
    ensures
        round53(2 * n) == 2 * round53(n),
{
    let k = excess(n);
    if 2 * n < 0x20_0000_0000_0000 {
        lemma_round_short(n);
        lemma_round_short(2 * n);
    } else {
        assert((2 * n) / 2 == n);
        assert(excess(2 * n) == 1 + k);
        let p = two_to(k);
        lemma_two_to_pos(k);
        assert(two_to(1 + k) == 2 * p);
        let q = n / p;
        let r = n % p;
        lemma_fundamental_div_mod(n as int, p as int);
        assert(2 * n == q * (2 * p) + 2 * r) by (nonlinear_arith)
            requires
                n == p * q + r,
        ;
        lemma_fundamental_div_mod_converse((2 * n) as int, (2 * p) as int, q as int, (2 * r) as int);
        assert((q + 1) * (2 * p) == 2 * ((q + 1) * p)) by (nonlinear_arith);
        assert(q * (2 * p) == 2 * (q * p)) by (nonlinear_arith);
    }
}

proof fn lemma_round_scaled(n: nat, e: nat)
    ensures
        round53(n * two_to(e)) == round53(n) * two_to(e),
    decreases e,
{
    if e > 0 {
        let f = (e - 1) as nat;
        lemma_round_scaled(n, f);
        lemma_round_double(n * two_to(f));
        assert(n * two_to(e) == 2 * (n * two_to(f))) by (nonlinear_arith)
            requires
                two_to(e) == 2 * two_to(f),
        ;
        assert(round53(n) * two_to(e) == 2 * (round53(n) * two_to(f))) by (nonlinear_arith)
            requires
                two_to(e) == 2 * two_to(f),
        ;
    } else {
        assert(n * 1 == n);
        assert(round53(n) * 1 == round53(n));
    }
}

/// Whole numbers of at most 53 bits are subtracted exactly.
pub proof fn whole_numbers_are_subtracted(a: nat, b: nat)
    requires
        b <= a <= 0x20_0000_0000_0000,
    ensures
        float_sub(float_of_int(a as int), float_of_int(b as int)) == float_of_int(a - b),
{
    let n = (a - b) as nat;
    lemma_round_short(a);
    lemma_round_short(b);
    lemma_round_short(n);
    lemma_two_to_pos(1074);
    let p = one();
    assert(a * p - b * p == n * p) by (nonlinear_arith)
        requires
            n == a - b,
    ;
    assert(n * p == 0 <==> n == 0) by (nonlinear_arith)
        requires
            p >= 1,
    ;
    assert(n * p >= 0) by (nonlinear_arith)
        requires
            p >= 1,
            n >= 0,
    ;
    lemma_round_scaled(n, 1074);
    lemma_two_to_values();
    lemma_two_to_sum(53, 1074);
    assert(n * p <= two_to(1127)) by (nonlinear_arith)
        requires
            n <= two_to(53),
            two_to(1127) == two_to(53) * p,
    ;
    lemma_two_to_grows(1127, 2097);
    lemma_two_to_pos(2097);
    assert(two_to(2098) == 2 * two_to(2097));
}

proof fn lemma_excess_below(n: nat)
    requires
        n >= 1,
    ensures
        two_to(excess(n)) <= n,
    decreases n,
{
    if n >= 0x20_0000_0000_0000 {
        lemma_excess_below(n / 2);
    }
}

proof fn lemma_round_positive(n: nat)
    requires
        n >= 1,
    ensures
        round53(n) >= 1,
{
    let p = two_to(excess(n));
    let q = n / p;
    lemma_excess_below(n);
    lemma_two_to_pos(excess(n));
    lemma_div_is_ordered(p as int, n as int, p as int);
    lemma_div_by_self(p as int);
    assert(q * p >= 1 && (q + 1) * p >= 1) by (nonlinear_arith)
        requires
            q >= 1,
            p >= 1,
    ;
}

/// How long a number is tells its excess.
proof fn lemma_excess(n: nat, k: nat)
    requires
        n < 0x20_0000_0000_0000 * two_to(k),
        k > 0 ==> n >= 0x10_0000_0000_0000 * two_to(k),
    ensures
        excess(n) == k,
    decreases k,
{
    if k > 0 {
        let j = (k - 1) as nat;
        lemma_two_to_pos(j);
        assert(two_to(k) == 2 * two_to(j));
        lemma_excess(n / 2, j);
    }
}

// ── the numbers themselves ─────────────────────────────────────

/// A double: a finite one is `m * 2^e` units of 2^-1074, with its sign.
#[derive(Debug, Clone, Copy)]
pub enum Double {
    Nan,
    Infinite(bool),
    Finite(bool, u64, u32),
}

impl Double {
    pub open spec fn view(&self) -> FloatV {
        match *self {
            Double::Nan => FloatV::Nan,
            Double::Infinite(negative) => FloatV::Infinite(negative),
            Double::Finite(negative, m, e) => FloatV::Finite(negative, (m * two_to(e as nat)) as nat),
        }
    }

    /// Finite numbers stay below the first power of two that no double reaches.
    pub open spec fn wf(&self) -> bool {
        match *self {
            Double::Finite(_, m, e) => m <= 0x20_0000_0000_0000 && e <= 2098 && m * two_to(e as nat) < two_to(2098),
            _ => true,
        }
    }

    pub fn from_bits(bits: u64) -> (r: Double)
        ensures
            r@ == float_of_bits(bits),
            r.wf(),
    {
        let negative = bits >= 0x8000_0000_0000_0000;
        let exponent: u64 = (bits / 0x10_0000_0000_0000) % 2048;
        let fraction: u64 = bits % 0x10_0000_0000_0000;
        if exponent == 2047 {
            if fraction == 0 {
                Double::Infinite(negative)
            } else {
                Double::Nan
            }
        } else if exponent == 0 {
            proof {
                lemma_two_to_values();
                lemma_two_to_grows(52, 2098);
                assert(two_to(0) == 1);
                assert(fraction * two_to(0) == fraction) by (nonlinear_arith)
                    requires
                        two_to(0) == 1,
                ;
            }
            Double::Finite(negative, fraction, 0)
        } else {
            let m: u64 = 0x10_0000_0000_0000 + fraction;
            let e: u32 = (exponent - 1) as u32;
            proof {
                lemma_fits(m as nat, e as nat);
            }
            Double::Finite(negative, m, e)
        }
    }

    /// The double nearest to `n`, or to `-n`.
    fn from_size(negative: bool, n: u64) -> (r: Double)
        ensures
            r@ == FloatV::Finite(negative, round53(n as nat) * one()),
            r.wf(),
    {
        let (m, k) = rounded(n as u128);
        proof {
            let t = two_to(k as nat);
            lemma_two_to_sum(k as nat, 1074);
            assert(m * two_to((k + 1074) as nat) == (m * t) * two_to(1074)) by (nonlinear_arith)
                requires
                    two_to((k + 1074) as nat) == t * two_to(1074),
            ;
            lemma_below(m as nat, (k + 1074) as nat, 2098);
        }
        Double::Finite(negative, m, k + 1074)
    }

    pub fn from_u64(n: u64) -> (r: Double)
        ensures
            r@ == float_of_int(n as int),
            r.wf(),
    {
        Double::from_size(false, n)
    }

    pub fn from_i64(n: i64) -> (r: Double)
        ensures
            r@ == float_of_int(n as int),
            r.wf(),
    {
        if n < 0 {
            let size: u64 = (-(n + 1)) as u64 + 1;
            Double::from_size(true, size)
        } else {
            Double::from_size(false, n as u64)
        }
    }

    /// The whole part, held in the range of `i64`.
    pub fn to_i64(self) -> (r: i64)
        requires
            self.wf(),
        ensures
            r == float_to_i64(self@),
    {
        match self {
            Double::Nan => 0,
            Double::Infinite(negative) => if negative {
                i64::MIN
            } else {
                i64::MAX
            },
            Double::Finite(negative, m, e) => {
                let whole = whole_part(m, e);
                if whole > 0x7fff_ffff_ffff_ffff {
                    if negative {
                        i64::MIN
                    } else {
                        i64::MAX
                    }
                } else if negative {
                    -(whole as i64)
                } else {
                    whole as i64
                }
            },
        }
    }

    pub fn is_zero(self) -> (r: bool)
        ensures
            r == float_is_zero(self@),
    {
        match self {
            Double::Finite(_, m, e) => {
                proof {
                    lemma_two_to_pos(e as nat);
                    assert(m * two_to(e as nat) == 0 <==> m == 0) by (nonlinear_arith)
                        requires
                            two_to(e as nat) >= 1,
                    ;
                }
                m == 0
            },
            _ => false,
        }
    }

    pub fn at_least_zero(self) -> (r: bool)
        ensures
            r == float_at_least_zero(self@),
    {
        match self {
            Double::Nan => false,
            Double::Infinite(negative) => !negative,
            Double::Finite(negative, _, _) => !negative || self.is_zero(),
        }
    }
}

proof fn lemma_fits(m: nat, e: nat)
    requires
        m < 0x20_0000_0000_0000,
        e <= 2045,
    ensures
        m * two_to(e) < two_to(2098),
{
    lemma_two_to_values();
    lemma_two_to_pos(e);
    lemma_two_to_sum(53, e);
    lemma_two_to_grows(53 + e, 2098);
    assert(m * two_to(e) < two_to(53) * two_to(e)) by (nonlinear_arith)
        requires
            m < two_to(53),
            two_to(e) >= 1,
    ;
}

proof fn lemma_below(m: nat, e: nat, top: nat)
    requires
        m <= 0x20_0000_0000_0000,
        e + 54 <= top,
    ensures
        m * two_to(e) < two_to(top),
{
    lemma_two_to_values();
    lemma_two_to_pos(e);
    lemma_two_to_sum(54, e);
    lemma_two_to_sum(1, 53);
    reveal_with_fuel(two_to, 2);
    lemma_two_to_grows(54 + e, top);
    assert(two_to(54) == 2 * two_to(53));
    assert(m * two_to(e) < two_to(54) * two_to(e)) by (nonlinear_arith)
        requires
            m < two_to(54),
            two_to(e) >= 1,
    ;
}

/// Rounds to 53 bits: the result is `m * 2^k`.
fn rounded(d: u128) -> (r: (u64, u32))
    ensures
        r.0 * two_to(r.1 as nat) == round53(d as nat),
        r.0 <= 0x20_0000_0000_0000,
        r.1 == excess(d as nat),
        d < 0x1_0000_0000_0000_0000 ==> r.1 <= 11,
        r.1 <= 75,
{
    let mut q: u128 = d;
    let mut p: u128 = 1;
    let mut k: u32 = 0;
    proof {
        assert(two_to(0) == 1);
        assert(d as nat / 1 == d as nat);
    }
    while q >= 0x20_0000_0000_0000
        invariant
            p == two_to(k as nat),
            p >= 1,
            q == d as nat / p as nat,
            q * p <= d,
            excess(d as nat) == k + excess(q as nat),
            k <= 75,
            k > 11 ==> d >= 0x1_0000_0000_0000_0000,
        decreases q,
    {
        proof {
            lemma_two_to_values();
            lemma_div_denominator(d as int, p as int, 2);
            assert(0x20_0000_0000_0000 * p <= d) by (nonlinear_arith)
                requires
                    q >= 0x20_0000_0000_0000,
                    q * p <= d,
                    p >= 1,
            ;
            if k >= 75 {
                lemma_two_to_sum(53, k as nat);
                lemma_two_to_grows(128, 53 + k as nat);
                assert(false);
            }
            if k >= 11 {
                lemma_two_to_sum(53, k as nat);
                lemma_two_to_grows(64, 53 + k as nat);
            }
        }
        p = p * 2;
        q = q / 2;
        k = k + 1;
        proof {
            lemma_fundamental_div_mod(d as int, p as int);
            assert(q * p <= d) by (nonlinear_arith)
                requires
                    d == p * q + d % p,
                    d % p >= 0,
            ;
        }
    }
    proof {
        lemma_fundamental_div_mod(d as int, p as int);
        assert(q * p == p * q) by (nonlinear_arith);
    }
    let r: u128 = d - q * p;
    let half_up = r > p - r || (r == p - r && q % 2 == 1);
    if half_up {
        (q as u64 + 1, k)
    } else {
        (q as u64, k)
    }
}

proof fn lemma_whole_small(m: nat, e: nat)
    requires
        e <= 1074,
    ensures
        (m * two_to(e)) / one() == m / two_to((1074 - e) as nat),
        (m * two_to(e)) % one() == two_to(e) * (m % two_to((1074 - e) as nat)),
{
    let a = two_to(e);
    let b = two_to((1074 - e) as nat);
    lemma_two_to_pos(e);
    lemma_two_to_pos((1074 - e) as nat);
    lemma_two_to_sum(e, (1074 - e) as nat);
    assert(m * a == a * m) by (nonlinear_arith);
    lemma_div_denominator((a * m) as int, a as int, b as int);
    lemma_div_multiples_vanish(m as int, a as int);
    lemma_truncate_middle(m as int, a as int, b as int);
}

proof fn lemma_whole_large(m: nat, e: nat)
    requires
        e >= 1074,
    ensures
        (m * two_to(e)) / one() == m * two_to((e - 1074) as nat),
        (m * two_to(e)) % one() == 0,
{
    let a = two_to((e - 1074) as nat);
    lemma_two_to_pos(1074);
    lemma_two_to_sum((e - 1074) as nat, 1074);
    assert(m * two_to(e) == one() * (m * a)) by (nonlinear_arith)
        requires
            two_to(e) == a * one(),
    ;
    lemma_div_multiples_vanish((m * a) as int, one() as int);
    lemma_mod_multiples_basic((m * a) as int, one() as int);
    assert((m * a) * one() == one() * (m * a)) by (nonlinear_arith);
}

/// `m / 2^k`.
fn halved(m: u64, k: u32) -> (r: u64)
    ensures
        r == m as nat / two_to(k as nat),
{
    let mut v: u64 = m;
    let mut i: u32 = 0;
    proof {
        assert(two_to(0) == 1);
        assert(m as nat / 1 == m as nat);
    }
    while i < k && v > 0
        invariant
            i <= k,
            v == m as nat / two_to(i as nat),
        decreases k - i,
    {
        proof {
            lemma_two_to_pos(i as nat);
            lemma_div_denominator(m as int, two_to(i as nat) as int, 2);
        }
        v = v / 2;
        i = i + 1;
    }
    proof {
        if i < k {
            lemma_two_to_pos(i as nat);
            lemma_two_to_grows(i as nat, k as nat);
            lemma_fundamental_div_mod(m as int, two_to(i as nat) as int);
            assert(m < two_to(i as nat)) by (nonlinear_arith)
                requires
                    m as int == two_to(i as nat) * 0 + m as int % two_to(i as nat) as int,
                    (m as int % two_to(i as nat) as int) < two_to(i as nat),
            ;
            lemma_basic_div(m as int, two_to(k as nat) as int);
        }
    }
    v
}

/// The whole part of `m * 2^e` units, or 2^63 where it is at least that.
fn whole_part(m: u64, e: u32) -> (r: u64)
    requires
        m <= 0x20_0000_0000_0000,
    ensures
        r <= 0x8000_0000_0000_0000,
        r < 0x8000_0000_0000_0000 ==> r == (m * two_to(e as nat)) as nat / one(),
        r == 0x8000_0000_0000_0000 ==> (m * two_to(e as nat)) as nat / one() >= 0x8000_0000_0000_0000,
{
    if e <= 1074 {
        proof {
            lemma_whole_small(m as nat, e as nat);
            lemma_two_to_pos((1074 - e) as nat);
            lemma_div_is_ordered_by_denominator(m as int, 1, two_to((1074 - e) as nat) as int);
        }
        halved(m, 1074 - e)
    } else {
        let k: u32 = e - 1074;
        proof {
            lemma_whole_large(m as nat, e as nat);
            assert(two_to(0) == 1);
        }
        let mut v: u64 = m;
        let mut i: u32 = 0;
        if m == 0 {
            assert(0 * two_to(k as nat) == 0);
            return 0;
        }
        while i < k
            invariant
                i <= k,
                v == m * two_to(i as nat),
                v < 0x8000_0000_0000_0000,
                (m * two_to(e as nat)) as nat / one() == m * two_to(k as nat),
            decreases k - i,
        {
            proof {
                assert(m * two_to((i + 1) as nat) == 2 * (m * two_to(i as nat))) by (nonlinear_arith)
                    requires
                        two_to((i + 1) as nat) == 2 * two_to(i as nat),
                ;
            }
            if v >= 0x4000_0000_0000_0000 {
                proof {
                    lemma_two_to_grows((i + 1) as nat, k as nat);
                    lemma_mul_inequality(two_to((i + 1) as nat) as int, two_to(k as nat) as int, m as int);
                    lemma_mul_is_commutative(m as int, two_to((i + 1) as nat) as int);
                    lemma_mul_is_commutative(m as int, two_to(k as nat) as int);
                }
                return 0x8000_0000_0000_0000;
            }
            v = v * 2;
            i = i + 1;
        }
        v
    }
}

impl Double {
    pub fn to_u16(self) -> (r: Option<u16>)
        requires
            self.wf(),
        ensures
            r == float_to_u16(self@),
    {
        match self {
            Double::Finite(negative, m, e) => {
                if negative && !self.is_zero() {
                    return None;
                }
                let whole = whole_part(m, e);
                if whole > 65535 {
                    return None;
                }
                if e < 1074 {
                    let k: u32 = 1074 - e;
                    proof {
                        lemma_whole_small(m as nat, e as nat);
                        lemma_two_to_pos(e as nat);
                        lemma_two_to_pos(k as nat);
                        lemma_fundamental_div_mod(m as int, two_to(k as nat) as int);
                        let rest = m as nat % two_to(k as nat);
                        assert(two_to(e as nat) * rest == 0 <==> rest == 0) by (nonlinear_arith)
                            requires
                                two_to(e as nat) >= 1,
                        ;
                        assert(two_to(k as nat) * whole == whole * two_to(k as nat)) by (nonlinear_arith);
                    }
                    if !doubles_to(whole, k, m) {
                        return None;
                    }
                } else {
                    proof {
                        lemma_whole_large(m as nat, e as nat);
                    }
                }
                Some(whole as u16)
            },
            _ => None,
        }
    }
}

/// Whether `v * 2^k` is `m`.
fn doubles_to(v: u64, k: u32, m: u64) -> (r: bool)
    requires
        m <= 0x20_0000_0000_0000,
        v <= 65535,
    ensures
        r == (v * two_to(k as nat) == m),
{
    let mut w: u64 = v;
    let mut i: u32 = 0;
    assert(two_to(0) == 1);
    assert(v * 1 == v);
    if v == 0 {
        assert(0 * two_to(k as nat) == 0);
        return m == 0;
    }
    while i < k
        invariant
            i <= k,
            v >= 1,
            w == v * two_to(i as nat),
            m <= 0x20_0000_0000_0000,
            w <= 0x20_0000_0000_0000,
        decreases k - i,
    {
        proof {
            assert(v * two_to((i + 1) as nat) == 2 * (v * two_to(i as nat))) by (nonlinear_arith)
                requires
                    two_to((i + 1) as nat) == 2 * two_to(i as nat),
            ;
        }
        if w > 0x10_0000_0000_0000 {
            proof {
                lemma_two_to_grows((i + 1) as nat, k as nat);
                assert(v * two_to((i + 1) as nat) <= v * two_to(k as nat)) by (nonlinear_arith)
                    requires
                        two_to((i + 1) as nat) <= two_to(k as nat),
                ;
            }
            return false;
        }
        w = w * 2;
        i = i + 1;
    }
    w == m
}

// ── subtraction ────────────────────────────────────────────────

/// Moves the factor of two into `m` as far as 53 bits hold it.
fn normal(m: u64, e: u32) -> (r: (u64, u32))
    requires
        m <= 0x20_0000_0000_0000,
    ensures
        r.0 * two_to(r.1 as nat) == m * two_to(e as nat),
        r.0 <= 0x20_0000_0000_0000,
        r.1 <= e,
        r.0 >= 0x10_0000_0000_0000 || r.1 == 0,
{
    let mut m: u64 = m;
    let mut e: u32 = e;
    let ghost size = m * two_to(e as nat);
    let ghost top = e;
    while m < 0x10_0000_0000_0000 && e > 0
        invariant
            m <= 0x20_0000_0000_0000,
            e <= top,
            m * two_to(e as nat) == size,
        decreases e,
    {
        proof {
            assert((m * 2) * two_to((e - 1) as nat) == m * two_to(e as nat)) by (nonlinear_arith)
                requires
                    two_to(e as nat) == 2 * two_to((e - 1) as nat),
            ;
        }
        m = m * 2;
        e = e - 1;
    }
    (m, e)
}

/// `m * 2^k`.
fn shifted(m: u64, k: u32) -> (r: u128)
    requires
        m <= 0x20_0000_0000_0000,
        k <= 64,
    ensures
        r == m * two_to(k as nat),
        r <= 0x20_0000_0000_0000 * 0x1_0000_0000_0000_0000,
{
    let mut v: u128 = m as u128;
    let mut i: u32 = 0;
    assert(two_to(0) == 1);
    assert(m * 1 == m);
    while i < k
        invariant
            i <= k <= 64,
            m <= 0x20_0000_0000_0000,
            v == m * two_to(i as nat),
        decreases k - i,
    {
        proof {
            lemma_two_to_values();
            lemma_two_to_grows((i + 1) as nat, 64);
            assert(m * two_to((i + 1) as nat) == 2 * (m * two_to(i as nat))) by (nonlinear_arith)
                requires
                    two_to((i + 1) as nat) == 2 * two_to(i as nat),
            ;
            assert(m * two_to((i + 1) as nat) <= 0x20_0000_0000_0000 * 0x1_0000_0000_0000_0000) by (nonlinear_arith)
                requires
                    m <= 0x20_0000_0000_0000,
                    two_to((i + 1) as nat) <= 0x1_0000_0000_0000_0000,
            ;
        }
        v = v * 2;
        i = i + 1;
    }
    proof {
        lemma_two_to_values();
        lemma_two_to_grows(k as nat, 64);
        assert(m * two_to(k as nat) <= 0x20_0000_0000_0000 * 0x1_0000_0000_0000_0000) by (nonlinear_arith)
            requires
                m <= 0x20_0000_0000_0000,
                two_to(k as nat) <= 0x1_0000_0000_0000_0000,
        ;
    }
    v
}

/// A number much smaller than the last bit of `m * 2^e` does not change it, added or taken away.
proof fn lemma_absorbed(m: nat, e: nat, y: nat)
    requires
        0x10_0000_0000_0000 <= m <= 0x20_0000_0000_0000,
        e >= 2,
        4 * y < two_to(e),
    ensures
        y <= m * two_to(e),
        round53(m * two_to(e) + y) == m * two_to(e),
        round53((m * two_to(e) - y) as nat) == m * two_to(e),
{
    let t = two_to(e);
    let x = m * t;
    lemma_two_to_pos(e);
    assert(x >= t) by (nonlinear_arith)
        requires
            x == m * t,
            m >= 1,
    ;
    let up = x + y;
    if m < 0x20_0000_0000_0000 {
        assert(0x10_0000_0000_0000 * t <= x && x + t <= 0x20_0000_0000_0000 * t) by (nonlinear_arith)
            requires
                x == m * t,
                0x10_0000_0000_0000 <= m < 0x20_0000_0000_0000,
        ;
        lemma_excess(up, e);
        lemma_fundamental_div_mod_converse(up as int, t as int, m as int, y as int);
    } else {
        let t2 = two_to(e + 1);
        assert(t2 == 2 * t);
        assert(x == 0x20_0000_0000_0000 * t);
        lemma_excess(up, e + 1);
        assert(up == 0x10_0000_0000_0000 * t2 + y);
        lemma_fundamental_div_mod_converse(up as int, t2 as int, 0x10_0000_0000_0000, y as int);
        assert(0x10_0000_0000_0000 * t2 == x);
    }
    if y == 0 {
    } else if m > 0x10_0000_0000_0000 {
        let down = (x - y) as nat;
        let q = (m - 1) as nat;
        assert(q * t == x - t) by (nonlinear_arith)
            requires
                x == m * t,
                q == m - 1,
        ;
        assert(0x10_0000_0000_0000 * t <= q * t) by (nonlinear_arith)
            requires
                q >= 0x10_0000_0000_0000,
        ;
        assert(x <= 0x20_0000_0000_0000 * t) by (nonlinear_arith)
            requires
                x == m * t,
                m <= 0x20_0000_0000_0000,
        ;
        lemma_excess(down, e);
        lemma_fundamental_div_mod_converse(down as int, t as int, q as int, (t - y) as int);
        assert((q + 1) * t == x) by (nonlinear_arith)
            requires
                x == m * t,
                q == m - 1,
        ;
    } else {
        let down = (x - y) as nat;
        let h = two_to((e - 1) as nat);
        assert(t == 2 * h);
        assert(x == 0x20_0000_0000_0000 * h) by (nonlinear_arith)
            requires
                x == m * t,
                m == 0x10_0000_0000_0000,
                t == 2 * h,
        ;
        lemma_excess(down, (e - 1) as nat);
        let q: nat = 0x1f_ffff_ffff_ffff;
        lemma_fundamental_div_mod_converse(down as int, h as int, q as int, (h - y) as int);
        assert((q + 1) * h == x);
    }
}

/// A result of at most 53 bits; one that no double reaches is infinite.
fn result(negative: bool, m: u64, e: u32) -> (r: Double)
    requires
        m <= 0x20_0000_0000_0000,
    ensures
        r.wf(),
        r@ == (if m * two_to(e as nat) >= two_to(2098) {
            FloatV::Infinite(negative)
        } else {
            FloatV::Finite(negative, (m * two_to(e as nat)) as nat)
        }),
{
    let (n, f) = normal(m, e);
    proof {
        lemma_two_to_values();
        lemma_two_to_pos(f as nat);
    }
    if f >= 2046 {
        proof {
            lemma_two_to_sum(52, f as nat);
            lemma_two_to_grows(2098, 52 + f as nat);
            assert(n * two_to(f as nat) >= two_to(52) * two_to(f as nat)) by (nonlinear_arith)
                requires
                    n >= two_to(52),
                    two_to(f as nat) >= 1,
            ;
        }
        Double::Infinite(negative)
    } else if f == 2045 && n == 0x20_0000_0000_0000 {
        proof {
            lemma_two_to_sum(53, 2045);
            assert(n * two_to(f as nat) == two_to(53) * two_to(2045)) by (nonlinear_arith)
                requires
                    n == two_to(53),
                    f == 2045,
            ;
        }
        Double::Infinite(negative)
    } else {
        proof {
            if n < 0x20_0000_0000_0000 {
                lemma_fits(n as nat, f as nat);
            } else {
                lemma_below(n as nat, f as nat, 2098);
            }
        }
        Double::Finite(negative, n, f)
    }
}

/// The sum of two signed sizes, the first with the larger power of two.
fn sum(nx: bool, mx: u64, ex: u32, ny: bool, my: u64, ey: u32) -> (r: Double)
    requires
        mx <= 0x20_0000_0000_0000,
        my <= 0x20_0000_0000_0000,
        mx >= 0x10_0000_0000_0000 || ex == 0,
        ey <= ex <= 2098,
    ensures
        r.wf(),
        ({
            let d = signed_size(nx, (mx * two_to(ex as nat)) as nat) + signed_size(ny, (my * two_to(ey as nat)) as nat);
            if d < 0 {
                r@ == float_rounded(true, (-d) as nat)
            } else if d > 0 {
                r@ == float_rounded(false, d as nat)
            } else {
                r matches Double::Finite(_, m, _) && m == 0
            }
        }),
{
    let k: u32 = ex - ey;
    let ghost t = two_to(ey as nat);
    let ghost x = (mx * two_to(ex as nat)) as nat;
    let ghost y = (my * t) as nat;
    proof {
        lemma_two_to_pos(ey as nat);
        lemma_two_to_pos(ex as nat);
    }
    if k <= 64 {
        let dx = shifted(mx, k);
        let dy: u128 = my as u128;
        proof {
            lemma_two_to_sum(k as nat, ey as nat);
            assert(dx * t == x) by (nonlinear_arith)
                requires
                    x == mx * two_to(ex as nat),
                    two_to(ex as nat) == two_to(k as nat) * t,
                    dx == mx * two_to(k as nat),
            ;
        }
        let (negative, total): (bool, u128) = if nx == ny {
            (nx, dx + dy)
        } else if dx >= dy {
            (nx, dx - dy)
        } else {
            (ny, dy - dx)
        };
        let ghost d = signed_size(nx, x) + signed_size(ny, y);
        proof {
            assert((dx + dy) * t == x + y) by (nonlinear_arith)
                requires
                    dx * t == x,
                    dy * t == y,
            ;
            assert((dx - dy) * t == x - y) by (nonlinear_arith)
                requires
                    dx * t == x,
                    dy * t == y,
            ;
            assert((dy - dx) * t == y - x) by (nonlinear_arith)
                requires
                    dx * t == x,
                    dy * t == y,
            ;
            assert(total * t == 0 <==> total == 0) by (nonlinear_arith)
                requires
                    t >= 1,
            ;
            assert(total * t >= 0) by (nonlinear_arith)
                requires
                    t >= 1,
            ;
            lemma_round_scaled(total as nat, ey as nat);
        }
        if total == 0 {
            assert(d == 0);
            proof {
                lemma_two_to_values();
                lemma_two_to_grows(52, 2098);
                assert(0 * two_to(0) == 0);
            }
            return Double::Finite(false, 0, 0);
        }
        let (m, j) = rounded(total);
        proof {
            lemma_two_to_sum(j as nat, ey as nat);
            assert(m * two_to((j + ey) as nat) == (m * two_to(j as nat)) * t) by (nonlinear_arith)
                requires
                    two_to((j + ey) as nat) == two_to(j as nat) * t,
            ;
            assert(signed_size(negative, (total * t) as nat) == d);
        }
        result(negative, m, j + ey)
    } else {
        proof {
            lemma_two_to_values();
            lemma_two_to_sum(55, ey as nat);
            lemma_two_to_sum(2, 53);
            reveal_with_fuel(two_to, 3);
            lemma_two_to_grows((55 + ey + 1) as nat, ex as nat);
            assert(two_to((55 + ey + 1) as nat) == 2 * two_to((55 + ey) as nat));
            assert(4 * y <= two_to(55) * t) by (nonlinear_arith)
                requires
                    y == my * t,
                    my <= two_to(53),
                    two_to(55) == 4 * two_to(53),
            ;
            lemma_absorbed(mx as nat, ex as nat, y);
            assert(x >= two_to(ex as nat)) by (nonlinear_arith)
                requires
                    x == mx * two_to(ex as nat),
                    mx >= 1,
            ;
        }
        result(nx, mx, ex)
    }
}

impl Double {
    /// `self - other`.
    pub fn minus(self, other: Double) -> (r: Double)
        requires
            self.wf(),
            other.wf(),
        ensures
            r@ == float_sub(self@, other@),
            r.wf(),
    {
        match (self, other) {
            (Double::Nan, _) => Double::Nan,
            (_, Double::Nan) => Double::Nan,
            (Double::Infinite(x), Double::Infinite(y)) => if x == y {
                Double::Nan
            } else {
                Double::Infinite(x)
            },
            (Double::Infinite(x), Double::Finite(_, _, _)) => Double::Infinite(x),
            (Double::Finite(_, _, _), Double::Infinite(y)) => Double::Infinite(!y),
            (Double::Finite(na, ma, ea), Double::Finite(nb, mb, eb)) => {
                let (mx, ex) = normal(ma, ea);
                let (my, ey) = normal(mb, eb);
                let r = if ex >= ey {
                    sum(na, mx, ex, !nb, my, ey)
                } else {
                    sum(!nb, my, ey, na, mx, ex)
                };
                if let Double::Finite(_, m, e) = r {
                    if m == 0 {
                        proof {
                            assert(0 * two_to(0) == 0);
                            assert(0 * two_to(e as nat) == 0);
                            lemma_two_to_pos(2098);
                            let d = signed_size(na, (ma * two_to(ea as nat)) as nat) - signed_size(
                                nb,
                                (mb * two_to(eb as nat)) as nat,
                            );
                            if d < 0 {
                                lemma_round_positive((-d) as nat);
                            } else if d > 0 {
                                lemma_round_positive(d as nat);
                            }
                        }
                        return Double::Finite(na && !nb && self.is_zero(), 0, 0);
                    }
                }
                r
            },
        }
    }
}

} // verus!
