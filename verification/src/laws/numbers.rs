//! Numbers are read as they are written.

use vstd::prelude::*;
use crate::float;
use crate::json;
use crate::json::JsonV;
use crate::util;

verus! {

/// The integers that a double holds exactly.
pub open spec fn is_exact(n: int) -> bool {
    -0x20_0000_0000_0000 <= n <= 0x20_0000_0000_0000
}

proof fn lemma_power(k: nat)
    ensures
        float::two_to(k) >= 1,
    decreases k,
{
    if k > 0 {
        lemma_power((k - 1) as nat);
    }
}

/// An integer in a JSON value is read as that integer, and counts as true where it is not zero.
pub proof fn integers_are_read(n: int, other: i64)
    requires
        is_exact(n),
    ensures
        util::integer_in(Some(json::int_json(n))) == Some(n as i64),
        util::integer_or(Some(json::int_json(n)), other) == n,
        util::is_truthy(json::int_json(n)) <==> n != 0,
{
    let size = if n < 0 {
        (-n) as nat
    } else {
        n as nat
    };
    float::lemma_round_short(size);
    lemma_power(1074);
    let p = float::one();
    assert((size * p) / p == size) by (nonlinear_arith)
        requires
            p >= 1,
    ;
    assert(size * p == 0 <==> size == 0) by (nonlinear_arith)
        requires
            p >= 1,
    ;
}

/// The bits of a double are read as IEEE 754 has them: the next exponent doubles the number, the
/// sign bit negates it, and the number one has its known form.
pub proof fn bits_are_read(bits: u64, size: nat)
    requires
        bits < 0x7fe0_0000_0000_0000,
        bits >= 0x10_0000_0000_0000,
        float::float_of_bits(bits) == float::FloatV::Finite(false, size),
    ensures
        float::float_of_bits((bits + 0x10_0000_0000_0000) as u64) == float::FloatV::Finite(false, 2 * size),
        float::float_of_bits((bits + 0x8000_0000_0000_0000) as u64) == float::FloatV::Finite(true, size),
        float::float_of_bits(0x3ff0_0000_0000_0000) == float::float_of_int(1),
        float::float_of_bits(0) == float::float_of_int(0),
{
    let e = (bits / 0x10_0000_0000_0000) % 2048;
    let f = bits % 0x10_0000_0000_0000;
    let up = (bits + 0x10_0000_0000_0000) as u64;
    let neg = (bits + 0x8000_0000_0000_0000) as u64;
    assert(1 <= e < 2046);
    assert((up / 0x10_0000_0000_0000) % 2048 == e + 1 && up % 0x10_0000_0000_0000 == f);
    assert((neg / 0x10_0000_0000_0000) % 2048 == e && neg % 0x10_0000_0000_0000 == f);
    let p = float::two_to((e - 1) as nat);
    assert(float::two_to(e as nat) == 2 * p);
    let m = (0x10_0000_0000_0000 + f) as nat;
    assert(m * (2 * p) == 2 * (m * p)) by (nonlinear_arith);
    float::lemma_two_to_sum(52, 1022);
    lemma_fifty_two();
    float::lemma_round_short(1);
    float::lemma_round_short(0);
    assert(0 * float::one() == 0);
    assert(0x3ff0_0000_0000_0000u64 / 0x10_0000_0000_0000 == 1023);
    assert(0x3ff0_0000_0000_0000u64 % 0x10_0000_0000_0000 == 0);
}

proof fn lemma_fifty_two()
    ensures
        float::two_to(52) == 0x10_0000_0000_0000,
{
    reveal_with_fuel(float::two_to, 14);
    assert(float::two_to(13) == 0x2000);
    float::lemma_two_to_sum(13, 13);
    float::lemma_two_to_sum(26, 26);
    assert(float::two_to(26) == 0x400_0000);
    assert(float::two_to(52) == 0x10_0000_0000_0000) by (nonlinear_arith)
        requires
            float::two_to(52) == float::two_to(26) * float::two_to(26),
            float::two_to(26) == 0x400_0000,
    ;
}

/// A value that is neither a number nor a text holds no number.
pub proof fn other_values_are_no_numbers(v: Option<JsonV>, other: i64)
    requires
        !(v matches Some(JsonV::Number(_))),
        !(v matches Some(JsonV::Str(_))),
    ensures
        util::integer_in(v) is None,
        util::integer_or(v, other) == other,
{
}

} // verus!
