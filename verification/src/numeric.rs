//! Comparison of numbers of different widths.
//!
//! Two numbers are compared as doubles: an integer is first widened to the
//! nearest double, ties going to the even mantissa. Doubles are held as
//! their IEEE-754 bit patterns and are compared through a key that is an
//! integer: the order of the keys is the order of the doubles, with both
//! zeros equal, and a NaN has no key.

use crate::bson::{Bson, BsonView};
use vstd::arithmetic::div_mod::lemma_div_denominator;
use vstd::arithmetic::power2::{lemma2_to64, lemma2_to64_rest, lemma_pow2_unfold, pow2};
use vstd::prelude::*;

verus! {

/// Two to the power 52: the weight of the implicit bit of a mantissa.
pub const P52: u64 = 0x10_0000_0000_0000;

/// Two to the power 53: the first integer that is beyond a mantissa.
pub const P53: u64 = 0x20_0000_0000_0000;

/// Two to the power 63: the weight of the sign bit.
pub const P63: u64 = 0x8000_0000_0000_0000;

/// The bits of positive infinity: every larger magnitude is a NaN.
pub const INFINITY_BITS: u64 = 0x7FF0_0000_0000_0000;

/// How two values stand to each other.
#[derive(Debug, Clone, Copy, PartialEq, Eq, Structural)]
pub enum Comparison {
    Less,
    Equal,
    Greater,
}

/// How two integers stand to each other.
pub open spec fn compare_ints(a: int, b: int) -> Comparison {
    if a < b {
        Comparison::Less
    } else if a == b {
        Comparison::Equal
    } else {
        Comparison::Greater
    }
}

/// The key of a double: its magnitude bits, negated where the sign bit is
/// set; `None` for a NaN.
pub open spec fn double_key(bits: u64) -> Option<int> {
    let mag = bits % P63;
    if mag > INFINITY_BITS {
        None
    } else if bits >= P63 {
        Some(-(mag as int))
    } else {
        Some(mag as int)
    }
}

/// How often a magnitude has to be halved to fit a mantissa.
pub open spec fn shift_needed(q: nat) -> nat
    decreases q,
{
    if q < P53 {
        0
    } else {
        1 + shift_needed(q / 2)
    }
}

/// A magnitude under two to the power 53, doubled until its leading bit is
/// the implicit bit of a mantissa, with the exponent lowered as often.
pub open spec fn normalized(m: nat, e: nat) -> (nat, nat)
    decreases e,
{
    if m >= P52 || e == 0 {
        (e, m)
    } else {
        normalized(2 * m, (e - 1) as nat)
    }
}

/// The exponent and the mantissa, implicit bit included, of the double
/// nearest to a magnitude of at least one; a tie goes to the even mantissa.
pub open spec fn nearest(m: nat) -> (nat, nat) {
    if m < P53 {
        normalized(m, 52)
    } else {
        let s = shift_needed(m);
        let d = pow2(s);
        let q = m / d;
        let r = m % d;
        let up = 2 * r > d || (2 * r == d && q % 2 == 1);
        let q2 = if up {
            q + 1
        } else {
            q
        };
        if q2 == P53 {
            (53 + s, P52 as nat)
        } else {
            (52 + s, q2)
        }
    }
}

/// The bits of the double nearest to an integer.
pub open spec fn widen(v: int) -> u64 {
    if v == 0 {
        0
    } else {
        let m = if v < 0 {
            (-v) as nat
        } else {
            v as nat
        };
        let (e, mant) = nearest(m);
        let sign = if v < 0 {
            P63 as int
        } else {
            0
        };
        (sign + (e + 1023) * P52 + (mant - P52)) as u64
    }
}

/// The key by which a number is compared; `None` for a NaN and for what is
/// not a number.
pub open spec fn numeric_key(v: BsonView) -> Option<int> {
    match v {
        BsonView::Int32(i) => double_key(widen(i as int)),
        BsonView::Int64(i) => double_key(widen(i as int)),
        BsonView::Double(b) => double_key(b),
        _ => None,
    }
}

/// How two numbers stand to each other; `None` where one of them is a NaN
/// or not a number.
pub open spec fn compare_numbers(a: BsonView, b: BsonView) -> Option<Comparison> {
    match (numeric_key(a), numeric_key(b)) {
        (Some(x), Some(y)) => Some(compare_ints(x, y)),
        _ => None,
    }
}

/// The key of a double.
pub fn key_of_double(bits: u64) -> (r: Option<i64>)
    ensures
        match r {
            Some(k) => double_key(bits) == Some(k as int),
            None => double_key(bits).is_none(),
        },
{
    let mag: u64 = bits % P63;
    if mag > INFINITY_BITS {
        None
    } else if bits >= P63 {
        Some(-(mag as i64))
    } else {
        Some(mag as i64)
    }
}

/// The bits of the double nearest to an integer.
pub fn int_to_double_bits(v: i64) -> (r: u64)
    ensures
        r == widen(v as int),
{
    if v == 0 {
        return 0;
    }
    let neg = v < 0;
    let m0: u64 = if neg {
        ((-(v + 1)) as u64) + 1
    } else {
        v as u64
    };
    let e: u64;
    let mant: u64;
    if m0 < P53 {
        let mut m: u64 = m0;
        let mut x: u64 = 52;
        proof {
            lemma2_to64_rest();
            assert(m * pow2(52) >= P52) by (nonlinear_arith)
                requires
                    m >= 1,
                    pow2(52) == P52,
            ;
        }
        while m < P52 && x > 0
            invariant
                1 <= m < P53,
                x <= 52,
                m * pow2(x as nat) >= P52,
                normalized(m as nat, x as nat) == normalized(m0 as nat, 52),
            decreases x,
        {
            proof {
                lemma_pow2_unfold(x as nat);
                assert((2 * m) * pow2((x - 1) as nat) >= P52) by (nonlinear_arith)
                    requires
                        m * pow2(x as nat) >= P52,
                        pow2(x as nat) == 2 * pow2((x - 1) as nat),
                ;
            }
            m = m * 2;
            x = x - 1;
        }
        proof {
            lemma2_to64();
            if x == 0 {
                assert(m * pow2(0) == m) by (nonlinear_arith)
                    requires
                        pow2(0) == 1,
                ;
            }
        }
        e = x;
        mant = m;
    } else {
        let mut q: u64 = m0;
        let mut d: u64 = 1;
        let mut s: u64 = 0;
        proof {
            lemma2_to64();
        }
        while q >= P53
            invariant
                q == m0 / d,
                d == pow2(s as nat),
                1 <= d <= 2048,
                q * d <= m0,
                m0 <= P63,
                s <= 11,
                q >= P52,
                shift_needed(m0 as nat) == s + shift_needed(q as nat),
            decreases q,
        {
            proof {
                lemma_div_denominator(m0 as int, d as int, 2);
                lemma_pow2_unfold((s + 1) as nat);
                assert(d <= 1024) by (nonlinear_arith)
                    requires
                        q >= P53,
                        q * d <= P63,
                        d >= 1,
                        P53 == 0x20_0000_0000_0000,
                        P63 == 0x8000_0000_0000_0000,
                ;
                assert((q / 2) * (d * 2) <= q * d) by (nonlinear_arith)
                    requires
                        q >= 0,
                        d >= 1,
                ;
                lemma_pow2_bound(s as nat, d as nat);
            }
            q = q / 2;
            d = d * 2;
            s = s + 1;
        }
        let r: u64 = m0 % d;
        let up = 2 * r > d || (2 * r == d && q % 2 == 1);
        let q2: u64 = if up {
            q + 1
        } else {
            q
        };
        if q2 == P53 {
            e = 53 + s;
            mant = P52;
        } else {
            e = 52 + s;
            mant = q2;
        }
    }
    let sign: u64 = if neg {
        P63
    } else {
        0
    };
    assert((e + 1023) * P52 <= 1087 * P52) by (nonlinear_arith)
        requires
            e <= 64,
    ;
    sign + (e + 1023) * P52 + (mant - P52)
}

/// A power of two that is at most 1024 has an exponent of at most ten.
proof fn lemma_pow2_bound(s: nat, d: nat)
    requires
        d == pow2(s),
        d <= 1024,
    ensures
        s <= 10,
{
    lemma2_to64();
    if s > 10 {
        vstd::arithmetic::power2::lemma_pow2_strictly_increases(10, s);
    }
}

/// The key by which a number is compared.
pub fn key_of_number(v: &Bson) -> (r: Option<i64>)
    ensures
        match r {
            Some(k) => numeric_key(v@) == Some(k as int),
            None => numeric_key(v@).is_none(),
        },
{
    match v {
        Bson::Int32(i) => key_of_double(int_to_double_bits(*i as i64)),
        Bson::Int64(i) => key_of_double(int_to_double_bits(*i)),
        Bson::Double(b) => key_of_double(*b),
        _ => None,
    }
}

/// How two integers stand to each other.
pub fn compare_i64(a: i64, b: i64) -> (r: Comparison)
    ensures
        r == compare_ints(a as int, b as int),
{
    if a < b {
        Comparison::Less
    } else if a == b {
        Comparison::Equal
    } else {
        Comparison::Greater
    }
}

/// How two numbers stand to each other, both taken as doubles.
pub fn compare_numeric(a: &Bson, b: &Bson) -> (r: Option<Comparison>)
    ensures
        r == compare_numbers(a@, b@),
{
    match (key_of_number(a), key_of_number(b)) {
        (Some(x), Some(y)) => Some(compare_i64(x, y)),
        _ => None,
    }
}

} // verus!
