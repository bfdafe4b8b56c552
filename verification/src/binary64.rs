//! Round-to-nearest-even arithmetic on a fixed binary grid.
//!
//! A nonnegative double is an integer of at most 53 significant bits times a
//! power of two. Where all the values of a computation are multiples of one
//! fixed power of two, each of its steps is an exact integer operation
//! followed by `round_to_f64`.
use vstd::arithmetic::div_mod::{lemma_div_denominator, lemma_div_is_ordered, lemma_fundamental_div_mod};
use vstd::arithmetic::power2::{lemma_pow2_adds, lemma_pow2_pos, lemma_pow2_unfold, lemma2_to64, pow2};
use vstd::prelude::*;

verus! {

/// The first integer that needs more than 53 bits.
pub const SIGNIFICAND_LIMIT: u64 = 0x20_0000_0000_0000;

/// The distance between neighbouring doubles at `n`: the power of two that
/// leaves at most 53 significant bits.
pub open spec fn last_place(n: nat) -> nat
    decreases n,
{
    if n < SIGNIFICAND_LIMIT {
        1
    } else {
        2 * last_place(n / 2)
    }
}

/// The double nearest to `n`; of two equally near ones, the one whose
/// significand is even.
pub open spec fn round_to_f64(n: nat) -> nat {
    let unit = last_place(n);
    let below = n / unit;
    let rest = n % unit;
    if 2 * rest > unit || (2 * rest == unit && below % 2 == 1) {
        (below + 1) * unit
    } else {
        below * unit
    }
}

/// `last_place(n)` is positive, leaves a significand under the limit, and
/// leaves at least half the limit unless it is 1.
pub proof fn lemma_last_place(n: nat)
    ensures
        last_place(n) >= 1,
        n / last_place(n) < SIGNIFICAND_LIMIT,
        last_place(n) > 1 ==> 2 * (n / last_place(n)) >= SIGNIFICAND_LIMIT,
        last_place(n) > 1 ==> last_place(n) % 2 == 0,
        n < 0x1_0000_0000_0000_0000 ==> last_place(n) <= 2048,
    decreases n,
{
    if n >= SIGNIFICAND_LIMIT {
        lemma_last_place(n / 2);
        let half = last_place(n / 2);
        lemma_div_denominator(n as int, 2, half as int);
        assert(n / (2 * half) == (n / 2) / half);
        if half == 1 {
            assert((n / 2) / half == n / 2);
        }
        if n < 0x1_0000_0000_0000_0000 {
            reveal_with_fuel(last_place, 13);
        }
    }
}

/// Rounding moves a value by at most half a unit in the last place.
pub proof fn lemma_round_near(n: nat)
    ensures
        2 * round_to_f64(n) <= 2 * n + last_place(n),
        2 * n <= 2 * round_to_f64(n) + last_place(n),
        (n / last_place(n)) * last_place(n) <= round_to_f64(n),
        round_to_f64(n) <= (n / last_place(n) + 1) * last_place(n),
{
    lemma_last_place(n);
    let unit = last_place(n);
    let below = n / unit;
    lemma_fundamental_div_mod(n as int, unit as int);
    assert(unit * below == below * unit) by (nonlinear_arith);
    assert((below + 1) * unit == below * unit + unit) by (nonlinear_arith);
}

/// Rounding moves a value of 64 bits by at most 1024.
pub proof fn lemma_round_within(n: nat)
    requires
        n < 0x1_0000_0000_0000_0000,
    ensures
        round_to_f64(n) <= n + 1024,
        n <= round_to_f64(n) + 1024,
{
    lemma_last_place(n);
    lemma_round_near(n);
}

/// Rounding keeps the order of values.
pub proof fn lemma_round_monotone(m: nat, n: nat)
    requires
        m <= n,
    ensures
        round_to_f64(m) <= round_to_f64(n),
{
    lemma_last_place(m);
    lemma_last_place(n);
    lemma_round_near(m);
    lemma_round_near(n);
    let um = last_place(m);
    let un = last_place(n);
    let qm = m / um;
    let qn = n / un;
    lemma_fundamental_div_mod(m as int, um as int);
    lemma_fundamental_div_mod(n as int, un as int);
    lemma_last_place_monotone(m, n);
    if um == un {
        lemma_div_is_ordered(m as int, n as int, um as int);
        assert((qm + 1) * um == qm * um + um) by (nonlinear_arith);
        assert((qn + 1) * um == qn * um + um) by (nonlinear_arith);
        assert(um * qm == qm * um) by (nonlinear_arith);
        assert(um * qn == qn * um) by (nonlinear_arith);
        if qm < qn {
            assert((qm + 1) * um <= qn * um) by (nonlinear_arith)
                requires
                    qm + 1 <= qn,
            ;
        }
    } else {
        lemma_last_place_doubles(m, n);
        assert((qm + 1) * um <= SIGNIFICAND_LIMIT * um) by (nonlinear_arith)
            requires
                qm + 1 <= SIGNIFICAND_LIMIT,
        ;
        assert(SIGNIFICAND_LIMIT * um <= qn * un) by (nonlinear_arith)
            requires
                2 * um <= un,
                2 * qn >= SIGNIFICAND_LIMIT,
        ;
    }
}

proof fn lemma_last_place_monotone(m: nat, n: nat)
    requires
        m <= n,
    ensures
        last_place(m) <= last_place(n),
    decreases n,
{
    lemma_last_place(n);
    if m >= SIGNIFICAND_LIMIT {
        lemma_last_place_monotone(m / 2, n / 2);
    }
}

proof fn lemma_last_place_doubles(m: nat, n: nat)
    requires
        m <= n,
        last_place(m) != last_place(n),
    ensures
        2 * last_place(m) <= last_place(n),
    decreases n,
{
    if m >= SIGNIFICAND_LIMIT {
        lemma_last_place_doubles(m / 2, n / 2);
    } else if n >= SIGNIFICAND_LIMIT {
        lemma_last_place(n / 2);
    }
}

/// Rounds an integer to 53 significant bits, ties to even.
pub fn round_significand(n: u64) -> (rounded: u64)
    requires
        n <= u64::MAX - 2048,
    ensures
        rounded == round_to_f64(n as nat),
{
    let mut unit: u64 = 1;
    let mut below: u64 = n;
    proof {
        lemma_last_place(n as nat);
    }
    while below >= SIGNIFICAND_LIMIT
        invariant
            unit >= 1,
            below == n / unit,
            last_place(n as nat) == unit * last_place(below as nat),
            last_place(n as nat) <= 2048,
        decreases below,
    {
        proof {
            lemma_last_place((below / 2) as nat);
            let half = last_place((below / 2) as nat);
            assert(unit * (2 * half) == (unit * 2) * half) by (nonlinear_arith);
            assert(unit * 2 <= (unit * 2) * half) by (nonlinear_arith)
                requires
                    half >= 1,
            ;
            lemma_div_denominator(n as int, unit as int, 2);
        }
        below = below / 2;
        unit = unit * 2;
    }
    assert(last_place(below as nat) == 1);
    assert(unit * 1 == unit) by (nonlinear_arith);
    proof {
        lemma_fundamental_div_mod(n as int, unit as int);
        lemma_round_near(n as nat);
        assert(unit * below == below * unit) by (nonlinear_arith);
        assert((below + 1) * unit == below * unit + unit) by (nonlinear_arith);
    }
    let rest: u64 = n % unit;
    if 2 * rest > unit || (2 * rest == unit && below % 2 == 1) {
        (below + 1) * unit
    } else {
        below * unit
    }
}

/// Whether a number of units can be held by a double: it has at most 53
/// significant bits.
pub open spec fn is_double(n: nat) -> bool {
    exists|q: nat, e: nat| #[trigger] is_scaled(n, q, e)
}

/// Whether a number is a significand of at most 53 bits times a power of two.
pub open spec fn is_scaled(n: nat, q: nat, e: nat) -> bool {
    n == q * pow2(e) && q < 0x20_0000_0000_0000
}

/// How far two numbers are apart.
pub open spec fn gap(a: nat, b: nat) -> nat {
    if a < b {
        (b - a) as nat
    } else {
        (a - b) as nat
    }
}

/// Whether `m` is what a number is rounded to: a double to which no other one is
/// nearer, and where another one is as near, the one with the even significand.
pub open spec fn is_rounding(n: nat, m: nat) -> bool {
    &&& is_double(m)
    &&& forall|k: nat|
        #[trigger] is_double(k) ==> gap(m, n) <= gap(k, n) && (k != m && gap(m, n) == gap(k, n) ==> m % (2
            * gap(k, m)) == 0)
}

/// The distance between doubles is a power of two.
proof fn lemma_last_place_is_power(n: nat) -> (e: nat)
    ensures
        last_place(n) == pow2(e),
    decreases n,
{
    lemma2_to64();
    if n < SIGNIFICAND_LIMIT {
        0
    } else {
        let e = lemma_last_place_is_power(n / 2);
        lemma_pow2_unfold(e + 1);
        e + 1
    }
}

/// Doubles that are not smaller than all significands of a scale are multiples
/// of it.
proof fn lemma_double_is_multiple(k: nat, unit_log: nat) -> (m: nat)
    requires
        is_double(k),
        unit_log > 0,
        2 * k >= SIGNIFICAND_LIMIT * pow2(unit_log),
    ensures
        k == m * pow2(unit_log),
{
    let (q, e) = choose|q: nat, e: nat| #[trigger] is_scaled(k, q, e);
    let unit = pow2(unit_log);
    if e >= unit_log {
        let more = (e - unit_log) as nat;
        lemma_pow2_adds(more, unit_log);
        assert(k == (q * pow2(more)) * unit) by (nonlinear_arith)
            requires
                k == q * pow2(e),
                pow2(e) == pow2(more) * unit,
        ;
        q * pow2(more)
    } else {
        let less = (unit_log - 1 - e) as nat;
        lemma_pow2_unfold(unit_log);
        lemma_pow2_adds(less, e);
        lemma_pow2_pos(less);
        lemma_pow2_pos(e);
        let scale = pow2(e);
        let rest = pow2(less);
        assert(2 * (q * scale) < 0x20_0000_0000_0000 * (2 * (rest * scale))) by (nonlinear_arith)
            requires
                q < 0x20_0000_0000_0000,
                scale > 0,
                rest > 0,
        ;
        0
    }
}

/// Rounding gives the nearest double, and of two equally near ones that with the
/// even significand.
pub proof fn law_rounds_to_nearest_even(n: nat)
    ensures
        is_rounding(n, round_to_f64(n)),
{
    let e = lemma_last_place_is_power(n);
    let unit = last_place(n);
    let below = n / unit;
    let rest = n % unit;
    let r = round_to_f64(n);
    lemma_last_place(n);
    lemma_round_near(n);
    lemma2_to64();
    lemma_fundamental_div_mod(n as int, unit as int);
    assert(unit * below == below * unit) by (nonlinear_arith);
    assert((below + 1) * unit == below * unit + unit) by (nonlinear_arith);
    assert(is_double(r)) by {
        if r == below * unit {
            assert(is_scaled(r, below, e));
        } else if below + 1 < SIGNIFICAND_LIMIT {
            assert(is_scaled(r, (below + 1) as nat, e));
        } else {
            lemma_pow2_unfold(e + 1);
            let half: nat = 0x10_0000_0000_0000;
            assert((below + 1) * unit == half * (2 * unit)) by (nonlinear_arith)
                requires
                    below + 1 == 2 * half,
            ;
            assert(is_scaled(r, half, e + 1));
        }
    }
    assert forall|k: nat| #[trigger] is_double(k) implies gap(r, n) <= gap(k, n) && (k != r && gap(r, n)
        == gap(k, n) ==> r % (2 * gap(k, r)) == 0) by {
        if unit == 1 {
            assert(below * 1 == below) by (nonlinear_arith);
            assert(r == n);
        } else if 2 * k >= SIGNIFICAND_LIMIT * unit {
            if e == 0 {
                assert(unit == 1);
            }
            let m = lemma_double_is_multiple(k, e);
            lemma_nearest_multiple(n, unit, m);
        } else {
            assert(SIGNIFICAND_LIMIT * unit <= 2 * (below * unit)) by (nonlinear_arith)
                requires
                    2 * below >= SIGNIFICAND_LIMIT,
            ;
        }
    }
}

/// Among the multiples of the distance between doubles, rounding gives the
/// nearest.
proof fn lemma_nearest_multiple(n: nat, unit: nat, m: nat)
    requires
        unit == last_place(n),
        unit > 1,
    ensures
        gap(round_to_f64(n), n) <= gap(m * unit, n),
        m * unit != round_to_f64(n) && gap(round_to_f64(n), n) == gap(m * unit, n) ==> round_to_f64(n) % (2
            * gap(m * unit, round_to_f64(n))) == 0,
{
    let below = n / unit;
    let rest = n % unit;
    let r = round_to_f64(n);
    lemma_fundamental_div_mod(n as int, unit as int);
    assert(unit * below == below * unit) by (nonlinear_arith);
    assert((below + 1) * unit == below * unit + unit) by (nonlinear_arith);
    if m < below {
        assert(m * unit + unit <= below * unit) by (nonlinear_arith)
            requires
                m + 1 <= below,
        ;
    } else if m > below + 1 {
        assert(m * unit >= (below + 1) * unit + unit) by (nonlinear_arith)
            requires
                m >= below + 2,
        ;
    } else if m * unit != r && gap(r, n) == gap(m * unit, n) {
        assert(2 * rest == unit);
        assert(gap(m * unit, r) == unit);
        let s = if below % 2 == 1 {
            below + 1
        } else {
            below
        };
        let half = s / 2;
        assert(r == s * unit);
        assert(s * unit == half * (2 * unit)) by (nonlinear_arith)
            requires
                s == 2 * half,
        ;
        vstd::arithmetic::div_mod::lemma_mod_multiples_basic(half as int, (2 * unit) as int);
    }
}

/// There is only one way to round.
pub proof fn law_rounding_is_unique(n: nat, m: nat)
    requires
        is_rounding(n, m),
    ensures
        m == round_to_f64(n),
{
    law_rounds_to_nearest_even(n);
    let r = round_to_f64(n);
    if m != r {
        let d = gap(m, r);
        assert(gap(r, m) == d && d > 0);
        assert(m % (2 * d) == 0 && r % (2 * d) == 0);
        lemma_fundamental_div_mod(m as int, (2 * d) as int);
        lemma_fundamental_div_mod(r as int, (2 * d) as int);
        let a = m / (2 * d);
        let b = r / (2 * d);
        assert(false) by (nonlinear_arith)
            requires
                d > 0,
                m == (2 * d) * a,
                r == (2 * d) * b,
                m - r == d || r - m == d,
        ;
    }
}

}
