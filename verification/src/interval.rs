//! The days until the next review.
//!
//! From the third successful recall on, the interval is the ceiling of
//! `6 * factor^k`, where `factor` is the easiness as a real number and `k`
//! counts the recalls after the second. With the easiness in hundredths this
//! is the ceiling of `6 * ef^k / 100^k`, a quotient of two integers that grow
//! far beyond any machine word. [`grown_interval`] computes it exactly by
//! keeping `6 * ef^j` in base 100: the digits below position `j` are the
//! fraction, what is above them is the whole part.

use crate::base100::{
    all_zero, are_digits, digits_value, lemma_digits_bound, lemma_pow_step, scaled,
};
use crate::easiness::Ease;
use vstd::arithmetic::div_mod::*;
use vstd::arithmetic::power::*;
use vstd::prelude::*;

verus! {

/// The number of days until the next review.
pub type Interval = u32;

/// The longest interval that can be reported. A longer one is reported as
/// this.
pub const MAX_INTERVAL: Interval = 4294967295;

/// The least integer that is not below `a / b`, for a positive `b`.
pub open spec fn ceil_div(a: int, b: int) -> int
    recommends
        b > 0,
{
    if a % b == 0 {
        a / b
    } else {
        a / b + 1
    }
}

/// The ceiling of `6 * (ef / 100)^k`.
pub open spec fn grown(ef: nat, k: nat) -> int {
    ceil_div(6 * pow(ef as int, k), pow(100, k))
}

/// The days until the next review of an item that was recalled `rep` times
/// in a row and has the easiness `ef`: none, one and six days for the first
/// three counts, then the ceiling of `6 * (ef / 100)^(rep - 2)`.
pub open spec fn interval_days(rep: nat, ef: nat) -> int {
    if rep == 0 {
        0
    } else if rep == 1 {
        1
    } else if rep == 2 {
        6
    } else {
        grown(ef, (rep - 2) as nat)
    }
}

/// The given number of days, or the longest interval where it is beyond it.
pub open spec fn capped(days: int) -> int {
    if days > MAX_INTERVAL {
        MAX_INTERVAL as int
    } else {
        days
    }
}

/// A whole part `q` over a fraction `r / d` has the ceiling `q`, or `q + 1`
/// where the fraction is not zero.
proof fn lemma_ceil_div_split(n: int, d: int, q: int, r: int)
    requires
        0 <= r < d,
        n == q * d + r,
    ensures
        r == 0 ==> ceil_div(n, d) == q,
        r != 0 ==> ceil_div(n, d) == q + 1,
{
    lemma_fundamental_div_mod_converse(n, d, q, r);
}

/// With a factor of at least 1, a value that has reached `bound` stays there.
proof fn lemma_stays_above(ef: int, j: nat, k: nat, bound: int)
    requires
        ef >= 100,
        j <= k,
        bound >= 0,
        6 * pow(ef, j) >= bound * pow(100, j),
    ensures
        6 * pow(ef, k) >= bound * pow(100, k),
    decreases k - j,
{
    if j < k {
        let before = (k - 1) as nat;
        lemma_stays_above(ef, j, before, bound);
        lemma_pow_step(ef, before);
        lemma_pow_step(100, before);
        lemma_pow_positive(100, before);
        let n = pow(ef, before);
        let d = pow(100, before);
        assert(6 * (ef * n) >= bound * (100 * d)) by (nonlinear_arith)
            requires
                ef >= 100,
                bound >= 0,
                d > 0,
                6 * n >= bound * d,
        ;
    }
}

/// With a positive factor below 1, a value that has come below 1 stays
/// between 0 and 1.
proof fn lemma_stays_below_one(ef: int, j: nat, k: nat)
    requires
        0 < ef < 100,
        j <= k,
        6 * pow(ef, j) < pow(100, j),
    ensures
        0 < 6 * pow(ef, k) < pow(100, k),
    decreases k - j,
{
    lemma_pow_positive(ef, k);
    if j < k {
        let before = (k - 1) as nat;
        lemma_stays_below_one(ef, j, before);
        lemma_pow_step(ef, before);
        lemma_pow_step(100, before);
        let n = pow(ef, before);
        let d = pow(100, before);
        assert(6 * (ef * n) < 100 * d) by (nonlinear_arith)
            requires
                0 < ef < 100,
                0 < 6 * n < d,
        ;
    }
}

/// The ceiling of `6 * (ef / 100)^k`, in days.
///
/// The result is exact. Where it is longer than the longest interval, the
/// longest interval is returned.
pub fn grown_interval(ef: Ease, k: u32) -> (days: Interval)
    ensures
        days == capped(grown(ef as nat, k as nat)),
{
    proof {
        lemma_pow0(ef as int);
        lemma_pow0(100);
        lemma_pow_positive(100, k as nat);
    }
    if k == 0 {
        proof {
            lemma_ceil_div_split(6, 1, 6, 0);
        }
        return 6;
    }
    if ef == 0 {
        proof {
            lemma0_pow(k as nat);
            lemma_ceil_div_split(0, pow(100, k as nat), 0, 0);
        }
        return 0;
    }
    if ef == 100 {
        proof {
            lemma_ceil_div_split(6 * pow(100, k as nat), pow(100, k as nat), 6, 0);
        }
        return 6;
    }
    let mut whole: u64 = 6;
    let mut frac: Vec<u8> = Vec::new();
    let mut j: u32 = 0;
    while j < k
        invariant
            j <= k,
            ef != 0,
            ef != 100,
            frac@.len() == j,
            are_digits(frac@),
            whole * pow(100, j as nat) + digits_value(frac@) == 6 * pow(ef as int, j as nat),
            whole < MAX_INTERVAL,
            ef < 100 ==> whole <= 6,
        decreases k - j,
    {
        if ef < 100 && whole == 0 {
            proof {
                lemma_digits_bound(frac@);
                lemma_pow_positive(100, k as nat);
                lemma_stays_below_one(ef as int, j as nat, k as nat);
                let n = 6 * pow(ef as int, k as nat);
                lemma_ceil_div_split(n, pow(100, k as nat), 0, n);
            }
            return 1;
        }
        let (low, carry) = scaled(&frac, ef);
        assert(whole * ef + carry <= 0xffff_fffe * 0xffff_ffff + 0xffff_fffe) by (nonlinear_arith)
            requires
                whole <= 0xffff_fffe,
                ef <= 0xffff_ffff,
                carry < ef,
        ;
        let t: u64 = whole * (ef as u64) + carry;
        proof {
            let place = pow(100, j as nat);
            let power = pow(ef as int, j as nat);
            let grown_low = low@.push((t % 100) as u8);
            assert(grown_low.drop_last() =~= low@);
            lemma_pow_step(100, j as nat);
            lemma_pow_step(ef as int, j as nat);
            assert((t / 100) * (100 * place) + (digits_value(low@) + (t % 100) * place)
                == 6 * (ef * power)) by (nonlinear_arith)
                requires
                    whole * place + digits_value(frac@) == 6 * power,
                    digits_value(low@) + carry * place == ef * digits_value(frac@),
                    t == whole * ef + carry,
                    t == 100 * (t / 100) + t % 100,
            ;
            if ef < 100 {
                assert(whole * ef <= 6 * 99) by (nonlinear_arith)
                    requires
                        whole <= 6,
                        ef <= 99,
                ;
            }
        }
        frac = low;
        frac.push((t % 100) as u8);
        whole = t / 100;
        j = j + 1;
        if whole >= MAX_INTERVAL as u64 {
            proof {
                let bound = MAX_INTERVAL as int;
                let n = 6 * pow(ef as int, k as nat);
                let d = pow(100, k as nat);
                lemma_digits_bound(frac@);
                lemma_pow_positive(100, j as nat);
                lemma_pow_positive(100, k as nat);
                let place = pow(100, j as nat);
                assert(whole * place >= bound * place) by (nonlinear_arith)
                    requires
                        whole >= bound,
                        place > 0,
                ;
                lemma_stays_above(ef as int, j as nat, k as nat, bound);
                lemma_div_is_ordered(bound * d, n, d);
                lemma_div_by_multiple(bound, d);
            }
            return MAX_INTERVAL;
        }
    }
    proof {
        lemma_digits_bound(frac@);
        lemma_pow_positive(100, k as nat);
        lemma_ceil_div_split(
            6 * pow(ef as int, k as nat),
            pow(100, k as nat),
            whole as int,
            digits_value(frac@),
        );
    }
    if all_zero(&frac) {
        whole as Interval
    } else {
        (whole + 1) as Interval
    }
}

} // verus!
