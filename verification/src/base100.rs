//! Natural numbers written in base 100, least significant digit first.
//!
//! Two decimal places are one digit here, so a number of hundredths
//! multiplied `n` times has its fraction in the lowest `n` digits.

use vstd::arithmetic::power::*;
use vstd::prelude::*;

verus! {

/// Every entry is a digit in base 100.
pub(crate) open spec fn are_digits(digits: Seq<u8>) -> bool {
    forall|i: int| 0 <= i < digits.len() ==> digits[i] < 100
}

/// The number that the base-100 digits stand for, least significant first.
pub(crate) open spec fn digits_value(digits: Seq<u8>) -> int
    decreases digits.len(),
{
    if digits.len() == 0 {
        0
    } else {
        digits_value(digits.drop_last()) + digits.last() * pow(100, (digits.len() - 1) as nat)
    }
}

/// One more factor: `b^(n + 1)` is `b * b^n`.
pub(crate) proof fn lemma_pow_step(b: int, n: nat)
    ensures
        pow(b, n + 1) == b * pow(b, n),
{
    reveal(pow);
}

/// Digits in `n` places stand for a number below `100^n`.
pub(crate) proof fn lemma_digits_bound(digits: Seq<u8>)
    requires
        are_digits(digits),
    ensures
        0 <= digits_value(digits) < pow(100, digits.len()),
    decreases digits.len(),
{
    if digits.len() == 0 {
        lemma_pow0(100);
    } else {
        let init = digits.drop_last();
        let place = pow(100, init.len());
        let top = digits.last() as int;
        lemma_digits_bound(init);
        lemma_pow_step(100, init.len());
        assert(0 <= top * place <= 99 * place) by (nonlinear_arith)
            requires
                0 <= top <= 99,
                0 <= place,
        ;
    }
}

/// Digits stand for zero exactly when each of them is zero.
proof fn lemma_digits_zero(digits: Seq<u8>)
    requires
        are_digits(digits),
    ensures
        digits_value(digits) == 0 <==> forall|i: int| 0 <= i < digits.len() ==> digits[i] == 0,
    decreases digits.len(),
{
    if digits.len() > 0 {
        let init = digits.drop_last();
        let place = pow(100, init.len());
        let top = digits.last() as int;
        lemma_digits_zero(init);
        lemma_digits_bound(init);
        lemma_pow_positive(100, init.len());
        assert(top * place == 0 <==> top == 0) by (nonlinear_arith)
            requires
                0 <= top,
                0 < place,
        ;
        assert(0 <= top * place) by (nonlinear_arith)
            requires
                0 <= top,
                0 < place,
        ;
        if digits_value(digits) == 0 {
            assert forall|i: int| 0 <= i < digits.len() implies digits[i] == 0 by {
                if i < init.len() {
                    assert(init[i] == digits[i]);
                }
            }
        } else if top == 0 {
            let i = choose|i: int| 0 <= i < init.len() && init[i] != 0;
            assert(digits[i] != 0);
        }
    }
}

/// Are all the digits zero?
pub(crate) fn all_zero(digits: &Vec<u8>) -> (zero: bool)
    requires
        are_digits(digits@),
    ensures
        zero <==> digits_value(digits@) == 0,
{
    let mut i: usize = 0;
    while i < digits.len()
        invariant
            i <= digits.len(),
            are_digits(digits@),
            forall|j: int| 0 <= j < i ==> digits[j] == 0,
        decreases digits.len() - i,
    {
        if digits[i] != 0 {
            proof {
                lemma_digits_zero(digits@);
            }
            return false;
        }
        i += 1;
    }
    proof {
        lemma_digits_zero(digits@);
    }
    true
}

/// Multiplies the number that the digits stand for by `factor`. Returns the
/// product's digits in the same places, and what goes beyond them.
pub(crate) fn scaled(digits: &Vec<u8>, factor: u32) -> (product: (Vec<u8>, u64))
    requires
        are_digits(digits@),
        factor >= 1,
    ensures
        product.0@.len() == digits@.len(),
        are_digits(product.0@),
        product.1 < factor,
        digits_value(product.0@) + product.1 * pow(100, digits@.len())
            == factor * digits_value(digits@),
{
    let mut low: Vec<u8> = Vec::new();
    let mut carry: u64 = 0;
    let mut i: usize = 0;
    proof {
        lemma_pow0(100);
        assert(digits@.take(0) =~= Seq::<u8>::empty());
    }
    while i < digits.len()
        invariant
            i <= digits.len(),
            low@.len() == i,
            are_digits(low@),
            are_digits(digits@),
            factor >= 1,
            carry < factor,
            digits_value(low@) + carry * pow(100, i as nat)
                == factor * digits_value(digits@.take(i as int)),
        decreases digits.len() - i,
    {
        let digit: u64 = digits[i] as u64;
        assert(digit * factor <= 99 * factor) by (nonlinear_arith)
            requires
                digit <= 99,
        ;
        let t: u64 = digit * (factor as u64) + carry;
        proof {
            let place = pow(100, i as nat);
            let done = digits@.take(i as int);
            let next = digits@.take(i + 1);
            let grown_low = low@.push((t % 100) as u8);
            assert(next.drop_last() =~= done);
            assert(grown_low.drop_last() =~= low@);
            lemma_pow_step(100, i as nat);
            assert((digits_value(low@) + (t % 100) * place) + (t / 100) * (100 * place)
                == factor * (digits_value(done) + digit * place)) by (nonlinear_arith)
                requires
                    digits_value(low@) + carry * place == factor * digits_value(done),
                    t == digit * factor + carry,
                    t == 100 * (t / 100) + t % 100,
            ;
        }
        low.push((t % 100) as u8);
        carry = t / 100;
        i += 1;
    }
    proof {
        assert(digits@.take(i as int) =~= digits@);
    }
    (low, carry)
}

} // verus!
