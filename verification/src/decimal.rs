//! Exact decimal numbers: a string of digits and a power of ten.
//!
//! Summary lines give their values in decimal notation with a unit. The
//! numbers are kept as they were written, digit by digit, so that no value is
//! rounded before it has to be.

use crate::text::{
    all_digits, decimal_digits, digits_value, lemma_decimal_digits, pow10, push_digits,
};
use vstd::arithmetic::div_mod::lemma_fundamental_div_mod_converse;
use vstd::prelude::*;

verus! {

/// The mathematical value of a [`Decimal`]: the digits of its mantissa, most
/// significant first, and the power of ten that scales it.
pub struct Number {
    pub digits: Seq<u8>,
    pub exponent: int,
}

impl Number {
    /// The number that the digits write.
    pub open spec fn mantissa(self) -> nat {
        digits_value(self.digits)
    }

    /// `mantissa × 10^exponent`, rounded to the nearest integer, halves up.
    pub open spec fn rounded(self) -> nat {
        round_scaled(self.mantissa(), self.exponent)
    }
}

/// `mantissa × 10^exponent`, rounded to the nearest integer, halves up.
pub open spec fn round_scaled(mantissa: nat, exponent: int) -> nat {
    if exponent >= 0 {
        mantissa * pow10(exponent as nat)
    } else {
        ((2 * mantissa + pow10((-exponent) as nat)) / (2 * pow10((-exponent) as nat))) as nat
    }
}

/// What rounding adds for the first digit that is dropped: one where the
/// digit is five or more.
pub open spec fn round_up(first_dropped: u8) -> nat {
    if first_dropped >= 5 {
        1
    } else {
        0
    }
}

/// `n` where it fits in 64 bits, and the largest 64-bit number otherwise.
pub open spec fn saturate(n: nat) -> u64 {
    if n > u64::MAX {
        u64::MAX
    } else {
        n as u64
    }
}

/// A non-negative decimal number, `mantissa × 10^exponent`. The mantissa is
/// held as its decimal digits, most significant first, so that it has no
/// upper bound.
#[derive(Debug, Clone, PartialEq, Eq)]
pub struct Decimal {
    /// The digits of the mantissa, each from 0 to 9.
    pub digits: Vec<u8>,
    /// The power of ten by which the mantissa is multiplied.
    pub exponent: i128,
}

impl View for Decimal {
    type V = Number;

    open spec fn view(&self) -> Number {
        Number { digits: self.digits@, exponent: self.exponent as int }
    }
}

impl Decimal {
    /// Every element of `digits` is a decimal digit.
    pub open spec fn wf(&self) -> bool {
        all_digits(self.digits@)
    }

    /// Tells whether every element of `digits` is a decimal digit.
    pub fn is_valid(&self) -> (ok: bool)
        ensures
            ok == self.wf(),
    {
        let mut i: usize = 0;
        while i < self.digits.len()
            invariant
                i <= self.digits.len(),
                forall|k: int| 0 <= k < i ==> self.digits@[k] <= 9,
            decreases self.digits.len() - i,
        {
            if self.digits[i] > 9 {
                return false;
            }
            i += 1;
        }
        true
    }

    /// The decimal `n × 10^exponent`.
    pub fn from_integer(n: u128, exponent: i128) -> (r: Decimal)
        ensures
            r@ == (Number { digits: decimal_digits(n as nat), exponent: exponent as int }),
            r@.mantissa() == n,
            r.wf(),
    {
        let mut digits: Vec<u8> = Vec::new();
        push_digits(&mut digits, n);
        proof {
            lemma_decimal_digits(n as nat);
            assert(digits@ =~= decimal_digits(n as nat));
        }
        Decimal { digits, exponent }
    }

    /// A copy of this decimal.
    pub fn duplicate(&self) -> (r: Decimal)
        ensures
            r@ == self@,
            r.wf() == self.wf(),
    {
        let mut digits: Vec<u8> = Vec::new();
        let mut i: usize = 0;
        while i < self.digits.len()
            invariant
                i <= self.digits.len(),
                digits@ == self.digits@.take(i as int),
            decreases self.digits.len() - i,
        {
            digits.push(self.digits[i]);
            assert(digits@ =~= self.digits@.take(i + 1));
            i += 1;
        }
        assert(digits@ =~= self.digits@);
        Decimal { digits, exponent: self.exponent }
    }

    /// The number rounded to the nearest integer, halves up; the largest
    /// 64-bit number where the result does not fit in 64 bits.
    pub fn round_saturating(&self) -> (r: u64)
        requires
            self.wf(),
        ensures
            r == saturate(self@.rounded()),
    {
        let len = self.digits.len();
        let ghost ds = self.digits@;
        if self.exponent >= 0 {
            assert(ds.take(len as int) =~= ds);
            match prefix_value(&self.digits, len) {
                None => {
                    proof {
                        lemma_pow10_positive(self.exponent as nat);
                        lemma_mul_at_least(digits_value(ds), pow10(self.exponent as nat));
                    }
                    u64::MAX
                },
                Some(v) => {
                    if v == 0 {
                        assert(0 * pow10(self.exponent as nat) == 0) by (nonlinear_arith);
                        return 0;
                    }
                    let mut acc: u64 = v;
                    let mut left: i128 = self.exponent;
                    while left > 0
                        invariant
                            0 <= left <= self.exponent,
                            acc >= 1,
                            v == self@.mantissa(),
                            acc * pow10(left as nat) == v * pow10(self.exponent as nat),
                        decreases left,
                    {
                        if acc > u64::MAX / 10 {
                            proof {
                                let rest = pow10((left - 1) as nat);
                                lemma_pow10_positive((left - 1) as nat);
                                assert(pow10(left as nat) == 10 * rest);
                                assert(acc * (10 * rest) >= acc * 10) by (nonlinear_arith)
                                    requires
                                        rest >= 1,
                                ;
                            }
                            return u64::MAX;
                        }
                        proof {
                            let rest = pow10((left - 1) as nat);
                            assert(pow10(left as nat) == 10 * rest);
                            assert((acc * 10) * rest == acc * (10 * rest)) by (nonlinear_arith);
                        }
                        acc = acc * 10;
                        left = left - 1;
                    }
                    assert(acc * pow10(0) == acc) by (nonlinear_arith)
                        requires
                            pow10(0) == 1,
                    ;
                    acc
                },
            }
        } else {
            let dropped: u128 = ((-(self.exponent + 1)) as u128) + 1;
            assert(dropped as int == -(self.exponent as int));
            if dropped > len as u128 {
                proof {
                    lemma_digits_value_bound(ds);
                    lemma_pow10_monotonic(len as nat, (dropped - 1) as nat);
                    let p = pow10(dropped as nat);
                    assert(p == 10 * pow10((dropped - 1) as nat));
                    let x = 2 * digits_value(ds) + p;
                    assert(x < 2 * p);
                    lemma_fundamental_div_mod_converse(x as int, 2 * p as int, 0, x as int);
                }
                return 0;
            }
            let keep: usize = len - (dropped as usize);
            proof {
                lemma_round_split(ds, keep as int);
            }
            match prefix_value(&self.digits, keep) {
                None => u64::MAX,
                Some(a) => {
                    if self.digits[keep] >= 5 {
                        if a == u64::MAX {
                            u64::MAX
                        } else {
                            a + 1
                        }
                    } else {
                        a
                    }
                },
            }
        }
    }
}

/// The value of the first `keep` digits, or `None` where it does not fit in
/// 64 bits.
fn prefix_value(digits: &Vec<u8>, keep: usize) -> (r: Option<u64>)
    requires
        all_digits(digits@),
        keep <= digits.len(),
    ensures
        match r {
            Some(v) => v == digits_value(digits@.take(keep as int)),
            None => digits_value(digits@.take(keep as int)) > u64::MAX,
        },
{
    let mut acc: u64 = 0;
    let mut j: usize = 0;
    assert(digits@.take(0) =~= Seq::<u8>::empty());
    while j < keep
        invariant
            j <= keep <= digits.len(),
            all_digits(digits@),
            acc == digits_value(digits@.take(j as int)),
        decreases keep - j,
    {
        let d: u64 = digits[j] as u64;
        proof {
            assert(digits@.take(j + 1).drop_last() =~= digits@.take(j as int));
            assert(digits@.take(j + 1).last() == digits@[j as int]);
        }
        if acc > (u64::MAX - d) / 10 {
            proof {
                lemma_take_monotonic(digits@, j + 1, keep as int);
            }
            return None;
        }
        acc = acc * 10 + d;
        j += 1;
    }
    Some(acc)
}

/// A power of ten is at least one.
pub proof fn lemma_pow10_positive(n: nat)
    ensures
        pow10(n) >= 1,
    decreases n,
{
    if n > 0 {
        lemma_pow10_positive((n - 1) as nat);
    }
}

/// Powers of ten grow with the exponent.
pub proof fn lemma_pow10_monotonic(a: nat, b: nat)
    requires
        a <= b,
    ensures
        pow10(a) <= pow10(b),
    decreases b,
{
    if a < b {
        lemma_pow10_monotonic(a, (b - 1) as nat);
    }
}

/// A product with a factor of at least one is no less than the other factor.
proof fn lemma_mul_at_least(m: nat, p: nat)
    requires
        p >= 1,
    ensures
        m * p >= m,
{
    assert(m * p >= m) by (nonlinear_arith)
        requires
            p >= 1,
    ;
}

/// `n` digits write a number below the `n`th power of ten.
pub proof fn lemma_digits_value_bound(ds: Seq<u8>)
    requires
        all_digits(ds),
    ensures
        digits_value(ds) < pow10(ds.len()),
    decreases ds.len(),
{
    if ds.len() > 0 {
        lemma_digits_value_bound(ds.drop_last());
    }
}

/// The value of a digit string in terms of its first `k` digits and the rest.
pub proof fn lemma_digits_value_split(ds: Seq<u8>, k: int)
    requires
        0 <= k <= ds.len(),
    ensures
        digits_value(ds) == digits_value(ds.take(k)) * pow10((ds.len() - k) as nat) + digits_value(
            ds.skip(k),
        ),
    decreases ds.len(),
{
    if k == ds.len() {
        assert(ds.take(k) =~= ds);
        assert(ds.skip(k) =~= Seq::<u8>::empty());
        assert(digits_value(ds) * 1 == digits_value(ds)) by (nonlinear_arith);
    } else {
        let front = ds.drop_last();
        lemma_digits_value_split(front, k);
        assert(front.take(k) =~= ds.take(k));
        assert(front.skip(k) =~= ds.skip(k).drop_last());
        assert(ds.skip(k).last() == ds.last());
        let a = digits_value(ds.take(k));
        let p = pow10((front.len() - k) as nat);
        assert(pow10((ds.len() - k) as nat) == 10 * p);
        assert(10 * (a * p) == a * (10 * p)) by (nonlinear_arith);
    }
}

/// A longer prefix of a digit string writes no smaller a number.
proof fn lemma_take_monotonic(ds: Seq<u8>, j: int, k: int)
    requires
        0 <= j <= k <= ds.len(),
    ensures
        digits_value(ds.take(j)) <= digits_value(ds.take(k)),
    decreases k - j,
{
    if j < k {
        lemma_take_monotonic(ds, j, k - 1);
        assert(ds.take(k).drop_last() =~= ds.take(k - 1));
    }
}

/// Rounding after the first `keep` digits adds one to what they write where
/// the next digit is five or more, and nothing otherwise.
proof fn lemma_round_split(ds: Seq<u8>, keep: int)
    requires
        all_digits(ds),
        0 <= keep < ds.len(),
    ensures
        round_scaled(digits_value(ds), -(ds.len() - keep)) == digits_value(ds.take(keep))
            + round_up(ds[keep]),
{
    let d = (ds.len() - keep) as nat;
    let q = pow10((d - 1) as nat);
    let p = pow10(d);
    assert(p == 10 * q);
    lemma_pow10_positive((d - 1) as nat);
    let a = digits_value(ds.take(keep));
    let tail = ds.skip(keep);
    lemma_digits_value_split(ds, keep);
    lemma_digits_value_split(tail, 1);
    assert(tail.take(1).drop_last() =~= Seq::<u8>::empty());
    assert(digits_value(Seq::<u8>::empty()) == 0);
    assert(digits_value(tail.take(1)) == tail[0] as nat);
    let b0 = ds[keep] as nat;
    assert(tail[0] == ds[keep]);
    let rest = digits_value(tail.skip(1));
    assert(all_digits(tail.skip(1)));
    lemma_digits_value_bound(tail.skip(1));
    assert(rest < q);
    let m = digits_value(ds);
    assert(m == a * p + (b0 * q + rest));
    let x = (2 * m + p) as int;
    let up: nat = if b0 >= 5 {
        1
    } else {
        0
    };
    let quotient = (a + up) as int;
    let remainder = x - quotient * (2 * p);
    assert(0 <= remainder < 2 * p) by (nonlinear_arith)
        requires
            remainder == x - quotient * (2 * p),
            x == 2 * (a * p + (b0 * q + rest)) + p,
            quotient == a + up,
            p == 10 * q,
            rest < q,
            b0 <= 9,
            up == if b0 >= 5 {
                1nat
            } else {
                0nat
            },
    ;
    lemma_fundamental_div_mod_converse(x, 2 * p as int, quotient, remainder);
}

} // verus!
