//! Numbers in IEEE 754 binary64, held by their bits and written in decimal.
//!
//! Such a number is a sign, a significand and a power of two. Whole-number
//! arithmetic on these three says exactly which decimal text stands for the
//! number when one digit is kept behind the point.

use crate::decimal::{digit_char, digit_text, natural_text, push_natural};
use vstd::arithmetic::power2::{
    lemma2_to64, lemma2_to64_rest, lemma_pow2_pos, lemma_pow2_strictly_increases,
    lemma_pow2_unfold, pow2,
};
use vstd::prelude::*;
use vstd::string::*;

verus! {

/// The bit of the sign, above sixty-three bits of magnitude.
pub const SIGN_BIT: u64 = 0x8000_0000_0000_0000;

/// Two to the fifty-second: the bit that a normal number hides above the
/// fifty-two bits of its fraction.
pub const HIDDEN_BIT: u64 = 0x10_0000_0000_0000;

/// A number in IEEE 754 binary64, held by its bits.
#[derive(Clone, Copy, Debug, PartialEq, Eq, Structural)]
pub struct Binary64 {
    pub bits: u64,
}

/// The quotient of `n` by `d`, rounded to the nearest whole number, and to
/// the even one where two are equally near.
pub open spec fn rounded_quotient(n: nat, d: nat) -> nat {
    let q = n / d;
    let r = n % d;
    if 2 * r > d || (2 * r == d && q % 2 == 1) {
        q + 1
    } else {
        q
    }
}

/// The rounded quotient is a whole number nearest to the true quotient: it
/// is off by half at most, and where it is off by half it is even.
pub proof fn lemma_rounded_quotient_is_nearest(n: nat, d: nat)
    requires
        d > 0,
    ensures
        -(d as int) <= 2 * (rounded_quotient(n, d) * d - n) <= d,
        2 * (rounded_quotient(n, d) * d - n) == d || 2 * (rounded_quotient(n, d) * d - n) == -(
        d as int) ==> rounded_quotient(n, d) % 2 == 0,
{
    let q = n / d;
    let r = n % d;
    assert(n == q * d + r && 0 <= r < d) by (nonlinear_arith)
        requires
            d > 0,
            q == n / d,
            r == n % d,
    ;
    assert((q + 1) * d == q * d + d) by (nonlinear_arith);
}

impl Binary64 {
    /// Whether the sign is set.
    pub open spec fn is_negative(self) -> bool {
        self.bits >= SIGN_BIT
    }

    /// The eleven bits of the exponent, as they are stored.
    pub open spec fn biased_exponent(self) -> nat {
        ((self.bits as nat) / (HIDDEN_BIT as nat)) % 2048
    }

    /// The fifty-two bits of the fraction.
    pub open spec fn fraction(self) -> nat {
        (self.bits as nat) % (HIDDEN_BIT as nat)
    }

    /// Whether the bits stand for a number, and not for an infinity or for
    /// what is not a number.
    pub open spec fn is_finite(self) -> bool {
        self.biased_exponent() != 2047
    }

    /// Whether the bits stand for what is not a number.
    pub open spec fn is_nan(self) -> bool {
        !self.is_finite() && self.fraction() != 0
    }

    /// The significand of a finite number: its magnitude is the significand
    /// times two to the `exponent`.
    pub open spec fn significand(self) -> nat {
        if self.biased_exponent() == 0 {
            self.fraction()
        } else {
            self.fraction() + HIDDEN_BIT as nat
        }
    }

    /// The power of two that scales the significand of a finite number.
    pub open spec fn exponent(self) -> int {
        if self.biased_exponent() == 0 {
            -1074
        } else {
            self.biased_exponent() - 1075
        }
    }

    /// Ten times the magnitude of a finite number, rounded to the nearest
    /// whole number, and to the even one where two are equally near.
    pub open spec fn tenths(self) -> nat {
        if self.exponent() >= 0 {
            10 * self.significand() * pow2(self.exponent() as nat)
        } else {
            rounded_quotient(10 * self.significand(), pow2((-self.exponent()) as nat))
        }
    }

    /// The number in decimal with one digit behind the point, rounded to the
    /// nearest such text, and to the one with an even last digit where two
    /// are equally near. A set sign shows as `-`, also before a zero. The
    /// infinities are `inf` and `-inf`; what is not a number is `NaN`.
    pub open spec fn one_decimal(self) -> Seq<char> {
        if self.is_nan() {
            seq!['N', 'a', 'N']
        } else {
            let sign = if self.is_negative() {
                seq!['-']
            } else {
                Seq::<char>::empty()
            };
            if self.is_finite() {
                sign + natural_text(self.tenths() / 10) + seq!['.', digit_char(
                    (self.tenths() % 10) as int,
                )]
            } else {
                sign + seq!['i', 'n', 'f']
            }
        }
    }
}

/// The number that the decimal digits `digits` write, the first weighing
/// most.
pub open spec fn digits_number(digits: Seq<u8>) -> nat
    decreases digits.len(),
{
    if digits.len() == 0 {
        0
    } else {
        10 * digits_number(digits.drop_last()) + digits.last() as nat
    }
}

/// Whether `digits` is the way to write a positive number: digits below
/// ten, at least one, and the first not zero.
pub open spec fn well_written(digits: Seq<u8>) -> bool {
    &&& digits.len() > 0
    &&& digits[0] != 0
    &&& forall|i: int| 0 <= i < digits.len() ==> #[trigger] digits[i] < 10
}

/// The characters of `digits`.
pub open spec fn digits_text(digits: Seq<u8>) -> Seq<char> {
    Seq::new(digits.len(), |i: int| digit_char(digits[i] as int))
}

/// A well-written number is positive, and its text is that of its digits.
proof fn lemma_text_of_well_written(digits: Seq<u8>)
    requires
        well_written(digits),
    ensures
        digits_number(digits) > 0,
        natural_text(digits_number(digits)) == digits_text(digits),
    decreases digits.len(),
{
    let front = digits.drop_last();
    if front.len() == 0 {
        assert(digits_number(front) == 0);
        assert(digits.last() == digits[0]);
        assert(natural_text(digits_number(digits)) =~= digits_text(digits));
    } else {
        assert(front[0] == digits[0]);
        assert(well_written(front)) by {
            assert forall|i: int| 0 <= i < front.len() implies #[trigger] front[i] < 10 by {
                assert(front[i] == digits[i]);
            }
        }
        lemma_text_of_well_written(front);
        let n = digits_number(digits);
        assert(digits.last() < 10);
        assert(n / 10 == digits_number(front) && n % 10 == digits.last());
        assert(digits_text(front).push(digit_char(digits.last() as int)) =~= digits_text(
            digits,
        ));
    }
}

/// The digits that write `n`.
fn digits_in(n: u64) -> (digits: Vec<u8>)
    requires
        n > 0,
    ensures
        well_written(digits@),
        digits_number(digits@) == n,
    decreases n,
{
    if n < 10 {
        let mut digits: Vec<u8> = Vec::new();
        digits.push(n as u8);
        assert(digits@.drop_last() =~= Seq::<u8>::empty());
        assert(digits_number(digits@.drop_last()) == 0);
        digits
    } else {
        let mut digits = digits_in(n / 10);
        let ghost front = digits@;
        digits.push((n % 10) as u8);
        assert(digits@.drop_last() =~= front);
        digits
    }
}

/// Doubles the number that `digits` writes and adds `carry` to it.
fn double(digits: &mut Vec<u8>, carry: u8)
    requires
        carry <= 1,
        forall|i: int| 0 <= i < old(digits)@.len() ==> #[trigger] old(digits)@[i] < 10,
    ensures
        digits_number(final(digits)@) == 2 * digits_number(old(digits)@) + carry,
        forall|i: int| 0 <= i < final(digits)@.len() ==> #[trigger] final(digits)@[i] < 10,
        well_written(old(digits)@) ==> well_written(final(digits)@),
        old(digits)@.len() == 0 && carry == 0 ==> final(digits)@.len() == 0,
        old(digits)@.len() == 0 && carry == 1 ==> final(digits)@ == seq![1u8],
    decreases old(digits)@.len(),
{
    let ghost before = digits@;
    match digits.pop() {
        None => {
            if carry > 0 {
                digits.push(carry);
                assert(digits@ =~= seq![1u8]);
                assert(digits@.drop_last() =~= Seq::<u8>::empty());
                assert(digits_number(digits@.drop_last()) == 0);
            }
            assert(digits_number(before) == 0);
        },
        Some(last) => {
            let ghost front = digits@;
            assert(front =~= before.drop_last());
            assert(last == before.last());
            let twice = 2 * last + carry;
            double(digits, twice / 10);
            let ghost doubled = digits@;
            digits.push(twice % 10);
            assert(digits@.drop_last() =~= doubled);
            assert(digits@.last() == twice % 10);
            proof {
                if well_written(before) {
                    if front.len() == 0 {
                        assert(last == before[0]);
                        assert(twice >= 2);
                    } else {
                        assert(front[0] == before[0]);
                        assert(well_written(front));
                        assert(digits@[0] == doubled[0]);
                    }
                }
            }
        },
    }
}

/// Appends the characters of `digits` to `out`.
fn push_digits(out: &mut String, digits: &Vec<u8>)
    requires
        forall|i: int| 0 <= i < digits@.len() ==> #[trigger] digits@[i] < 10,
    ensures
        final(out)@ == old(out)@ + digits_text(digits@),
{
    let mut i: usize = 0;
    while i < digits.len()
        invariant
            i <= digits@.len(),
            forall|k: int| 0 <= k < digits@.len() ==> #[trigger] digits@[k] < 10,
            out@ == old(out)@ + digits_text(digits@.take(i as int)),
        decreases digits@.len() - i,
    {
        out.append(digit_text(digits[i] as u64));
        assert(digits_text(digits@.take(i + 1)) =~= digits_text(digits@.take(i as int)).push(
            digit_char(digits@[i as int] as int),
        ));
        i += 1;
    }
    assert(digits@.take(i as int) =~= digits@);
}

/// Two to the `e`, for an `e` that leaves it in reach of sixty-four bits.
fn power_of_two(e: u64) -> (p: u64)
    requires
        e <= 62,
    ensures
        p == pow2(e as nat),
        p <= 0x4000_0000_0000_0000,
{
    proof {
        lemma2_to64();
        lemma2_to64_rest();
    }
    let mut p: u64 = 1;
    let mut i: u64 = 0;
    while i < e
        invariant
            i <= e <= 62,
            p == pow2(i as nat),
            pow2(62) == 0x4000_0000_0000_0000,
        decreases e - i,
    {
        proof {
            lemma_pow2_unfold((i + 1) as nat);
            if i + 1 < 62 {
                lemma_pow2_strictly_increases((i + 1) as nat, 62);
            }
        }
        p = p * 2;
        i += 1;
    }
    p
}

/// Divides `n` by two to the `shift` and rounds to the nearest whole number,
/// to the even one where two are equally near.
fn rounded_shift(n: u64, shift: u64) -> (q: u64)
    requires
        n < 0x200_0000_0000_0000,
    ensures
        q == rounded_quotient(n as nat, pow2(shift as nat)),
        q <= n,
{
    if shift >= 58 {
        proof {
            lemma2_to64_rest();
            if shift > 58 {
                lemma_pow2_strictly_increases(58, shift as nat);
            }
            let d = pow2(shift as nat);
            assert(2 * n < d);
            assert((n as nat) / d == 0 && (n as nat) % d == n) by (nonlinear_arith)
                requires
                    n < d,
            ;
        }
        0
    } else {
        let d = power_of_two(shift);
        proof {
            lemma_pow2_pos(shift as nat);
        }
        let q = n / d;
        let r = n % d;
        assert(q <= n) by (nonlinear_arith)
            requires
                q == n / d,
                d >= 1,
        ;
        assert(r < d);
        if 2 * r > d || (2 * r == d && q % 2 == 1) {
            assert(q < n) by (nonlinear_arith)
                requires
                    q == n / d,
                    r == n % d,
                    d >= 1,
                    2 * r >= d,
            ;
            q + 1
        } else {
            q
        }
    }
}

impl Binary64 {
    /// Writes the number in decimal with one digit behind the point.
    pub fn to_one_decimal(&self) -> (text: String)
        ensures
            text@ == self.one_decimal(),
    {
        let negative = self.bits >= SIGN_BIT;
        let biased = (self.bits / HIDDEN_BIT) % 2048;
        let fraction = self.bits % HIDDEN_BIT;
        proof {
            reveal_strlit("NaN");
            reveal_strlit("inf");
            reveal_strlit("-inf");
            reveal_strlit("-");
            reveal_strlit(".");
            reveal_strlit(".0");
        }
        if biased == 2047 {
            let words = if fraction != 0 {
                "NaN"
            } else if negative {
                "-inf"
            } else {
                "inf"
            };
            let text = String::from_str(words);
            assert(text@ =~= self.one_decimal());
            return text;
        }
        let mut text = String::new();
        if negative {
            text.append("-");
        }
        if biased >= 1075 {
            let significand = fraction + HIDDEN_BIT;
            let times = biased - 1075;
            let mut digits = digits_in(significand);
            let mut done: u64 = 0;
            proof {
                lemma2_to64();
            }
            while done < times
                invariant
                    done <= times,
                    well_written(digits@),
                    digits_number(digits@) == significand * pow2(done as nat),
                decreases times - done,
            {
                double(&mut digits, 0);
                proof {
                    lemma_pow2_unfold((done + 1) as nat);
                    assert(2 * (significand * pow2(done as nat)) == significand * (2 * pow2(
                        done as nat,
                    ))) by (nonlinear_arith);
                }
                done += 1;
            }
            push_digits(&mut text, &digits);
            text.append(".0");
            proof {
                lemma_text_of_well_written(digits@);
                let whole = digits_number(digits@);
                assert(self.exponent() == times);
                assert(self.tenths() == 10 * whole) by (nonlinear_arith)
                    requires
                        self.tenths() == 10 * self.significand() * pow2(times as nat),
                        whole == self.significand() * pow2(times as nat),
                ;
                assert(text@ =~= self.one_decimal());
            }
        } else {
            let significand = if biased == 0 {
                fraction
            } else {
                fraction + HIDDEN_BIT
            };
            let shift = if biased == 0 {
                1074
            } else {
                1075 - biased
            };
            let tenths = rounded_shift(significand * 10, shift);
            push_natural(&mut text, tenths / 10);
            text.append(".");
            text.append(digit_text(tenths % 10));
            proof {
                assert(self.exponent() == -shift);
                assert(tenths == self.tenths());
                assert(text@ =~= self.one_decimal());
            }
        }
        text
    }
}

} // verus!
