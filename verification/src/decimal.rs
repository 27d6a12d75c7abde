//! Whole numbers written in decimal: reading them and writing them.

use crate::text::{ascii_bytes, writes_ascii};
use vstd::prelude::*;
use vstd::string::*;

verus! {

/// Whether `c` is one of the ten decimal digits.
pub open spec fn is_digit(c: char) -> bool {
    '0' <= c && c <= '9'
}

/// The number that the digit `c` stands for.
pub open spec fn digit_value(c: char) -> int {
    c as int - '0' as int
}

/// Whether every character of `s` is a decimal digit.
pub open spec fn all_digits(s: Seq<char>) -> bool {
    forall|i: int| 0 <= i < s.len() ==> is_digit(#[trigger] s[i])
}

/// The number that the digits of `s` write, the first digit weighing most.
pub open spec fn digits_value(s: Seq<char>) -> int
    decreases s.len(),
{
    if s.len() == 0 {
        0
    } else {
        10 * digits_value(s.drop_last()) + digit_value(s.last())
    }
}

/// Whether `text` opens with a sign.
pub open spec fn has_sign(text: Seq<char>) -> bool {
    text.len() > 0 && (text[0] == '+' || text[0] == '-')
}

/// The digits of `text`, which are all of it but a leading sign.
pub open spec fn digits_of(text: Seq<char>) -> Seq<char> {
    if has_sign(text) {
        text.skip(1)
    } else {
        text
    }
}

/// The whole number that `text` writes, where it writes one: an optional
/// `+` or `-`, then at least one digit, and nothing else.
pub open spec fn signed_decimal(text: Seq<char>) -> Option<int> {
    let digits = digits_of(text);
    if digits.len() == 0 || !all_digits(digits) {
        None
    } else if text[0] == '-' {
        Some(-digits_value(digits))
    } else {
        Some(digits_value(digits))
    }
}

/// The number that `text` writes, where it writes one that an `i64` holds.
pub open spec fn decimal_i64(text: Seq<char>) -> Option<i64> {
    match signed_decimal(text) {
        Some(n) => if i64::MIN <= n <= i64::MAX {
            Some(n as i64)
        } else {
            None
        },
        None => None,
    }
}

/// A run of digits is worth at least as much as each run it starts with,
/// and no run is worth less than nothing.
pub proof fn lemma_digits_value_grows(s: Seq<char>, k: int)
    requires
        all_digits(s),
        0 <= k <= s.len(),
    ensures
        0 <= digits_value(s.take(k)) <= digits_value(s),
    decreases s.len(),
{
    if s.len() == 0 {
        assert(s.take(k) =~= s);
    } else {
        let front = s.drop_last();
        assert(is_digit(s.last()));
        assert(all_digits(front)) by {
            assert forall|i: int| 0 <= i < front.len() implies is_digit(#[trigger] front[i]) by {
                assert(front[i] == s[i]);
            }
        }
        if k == s.len() {
            assert(s.take(k) =~= s);
            lemma_digits_value_grows(front, front.len() as int);
            assert(front.take(front.len() as int) =~= front);
        } else {
            lemma_digits_value_grows(front, k);
            assert(front.take(k) =~= s.take(k));
        }
    }
}

/// A text with a character beyond ASCII writes no number.
proof fn lemma_beyond_ascii_is_no_number(text: Seq<char>)
    requires
        !vstd::utf8::is_ascii_chars(text),
    ensures
        signed_decimal(text) is None,
{
    let i = choose|i: int| 0 <= i < text.len() && !('\0' <= #[trigger] text[i] <= '\u{7f}');
    let digits = digits_of(text);
    if has_sign(text) {
        assert(i > 0);
        assert(digits[i - 1] == text[i]);
        assert(!is_digit(digits[i - 1]));
    } else {
        assert(!is_digit(digits[i]));
    }
}

/// Reads a whole number in decimal: an optional sign, then digits only.
/// There is a result exactly where the text has that shape and the number
/// fits in an `i64`.
pub fn parse_decimal(text: &str) -> (r: Option<i64>)
    ensures
        r == decimal_i64(text@),
{
    let bytes = match ascii_bytes(text) {
        Some(bytes) => bytes,
        None => {
            proof {
                lemma_beyond_ascii_is_no_number(text@);
            }
            return None;
        },
    };
    let n = bytes.len();
    if n == 0 {
        return None;
    }
    let first = bytes[0];
    let negative = first == 45;
    let signed = negative || first == 43;
    assert(signed == has_sign(text@));
    assert(negative == (text@[0] == '-'));
    let start: usize = if signed {
        1
    } else {
        0
    };
    let ghost digits = digits_of(text@);
    assert(digits =~= text@.skip(start as int));
    if start == n {
        return None;
    }
    let limit: u64 = if negative {
        9_223_372_036_854_775_808
    } else {
        9_223_372_036_854_775_807
    };
    let mut total: u64 = 0;
    let mut i: usize = start;
    assert(digits.take(0) =~= Seq::<char>::empty());
    while i < n
        invariant
            start <= i <= n,
            n == bytes@.len(),
            writes_ascii(bytes@, text@),
            digits == text@.skip(start as int),
            digits == digits_of(text@),
            negative == (text@[0] == '-'),
            negative ==> limit == 9_223_372_036_854_775_808,
            !negative ==> limit == 9_223_372_036_854_775_807,
            all_digits(digits.take(i - start)),
            total == digits_value(digits.take(i - start)),
            total <= limit,
            0 < digits.len(),
        decreases n - i,
    {
        let b = bytes[i];
        let ghost c = text@[i as int];
        assert(digits[i - start] == c);
        if b < 48 || b > 57 {
            assert(!all_digits(digits)) by {
                assert(!is_digit(digits[i - start]));
            }
            return None;
        }
        let d: u64 = (b - 48) as u64;
        let ghost longer = digits.take(i + 1 - start);
        assert(longer.drop_last() =~= digits.take(i - start));
        assert(longer.last() == c);
        assert(digits_value(longer) == 10 * total + d);
        if total > (limit - d) / 10 {
            proof {
                if all_digits(digits) {
                    lemma_digits_value_grows(digits, i + 1 - start);
                }
            }
            return None;
        }
        total = total * 10 + d;
        i += 1;
    }
    assert(digits.take(n - start) =~= digits);
    if negative {
        if total == 9_223_372_036_854_775_808 {
            Some(i64::MIN)
        } else {
            Some(-(total as i64))
        }
    } else {
        Some(total as i64)
    }
}

/// The character that writes the digit `d`.
pub open spec fn digit_char(d: int) -> char {
    seq!['0', '1', '2', '3', '4', '5', '6', '7', '8', '9'][d]
}

/// The digits that write `n`, without leading zeros.
pub open spec fn natural_text(n: nat) -> Seq<char>
    decreases n,
{
    if n < 10 {
        seq![digit_char(n as int)]
    } else {
        natural_text(n / 10).push(digit_char((n % 10) as int))
    }
}

/// The text that writes `n` in decimal, with a `-` before it where `n` is
/// negative.
pub open spec fn decimal_text(n: int) -> Seq<char> {
    if n < 0 {
        seq!['-'] + natural_text((-n) as nat)
    } else {
        natural_text(n as nat)
    }
}

/// The character of a digit is a digit, and stands for it.
proof fn lemma_digit_char(d: int)
    requires
        0 <= d <= 9,
    ensures
        is_digit(digit_char(d)),
        digit_value(digit_char(d)) == d,
        digit_char(d) != '-',
        digit_char(d) != '+',
{
}

/// The text of a natural number is made of digits, and they write it.
proof fn lemma_natural_text_reads_back(n: nat)
    ensures
        natural_text(n).len() > 0,
        all_digits(natural_text(n)),
        digits_value(natural_text(n)) == n,
    decreases n,
{
    let text = natural_text(n);
    if n < 10 {
        lemma_digit_char(n as int);
        assert(text.drop_last() =~= Seq::<char>::empty());
        assert(digits_value(text.drop_last()) == 0);
    } else {
        lemma_natural_text_reads_back(n / 10);
        lemma_digit_char((n % 10) as int);
        let front = natural_text(n / 10);
        assert(text.drop_last() =~= front);
        assert forall|i: int| 0 <= i < text.len() implies is_digit(#[trigger] text[i]) by {
            if i < front.len() {
                assert(text[i] == front[i]);
            }
        }
    }
}

/// What `format_decimal` writes of a number, `parse_decimal` reads as that
/// number.
pub proof fn lemma_decimal_round_trip(n: i64)
    ensures
        decimal_i64(decimal_text(n as int)) == Some(n),
{
    let text = decimal_text(n as int);
    if n < 0 {
        let digits = natural_text((-n) as nat);
        lemma_natural_text_reads_back((-n) as nat);
        assert(text[0] == '-');
        assert(digits_of(text) =~= digits);
    } else {
        lemma_natural_text_reads_back(n as nat);
        assert(is_digit(text[0]));
        assert(digits_of(text) =~= text);
    }
}

/// The one-character text of the digit `d`.
pub(crate) fn digit_text(d: u64) -> (r: &'static str)
    requires
        d < 10,
    ensures
        r@ == seq![digit_char(d as int)],
{
    proof {
        reveal_strlit("0");
        reveal_strlit("1");
        reveal_strlit("2");
        reveal_strlit("3");
        reveal_strlit("4");
        reveal_strlit("5");
        reveal_strlit("6");
        reveal_strlit("7");
        reveal_strlit("8");
        reveal_strlit("9");
    }
    let r = if d == 0 {
        "0"
    } else if d == 1 {
        "1"
    } else if d == 2 {
        "2"
    } else if d == 3 {
        "3"
    } else if d == 4 {
        "4"
    } else if d == 5 {
        "5"
    } else if d == 6 {
        "6"
    } else if d == 7 {
        "7"
    } else if d == 8 {
        "8"
    } else {
        "9"
    };
    assert(r@ =~= seq![digit_char(d as int)]);
    r
}

/// Appends the digits of `n` to `out`.
pub(crate) fn push_natural(out: &mut String, n: u64)
    ensures
        final(out)@ == old(out)@ + natural_text(n as nat),
    decreases n,
{
    if n >= 10 {
        push_natural(out, n / 10);
    }
    out.append(digit_text(n % 10));
    assert(final(out)@ =~= old(out)@ + natural_text(n as nat));
}

/// Writes `n` in decimal.
pub fn format_decimal(n: i64) -> (text: String)
    ensures
        text@ == decimal_text(n as int),
{
    let mut text = String::new();
    if n < 0 {
        proof {
            reveal_strlit("-");
        }
        text.append("-");
        let magnitude: u64 = if n == i64::MIN {
            9_223_372_036_854_775_808
        } else {
            (-n) as u64
        };
        push_natural(&mut text, magnitude);
        assert(text@ =~= decimal_text(n as int));
    } else {
        push_natural(&mut text, n as u64);
        assert(text@ =~= decimal_text(n as int));
    }
    text
}

} // verus!
