//! Natural numbers in decimal.

use vstd::prelude::*;
use vstd::string::{StrSliceExecFns, StringExecFns};

verus! {

/// The decimal digit for `d`, which is below ten.
pub open spec fn digit(d: nat) -> char {
    if d == 0 {
        '0'
    } else if d == 1 {
        '1'
    } else if d == 2 {
        '2'
    } else if d == 3 {
        '3'
    } else if d == 4 {
        '4'
    } else if d == 5 {
        '5'
    } else if d == 6 {
        '6'
    } else if d == 7 {
        '7'
    } else if d == 8 {
        '8'
    } else {
        '9'
    }
}

/// Whether `c` is a decimal digit.
pub open spec fn is_digit(c: char) -> bool {
    c == '0' || c == '1' || c == '2' || c == '3' || c == '4' || c == '5' || c == '6' || c == '7'
        || c == '8' || c == '9'
}

/// The number that a decimal digit stands for.
pub open spec fn digit_value(c: char) -> nat {
    if c == '1' {
        1
    } else if c == '2' {
        2
    } else if c == '3' {
        3
    } else if c == '4' {
        4
    } else if c == '5' {
        5
    } else if c == '6' {
        6
    } else if c == '7' {
        7
    } else if c == '8' {
        8
    } else if c == '9' {
        9
    } else {
        0
    }
}

/// A natural number in decimal, without leading zeros.
pub open spec fn digits(n: nat) -> Seq<char>
    decreases n,
{
    if n < 10 {
        seq![digit(n)]
    } else {
        digits(n / 10).push(digit(n % 10))
    }
}

/// An integer in decimal: a minus sign where it is negative, then its digits.
pub open spec fn decimal(v: int) -> Seq<char> {
    if v < 0 {
        seq!['-'] + digits((-v) as nat)
    } else {
        digits(v as nat)
    }
}

/// The number that a row of digits stands for.
pub open spec fn value(s: Seq<char>) -> nat
    decreases s.len(),
{
    if s.len() == 0 {
        0
    } else {
        10 * value(s.drop_last()) + digit_value(s.last())
    }
}

/// Whether `s` is a number in decimal as it is written: digits only, at least one,
/// and no zero in front of another digit.
pub open spec fn canonical(s: Seq<char>) -> bool {
    &&& s.len() > 0
    &&& forall|i: int| 0 <= i < s.len() ==> is_digit(#[trigger] s[i])
    &&& s.len() > 1 ==> s[0] != '0'
}

/// The number below 2^32 that `s` is the decimal form of.
pub open spec fn number_in(s: Seq<char>) -> Option<u32> {
    if canonical(s) && value(s) <= u32::MAX {
        Some(value(s) as u32)
    } else {
        None
    }
}

/// Ten to the power of `k`.
pub open spec fn pow10(k: nat) -> nat
    decreases k,
{
    if k == 0 {
        1
    } else {
        10 * pow10((k - 1) as nat)
    }
}

/// The decimal form of a number is canonical and stands for the number.
pub proof fn lemma_digits_read_back(n: nat)
    ensures
        canonical(digits(n)),
        value(digits(n)) == n,
        n > 0 ==> digits(n)[0] != '0',
        n >= 10 ==> digits(n).len() >= 2,
    decreases n,
{
    let s = digits(n);
    if n < 10 {
        assert(value(s.drop_last()) == 0);
    } else {
        lemma_digits_read_back(n / 10);
        assert(s.drop_last() =~= digits(n / 10));
    }
}

/// A canonical row of digits is the decimal form of the number it stands for.
pub proof fn lemma_canonical_is_digits(s: Seq<char>)
    requires
        canonical(s),
    ensures
        digits(value(s)) == s,
    decreases s.len(),
{
    let head = s.drop_last();
    if s.len() == 1 {
        assert(value(head) == 0);
    } else {
        assert forall|i: int| 0 <= i < head.len() implies is_digit(#[trigger] head[i]) by {}
        lemma_canonical_is_digits(head);
    }
}

/// A number below ten to the `k` has at most `k` digits.
pub proof fn lemma_digits_len(n: nat, k: nat)
    requires
        k >= 1,
        n < pow10(k),
    ensures
        digits(n).len() <= k,
    decreases k,
{
    if n >= 10 {
        if k == 1 {
            assert(pow10(1) == 10) by {
                reveal_with_fuel(pow10, 2);
            }
        } else {
            lemma_digits_len(n / 10, (k - 1) as nat);
        }
    }
}

/// A number that fits 32 bits has at most ten digits.
pub proof fn lemma_u32_has_ten_digits(n: nat)
    requires
        n <= u32::MAX,
    ensures
        digits(n).len() <= 10,
{
    assert(pow10(10) == 10_000_000_000) by {
        reveal_with_fuel(pow10, 11);
    }
    lemma_digits_len(n, 10);
}

/// The number that a decimal digit stands for, `None` for another character.
pub fn digit_of(c: char) -> (d: Option<u8>)
    ensures
        match d {
            Some(d) => is_digit(c) && d == digit_value(c) && d < 10,
            None => !is_digit(c),
        },
{
    if c == '0' {
        Some(0)
    } else if c == '1' {
        Some(1)
    } else if c == '2' {
        Some(2)
    } else if c == '3' {
        Some(3)
    } else if c == '4' {
        Some(4)
    } else if c == '5' {
        Some(5)
    } else if c == '6' {
        Some(6)
    } else if c == '7' {
        Some(7)
    } else if c == '8' {
        Some(8)
    } else if c == '9' {
        Some(9)
    } else {
        None
    }
}

/// Reads a number below 2^32 from its decimal form. Anything else is `None`: an
/// empty text, a sign, a space, a zero in front, a number too large.
pub fn read_decimal(s: &str) -> (v: Option<u32>)
    ensures
        v == number_in(s@),
{
    let len = s.unicode_len();
    if len == 0 {
        return None;
    }
    if len > 10 {
        proof {
            if canonical(s@) && value(s@) <= u32::MAX {
                lemma_canonical_is_digits(s@);
                lemma_u32_has_ten_digits(value(s@));
            }
        }
        return None;
    }
    let mut acc: u64 = 0;
    let mut i: usize = 0;
    while i < len
        invariant
            i <= len,
            len == s@.len(),
            len <= 10,
            acc == value(s@.take(i as int)),
            acc < pow10(i as nat),
            forall|j: int| 0 <= j < i ==> is_digit(#[trigger] s@[j]),
            i > 1 ==> s@[0] != '0',
        decreases len - i,
    {
        let c = s.get_char(i);
        let d = match digit_of(c) {
            None => {
                return None;
            },
            Some(d) => d,
        };
        if i == 1 && s.get_char(0) == '0' {
            return None;
        }
        proof {
            let next = s@.take(i + 1);
            assert(next.drop_last() =~= s@.take(i as int));
            assert(pow10(10) == 10_000_000_000) by {
                reveal_with_fuel(pow10, 11);
            }
            lemma_pow10_grows(i as nat, 10);
        }
        acc = acc * 10 + d as u64;
        i += 1;
    }
    assert(s@.take(len as int) =~= s@);
    if acc <= 4294967295 {
        Some(acc as u32)
    } else {
        None
    }
}

/// Powers of ten grow with the exponent.
pub proof fn lemma_pow10_grows(a: nat, b: nat)
    requires
        a <= b,
    ensures
        pow10(a) <= pow10(b),
        pow10(a) >= 1,
    decreases b,
{
    if a < b {
        lemma_pow10_grows(a, (b - 1) as nat);
    } else if a > 0 {
        lemma_pow10_grows((a - 1) as nat, (a - 1) as nat);
    }
}

/// The text of one decimal digit.
fn digit_text(d: u8) -> (text: &'static str)
    requires
        d < 10,
    ensures
        text@ == seq![digit(d as nat)],
{
    proof {
        reveal_strlit("0");
        reveal_strlit("1");
        reveal_strlit("2");
        reveal_strlit("3");
        reveal_strlit("4");
        reveal_strlit("5");
        reveal_strlit("6");
        reveal_strlit("7");
        reveal_strlit("8");
        reveal_strlit("9");
    }
    let text = if d == 0 {
        "0"
    } else if d == 1 {
        "1"
    } else if d == 2 {
        "2"
    } else if d == 3 {
        "3"
    } else if d == 4 {
        "4"
    } else if d == 5 {
        "5"
    } else if d == 6 {
        "6"
    } else if d == 7 {
        "7"
    } else if d == 8 {
        "8"
    } else {
        "9"
    };
    text
}

/// Writes a natural number in decimal.
pub fn write_digits(n: u64) -> (text: String)
    ensures
        text@ == digits(n as nat),
    decreases n,
{
    if n < 10 {
        digit_text(n as u8).to_owned()
    } else {
        let mut text = write_digits(n / 10);
        text.append(digit_text((n % 10) as u8));
        text
    }
}

/// Writes an integer in decimal.
pub fn write_decimal(v: i64) -> (text: String)
    ensures
        text@ == decimal(v as int),
{
    if v < 0 {
        let magnitude: u64 = ((-(v + 1)) as u64) + 1;
        let mut text = "-".to_owned();
        text.append(write_digits(magnitude).as_str());
        proof {
            reveal_strlit("-");
        }
        text
    } else {
        write_digits(v as u64)
    }
}

} // verus!
