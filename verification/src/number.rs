//! Decimal numerals: reading a bounded signed integer from text and writing
//! one back.
//!
//! A numeral is an optional sign, `+` or `-`, followed by one or more of
//! the digits `0` to `9`, and nothing else. Its value is read in base ten.

use vstd::prelude::*;
use crate::text::chars_of;

verus! {

/// The least value a guess can have.
pub const MIN_GUESS: i8 = -128;

/// The greatest value a guess can have.
pub const MAX_GUESS: i8 = 127;

/// Whether `c` is one of the digits `0` to `9`.
pub open spec fn is_digit(c: char) -> bool {
    '0' <= c <= '9'
}

/// The value of the digit `c`.
pub open spec fn digit_value(c: char) -> int {
    c as int - '0' as int
}

/// The digit whose value is `d`.
pub open spec fn digit_char(d: int) -> char {
    ('0' as int + d) as char
}

/// Whether every character of `s` is a digit.
pub open spec fn all_digits(s: Seq<char>) -> bool {
    forall|i: int| 0 <= i < s.len() ==> is_digit(#[trigger] s[i])
}

/// The value of the digits `s` in base ten, most significant digit first.
pub open spec fn digits_value(s: Seq<char>) -> int
    decreases s.len(),
{
    if s.len() == 0 {
        0
    } else {
        10 * digits_value(s.drop_last()) + digit_value(s.last())
    }
}

/// Whether `s` starts with a sign.
pub open spec fn has_sign(s: Seq<char>) -> bool {
    s.len() > 0 && (s[0] == '+' || s[0] == '-')
}

/// What follows the sign of `s`, or all of `s` when it has none.
pub open spec fn unsigned_part(s: Seq<char>) -> Seq<char> {
    if has_sign(s) {
        s.drop_first()
    } else {
        s
    }
}

/// Whether `s` is a numeral: an optional sign, then at least one digit and
/// only digits.
pub open spec fn is_numeral(s: Seq<char>) -> bool {
    unsigned_part(s).len() > 0 && all_digits(unsigned_part(s))
}

/// The value of the numeral `s`.
pub open spec fn numeral_value(s: Seq<char>) -> int {
    if s.len() > 0 && s[0] == '-' {
        -digits_value(unsigned_part(s))
    } else {
        digits_value(unsigned_part(s))
    }
}

/// The guess that `s` stands for: the value of `s` if `s` is a numeral whose
/// value lies between `MIN_GUESS` and `MAX_GUESS`, and nothing otherwise.
pub open spec fn parsed_guess(s: Seq<char>) -> Option<i8> {
    if is_numeral(s) && MIN_GUESS <= numeral_value(s) <= MAX_GUESS {
        Some(numeral_value(s) as i8)
    } else {
        None
    }
}

/// A run of digits is worth at least as much as any of its prefixes.
pub proof fn lemma_prefix_value(s: Seq<char>, k: int)
    requires
        all_digits(s),
        0 <= k <= s.len(),
    ensures
        0 <= digits_value(s.take(k)) <= digits_value(s),
    decreases s.len() - k,
{
    if k == s.len() {
        assert(s.take(k) == s);
        lemma_value_nonnegative(s);
    } else {
        assert(s.drop_last().take(k) == s.take(k));
        assert(is_digit(s.last()));
        lemma_prefix_value(s.drop_last(), k);
    }
}

/// A run of digits has a value that is not negative.
pub proof fn lemma_value_nonnegative(s: Seq<char>)
    requires
        all_digits(s),
    ensures
        0 <= digits_value(s),
    decreases s.len(),
{
    if s.len() > 0 {
        assert(is_digit(s.last()));
        lemma_value_nonnegative(s.drop_last());
    }
}

/// Reads `text` as a guess.
pub fn parse_guess(text: &str) -> (guess: Option<i8>)
    ensures
        guess == parsed_guess(text@),
{
    let chars = chars_of(text);
    let n: usize = chars.len();
    let negative: bool = n > 0 && chars[0] == '-';
    let first: usize = if n > 0 && (chars[0] == '+' || chars[0] == '-') {
        1
    } else {
        0
    };
    let ghost digits = unsigned_part(text@);
    assert(digits == text@.skip(first as int));
    if first == n {
        return None;
    }
    // No guess is further from zero than `MIN_GUESS` is.
    let limit: i16 = -(MIN_GUESS as i16);
    let mut magnitude: i16 = 0;
    let mut i: usize = first;
    while i < n
        invariant
            first <= i <= n,
            n == chars.len(),
            chars@ == text@,
            digits == text@.skip(first as int),
            digits == unsigned_part(text@),
            all_digits(digits.take(i - first)),
            magnitude == digits_value(digits.take(i - first)),
            limit == -MIN_GUESS,
            0 <= magnitude <= limit,
        decreases n - i,
    {
        let c: char = chars[i];
        assert(c == digits[i - first]);
        if !('0' <= c && c <= '9') {
            assert(!is_digit(digits[i - first]));
            return None;
        }
        assert(digits.take(i - first + 1).drop_last() == digits.take(i - first));
        magnitude = magnitude * 10 + (c as u8 - '0' as u8) as i16;
        if magnitude > limit {
            proof {
                if all_digits(digits) {
                    lemma_prefix_value(digits, i - first + 1);
                }
            }
            return None;
        }
        i += 1;
    }
    assert(digits.take(n - first) == digits);
    let value: i16 = if negative {
        -magnitude
    } else {
        magnitude
    };
    if MIN_GUESS as i16 <= value && value <= MAX_GUESS as i16 {
        Some(value as i8)
    } else {
        None
    }
}

/// The digits of `n` in base ten, most significant first, without leading
/// zeros; zero is written `0`.
pub open spec fn digits_of(n: nat) -> Seq<char>
    decreases n,
{
    if n < 10 {
        seq![digit_char(n as int)]
    } else {
        digits_of(n / 10).push(digit_char((n % 10) as int))
    }
}

/// The numeral for `n`: its digits, after a `-` when `n` is negative.
pub open spec fn decimal(n: int) -> Seq<char> {
    if n < 0 {
        seq!['-'] + digits_of((-n) as nat)
    } else {
        digits_of(n as nat)
    }
}

/// The digits written for `n` are digits, at least one of them, and their
/// value is `n`.
pub proof fn lemma_digits_round_trip(n: nat)
    ensures
        digits_of(n).len() > 0,
        all_digits(digits_of(n)),
        digits_value(digits_of(n)) == n,
    decreases n,
{
    let last = digit_char((n % 10) as int);
    assert(is_digit(last) && digit_value(last) == n % 10);
    assert(digits_of(n).last() == last);
    if n < 10 {
        assert(digits_of(n).drop_last() == Seq::<char>::empty());
        assert(digits_value(Seq::<char>::empty()) == 0);
    } else {
        lemma_digits_round_trip(n / 10);
        assert(digits_of(n).drop_last() == digits_of(n / 10));
    }
}

/// Reading the numeral written for a guess gives that guess back.
pub proof fn lemma_decimal_round_trip(n: i8)
    ensures
        parsed_guess(decimal(n as int)) == Some(n),
{
    if n < 0 {
        let digits = digits_of((-n) as nat);
        lemma_digits_round_trip((-n) as nat);
        assert(decimal(n as int).drop_first() == digits);
    } else {
        lemma_digits_round_trip(n as nat);
        assert(is_digit(digits_of(n as nat)[0]));
    }
}

/// The one-character text of the digit whose value is `d`.
fn digit_text(d: u8) -> (t: &'static str)
    requires
        d < 10,
    ensures
        t@ == seq![digit_char(d as int)],
{
    proof {
        reveal_strlit("0");
        reveal_strlit("1");
        reveal_strlit("2");
        reveal_strlit("3");
        reveal_strlit("4");
        reveal_strlit("5");
        reveal_strlit("6");
        reveal_strlit("7");
        reveal_strlit("8");
        reveal_strlit("9");
    }
    let t = match d {
        0 => "0",
        1 => "1",
        2 => "2",
        3 => "3",
        4 => "4",
        5 => "5",
        6 => "6",
        7 => "7",
        8 => "8",
        _ => "9",
    };
    assert(t@ =~= seq![digit_char(d as int)]);
    t
}

/// Writes `n` as a numeral.
pub fn decimal_text(n: i8) -> (text: String)
    ensures
        text@ == decimal(n as int),
{
    let mut text = String::new();
    let magnitude: u8 = if n < 0 {
        proof {
            reveal_strlit("-");
        }
        text.append("-");
        (-(n as i16)) as u8
    } else {
        n as u8
    };
    let ghost sign = text@;
    assert(sign =~= if n < 0 { seq!['-'] } else { Seq::<char>::empty() });
    if magnitude >= 100 {
        text.append(digit_text(magnitude / 100));
    }
    if magnitude >= 10 {
        text.append(digit_text((magnitude / 10) % 10));
    }
    text.append(digit_text(magnitude % 10));
    proof {
        reveal_with_fuel(digits_of, 3);
        assert(text@ =~= sign + digits_of(magnitude as nat));
    }
    text
}

} // verus!
