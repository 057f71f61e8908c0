//! Whole numbers as the store writes them: in decimal, with a minus sign
//! before a negative number.

use vstd::prelude::*;
use vstd::string::{StrSliceExecFns, StringExecFns};

verus! {

/// The character of a digit.
pub open spec fn digit_char(digit: int) -> char {
    if digit == 0 {
        '0'
    } else if digit == 1 {
        '1'
    } else if digit == 2 {
        '2'
    } else if digit == 3 {
        '3'
    } else if digit == 4 {
        '4'
    } else if digit == 5 {
        '5'
    } else if digit == 6 {
        '6'
    } else if digit == 7 {
        '7'
    } else if digit == 8 {
        '8'
    } else {
        '9'
    }
}

/// The digit that a character stands for, if it is one.
pub open spec fn digit_value(c: char) -> Option<int> {
    if c == '0' {
        Some(0)
    } else if c == '1' {
        Some(1)
    } else if c == '2' {
        Some(2)
    } else if c == '3' {
        Some(3)
    } else if c == '4' {
        Some(4)
    } else if c == '5' {
        Some(5)
    } else if c == '6' {
        Some(6)
    } else if c == '7' {
        Some(7)
    } else if c == '8' {
        Some(8)
    } else if c == '9' {
        Some(9)
    } else {
        None
    }
}

/// The digits of a natural number, most significant first.
pub open spec fn digits(n: nat) -> Seq<char>
    decreases n,
{
    if n < 10 {
        seq![digit_char(n as int)]
    } else {
        digits(n / 10).push(digit_char((n % 10) as int))
    }
}

/// A whole number in decimal.
pub open spec fn decimal(n: int) -> Seq<char> {
    if n < 0 {
        seq!['-'] + digits((-n) as nat)
    } else {
        digits(n as nat)
    }
}

/// Whether every character is a digit.
pub open spec fn all_digits(text: Seq<char>) -> bool {
    forall|i: int| 0 <= i < text.len() ==> digit_value(#[trigger] text[i]) is Some
}

/// The natural number that a run of digits stands for.
pub open spec fn digits_value(text: Seq<char>) -> nat
    decreases text.len(),
{
    if text.len() == 0 {
        0
    } else {
        match digit_value(text.last()) {
            Some(digit) => (digits_value(text.drop_last()) * 10 + digit) as nat,
            None => digits_value(text.drop_last()) * 10,
        }
    }
}

/// The whole number that a text stands for: one or more digits, after a
/// minus sign or not.
pub open spec fn read_decimal(text: Seq<char>) -> Option<int> {
    if text.len() > 0 && text[0] == '-' {
        if text.len() > 1 && all_digits(text.drop_first()) {
            Some(-(digits_value(text.drop_first()) as int))
        } else {
            None
        }
    } else if text.len() > 0 && all_digits(text) {
        Some(digits_value(text) as int)
    } else {
        None
    }
}

/// The number that a text stands for, if it stands for one that an `i64`
/// holds.
pub open spec fn read_number(text: Seq<char>) -> Option<i64> {
    match read_decimal(text) {
        Some(n) => if i64::MIN <= n <= i64::MAX {
            Some(n as i64)
        } else {
            None
        },
        None => None,
    }
}

/// The digits of a number are digits, and they stand for the number.
pub proof fn lemma_digits_read_back(n: nat)
    ensures
        digits(n).len() > 0,
        all_digits(digits(n)),
        digits_value(digits(n)) == n,
    decreases n,
{
    if n < 10 {
        assert(digits(n).drop_last().len() == 0);
        assert(digits_value(digits(n).drop_last()) == 0);
        assert(digit_value(digits(n).last()) == Some(n as int));
        assert(digits_value(digits(n)) == n);
    } else {
        lemma_digits_read_back(n / 10);
        let front = digits(n / 10);
        assert(digits(n).drop_last() =~= front);
        assert(digit_value(digits(n).last()) == Some((n % 10) as int));
        assert(digits_value(digits(n)) == (n / 10) * 10 + n % 10);
        assert forall|i: int| 0 <= i < digits(n).len() implies digit_value(
            #[trigger] digits(n)[i],
        ) is Some by {
            if i < front.len() {
                assert(digits(n)[i] == front[i]);
            }
        }
    }
}

/// A number that is written in decimal reads back as itself.
pub proof fn law_number_round_trip(n: i64)
    ensures
        read_number(decimal(n as int)) == Some(n),
{
    let text = decimal(n as int);
    if n < 0 {
        let magnitude = (-n) as nat;
        lemma_digits_read_back(magnitude);
        assert(text.drop_first() =~= digits(magnitude));
    } else {
        lemma_digits_read_back(n as nat);
        assert(digit_value(text[0]) is Some);
    }
}

/// A longer run of digits stands for no smaller a number.
pub proof fn lemma_digits_value_grows(text: Seq<char>, k: int)
    requires
        0 <= k <= text.len(),
    ensures
        digits_value(text.take(k)) <= digits_value(text),
    decreases text.len() - k,
{
    if k == text.len() {
        assert(text.take(k) =~= text);
    } else {
        lemma_digits_value_grows(text, k + 1);
        assert(text.take(k + 1).drop_last() =~= text.take(k));
    }
}

/// The text of a digit.
pub fn digit_text(digit: u64) -> (text: &'static str)
    requires
        digit < 10,
    ensures
        text@ == seq![digit_char(digit as int)],
{
    proof {
        reveal_strlit("0");
        reveal_strlit("1");
        reveal_strlit("2");
        reveal_strlit("3");
        reveal_strlit("4");
        reveal_strlit("5");
        reveal_strlit("6");
        reveal_strlit("7");
        reveal_strlit("8");
        reveal_strlit("9");
    }
    let text = if digit == 0 {
        "0"
    } else if digit == 1 {
        "1"
    } else if digit == 2 {
        "2"
    } else if digit == 3 {
        "3"
    } else if digit == 4 {
        "4"
    } else if digit == 5 {
        "5"
    } else if digit == 6 {
        "6"
    } else if digit == 7 {
        "7"
    } else if digit == 8 {
        "8"
    } else {
        "9"
    };
    assert(text@ =~= seq![digit_char(digit as int)]);
    text
}

/// The digits of a natural number.
pub fn digits_text(n: u64) -> (text: String)
    ensures
        text@ == digits(n as nat),
    decreases n,
{
    if n < 10 {
        digit_text(n).to_owned()
    } else {
        let mut text = digits_text(n / 10);
        text.append(digit_text(n % 10));
        text
    }
}

/// Writes a number in decimal.
pub fn format_number(n: i64) -> (text: String)
    ensures
        text@ == decimal(n as int),
{
    if n < 0 {
        let magnitude: u64 = (-(n + 1)) as u64 + 1;
        let mut text = "-".to_owned();
        proof {
            reveal_strlit("-");
            assert("-"@ =~= seq!['-']);
        }
        text.append(digits_text(magnitude).as_str());
        text
    } else {
        digits_text(n as u64)
    }
}

/// The digit that a character stands for, if it is one.
pub fn digit_of(c: char) -> (digit: Option<u64>)
    ensures
        match digit {
            Some(d) => digit_value(c) == Some(d as int),
            None => digit_value(c) is None,
        },
{
    if c == '0' {
        Some(0)
    } else if c == '1' {
        Some(1)
    } else if c == '2' {
        Some(2)
    } else if c == '3' {
        Some(3)
    } else if c == '4' {
        Some(4)
    } else if c == '5' {
        Some(5)
    } else if c == '6' {
        Some(6)
    } else if c == '7' {
        Some(7)
    } else if c == '8' {
        Some(8)
    } else if c == '9' {
        Some(9)
    } else {
        None
    }
}

/// Reads a number written in decimal.
pub fn parse_number(text: &str) -> (number: Option<i64>)
    ensures
        number == read_number(text@),
{
    let length = text.unicode_len();
    if length == 0 {
        return None;
    }
    let negative = text.get_char(0) == '-';
    let start: usize = if negative {
        1
    } else {
        0
    };
    if start == length {
        return None;
    }
    let ghost run = if negative {
        text@.drop_first()
    } else {
        text@
    };
    let mut value: u64 = 0;
    let mut i: usize = start;
    while i < length
        invariant
            start <= i <= length,
            start < length,
            length == text@.len(),
            negative == (text@[0] == '-'),
            start == if negative {
                1usize
            } else {
                0usize
            },
            run == if negative {
                text@.drop_first()
            } else {
                text@
            },
            all_digits(run.take(i - start)),
            value == digits_value(run.take(i - start)),
            value <= 9223372036854775808,
        decreases length - i,
    {
        let c = text.get_char(i);
        proof {
            assert(run[i - start] == c);
            assert(run.take(i - start + 1).drop_last() =~= run.take(i - start));
            assert(run.take(i - start + 1).last() == c);
            lemma_digits_value_grows(run, i - start + 1);
        }
        let digit = match digit_of(c) {
            Some(digit) => digit,
            None => {
                assert(digit_value(run[i - start]) is None);
                return None;
            },
        };
        assert(digits_value(run.take(i - start + 1)) == value * 10 + digit);
        if value > (9223372036854775808 - digit) / 10 {
            assert(digits_value(run) > 9223372036854775808);
            return None;
        }
        value = value * 10 + digit;
        proof {
            assert forall|j: int| 0 <= j < run.take(i - start + 1).len() implies digit_value(
                #[trigger] run.take(i - start + 1)[j],
            ) is Some by {
                if j < i - start {
                    assert(run.take(i - start + 1)[j] == run.take(i - start)[j]);
                }
            }
        }
        i += 1;
    }
    proof {
        assert(run.take(i - start) =~= run);
    }
    if negative {
        if value == 9223372036854775808 {
            Some(i64::MIN)
        } else {
            Some(-(value as i64))
        }
    } else if value <= 9223372036854775807 {
        Some(value as i64)
    } else {
        None
    }
}

} // verus!
