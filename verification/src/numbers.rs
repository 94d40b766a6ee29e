//! Numbers written in base ten: reading a run of digits out of a text, and
//! writing a number down.

use crate::text::{append, chars_of};
use vstd::prelude::*;

verus! {

/// Whether `c` is one of the digits `0` to `9`.
pub open spec fn is_digit(c: char) -> bool {
    0x30 <= c as int <= 0x39
}

/// The index at which the run of digits that starts at `from` ends.
pub open spec fn digit_run(s: Seq<char>, from: int) -> int
    decreases s.len() - from,
{
    if 0 <= from < s.len() && is_digit(s[from]) {
        digit_run(s, from + 1)
    } else {
        from
    }
}

/// The number that a text of digits writes in base ten.
pub open spec fn decimal(digits: Seq<char>) -> nat
    decreases digits.len(),
{
    if digits.len() == 0 {
        0
    } else {
        decimal(digits.drop_last()) * 10 + (digits.last() as int - 0x30) as nat
    }
}

/// The digit that writes `d`, a number below ten.
pub open spec fn digit_char(d: nat) -> char {
    if d == 0 {
        '0'
    } else if d == 1 {
        '1'
    } else if d == 2 {
        '2'
    } else if d == 3 {
        '3'
    } else if d == 4 {
        '4'
    } else if d == 5 {
        '5'
    } else if d == 6 {
        '6'
    } else if d == 7 {
        '7'
    } else if d == 8 {
        '8'
    } else {
        '9'
    }
}

/// `n` written in base ten, without leading zeros.
pub open spec fn digits_of(n: nat) -> Seq<char>
    decreases n,
{
    if n < 10 {
        seq![digit_char(n)]
    } else {
        digits_of(n / 10).push(digit_char(n % 10))
    }
}

/// What is written for a number is read as that number.
pub proof fn lemma_decimal_of_digits(n: nat)
    ensures
        decimal(digits_of(n)) == n,
        digits_of(n).len() > 0,
        forall|i: int| 0 <= i < digits_of(n).len() ==> is_digit(#[trigger] digits_of(n)[i]),
        digit_run(digits_of(n), 0) == digits_of(n).len(),
        n <= u32::MAX ==> whole_number(digits_of(n)) == Some(n as u32),
    decreases n,
{
    let text = digits_of(n);
    if n < 10 {
        assert(text.drop_last() =~= Seq::<char>::empty());
        assert(decimal(text.drop_last()) == 0);
        assert(is_digit(digit_char(n)));
    } else {
        lemma_decimal_of_digits(n / 10);
        assert(text.drop_last() =~= digits_of(n / 10));
        assert(is_digit(digit_char(n % 10)));
        assert forall|i: int| 0 <= i < text.len() implies is_digit(#[trigger] text[i]) by {
            if i < text.len() - 1 {
                assert(text[i] == digits_of(n / 10)[i]);
            }
        }
    }
    lemma_all_digits(text);
}

/// A text of digits is one run of digits.
pub proof fn lemma_all_digits(text: Seq<char>)
    requires
        forall|i: int| 0 <= i < text.len() ==> is_digit(#[trigger] text[i]),
    ensures
        forall|from: int| 0 <= from <= text.len() ==> #[trigger] digit_run(text, from) == text.len(),
{
    assert forall|from: int| 0 <= from <= text.len() implies #[trigger] digit_run(text, from)
        == text.len() by {
        lemma_digit_run_to_end(text, from);
    }
}

/// From any place in a text of digits the run of digits goes to the end.
pub proof fn lemma_digit_run_to_end(text: Seq<char>, from: int)
    requires
        forall|i: int| 0 <= i < text.len() ==> is_digit(#[trigger] text[i]),
        0 <= from <= text.len(),
    ensures
        digit_run(text, from) == text.len(),
    decreases text.len() - from,
{
    if from < text.len() {
        lemma_digit_run_to_end(text, from + 1);
    }
}

/// `decimal`, held in a `u32`.
pub open spec fn number(digits: Seq<char>) -> u32 {
    if decimal(digits) > u32::MAX {
        u32::MAX
    } else {
        decimal(digits) as u32
    }
}

/// The number that `text` writes, where it holds one or more digits and
/// nothing else.
pub open spec fn whole_number(text: Seq<char>) -> Option<u32> {
    if text.len() > 0 && digit_run(text, 0) == text.len() {
        Some(number(text))
    } else {
        None
    }
}

/// Tells whether `c` is a digit.
pub fn digit(c: char) -> (d: bool)
    ensures
        d == is_digit(c),
{
    let n: u32 = c as u32;
    0x30 <= n && n <= 0x39
}

/// Reads the run of digits of `chars` that starts at `from`: where it ends,
/// and the number it writes.
pub(crate) fn read_digits(chars: &Vec<char>, from: usize) -> (run: (usize, u32))
    requires
        from <= chars@.len(),
    ensures
        run.0 == digit_run(chars@, from as int),
        from <= run.0 <= chars@.len(),
        run.1 == number(chars@.subrange(from as int, run.0 as int)),
{
    let n: usize = chars.len();
    let mut end: usize = from;
    let mut value: u32 = 0;
    assert(chars@.subrange(from as int, from as int) =~= Seq::<char>::empty());
    while end < n && digit(chars[end])
        invariant
            from <= end <= n,
            n == chars@.len(),
            digit_run(chars@, from as int) == digit_run(chars@, end as int),
            value == number(chars@.subrange(from as int, end as int)),
        decreases n - end,
    {
        let d: u64 = (chars[end] as u32 - 0x30) as u64;
        let next: u64 = (value as u64) * 10 + d;
        proof {
            let before = chars@.subrange(from as int, end as int);
            let after = chars@.subrange(from as int, end + 1);
            assert(after.drop_last() == before);
            assert(after.last() == chars@[end as int]);
            assert(decimal(after) == decimal(before) * 10 + d);
        }
        value = if next > 0xFFFF_FFFF {
            u32::MAX
        } else {
            next as u32
        };
        end += 1;
    }
    (end, value)
}

/// The digit that writes `d`.
fn digit_text(d: u32) -> (text: &'static str)
    requires
        d < 10,
    ensures
        text@ == seq![digit_char(d as nat)],
{
    proof {
        reveal_strlit("0");
        reveal_strlit("1");
        reveal_strlit("2");
        reveal_strlit("3");
        reveal_strlit("4");
        reveal_strlit("5");
        reveal_strlit("6");
        reveal_strlit("7");
        reveal_strlit("8");
        reveal_strlit("9");
    }
    let text = if d == 0 {
        "0"
    } else if d == 1 {
        "1"
    } else if d == 2 {
        "2"
    } else if d == 3 {
        "3"
    } else if d == 4 {
        "4"
    } else if d == 5 {
        "5"
    } else if d == 6 {
        "6"
    } else if d == 7 {
        "7"
    } else if d == 8 {
        "8"
    } else {
        "9"
    };
    assert(text@ =~= seq![digit_char(d as nat)]);
    text
}

/// Writes `n` in base ten.
pub fn to_decimal(n: u32) -> (text: String)
    ensures
        text@ == digits_of(n as nat),
{
    let mut text = digit_text(n % 10).to_owned();
    let mut rest: u32 = n / 10;
    while rest > 0
        invariant
            digits_of(n as nat) == if rest > 0 {
                digits_of(rest as nat) + text@
            } else {
                text@
            },
        decreases rest,
    {
        let digit = digit_text(rest % 10);
        proof {
            let d = seq![digit_char((rest % 10) as nat)];
            if rest >= 10 {
                assert(digits_of(rest as nat) + text@ =~= digits_of((rest / 10) as nat) + (d
                    + text@));
            } else {
                assert(digits_of(rest as nat) + text@ =~= d + text@);
            }
        }
        text = append(digit, text.as_str());
        rest = rest / 10;
    }
    text
}

/// Reads a text that is a number and nothing else: one or more digits.
pub fn parse_decimal(text: &str) -> (r: Option<u32>)
    ensures
        r == whole_number(text@),
{
    let chars = chars_of(text);
    if chars.len() == 0 {
        return None;
    }
    let (end, value) = read_digits(&chars, 0);
    if end == chars.len() {
        assert(chars@.subrange(0, end as int) == chars@);
        Some(value)
    } else {
        None
    }
}

} // verus!
