//! Characters and decimal numbers.
use vstd::prelude::*;
use vstd::string::{StrSliceExecFns, StringExecFns};

verus! {

/// The characters of a string.
pub fn characters(s: &str) -> (characters: Vec<char>)
    ensures
        characters@ == s@,
{
    let mut characters: Vec<char> = Vec::new();
    for c in iter: s.chars()
        invariant
            characters@ == iter.seq().take(iter.index()),
            iter.seq() == s@,
    {
        characters.push(c);
    }
    characters
}

/// The value of a decimal digit.
pub open spec fn decimal_digit(c: char) -> Option<nat> {
    if '0' <= c <= '9' {
        Some((c as int - '0' as int) as nat)
    } else {
        None
    }
}

/// The number that decimal digits stand for.
pub open spec fn decimal_value(digits: Seq<char>) -> nat
    decreases digits.len(),
{
    if digits.len() == 0 {
        0
    } else {
        10 * decimal_value(digits.drop_last()) + decimal_digit(digits.last())->0
    }
}

/// Whether all characters are decimal digits.
pub open spec fn all_decimal_digits(digits: Seq<char>) -> bool {
    forall|i: int| 0 <= i < digits.len() ==> decimal_digit(#[trigger] digits[i]) is Some
}

/// A number in decimal digits.
pub open spec fn decimal(number: nat) -> Seq<char>
    decreases number,
{
    if number < 10 {
        seq![(number + '0' as int) as char]
    } else {
        decimal(number / 10).push((number % 10 + '0' as int) as char)
    }
}

/// A number in hexadecimal digits, the letters in lower case.
pub open spec fn hexadecimal(number: nat) -> Seq<char>
    decreases number,
{
    let digit = if number % 16 < 10 {
        (number % 16 + '0' as int) as char
    } else {
        (number % 16 - 10 + 'a' as int) as char
    };
    if number < 16 {
        seq![digit]
    } else {
        hexadecimal(number / 16).push(digit)
    }
}

/// The digits of a number are digits, and stand for it.
pub proof fn lemma_decimal(number: nat)
    ensures
        all_decimal_digits(decimal(number)),
        decimal_value(decimal(number)) == number,
        decimal(number).len() > 0,
    decreases number,
{
    if number < 10 {
        assert(decimal(number).drop_last() =~= Seq::<char>::empty());
        assert(decimal_value(Seq::<char>::empty()) == 0);
    } else {
        lemma_decimal(number / 10);
        assert(decimal(number).drop_last() =~= decimal(number / 10));
    }
}

/// A digit.
fn digit_str(digit: u64) -> (s: &'static str)
    requires
        digit < 10,
    ensures
        s@ == seq![(digit + '0' as int) as char],
{
    proof {
        reveal_strlit("0");
        reveal_strlit("1");
        reveal_strlit("2");
        reveal_strlit("3");
        reveal_strlit("4");
        reveal_strlit("5");
        reveal_strlit("6");
        reveal_strlit("7");
        reveal_strlit("8");
        reveal_strlit("9");
    }
    let s: &'static str = match digit {
        0 => "0",
        1 => "1",
        2 => "2",
        3 => "3",
        4 => "4",
        5 => "5",
        6 => "6",
        7 => "7",
        8 => "8",
        _ => "9",
    };
    assert(s@ =~= seq![(digit + '0' as int) as char]);
    s
}

/// Writes a number in decimal digits.
pub fn write_decimal(number: u64) -> (digits: String)
    ensures
        digits@ == decimal(number as nat),
    decreases number,
{
    if number < 10 {
        return digit_str(number).to_owned();
    }
    let mut digits = write_decimal(number / 10);
    digits.append(digit_str(number % 10));
    assert(digits@ =~= decimal(number as nat));
    digits
}

/// The number that characters stand for as an unsigned number of sixty-four bits: digits, with
/// a sign `+` before them or not, if there are any and their value fits.
pub open spec fn unsigned(s: Seq<char>) -> Option<u64> {
    let digits = if s.len() > 0 && s[0] == '+' {
        s.skip(1)
    } else {
        s
    };
    if digits.len() > 0 && all_decimal_digits(digits) && decimal_value(digits) <= u64::MAX {
        Some(decimal_value(digits) as u64)
    } else {
        None
    }
}

/// Leaving out the last digits of a number does not make it greater.
proof fn lemma_decimal_value_grows(digits: Seq<char>, i: int)
    requires
        0 <= i <= digits.len(),
    ensures
        decimal_value(digits.take(i)) <= decimal_value(digits),
    decreases digits.len() - i,
{
    if i < digits.len() {
        lemma_decimal_value_grows(digits, i + 1);
        assert(digits.take(i + 1).drop_last() =~= digits.take(i));
    } else {
        assert(digits.take(i) =~= digits);
    }
}

/// Reads an unsigned number from the characters of `s` from `start` on.
pub fn parse_unsigned(s: &Vec<char>, start: usize) -> (number: Option<u64>)
    requires
        start <= s@.len(),
    ensures
        number == unsigned(s@.skip(start as int)),
{
    let ghost whole = s@.skip(start as int);
    let first: usize = if start < s.len() && s[start] == '+' {
        start + 1
    } else {
        start
    };
    let ghost digits = s@.skip(first as int);
    assert(digits =~= (if whole.len() > 0 && whole[0] == '+' {
        whole.skip(1)
    } else {
        whole
    }));
    if first == s.len() {
        return None;
    }
    let mut value: u64 = 0;
    let mut i: usize = first;
    assert(digits.take(0) =~= Seq::<char>::empty());
    while i < s.len()
        invariant
            first <= i <= s@.len(),
            first < s@.len(),
            start <= s@.len(),
            whole == s@.skip(start as int),
            digits == s@.skip(first as int),
            digits == (if whole.len() > 0 && whole[0] == '+' {
                whole.skip(1)
            } else {
                whole
            }),
            forall|j: int| 0 <= j < i - first ==> decimal_digit(#[trigger] digits[j]) is Some,
            value == decimal_value(digits.take(i - first)),
        decreases s@.len() - i,
    {
        let c = s[i];
        assert(digits[i - first] == c);
        if !('0' <= c && c <= '9') {
            assert(decimal_digit(digits[i - first]) is None);
            return None;
        }
        let digit: u64 = c as u64 - '0' as u64;
        proof {
            assert(digits.take(i - first + 1).drop_last() =~= digits.take(i - first));
            assert(digits.take(i - first + 1).last() == c);
            lemma_decimal_value_grows(digits, i - first + 1);
        }
        if value > (u64::MAX - digit) / 10 {
            assert(decimal_value(digits.take(i - first + 1)) > u64::MAX);
            return None;
        }
        value = value * 10 + digit;
        i = i + 1;
    }
    assert(digits.take(s@.len() - first) =~= digits);
    Some(value)
}

/// A string without the line breaks at its end.
pub open spec fn without_line_breaks(s: Seq<char>) -> Seq<char>
    decreases s.len(),
{
    if s.len() > 0 && s.last() == '\n' {
        without_line_breaks(s.drop_last())
    } else {
        s
    }
}

/// The part of a string before the line breaks at its end.
pub fn trim_line_breaks(s: &str) -> (trimmed: &str)
    ensures
        trimmed@ == without_line_breaks(s@),
{
    let characters = characters(s);
    let mut end: usize = characters.len();
    assert(s@.take(end as int) =~= s@);
    while end > 0 && characters[end - 1] == '\n'
        invariant
            characters@ == s@,
            end <= s@.len(),
            without_line_breaks(s@) == without_line_breaks(s@.take(end as int)),
        decreases end,
    {
        assert(s@.take(end as int).drop_last() =~= s@.take(end - 1));
        end = end - 1;
    }
    let trimmed = s.substring_char(0, end);
    assert(trimmed@ =~= s@.take(end as int));
    trimmed
}

} // verus!
