//! Upper-case hexadecimal numerals: what they are, what number each one
//! writes, and how a machine word is rendered as one.

use vstd::prelude::*;

verus! {

/// The sixteen digits of upper-case hexadecimal, each at the index of its
/// value.
pub open spec fn digit_chars() -> Seq<char> {
    seq!['0', '1', '2', '3', '4', '5', '6', '7', '8', '9', 'A', 'B', 'C', 'D', 'E', 'F']
}

/// The character that writes the digit of value `d`.
pub open spec fn hex_digit(d: nat) -> char
    recommends
        d < 16,
{
    digit_chars()[d as int]
}

/// Whether `c` is one of `0` to `9` or `A` to `F`.
pub open spec fn is_hex_digit(c: char) -> bool {
    ('0' <= c && c <= '9') || ('A' <= c && c <= 'F')
}

/// The value that the digit `c` stands for.
pub open spec fn hex_digit_value(c: char) -> nat
    recommends
        is_hex_digit(c),
{
    if c <= '9' {
        (c as u32 - '0' as u32) as nat
    } else {
        (c as u32 - 'A' as u32 + 10) as nat
    }
}

/// The digits of `n` in base sixteen, most significant first. There is no
/// padding: zero is the single digit `0`, and no other numeral starts with
/// `0`.
pub open spec fn hex_digits(n: nat) -> Seq<char>
    decreases n,
{
    if n < 16 {
        seq![hex_digit(n)]
    } else {
        hex_digits(n / 16).push(hex_digit(n % 16))
    }
}

/// The number that a string of digits writes, read most significant first.
pub open spec fn hex_value(digits: Seq<char>) -> nat
    decreases digits.len(),
{
    if digits.len() == 0 {
        0
    } else {
        hex_value(digits.drop_last()) * 16 + hex_digit_value(digits.last())
    }
}

/// Whether `digits` is a numeral in its shortest form: at least one digit,
/// nothing but digits, and no leading `0` unless it is the only digit.
pub open spec fn is_canonical_numeral(digits: Seq<char>) -> bool {
    &&& digits.len() >= 1
    &&& forall|i: int| 0 <= i < digits.len() ==> is_hex_digit(#[trigger] digits[i])
    &&& digits.len() > 1 ==> digits[0] != '0'
}

/// The two characters that mark a literal as hexadecimal.
pub open spec fn hex_prefix() -> Seq<char> {
    seq!['0', 'X']
}

/// The literal for `n`: the prefix, then the digits of `n`.
pub open spec fn hex_literal(n: nat) -> Seq<char> {
    hex_prefix() + hex_digits(n)
}

/// Whether `text` has the shape of a literal: the prefix, then one or more
/// digits and nothing else.
pub open spec fn is_hex_literal(text: Seq<char>) -> bool {
    &&& text.len() > 2
    &&& text[0] == '0'
    &&& text[1] == 'X'
    &&& forall|i: int| 2 <= i < text.len() ==> is_hex_digit(#[trigger] text[i])
}

/// Every value below sixteen has a digit, and the digit stands for that
/// value.
pub proof fn lemma_hex_digit_value(d: nat)
    requires
        d < 16,
    ensures
        is_hex_digit(hex_digit(d)),
        hex_digit_value(hex_digit(d)) == d,
        (hex_digit(d) == '0') == (d == 0),
{
}

/// The numeral of every number is in shortest form.
pub proof fn lemma_hex_digits_canonical(n: nat)
    ensures
        is_canonical_numeral(hex_digits(n)),
        (hex_digits(n)[0] == '0') == (n == 0),
    decreases n,
{
    if n < 16 {
        lemma_hex_digit_value(n);
    } else {
        lemma_hex_digits_canonical(n / 16);
        lemma_hex_digit_value(n % 16);
    }
}

/// The numeral of a number writes that number.
pub proof fn lemma_hex_digits_value(n: nat)
    ensures
        hex_value(hex_digits(n)) == n,
    decreases n,
{
    if n < 16 {
        lemma_hex_digit_value(n);
        let digits = hex_digits(n);
        assert(digits.drop_last().len() == 0);
        assert(hex_value(digits.drop_last()) == 0);
    } else {
        lemma_hex_digits_value(n / 16);
        lemma_hex_digit_value(n % 16);
        let upper = hex_digits(n / 16);
        let digits = upper.push(hex_digit(n % 16));
        assert(digits.drop_last() =~= upper);
        assert(digits.last() == hex_digit(n % 16));
    }
}

/// A numeral in shortest form is the numeral of the number it writes: no
/// number has two of them.
pub proof fn lemma_canonical_numeral_unique(digits: Seq<char>)
    requires
        is_canonical_numeral(digits),
    ensures
        hex_digits(hex_value(digits)) == digits,
    decreases digits.len(),
{
    let last = digits.last();
    let upper = digits.drop_last();
    assert(hex_digit(hex_digit_value(last)) == last);
    if digits.len() == 1 {
        assert(hex_value(upper) == 0);
        assert(hex_digits(hex_value(digits)) =~= digits);
    } else {
        assert(upper[0] == digits[0]);
        assert forall|i: int| 0 <= i < upper.len() implies is_hex_digit(#[trigger] upper[i]) by {
            assert(upper[i] == digits[i]);
        }
        lemma_canonical_numeral_unique(upper);
        // What stands above the last digit does not start with `0`, so it
        // is worth at least one and the whole at least sixteen.
        lemma_hex_digits_canonical(hex_value(upper));
        let n = hex_value(digits);
        assert(n == hex_value(upper) * 16 + hex_digit_value(last));
        assert(n / 16 == hex_value(upper));
        assert(n % 16 == hex_digit_value(last));
        assert(hex_digits(n) =~= digits);
    }
}

/// The literal of every number has the shape of a literal.
pub proof fn lemma_hex_literal_well_formed(n: nat)
    ensures
        is_hex_literal(hex_literal(n)),
{
    lemma_hex_digits_canonical(n);
    let digits = hex_digits(n);
    let text = hex_literal(n);
    assert forall|i: int| 2 <= i < text.len() implies is_hex_digit(#[trigger] text[i]) by {
        assert(text[i] == digits[i - 2]);
    }
}

/// The digits of a literal are the numeral of its number, so the literal
/// writes that number and no other.
pub proof fn lemma_hex_literal_value(n: nat)
    ensures
        hex_literal(n).subrange(2, hex_literal(n).len() as int) == hex_digits(n),
        hex_value(hex_literal(n).subrange(2, hex_literal(n).len() as int)) == n,
{
    lemma_hex_digits_value(n);
    assert(hex_literal(n).subrange(2, hex_literal(n).len() as int) =~= hex_digits(n));
}

/// Two numbers with the same literal are the same number.
pub proof fn lemma_hex_literal_injective(m: nat, n: nat)
    requires
        hex_literal(m) == hex_literal(n),
    ensures
        m == n,
{
    lemma_hex_literal_value(m);
    lemma_hex_literal_value(n);
}

/// The digit of value `d`, as a string of that one character.
fn digit_str(d: usize) -> (digit: &'static str)
    requires
        d < 16,
    ensures
        digit@ == seq![hex_digit(d as nat)],
{
    proof {
        reveal_strlit("0");
        reveal_strlit("1");
        reveal_strlit("2");
        reveal_strlit("3");
        reveal_strlit("4");
        reveal_strlit("5");
        reveal_strlit("6");
        reveal_strlit("7");
        reveal_strlit("8");
        reveal_strlit("9");
        reveal_strlit("A");
        reveal_strlit("B");
        reveal_strlit("C");
        reveal_strlit("D");
        reveal_strlit("E");
        reveal_strlit("F");
    }
    let digit = match d {
        0 => "0",
        1 => "1",
        2 => "2",
        3 => "3",
        4 => "4",
        5 => "5",
        6 => "6",
        7 => "7",
        8 => "8",
        9 => "9",
        10 => "A",
        11 => "B",
        12 => "C",
        13 => "D",
        14 => "E",
        _ => "F",
    };
    assert(digit@ =~= seq![hex_digit(d as nat)]);
    digit
}

/// Appends the numeral of `value` to `text`.
fn push_hex_digits(text: &mut String, value: usize)
    ensures
        final(text)@ == old(text)@ + hex_digits(value as nat),
    decreases value,
{
    if value >= 16 {
        push_hex_digits(text, value / 16);
    }
    text.append(digit_str(value % 16));
    assert(final(text)@ =~= old(text)@ + hex_digits(value as nat));
}

/// The literal of `value`: the prefix, then its digits in upper case, as
/// many as the number needs and no more.
pub fn to_hex_literal(value: usize) -> (text: String)
    ensures
        text@ == hex_literal(value as nat),
        is_hex_literal(text@),
{
    proof {
        reveal_strlit("0X");
        lemma_hex_literal_well_formed(value as nat);
    }
    let mut text = String::from_str("0X");
    assert(text@ =~= hex_prefix());
    push_hex_digits(&mut text, value);
    text
}

} // verus!
