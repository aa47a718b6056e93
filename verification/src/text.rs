//! Text helpers: comparison, and the decimal and hexadecimal numerals that
//! object paths and error messages hold.

use vstd::prelude::*;
use vstd::utf8::{decode_utf8, encode_utf8};

use crate::bytes::same_bytes;

verus! {

/// Compares two strings.
pub fn same_text(a: &str, b: &str) -> (same: bool)
    ensures
        same == (a@ == b@),
{
    proof {
        broadcast use vstd::utf8::group_utf8_lib;
        assert(decode_utf8(encode_utf8(a@)) == a@);
        assert(decode_utf8(encode_utf8(b@)) == b@);
    }
    same_bytes(a.as_bytes(), b.as_bytes())
}

/// Appends `tail` to `text`.
pub fn push_text(text: &mut String, tail: &str)
    ensures
        final(text)@ == old(text)@ + tail@,
{
    text.append(tail);
}

/// The character of the digit `d`, from `0` to `f`.
pub open spec fn digit(d: nat) -> char {
    if d < 10 {
        ('0' as u32 + d) as char
    } else {
        ('a' as u32 + d - 10) as char
    }
}

/// The decimal numeral of `n`, without leading zeros.
pub open spec fn decimal(n: nat) -> Seq<char>
    decreases n,
{
    if n < 10 {
        seq![digit(n)]
    } else {
        decimal(n / 10).push(digit(n % 10))
    }
}

/// The one-character string of the digit `d`.
fn digit_text(d: u8) -> (text: &'static str)
    requires
        d < 16,
    ensures
        text@ == seq![digit(d as nat)],
{
    proof {
        reveal_strlit("0");
        reveal_strlit("1");
        reveal_strlit("2");
        reveal_strlit("3");
        reveal_strlit("4");
        reveal_strlit("5");
        reveal_strlit("6");
        reveal_strlit("7");
        reveal_strlit("8");
        reveal_strlit("9");
        reveal_strlit("a");
        reveal_strlit("b");
        reveal_strlit("c");
        reveal_strlit("d");
        reveal_strlit("e");
        reveal_strlit("f");
    }
    let text: &'static str = match d {
        0 => "0",
        1 => "1",
        2 => "2",
        3 => "3",
        4 => "4",
        5 => "5",
        6 => "6",
        7 => "7",
        8 => "8",
        9 => "9",
        10 => "a",
        11 => "b",
        12 => "c",
        13 => "d",
        14 => "e",
        _ => "f",
    };
    assert(text@ =~= seq![digit(d as nat)]);
    text
}

/// Appends the decimal numeral of `n` to `text`.
pub fn push_decimal(text: &mut String, n: u64)
    ensures
        final(text)@ == old(text)@ + decimal(n as nat),
    decreases n,
{
    if n >= 10 {
        push_decimal(text, n / 10);
    }
    push_text(text, digit_text((n % 10) as u8));
    assert(text@ =~= old(text)@ + decimal(n as nat));
}

/// Appends the two hexadecimal digits of `b` to `text`.
pub fn push_hex(text: &mut String, b: u8)
    ensures
        final(text)@ == old(text)@ + seq![digit((b / 16) as nat), digit((b % 16) as nat)],
{
    push_text(text, digit_text(b / 16));
    push_text(text, digit_text(b % 16));
    assert(text@ =~= old(text)@ + seq![digit((b / 16) as nat), digit((b % 16) as nat)]);
}

/// A numeral holds decimal digits only, and at least one.
pub proof fn decimal_digits(n: nat)
    ensures
        decimal(n).len() > 0,
        forall|i: int| 0 <= i < decimal(n).len() ==> '0' <= #[trigger] decimal(n)[i] <= '9',
    decreases n,
{
    if n >= 10 {
        decimal_digits(n / 10);
    }
}

/// A number below a power of ten takes no more digits than its exponent.
pub proof fn decimal_length(n: nat, len: nat, bound: nat)
    requires
        n < bound,
        bound == vstd::arithmetic::power::pow(10, len),
        len > 0,
    ensures
        decimal(n).len() <= len,
    decreases n,
{
    vstd::arithmetic::power::lemma_pow1(10);
    if n >= 10 {
        assert(len > 1);
        vstd::arithmetic::power::lemma_pow_adds(10, 1, (len - 1) as nat);
        decimal_length(
            n / 10,
            (len - 1) as nat,
            vstd::arithmetic::power::pow(10, (len - 1) as nat) as nat,
        );
    }
}

/// Two numbers with the same numeral are equal.
pub proof fn decimal_injective(a: nat, b: nat)
    requires
        decimal(a) == decimal(b),
    ensures
        a == b,
    decreases a,
{
    let s = decimal(a);
    decimal_digits(a / 10);
    decimal_digits(b / 10);
    assert(s.last() == digit(a % 10));
    assert(s.last() == digit(b % 10));
    if a >= 10 && b >= 10 {
        assert(decimal(a).drop_last() =~= decimal(a / 10));
        assert(decimal(b).drop_last() =~= decimal(b / 10));
        decimal_injective(a / 10, b / 10);
    }
}

/// A `u64` has at most twenty digits.
pub proof fn decimal_of_u64(n: u64)
    ensures
        decimal(n as nat).len() <= 20,
{
    reveal_with_fuel(vstd::arithmetic::power::pow, 21);
    decimal_length(n as nat, 20, 100_000_000_000_000_000_000);
}

/// A text takes at most four bytes for each of its characters.
pub proof fn utf8_length(text: Seq<char>)
    ensures
        vstd::utf8::encode_utf8(text).len() <= 4 * text.len(),
    decreases text.len(),
{
    if text.len() > 0 {
        utf8_length(text.drop_first());
    }
}

/// The number that decimal digits stand for.
pub open spec fn numeral_value(text: Seq<char>) -> int
    decreases text.len(),
{
    if text.len() == 0 {
        0
    } else {
        10 * numeral_value(text.drop_last()) + (text.last() as int - '0' as int)
    }
}

/// A numeral is read back as its number, and has no leading zero.
pub proof fn numerals_stand_for_their_numbers(n: nat)
    ensures
        numeral_value(decimal(n)) == n,
        n > 0 ==> decimal(n)[0] != '0',
        decimal(0) == seq!['0'],
    decreases n,
{
    reveal_with_fuel(numeral_value, 2);
    reveal_with_fuel(decimal, 2);
    if n >= 10 {
        numerals_stand_for_their_numbers(n / 10);
        decimal_digits(n / 10);
        assert(decimal(n).drop_last() =~= decimal(n / 10));
        assert(decimal(n)[0] == decimal(n / 10)[0]);
    } else {
        assert(decimal(n) =~= seq![digit(n)]);
        assert(decimal(n).drop_last() =~= seq![]);
    }
    assert(decimal(0) =~= seq!['0']);
}

/// Digits up to nine are figures, and those above are the first letters.
pub proof fn digits_are_figures_and_letters(d: nat)
    requires
        d < 16,
    ensures
        d < 10 ==> digit(d) as int == '0' as int + d,
        d >= 10 ==> digit(d) as int == 'a' as int + d - 10,
{
}

} // verus!
