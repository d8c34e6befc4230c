//! Positional numerals: the text of a number in base ten and in base sixteen.

use vstd::prelude::*;

verus! {

/// The character that stands for the digit `d` (lower case above nine).
pub open spec fn digit_char(d: nat) -> char {
    if d < 10 {
        (d + 48) as char
    } else {
        (d + 87) as char
    }
}

/// The numeral of `n` in base `base`, most significant digit first and
/// without leading zeros.
pub open spec fn numeral(n: nat, base: nat) -> Seq<char>
    decreases n,
{
    if base < 2 || n < base {
        seq![digit_char(n)]
    } else {
        proof {
            assert(n / base < n) by (nonlinear_arith)
                requires
                    2 <= base <= n,
            ;
        }
        numeral(n / base, base).push(digit_char(n % base))
    }
}

/// Base ten, as in the index of a temporary file.
pub open spec fn decimal(n: nat) -> Seq<char> {
    numeral(n, 10)
}

/// Base sixteen, as in an ETag.
pub open spec fn hexadecimal(n: nat) -> Seq<char> {
    numeral(n, 16)
}

fn digit_text(d: u64) -> (text: &'static str)
    requires
        d < 16,
    ensures
        text@ == seq![digit_char(d as nat)],
{
    proof {
        reveal_strlit("0");
        reveal_strlit("1");
        reveal_strlit("2");
        reveal_strlit("3");
        reveal_strlit("4");
        reveal_strlit("5");
        reveal_strlit("6");
        reveal_strlit("7");
        reveal_strlit("8");
        reveal_strlit("9");
        reveal_strlit("a");
        reveal_strlit("b");
        reveal_strlit("c");
        reveal_strlit("d");
        reveal_strlit("e");
        reveal_strlit("f");
    }
    match d {
        0 => "0",
        1 => "1",
        2 => "2",
        3 => "3",
        4 => "4",
        5 => "5",
        6 => "6",
        7 => "7",
        8 => "8",
        9 => "9",
        10 => "a",
        11 => "b",
        12 => "c",
        13 => "d",
        14 => "e",
        _ => "f",
    }
}

fn write_numeral(n: u64, base: u64) -> (text: String)
    requires
        2 <= base <= 16,
    ensures
        text@ == numeral(n as nat, base as nat),
    decreases n,
{
    if n < base {
        digit_text(n).to_owned()
    } else {
        assert(n / base < n) by (nonlinear_arith)
            requires
                2 <= base <= n,
        ;
        let mut text: String = write_numeral(n / base, base);
        text.append(digit_text(n % base));
        text
    }
}

/// Writes `n` in base ten.
pub fn write_decimal(n: u64) -> (text: String)
    ensures
        text@ == decimal(n as nat),
{
    write_numeral(n, 10)
}

/// Writes `n` in base sixteen, in lower case.
pub fn write_hexadecimal(n: u64) -> (text: String)
    ensures
        text@ == hexadecimal(n as nat),
{
    write_numeral(n, 16)
}

proof fn lemma_digit_char_injective(a: nat, b: nat)
    requires
        a < 16,
        b < 16,
        digit_char(a) == digit_char(b),
    ensures
        a == b,
{
}

/// A numeral has at least one digit, and every character of it is a digit.
pub proof fn lemma_numeral_digits(n: nat, base: nat)
    requires
        2 <= base <= 16,
    ensures
        numeral(n, base).len() >= 1,
        forall|i: int|
            0 <= i < numeral(n, base).len() ==> {
                let c = #[trigger] numeral(n, base)[i];
                ('0' <= c <= '9') || ('a' <= c <= 'f')
            },
    decreases n,
{
    if n >= base {
        assert(n / base < n) by (nonlinear_arith)
            requires
                2 <= base <= n,
        ;
        lemma_numeral_digits(n / base, base);
    }
}

/// Two numbers with the same numeral are the same number.
pub proof fn law_numeral_injective(a: nat, b: nat, base: nat)
    requires
        2 <= base <= 16,
        numeral(a, base) == numeral(b, base),
    ensures
        a == b,
    decreases a,
{
    let na = numeral(a, base);
    let nb = numeral(b, base);
    if a < base && b < base {
        assert(na[0] == nb[0]);
        lemma_digit_char_injective(a, b);
    } else if a < base {
        assert(b / base < b) by (nonlinear_arith)
            requires
                2 <= base <= b,
        ;
        lemma_numeral_digits(b / base, base);
        assert(nb.len() >= 2);
    } else if b < base {
        lemma_numeral_digits(a / base, base);
        assert(na.len() >= 2);
    } else {
        assert(a / base < a) by (nonlinear_arith)
            requires
                2 <= base <= a,
        ;
        assert(na.last() == nb.last());
        assert(na.drop_last() == numeral(a / base, base));
        assert(nb.drop_last() == numeral(b / base, base));
        law_numeral_injective(a / base, b / base, base);
        assert(a % base < base && b % base < base) by (nonlinear_arith)
            requires
                base >= 2,
        ;
        lemma_digit_char_injective(a % base, b % base);
        vstd::arithmetic::div_mod::lemma_fundamental_div_mod(a as int, base as int);
        vstd::arithmetic::div_mod::lemma_fundamental_div_mod(b as int, base as int);
    }
}

} // verus!
