//! What the pieces of a text are, and what its numerals mean.

use crate::conditions::{is_white_space, trimmed};
use crate::numeral::{decimal, hexadecimal, numeral};
use crate::path::pieces;
use vstd::prelude::*;

verus! {

/// The text from `a` up to `b` is a piece of `s`: it runs from the start or a
/// separator to the next separator or the end.
pub open spec fn piece_at(s: Seq<char>, separator: char, a: int, b: int) -> bool {
    &&& 0 <= a <= b <= s.len()
    &&& a == 0 || s[a - 1] == separator
    &&& b == s.len() || s[b] == separator
    &&& forall|i: int| a <= i < b ==> s[i] != separator
}

proof fn lemma_piece_has_bounds(s: Seq<char>, separator: char, i: int) -> (bounds: (int, int))
    requires
        0 <= i < pieces(s, separator).len(),
    ensures
        piece_at(s, separator, bounds.0, bounds.1),
        pieces(s, separator)[i] == s.subrange(bounds.0, bounds.1),
        i == pieces(s, separator).len() - 1 <==> bounds.1 == s.len(),
    decreases s.len(),
{
    if s.len() == 0 {
        assert(s.subrange(0, 0) == s);
        (0, 0)
    } else {
        let front = s.drop_last();
        let before = pieces(front, separator);
        lemma_has_piece(front, separator);
        if s.last() == separator {
            if i == before.len() {
                assert(s.subrange(s.len() as int, s.len() as int) == Seq::<char>::empty());
                (s.len() as int, s.len() as int)
            } else {
                let (a, b) = lemma_piece_has_bounds(front, separator, i);
                assert(front.subrange(a, b) == s.subrange(a, b));
                assert forall|k: int| a <= k < b implies s[k] != separator by {
                    assert(front[k] == s[k]);
                }
                (a, b)
            }
        } else {
            let (a, b) = lemma_piece_has_bounds(front, separator, i);
            assert forall|k: int| a <= k < b implies s[k] != separator by {
                assert(front[k] == s[k]);
            }
            if i == before.len() - 1 {
                assert(front.subrange(a, b).push(s.last()) == s.subrange(a, b + 1));
                (a, b + 1)
            } else {
                assert(front.subrange(a, b) == s.subrange(a, b));
                (a, b)
            }
        }
    }
}

proof fn lemma_has_piece(s: Seq<char>, separator: char)
    ensures
        pieces(s, separator).len() >= 1,
    decreases s.len(),
{
    if s.len() > 0 {
        lemma_has_piece(s.drop_last(), separator);
    }
}

proof fn lemma_bounds_are_piece(s: Seq<char>, separator: char, a: int, b: int) -> (i: int)
    requires
        piece_at(s, separator, a, b),
    ensures
        0 <= i < pieces(s, separator).len(),
        pieces(s, separator)[i] == s.subrange(a, b),
        i == pieces(s, separator).len() - 1 <==> b == s.len(),
    decreases s.len(),
{
    lemma_has_piece(s, separator);
    if s.len() == 0 {
        assert(s.subrange(a, b) == s);
        0
    } else {
        let front = s.drop_last();
        let before = pieces(front, separator);
        lemma_has_piece(front, separator);
        if s.last() == separator {
            if b == s.len() {
                if a < b {
                    assert(s[b - 1] != separator);
                }
                assert(s.subrange(a, b) == Seq::<char>::empty());
                before.len() as int
            } else {
                let i = lemma_bounds_are_piece(front, separator, a, b);
                assert(front.subrange(a, b) == s.subrange(a, b));
                i
            }
        } else if b == s.len() {
            if a == b {
                assert(s[a - 1] == separator);
            }
            let i = lemma_bounds_are_piece(front, separator, a, b - 1);
            assert(front.subrange(a, b - 1).push(s.last()) == s.subrange(a, b));
            i
        } else {
            assert(b < front.len());
            let i = lemma_bounds_are_piece(front, separator, a, b);
            assert(front.subrange(a, b) == s.subrange(a, b));
            i
        }
    }
}

/// The pieces of a text are what stands between its separators: every piece runs
/// from one of them to the next, and whatever does so is a piece.
pub proof fn law_pieces_stand_between_separators(
    s: Seq<char>,
    separator: char,
    piece: Seq<char>,
)
    ensures
        pieces(s, separator).contains(piece) <==> exists|a: int, b: int| #[trigger]
            piece_at(s, separator, a, b) && piece == s.subrange(a, b),
{
    if pieces(s, separator).contains(piece) {
        let i = pieces(s, separator).index_of(piece);
        let (a, b) = lemma_piece_has_bounds(s, separator, i);
        assert(piece_at(s, separator, a, b));
    }
    if exists|a: int, b: int| #[trigger]
        piece_at(s, separator, a, b) && piece == s.subrange(a, b) {
        let (a, b) = choose|a: int, b: int| #[trigger]
            piece_at(s, separator, a, b) && piece == s.subrange(a, b);
        let i = lemma_bounds_are_piece(s, separator, a, b);
        assert(pieces(s, separator)[i] == piece);
    }
}

/// Trimming takes all white space from the two ends of a text, and nothing else.
pub proof fn law_trimmed_takes_white_space(s: Seq<char>) -> (bounds: (int, int))
    ensures
        0 <= bounds.0 <= bounds.1 <= s.len(),
        trimmed(s) == s.subrange(bounds.0, bounds.1),
        forall|i: int| 0 <= i < bounds.0 ==> is_white_space(#[trigger] s[i]),
        forall|i: int| bounds.1 <= i < s.len() ==> is_white_space(#[trigger] s[i]),
        trimmed(s).len() > 0 ==> !is_white_space(trimmed(s)[0]) && !is_white_space(
            trimmed(s).last(),
        ),
    decreases s.len(),
{
    if s.len() > 0 && is_white_space(s[0]) {
        let rest = s.drop_first();
        let (a, b) = law_trimmed_takes_white_space(rest);
        assert(rest.subrange(a, b) == s.subrange(a + 1, b + 1));
        assert forall|i: int| 0 <= i < a + 1 implies is_white_space(#[trigger] s[i]) by {
            if i > 0 {
                assert(rest[i - 1] == s[i]);
            }
        }
        assert forall|i: int| b + 1 <= i < s.len() implies is_white_space(#[trigger] s[i]) by {
            assert(rest[i - 1] == s[i]);
        }
        (a + 1, b + 1)
    } else if s.len() > 0 && is_white_space(s.last()) {
        let rest = s.drop_last();
        let (a, b) = law_trimmed_takes_white_space(rest);
        assert(rest.subrange(a, b) == s.subrange(a, b));
        assert forall|i: int| 0 <= i < a implies is_white_space(#[trigger] s[i]) by {
            assert(rest[i] == s[i]);
        }
        assert forall|i: int| b <= i < s.len() implies is_white_space(#[trigger] s[i]) by {
            if i < rest.len() {
                assert(rest[i] == s[i]);
            }
        }
        (a, b)
    } else {
        assert(s.subrange(0, s.len() as int) == s);
        (0, s.len() as int)
    }
}

/// What a digit stands for.
pub open spec fn digit_value(c: char) -> int {
    if '0' <= c <= '9' {
        c as int - '0' as int
    } else {
        c as int - 'a' as int + 10
    }
}

/// The number that a numeral stands for.
pub open spec fn value_of(digits: Seq<char>, base: nat) -> int
    decreases digits.len(),
{
    if digits.len() == 0 {
        0
    } else {
        value_of(digits.drop_last(), base) * base + digit_value(digits.last())
    }
}

/// The text is a numeral: it has digits of the base, in lower case, and no zero
/// before others.
pub open spec fn is_numeral(digits: Seq<char>, base: nat) -> bool {
    &&& digits.len() >= 1
    &&& digits.len() > 1 ==> digits[0] != '0'
    &&& forall|i: int|
        0 <= i < digits.len() ==> {
            let c = #[trigger] digits[i];
            &&& '0' <= c <= '9' || 'a' <= c <= 'f'
            &&& 0 <= digit_value(c) < base
        }
}

/// A numeral stands for its number: read digit by digit it gives the number back.
pub proof fn law_numeral_reads_back(n: nat, base: nat)
    requires
        2 <= base <= 16,
    ensures
        is_numeral(numeral(n, base), base),
        value_of(numeral(n, base), base) == n,
        n > 0 ==> numeral(n, base)[0] != '0',
    decreases n,
{
    if n < base {
        let digits = numeral(n, base);
        assert(digits.drop_last() == Seq::<char>::empty());
        assert(value_of(digits.drop_last(), base) == 0);
        assert(0 * base == 0);
    } else {
        assert(0 < n / base < n) by (nonlinear_arith)
            requires
                2 <= base <= n,
        ;
        assert(0 <= n % base < base) by (nonlinear_arith)
            requires
                2 <= base,
        ;
        law_numeral_reads_back(n / base, base);
        let (front, digits) = (numeral(n / base, base), numeral(n, base));
        assert(digits.drop_last() == front);
        assert(digit_value(digits.last()) == n % base);
        assert forall|i: int| 0 <= i < digits.len() implies {
            let c = #[trigger] digits[i];
            &&& '0' <= c <= '9' || 'a' <= c <= 'f'
            &&& 0 <= digit_value(c) < base
        } by {
            if i < front.len() {
                assert(digits[i] == front[i]);
            }
        }
        assert(digits[0] == front[0]);
        vstd::arithmetic::div_mod::lemma_fundamental_div_mod(n as int, base as int);
        vstd::arithmetic::mul::lemma_mul_is_commutative(base as int, (n / base) as int);
    }
}

/// Decimals and hexadecimals are numerals of base ten and of base sixteen.
pub proof fn law_bases(n: nat)
    ensures
        is_numeral(decimal(n), 10),
        value_of(decimal(n), 10) == n,
        is_numeral(hexadecimal(n), 16),
        value_of(hexadecimal(n), 16) == n,
{
    law_numeral_reads_back(n, 10);
    law_numeral_reads_back(n, 16);
}

} // verus!
