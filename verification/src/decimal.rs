//! Decimal (base-10) rendering of unsigned integers.
//!
//! `dec_digits` is the mathematical definition of the canonical decimal
//! digit string of a natural number: no sign, no grouping, no leading
//! zeros (`0` itself is the single digit `'0'`). `dec_value` reads such a
//! string back as a number. `usize_to_decimal` is the executable
//! conversion, proved to return exactly `dec_digits` of its input.

use vstd::prelude::*;
use vstd::string::StringExecFns;

verus! {

/// The character for a single decimal digit value.
pub open spec fn digit_char(d: nat) -> char
    recommends
        d < 10,
{
    if d == 0 {
        '0'
    } else if d == 1 {
        '1'
    } else if d == 2 {
        '2'
    } else if d == 3 {
        '3'
    } else if d == 4 {
        '4'
    } else if d == 5 {
        '5'
    } else if d == 6 {
        '6'
    } else if d == 7 {
        '7'
    } else if d == 8 {
        '8'
    } else {
        '9'
    }
}

/// The numeric value of a single decimal digit character.
pub open spec fn char_value(c: char) -> nat
    recommends
        is_digit_char(c),
{
    if c == '0' {
        0
    } else if c == '1' {
        1
    } else if c == '2' {
        2
    } else if c == '3' {
        3
    } else if c == '4' {
        4
    } else if c == '5' {
        5
    } else if c == '6' {
        6
    } else if c == '7' {
        7
    } else if c == '8' {
        8
    } else {
        9
    }
}

/// Whether a character is one of the ten decimal digits.
pub open spec fn is_digit_char(c: char) -> bool {
    c == '0' || c == '1' || c == '2' || c == '3' || c == '4' || c == '5' || c == '6' || c == '7'
        || c == '8' || c == '9'
}

/// The canonical base-10 digit string of `n`: most significant digit
/// first, no leading zeros (and `0` is written as the one digit `'0'`).
pub open spec fn dec_digits(n: nat) -> Seq<char>
    decreases n,
{
    if n < 10 {
        seq![digit_char(n)]
    } else {
        dec_digits(n / 10).push(digit_char(n % 10))
    }
}

/// The number a digit string denotes in base 10.
pub open spec fn dec_value(s: Seq<char>) -> nat
    recommends
        forall|i: int| 0 <= i < s.len() ==> is_digit_char(#[trigger] s[i]),
    decreases s.len(),
{
    if s.len() == 0 {
        0
    } else {
        dec_value(s.drop_last()) * 10 + char_value(s.last())
    }
}

/// Reading a decimal digit string back as a number undoes writing one:
/// `dec_value(dec_digits(n)) == n` for every natural number `n`.
pub proof fn lemma_decimal_round_trip(n: nat)
    ensures
        dec_value(dec_digits(n)) == n,
    decreases n,
{
    if n < 10 {
        let s = dec_digits(n);
        assert(s.drop_last() =~= Seq::<char>::empty());
        assert(dec_value(s) == dec_value(s.drop_last()) * 10 + char_value(s.last()));
    } else {
        lemma_decimal_round_trip(n / 10);
        let s = dec_digits(n / 10);
        let t = dec_digits(n);
        assert(t.drop_last() =~= s);
        assert(dec_value(t) == dec_value(s) * 10 + char_value(t.last()));
        vstd::arithmetic::div_mod::lemma_fundamental_div_mod(n as int, 10);
    }
}

/// A decimal digit string is never empty and holds only digit characters.
pub proof fn lemma_dec_digits_wf(n: nat)
    ensures
        dec_digits(n).len() >= 1,
        forall|i: int| 0 <= i < dec_digits(n).len() ==> is_digit_char(#[trigger] dec_digits(n)[i]),
    decreases n,
{
    if n >= 10 {
        lemma_dec_digits_wf(n / 10);
    }
}

/// A decimal digit string has no leading zero: only the number zero
/// itself starts with the digit `'0'`.
pub proof fn lemma_dec_digits_no_leading_zero(n: nat)
    ensures
        n > 0 ==> dec_digits(n).first() != '0',
        n == 0 ==> dec_digits(n) == seq!['0'],
    decreases n,
{
    if n >= 10 {
        lemma_dec_digits_no_leading_zero(n / 10);
        lemma_dec_digits_wf(n / 10);
        assert(dec_digits(n).first() == dec_digits(n / 10).first());
    }
}

/// The executable digit-value-to-character conversion.
fn digit_to_char(d: u8) -> (c: char)
    requires
        d <= 9,
    ensures
        c == digit_char(d as nat),
{
    if d == 0 {
        '0'
    } else if d == 1 {
        '1'
    } else if d == 2 {
        '2'
    } else if d == 3 {
        '3'
    } else if d == 4 {
        '4'
    } else if d == 5 {
        '5'
    } else if d == 6 {
        '6'
    } else if d == 7 {
        '7'
    } else if d == 8 {
        '8'
    } else {
        '9'
    }
}

/// Appends one decimal digit character to a string.
fn append_digit_char(s: &mut String, c: char)
    requires
        is_digit_char(c),
    ensures
        final(s)@ == old(s)@.push(c),
{
    if c == '0' {
        s.append("0");
        proof {
            reveal_strlit("0");
            assert(s@ =~= old(s)@.push('0'));
        }
    } else if c == '1' {
        s.append("1");
        proof {
            reveal_strlit("1");
            assert(s@ =~= old(s)@.push('1'));
        }
    } else if c == '2' {
        s.append("2");
        proof {
            reveal_strlit("2");
            assert(s@ =~= old(s)@.push('2'));
        }
    } else if c == '3' {
        s.append("3");
        proof {
            reveal_strlit("3");
            assert(s@ =~= old(s)@.push('3'));
        }
    } else if c == '4' {
        s.append("4");
        proof {
            reveal_strlit("4");
            assert(s@ =~= old(s)@.push('4'));
        }
    } else if c == '5' {
        s.append("5");
        proof {
            reveal_strlit("5");
            assert(s@ =~= old(s)@.push('5'));
        }
    } else if c == '6' {
        s.append("6");
        proof {
            reveal_strlit("6");
            assert(s@ =~= old(s)@.push('6'));
        }
    } else if c == '7' {
        s.append("7");
        proof {
            reveal_strlit("7");
            assert(s@ =~= old(s)@.push('7'));
        }
    } else if c == '8' {
        s.append("8");
        proof {
            reveal_strlit("8");
            assert(s@ =~= old(s)@.push('8'));
        }
    } else {
        s.append("9");
        proof {
            reveal_strlit("9");
            assert(s@ =~= old(s)@.push('9'));
        }
    }
}

/// Converts a `usize` to its canonical decimal text.
pub fn usize_to_decimal(n: usize) -> (r: String)
    ensures
        r@ == dec_digits(n as nat),
{
    let mut s = String::new();
    if n == 0 {
        append_digit_char(&mut s, '0');
        proof {
            assert(s@ =~= dec_digits(0));
        }
        return s;
    }
    let mut digits: Vec<char> = Vec::new();
    let mut m: usize = n;
    proof {
        assert(dec_digits(n as nat) + digits@.reverse() =~= dec_digits(n as nat));
    }
    while m > 0
        invariant
            forall|j: int| 0 <= j < digits@.len() ==> is_digit_char(#[trigger] digits@[j]),
            m > 0 ==> dec_digits(n as nat) == dec_digits(m as nat) + digits@.reverse(),
            m == 0 ==> dec_digits(n as nat) == digits@.reverse(),
        decreases m,
    {
        let ghost m0 = m as nat;
        let d: u8 = (m % 10) as u8;
        let c = digit_to_char(d);
        let ghost before = digits@;
        digits.push(c);
        proof {
            assert(digits@.reverse() =~= seq![c] + before.reverse());
        }
        m = m / 10;
        proof {
            vstd::arithmetic::div_mod::lemma_fundamental_div_mod(m0 as int, 10);
            assert(m as nat == m0 / 10);
            assert(d as nat == m0 % 10);
            if m > 0 {
                assert(m0 >= 10);
                assert(dec_digits(m0) == dec_digits(m0 / 10).push(digit_char(m0 % 10)));
                assert(dec_digits(m as nat).push(c) + before.reverse() =~= dec_digits(m as nat)
                    + digits@.reverse());
            } else {
                assert(m0 < 10);
                assert(dec_digits(m0) == seq![digit_char(m0)]);
                assert(seq![digit_char(m0)] + before.reverse() =~= digits@.reverse());
            }
        }
    }
    let mut i: usize = digits.len();
    proof {
        assert(s@ =~= digits@.subrange(i as int, digits@.len() as int).reverse());
    }
    while i > 0
        invariant
            i <= digits.len(),
            forall|j: int| 0 <= j < digits@.len() ==> is_digit_char(#[trigger] digits@[j]),
            dec_digits(n as nat) == digits@.reverse(),
            s@ == digits@.subrange(i as int, digits@.len() as int).reverse(),
        decreases i,
    {
        i = i - 1;
        let c = digits[i];
        append_digit_char(&mut s, c);
        proof {
            assert(s@ =~= digits@.subrange(i as int, digits@.len() as int).reverse());
        }
    }
    proof {
        assert(digits@.subrange(0, digits@.len() as int) =~= digits@);
    }
    s
}

} // verus!
