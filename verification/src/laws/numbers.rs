//! Numbers in digits and in bits.

use crate::double::{
    absolute, bit_length, exponent, fraction, is_zero, leading_digits, lemma_bit_length,
    lemma_leading_digits, nearest, nearest_to, negative, scale, significand, truncate, truncated,
    whole_magnitude, zero,
};
use crate::text::{
    all_digits, decimal, digits_value, i64_value, lemma_decimal_value, parse_i64,
    push_decimal, signed_decimal,
};
use vstd::arithmetic::power2::{
    lemma2_to64, lemma2_to64_rest, lemma_pow2_pos, lemma_pow2_strictly_increases,
    lemma_pow2_unfold, pow2,
};
use vstd::prelude::*;

verus! {

/// Whether a character is one of the ten decimal digits.
pub open spec fn is_digit(c: char) -> bool {
    48 <= c as int <= 57
}

/// Numbers below ten are written as their digit, and a digit behind a number makes the
/// number ten times as large, and larger by the digit.
pub proof fn law_digits_are_written(n: nat, d: nat)
    requires
        d < 10,
    ensures
        decimal(d) == seq![(48 + d) as char],
        n > 0 ==> decimal(10 * n + d) == decimal(n).push((48 + d) as char),
{
    if n > 0 {
        assert((10 * n + d) / 10 == n);
        assert((10 * n + d) % 10 == d);
    }
}

/// A negative number is written as a minus sign and the number without it.
pub proof fn law_sign_is_written(n: nat)
    ensures
        signed_decimal(n as int) == decimal(n),
        n > 0 ==> signed_decimal(-n) == seq!['-'] + decimal(n),
{
}

/// A digit behind others makes their value ten times as large, and larger by the digit.
pub proof fn law_digits_are_read(digits: Seq<char>, c: char)
    requires
        is_digit(c),
    ensures
        digits_value(seq![]) == 0,
        digits_value(digits.push(c)) == 10 * digits_value(digits) + (c as int - 48),
{
    assert(digits.push(c).drop_last() =~= digits);
}

/// Digits are read as the number that they make, if it has no more than 63 bits, and a
/// sign before them as the sign of the number.
pub proof fn law_digits_make_an_integer(digits: Seq<char>)
    requires
        digits.len() > 0,
        forall|i: int| 0 <= i < digits.len() ==> is_digit(#[trigger] digits[i]),
    ensures
        ({
            let n = digits_value(digits) as int;
            &&& i64_value(digits) == (if n <= 0x7fff_ffff_ffff_ffff {
                Some(n as i64)
            } else {
                None
            })
            &&& i64_value(seq!['+'] + digits) == (if n <= 0x7fff_ffff_ffff_ffff {
                Some(n as i64)
            } else {
                None
            })
            &&& i64_value(seq!['-'] + digits) == (if n <= 0x8000_0000_0000_0000 {
                Some((-n) as i64)
            } else {
                None
            })
        }),
{
    assert(is_digit(digits[0]));
    assert(all_digits(digits)) by {
        assert forall|i: int| 0 <= i < digits.len() implies '0' <= #[trigger] digits[i]
            <= '9' by {
            assert(is_digit(digits[i]));
        }
    }
    assert((seq!['+'] + digits).skip(1) =~= digits);
    assert((seq!['-'] + digits).skip(1) =~= digits);
}

/// A text with anything but digits behind its first character, with anything but a digit
/// or a sign there, or without digits is no integer.
pub proof fn law_other_texts_are_no_integers(text: Seq<char>, at: int)
    requires
        text.len() == 0 || text.len() == 1 && !is_digit(text[0]) || 0 < at < text.len()
            && !is_digit(text[at]) || text.len() > 0 && !is_digit(text[0]) && text[0] != '+'
            && text[0] != '-',
    ensures
        i64_value(text) is None,
{
    if 0 < at < text.len() && !is_digit(text[at]) {
        assert(text.skip(1)[at - 1] == text[at]);
        assert(!all_digits(text.skip(1)));
        assert(!all_digits(text));
    }
}

/// The bits of a double: a sign, an exponent and a fraction.
pub open spec fn double_bits(minus: bool, exp: nat, frac: nat) -> int {
    (if minus {
        0x8000_0000_0000_0000int
    } else {
        0int
    }) + exp * 0x10_0000_0000_0000 + frac
}

proof fn lemma_double_bits(bits: u64, minus: bool, exp: nat, frac: nat)
    requires
        bits == double_bits(minus, exp, frac),
        exp < 2048,
        frac < 0x10_0000_0000_0000,
    ensures
        negative(bits) == minus,
        exponent(bits) == exp,
        fraction(bits) == frac,
{
    let high: int = if minus {
        exp as int + 2048
    } else {
        exp as int
    };
    assert(bits as int == high * 0x10_0000_0000_0000 + frac);
    assert(bits as int / 0x10_0000_0000_0000 == high);
}

/// A double becomes an integer by dropping what is behind its point. What is no number
/// becomes zero, and what is too large the largest or the smallest integer.
pub proof fn law_truncation(bits: u64, minus: bool, exp: nat, frac: nat)
    requires
        bits == double_bits(minus, exp, frac),
        exp < 2048,
        frac < 0x10_0000_0000_0000,
    ensures
        exp == 2047 && frac > 0 ==> truncated(bits) == 0,
        exp >= 1086 && !(exp == 2047 && frac > 0) ==> truncated(bits) == (if minus {
            i64::MIN
        } else {
            i64::MAX
        }),
        exp < 1023 ==> truncated(bits) == 0,
        1075 <= exp < 1086 ==> truncated(bits) == (if minus {
            -((0x10_0000_0000_0000 + frac) * pow2((exp - 1075) as nat))
        } else {
            (0x10_0000_0000_0000 + frac) * pow2((exp - 1075) as nat) as int
        }),
        1023 <= exp < 1075 ==> {
            let size = if minus {
                -truncated(bits)
            } else {
                truncated(bits) as int
            };
            let unit = pow2((1075 - exp) as nat);
            0 <= size && size * unit <= 0x10_0000_0000_0000 + frac < (size + 1) * unit
        },
{
    lemma_double_bits(bits, minus, exp, frac);
    lemma2_to64();
    lemma2_to64_rest();
    if exp < 1023 {
        let k = (-scale(bits)) as nat;
        if k > 53 {
            lemma_pow2_strictly_increases(53, k);
        }
        lemma_pow2_pos(k);
        let s = significand(bits);
        let p = pow2(k) as int;
        assert(s / p == 0) by (nonlinear_arith)
            requires
                0 <= s < p,
        ;
    } else if exp < 1075 {
        let k = (1075 - exp) as nat;
        lemma_pow2_pos(k);
        let s = significand(bits);
        let p = pow2(k) as int;
        let q = s / p;
        assert(0 <= q <= s && q * p <= s < (q + 1) * p) by (nonlinear_arith)
            requires
                p > 0,
                s >= 0,
                q == s / p,
        ;
        assert(whole_magnitude(bits) == q);
    } else if exp < 1086 {
        let k = (exp - 1075) as nat;
        if k < 10 {
            lemma_pow2_strictly_increases(k, 10);
        }
        let s = significand(bits);
        let p = pow2(k) as int;
        assert(0 <= s * p <= (0x20_0000_0000_0000 - 1) * 1024) by (nonlinear_arith)
            requires
                0 <= s <= 0x20_0000_0000_0000 - 1,
                0 <= p <= 1024,
        ;
    } else {
        let k = (exp - 1075) as nat;
        if k > 11 {
            lemma_pow2_strictly_increases(11, k);
        }
        let s = significand(bits);
        let p = pow2(k) as int;
        assert(s * p >= 0x10_0000_0000_0000 * 2048) by (nonlinear_arith)
            requires
                s >= 0x10_0000_0000_0000,
                p >= 2048,
        ;
    }
}

/// An integer becomes the double nearest to it, with its sign: itself where 53 binary
/// digits are enough, and otherwise off by at most half of what the last digit is worth;
/// of two that are equally near, the one with the even last digit.
pub proof fn law_nearest_double(i: i64) -> (parts: (nat, nat))
    ensures
        i == 0 ==> nearest(i) == 0,
        i != 0 ==> {
            let (exp, frac) = parts;
            let n = if i < 0 {
                -i
            } else {
                i as int
            };
            &&& nearest(i) == double_bits(i < 0, exp, frac)
            &&& 1023 <= exp < 2047
            &&& frac < 0x10_0000_0000_0000
            &&& exp <= 1075 ==> 0x10_0000_0000_0000 + frac == n * pow2((1075 - exp) as nat)
            &&& exp > 1075 ==> {
                let unit = pow2((exp - 1075) as nat);
                let off = (0x10_0000_0000_0000 + frac) * unit - n;
                &&& -unit <= 2 * off <= unit
                &&& (2 * off == unit || 2 * off == -unit) ==> frac % 2 == 0
            }
        },
{
    if i == 0 {
        (0, 0)
    } else {
        lemma_nearest_double(i)
    }
}

proof fn lemma_nearest_double(i: i64) -> (parts: (nat, nat))
    requires
        i != 0,
    ensures
        ({
            let (exp, frac) = parts;
            let n = if i < 0 {
                -i
            } else {
                i as int
            };
            &&& nearest(i) == double_bits(i < 0, exp, frac)
            &&& 1023 <= exp < 2047
            &&& frac < 0x10_0000_0000_0000
            &&& exp <= 1075 ==> 0x10_0000_0000_0000 + frac == n * pow2((1075 - exp) as nat)
            &&& exp > 1075 ==> {
                let unit = pow2((exp - 1075) as nat);
                let off = (0x10_0000_0000_0000 + frac) * unit - n;
                &&& -unit <= 2 * off <= unit
                &&& (2 * off == unit || 2 * off == -unit) ==> frac % 2 == 0
            }
        }),
{
    let n = absolute(i);
    let len = bit_length(n);
    let digits = leading_digits(n);
    lemma2_to64();
    lemma2_to64_rest();
    lemma_bit_length(n);
    lemma_leading_digits(n);
    if len > 64 {
        lemma_pow2_strictly_increases(63, (len - 1) as nat);
    }
    let top = (len + 1022) * 0x10_0000_0000_0000 + (digits - 0x10_0000_0000_0000);
    let parts: (nat, nat) = if digits == 0x20_0000_0000_0000 {
        ((len + 1023) as nat, 0)
    } else {
        ((len + 1022) as nat, (digits - 0x10_0000_0000_0000) as nat)
    };
    assert(top == parts.0 * 0x10_0000_0000_0000 + parts.1);
    assert(0 <= top < 0x8000_0000_0000_0000);
    if len <= 53 {
        let k = (53 - len) as nat;
        if digits == 0x20_0000_0000_0000 {
            vstd::arithmetic::power2::lemma_pow2_adds(len, k);
            lemma_pow2_pos(k);
            let p = pow2(k) as int;
            let high = pow2(len) as int;
            assert(n * p < high * p) by (nonlinear_arith)
                requires
                    n < high,
                    p > 0,
            ;
            assert(false);
        }
    } else {
        let d = pow2((len - 53) as nat) as int;
        lemma_pow2_pos((len - 53) as nat);
        let q = n as int / d;
        let r = n as int % d;
        assert(n == q * d + r && 0 <= r < d) by (nonlinear_arith)
            requires
                d > 0,
                q == n as int / d,
                r == n as int % d,
        ;
        assert((q + 1) * d == q * d + d) by (nonlinear_arith);
        let off = digits * d - n;
        assert(-d <= 2 * off <= d);
        if digits == 0x20_0000_0000_0000 {
            lemma_pow2_unfold((len - 52) as nat);
            let unit = pow2((len - 52) as nat) as int;
            assert(unit == 2 * d);
            assert(0x10_0000_0000_0000 * unit == digits * d) by (nonlinear_arith)
                requires
                    unit == 2 * d,
                    digits == 0x20_0000_0000_0000,
            ;
        } else {
            assert((2 * off == d || 2 * off == -d) ==> digits % 2 == 0);
        }
    }
    parts
}

/// Zero has two patterns, one of each sign, and no other pattern is zero.
pub proof fn law_zeros(bits: u64)
    ensures
        zero(bits) <==> bits == 0 || bits == 0x8000_0000_0000_0000,
{
}

/// A number written in digits has no zero before its first digit, unless it is zero.
pub proof fn law_no_leading_zeros(n: nat)
    ensures
        decimal(n).len() > 0,
        forall|i: int| 0 <= i < decimal(n).len() ==> is_digit(#[trigger] decimal(n)[i]),
        decimal(n)[0] == '0' ==> n == 0 && decimal(n).len() == 1,
        digits_value(decimal(n)) == n,
    decreases n,
{
    lemma_decimal_value(n);
    if n >= 10 {
        law_no_leading_zeros(n / 10);
        assert(decimal(n)[0] == decimal(n / 10)[0]);
    }
    assert forall|i: int| 0 <= i < decimal(n).len() implies is_digit(#[trigger] decimal(n)[i]) by {
        assert('0' <= decimal(n)[i] <= '9');
    }
}

/// A text is parsed as the integer that it denotes, and an integer is written in its
/// digits, behind what was there.
pub proof fn law_parsed_and_written_integers(
    text: &str,
    parsed: Option<i64>,
    output: &mut String,
    n: u64,
)
    requires
        call_ensures(parse_i64, (text,), parsed),
        call_ensures(push_decimal, (output, n), ()),
    ensures
        parsed == i64_value(text@),
        final(output)@ == old(output)@ + decimal(n as nat),
{
}

/// A double is cut to the integer in front of its point, an integer is made the double
/// nearest to it, and zero is told by its two patterns.
pub proof fn law_converted_numbers(bits: u64, cut: i64, i: i64, near: u64, none: bool)
    requires
        call_ensures(truncate, (bits,), cut),
        call_ensures(nearest_to, (i,), near),
        call_ensures(is_zero, (bits,), none),
    ensures
        cut == truncated(bits),
        near == nearest(i),
        none <==> bits == 0 || bits == 0x8000_0000_0000_0000,
{
    law_zeros(bits);
}

} // verus!
