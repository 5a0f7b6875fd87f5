//! Double-precision numbers by their bit patterns.
//!
//! A number is held as the 64 bits of its IEEE 754 encoding: one bit of sign,
//! eleven of exponent and 52 of fraction. Conversions to and from integers are
//! computed on those bits.

use vstd::arithmetic::power2::{
    lemma2_to64, lemma2_to64_rest, lemma_pow2_adds, lemma_pow2_pos, lemma_pow2_strictly_increases,
    lemma_pow2_unfold, pow2,
};
use vstd::prelude::*;

verus! {

/// Two to the power of 52: one more than the largest fraction.
pub const FRACTION_RANGE: u64 = 0x0010_0000_0000_0000;

/// Two to the power of 63: the weight of the sign bit.
pub const SIGN_WEIGHT: u64 = 0x8000_0000_0000_0000;

/// Whether the sign bit is set.
pub open spec fn negative(bits: u64) -> bool {
    bits >= SIGN_WEIGHT
}

/// The biased exponent.
pub open spec fn exponent(bits: u64) -> int {
    (bits as int / FRACTION_RANGE as int) % 2048
}

/// The fraction bits.
pub open spec fn fraction(bits: u64) -> int {
    bits as int % FRACTION_RANGE as int
}

/// Whether the pattern stands for no number.
pub open spec fn not_a_number(bits: u64) -> bool {
    exponent(bits) == 2047 && fraction(bits) != 0
}

/// Whether the pattern stands for zero, of either sign.
pub open spec fn zero(bits: u64) -> bool {
    bits as int % SIGN_WEIGHT as int == 0
}

/// The significand as an integer.
pub open spec fn significand(bits: u64) -> int {
    if exponent(bits) == 0 {
        fraction(bits)
    } else {
        FRACTION_RANGE + fraction(bits)
    }
}

/// The power of two by which the significand is multiplied.
pub open spec fn scale(bits: u64) -> int {
    if exponent(bits) == 0 {
        -1074
    } else {
        exponent(bits) - 1075
    }
}

/// The absolute value of the number, without its part after the point.
pub open spec fn whole_magnitude(bits: u64) -> int {
    if scale(bits) >= 0 {
        significand(bits) * pow2(scale(bits) as nat)
    } else {
        significand(bits) / (pow2((-scale(bits)) as nat) as int)
    }
}

/// The number without its part after the point, held within the range of 64-bit
/// integers; zero where there is no number.
pub open spec fn truncated(bits: u64) -> i64 {
    let magnitude = whole_magnitude(bits);
    if not_a_number(bits) {
        0
    } else if negative(bits) {
        if magnitude > SIGN_WEIGHT {
            i64::MIN
        } else {
            (-magnitude) as i64
        }
    } else {
        if magnitude >= SIGN_WEIGHT {
            i64::MAX
        } else {
            magnitude as i64
        }
    }
}

/// The powers of two up to the 64th.
proof fn lemma_powers()
    ensures
        pow2(0) == 1,
        pow2(1) == 2,
        pow2(10) == 1024,
        pow2(11) == 2048,
        pow2(12) == 4096,
        pow2(52) == FRACTION_RANGE,
        pow2(53) == 2 * FRACTION_RANGE,
        pow2(63) == SIGN_WEIGHT,
        pow2(64) == 2 * SIGN_WEIGHT,
{
    lemma2_to64();
    lemma2_to64_rest();
}

/// Two to a power below 64.
fn two_to(k: u64) -> (r: u64)
    requires
        k < 64,
    ensures
        r == pow2(k as nat),
{
    let mut r: u64 = 1;
    let mut i: u64 = 0;
    proof {
        lemma_powers();
    }
    while i < k
        invariant
            i <= k < 64,
            r == pow2(i as nat),
        decreases k - i,
    {
        proof {
            lemma_pow2_unfold((i + 1) as nat);
            lemma_powers();
            if i + 1 < 63 {
                lemma_pow2_strictly_increases((i + 1) as nat, 63);
            }
        }
        r = r * 2;
        i = i + 1;
    }
    r
}

/// Computes [`zero`].
pub fn is_zero(bits: u64) -> (r: bool)
    ensures
        r == zero(bits),
{
    bits % SIGN_WEIGHT == 0
}

/// Numbers whose exponent is below the bias are less than one.
proof fn lemma_small(bits: u64)
    requires
        exponent(bits) < 1023,
    ensures
        whole_magnitude(bits) == 0,
{
    let k = (-scale(bits)) as nat;
    lemma_powers();
    if k > 53 {
        lemma_pow2_strictly_increases(53, k);
    }
    lemma_pow2_pos(k);
    let s = significand(bits);
    let p = pow2(k) as int;
    assert(s / p == 0) by (nonlinear_arith)
        requires
            0 <= s < p,
    ;
}

/// Numbers whose exponent is 63 or more above the bias are out of range.
proof fn lemma_large(bits: u64)
    requires
        exponent(bits) >= 1086,
    ensures
        whole_magnitude(bits) >= SIGN_WEIGHT,
{
    let k = scale(bits) as nat;
    lemma_powers();
    if k > 11 {
        lemma_pow2_strictly_increases(11, k);
    }
    let s = significand(bits);
    let p = pow2(k) as int;
    assert(s * p >= FRACTION_RANGE * 2048) by (nonlinear_arith)
        requires
            s >= FRACTION_RANGE,
            p >= 2048,
    ;
}

/// Computes [`truncated`].
pub fn truncate(bits: u64) -> (r: i64)
    ensures
        r == truncated(bits),
{
    let exp: u64 = (bits / FRACTION_RANGE) % 2048;
    let frac: u64 = bits % FRACTION_RANGE;
    let minus: bool = bits >= SIGN_WEIGHT;
    if exp == 2047 && frac != 0 {
        return 0;
    }
    if exp < 1023 {
        proof {
            lemma_small(bits);
        }
        return 0;
    }
    if exp >= 1086 {
        proof {
            lemma_large(bits);
        }
        return if minus {
            i64::MIN
        } else {
            i64::MAX
        };
    }
    let sig: u64 = FRACTION_RANGE + frac;
    let magnitude: u64 = if exp >= 1075 {
        let p: u64 = two_to(exp - 1075);
        proof {
            lemma_powers();
            if exp < 1085 {
                lemma_pow2_strictly_increases((exp - 1075) as nat, 10);
            }
            assert(sig * p <= (2 * FRACTION_RANGE - 1) * 1024) by (nonlinear_arith)
                requires
                    0 <= sig <= 2 * FRACTION_RANGE - 1,
                    0 <= p <= 1024,
            ;
        }
        sig * p
    } else {
        let p: u64 = two_to(1075 - exp);
        proof {
            lemma_pow2_pos((1075 - exp) as nat);
            assert(0 <= sig / p <= sig) by (nonlinear_arith)
                requires
                    p > 0,
            ;
        }
        sig / p
    };
    assert(magnitude == whole_magnitude(bits));
    assert(magnitude < SIGN_WEIGHT);
    if minus {
        -(magnitude as i64)
    } else {
        magnitude as i64
    }
}

// ---------------------------------------------------------------------------
// From integers
// ---------------------------------------------------------------------------

/// How many binary digits a number has.
pub open spec fn bit_length(n: nat) -> nat
    decreases n,
{
    if n == 0 {
        0
    } else {
        1 + bit_length(n / 2)
    }
}

/// The quotient rounded to the nearest integer, and halfway to the even one.
pub open spec fn divided_to_even(n: nat, d: nat) -> nat
    recommends
        d > 0,
{
    let q = n / d;
    let r = n % d;
    if 2 * r < d || (2 * r == d && q % 2 == 0) {
        q
    } else {
        q + 1
    }
}

/// The 53 leading binary digits of a number, rounded.
pub open spec fn leading_digits(n: nat) -> nat {
    if bit_length(n) <= 53 {
        n * pow2((53 - bit_length(n)) as nat)
    } else {
        divided_to_even(n, pow2((bit_length(n) - 53) as nat))
    }
}

/// The pattern of the double nearest to an integer; of two equally near, the one
/// with the even significand.
pub open spec fn nearest(i: i64) -> u64 {
    let magnitude: nat = if i < 0 {
        (-i) as nat
    } else {
        i as nat
    };
    if i == 0 {
        0
    } else {
        ((if i < 0 {
            SIGN_WEIGHT as int
        } else {
            0
        }) + (bit_length(magnitude) + 1022) * FRACTION_RANGE + (leading_digits(magnitude)
            - FRACTION_RANGE)) as u64
    }
}

/// A number lies between the powers of two that its length gives.
pub proof fn lemma_bit_length(n: nat)
    requires
        n > 0,
    ensures
        bit_length(n) >= 1,
        pow2((bit_length(n) - 1) as nat) <= n < pow2(bit_length(n)),
    decreases n,
{
    lemma_powers();
    if n > 1 {
        lemma_bit_length(n / 2);
        lemma_pow2_unfold(bit_length(n));
        lemma_pow2_unfold((bit_length(n) - 1) as nat);
    } else {
        assert(bit_length(0) == 0);
        assert(bit_length(1) == 1);
    }
}

/// The leading digits of a positive number are 53 digits, or one more than the
/// largest such number.
pub proof fn lemma_leading_digits(n: nat)
    requires
        n > 0,
    ensures
        FRACTION_RANGE <= leading_digits(n) <= 2 * FRACTION_RANGE,
{
    let len = bit_length(n);
    lemma_bit_length(n);
    lemma_powers();
    if len <= 53 {
        let k = (53 - len) as nat;
        let p = pow2(k) as int;
        let low = pow2((len - 1) as nat) as int;
        let high = pow2(len) as int;
        lemma_pow2_adds((len - 1) as nat, k);
        lemma_pow2_adds(len, k);
        lemma_pow2_pos(k);
        assert(low * p <= n * p < high * p) by (nonlinear_arith)
            requires
                low <= n < high,
                p > 0,
        ;
    } else {
        let k = (len - 53) as nat;
        let d = pow2(k) as int;
        lemma_pow2_pos(k);
        lemma_pow2_adds(52, k);
        lemma_pow2_adds(53, k);
        let q = n as int / d;
        assert(FRACTION_RANGE <= q < 2 * FRACTION_RANGE) by (nonlinear_arith)
            requires
                q == n as int / d,
                d > 0,
                FRACTION_RANGE * d <= n,
                n < 2 * FRACTION_RANGE * d,
        ;
    }
}

/// Computes [`bit_length`].
fn count_bits(n: u64) -> (r: u64)
    ensures
        r == bit_length(n as nat),
        r <= 64,
    decreases n,
{
    if n == 0 {
        0
    } else {
        let rest: u64 = count_bits(n / 2);
        proof {
            lemma_bit_length(n as nat);
            lemma_powers();
            if rest >= 64 {
                lemma_pow2_strictly_increases(63, bit_length(n as nat));
                if bit_length(n as nat) > 65 {
                    lemma_pow2_strictly_increases(64, (bit_length(n as nat) - 1) as nat);
                }
            }
        }
        rest + 1
    }
}

/// Computes [`nearest`].
pub fn nearest_to(i: i64) -> (r: u64)
    ensures
        r == nearest(i),
{
    if i == 0 {
        return 0;
    }
    let magnitude: u64 = if i == i64::MIN {
        SIGN_WEIGHT
    } else if i < 0 {
        (-i) as u64
    } else {
        i as u64
    };
    let len: u64 = count_bits(magnitude);
    proof {
        lemma_bit_length(magnitude as nat);
        lemma_leading_digits(magnitude as nat);
        lemma_powers();
    }
    let digits: u64 = if len <= 53 {
        let p: u64 = two_to(53 - len);
        magnitude * p
    } else {
        let d: u64 = two_to(len - 53);
        proof {
            lemma_pow2_pos((len - 53) as nat);
            if len > 54 {
                lemma_pow2_strictly_increases((len - 53) as nat, 12);
            } else {
                lemma_pow2_strictly_increases(1, 12);
            }
        }
        let q: u64 = magnitude / d;
        let r: u64 = magnitude % d;
        if r < d - r || (r == d - r && q % 2 == 0) {
            q
        } else {
            assert(q < 2 * FRACTION_RANGE);
            q + 1
        }
    };
    let top: u64 = (len + 1022) * FRACTION_RANGE + (digits - FRACTION_RANGE);
    if i < 0 {
        SIGN_WEIGHT + top
    } else {
        top
    }
}

/// The absolute value of an integer.
pub open spec fn absolute(i: i64) -> nat {
    if i < 0 {
        (-i) as nat
    } else {
        i as nat
    }
}

/// The number that the pattern made of an integer stands for: the integer
/// itself, or its leading digits followed by zeros.
pub proof fn lemma_nearest_value(i: i64)
    requires
        i != 0,
    ensures
        negative(nearest(i)) == (i < 0),
        !not_a_number(nearest(i)),
        bit_length(absolute(i)) <= 53 ==> whole_magnitude(nearest(i)) == absolute(i),
        bit_length(absolute(i)) > 53 ==> whole_magnitude(nearest(i)) == leading_digits(absolute(i))
            * pow2((bit_length(absolute(i)) - 53) as nat),
{
    let n = absolute(i);
    let len = bit_length(n);
    let digits = leading_digits(n);
    let bits = nearest(i);
    lemma_powers();
    lemma_bit_length(n);
    lemma_leading_digits(n);
    if len > 64 {
        lemma_pow2_strictly_increases(63, (len - 1) as nat);
    }
    assert(len <= 64);
    let top = (len + 1022) * FRACTION_RANGE + (digits - FRACTION_RANGE);
    let sign: int = if i < 0 {
        SIGN_WEIGHT as int
    } else {
        0
    };
    assert(0 <= top < SIGN_WEIGHT);
    assert(bits == sign + top);
    if digits == 2 * FRACTION_RANGE {
        assert(top == (len + 1023) * FRACTION_RANGE);
        assert(exponent(bits) == len + 1023);
        assert(fraction(bits) == 0);
        if len <= 53 {
            // Multiplying by a power of two never reaches the next length.
            let k = (53 - len) as nat;
            lemma_pow2_adds(len, k);
            lemma_pow2_pos(k);
            let p = pow2(k) as int;
            let high = pow2(len) as int;
            assert(n * p < high * p) by (nonlinear_arith)
                requires
                    n < high,
                    p > 0,
            ;
            assert(false);
        } else {
            let k = (len - 53) as nat;
            lemma_pow2_unfold((k + 1) as nat);
            assert(scale(bits) == k + 1);
            assert(FRACTION_RANGE * (2 * pow2(k)) == (2 * FRACTION_RANGE) * pow2(k))
                by (nonlinear_arith);
        }
    } else {
        assert(exponent(bits) == len + 1022);
        assert(fraction(bits) == digits - FRACTION_RANGE);
        assert(significand(bits) == digits);
        if len <= 53 {
            let k = (53 - len) as nat;
            let p = pow2(k) as int;
            lemma_pow2_pos(k);
            assert((n * p) / p == n) by (nonlinear_arith)
                requires
                    p > 0,
            ;
            assert(scale(bits) == -k);
            if k == 0 {
                assert(n * 1 == n);
            }
        }
    }
}

/// An integer of at most 53 binary digits survives the way to a double and back.
pub proof fn law_small_integers_survive(i: i64)
    requires
        -0x20_0000_0000_0000 <= i <= 0x20_0000_0000_0000,
    ensures
        truncated(nearest(i)) == i,
{
    lemma_powers();
    if i == 0 {
        lemma_small(0);
    } else {
        let n = absolute(i);
        lemma_nearest_value(i);
        lemma_bit_length(n);
        if bit_length(n) > 54 {
            lemma_pow2_strictly_increases(53, (bit_length(n) - 1) as nat);
        }
        if bit_length(n) == 54 {
            assert(n == 2 * FRACTION_RANGE);
            assert(pow2((bit_length(n) - 53) as nat) == 2);
            assert(leading_digits(n) == FRACTION_RANGE);
            assert(whole_magnitude(nearest(i)) == FRACTION_RANGE * 2);
        }
        assert(whole_magnitude(nearest(i)) == n);
    }
}

/// A double made of an integer is off by at most half a unit of the last of its
/// 53 binary digits.
pub proof fn law_nearest_is_within_half_a_unit(i: i64)
    requires
        bit_length(absolute(i)) > 53,
    ensures
        ({
            let unit = pow2((bit_length(absolute(i)) - 53) as nat);
            let off = whole_magnitude(nearest(i)) - absolute(i);
            -unit <= 2 * off <= unit
        }),
{
    let n = absolute(i);
    let d = pow2((bit_length(n) - 53) as nat);
    lemma_pow2_pos((bit_length(n) - 53) as nat);
    assert(bit_length(0) == 0);
    lemma_nearest_value(i);
    let q = n / d;
    let r = n % d;
    assert(n == q * d + r) by (nonlinear_arith)
        requires
            d > 0,
            q == n / d,
            r == n % d,
    ;
    assert((q + 1) * d == q * d + d) by (nonlinear_arith);
}

} // verus!
