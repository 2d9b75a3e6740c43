//! Byte-level numeric text: digit classification, the value of a digit run
//! in a given radix, and the decimal text of an unsigned value.
//!
//! The normalizer uses these to parse `0x`/`0b` digit runs and re-emit them
//! as decimal; the evaluator uses them to parse decimal literals.

use vstd::prelude::*;

verus! {

/// True for the ASCII bytes `'0'..='9'`.
pub open spec fn is_dec_digit(b: u8) -> bool {
    48 <= b <= 57
}

/// True for the ASCII bytes `'0'` and `'1'`.
pub open spec fn is_bin_digit(b: u8) -> bool {
    b == 48 || b == 49
}

/// True for the ASCII bytes `0-9`, `a-f`, `A-F`.
pub open spec fn is_hex_digit(b: u8) -> bool {
    is_dec_digit(b) || (97 <= b <= 102) || (65 <= b <= 70)
}

/// The numeric value of one ASCII digit byte, in any radix up to 16.
/// Bytes that are not digits are given value 0; callers guard with the
/// predicates above.
pub open spec fn digit_val(b: u8) -> nat {
    if is_dec_digit(b) {
        (b - 48) as nat
    } else if 97 <= b <= 102 {
        (b - 97 + 10) as nat
    } else if 65 <= b <= 70 {
        (b - 65 + 10) as nat
    } else {
        0
    }
}

/// The value of a digit run read most-significant first in the given radix.
pub open spec fn radix_val(s: Seq<u8>, base: nat) -> nat
    decreases s.len(),
{
    if s.len() == 0 {
        0
    } else {
        radix_val(s.drop_last(), base) * base + digit_val(s.last())
    }
}

/// The decimal text of `v`: most-significant digit first, no leading zeros
/// except for the single digit `0` itself.
pub open spec fn dec_digits(v: nat) -> Seq<u8>
    decreases v,
{
    if v < 10 {
        seq![(v + 48) as u8]
    } else {
        dec_digits(v / 10) + seq![(v % 10 + 48) as u8]
    }
}

/// 10 to the power `k`.
pub open spec fn pow10(k: nat) -> nat
    decreases k,
{
    if k == 0 {
        1
    } else {
        10 * pow10((k - 1) as nat)
    }
}

/// Runtime test for `is_dec_digit`.
pub fn dec_digit(b: u8) -> (r: bool)
    ensures
        r == is_dec_digit(b),
{
    48 <= b && b <= 57
}

/// Runtime test for `is_bin_digit`.
pub fn bin_digit(b: u8) -> (r: bool)
    ensures
        r == is_bin_digit(b),
{
    b == 48 || b == 49
}

/// Runtime test for `is_hex_digit`.
pub fn hex_digit(b: u8) -> (r: bool)
    ensures
        r == is_hex_digit(b),
{
    (48 <= b && b <= 57) || (97 <= b && b <= 102) || (65 <= b && b <= 70)
}

/// The numeric value of a digit byte, at runtime.
pub fn digit_value(b: u8) -> (r: u8)
    requires
        is_hex_digit(b),
    ensures
        r as nat == digit_val(b),
        r < 16,
{
    if 48 <= b && b <= 57 {
        b - 48
    } else if 97 <= b && b <= 102 {
        b - 97 + 10
    } else {
        b - 65 + 10
    }
}

/// One base-16 digit as an ASCII byte, in the chosen letter case.
pub open spec fn hex_byte(d: nat, uppercase: bool) -> u8 {
    if d < 10 {
        (d + 48) as u8
    } else if uppercase {
        (d + 55) as u8
    } else {
        (d + 87) as u8
    }
}

/// The fixed-width base-16 text of `v`: exactly `k` digits, zero-padded at
/// the front; digits beyond the `k`-th are cut off.
pub open spec fn hex_digits_fixed(v: nat, k: nat, uppercase: bool) -> Seq<u8>
    decreases k,
{
    if k == 0 {
        Seq::empty()
    } else {
        hex_digits_fixed(v / 16, (k - 1) as nat, uppercase) + seq![hex_byte(v % 16, uppercase)]
    }
}

/// The decimal text of `v`, written into the tail of a fixed scratch array:
/// the digits occupy the last `r.1` cells of `r.0`.
pub fn dec_text(v: u64) -> (r: ([u8; 20], usize))
    ensures
        1 <= r.1 <= 20,
        r.0@.subrange(20 - r.1 as int, 20) == dec_digits(v as nat),
{
    proof {
        lemma_dec_digits_len_u64(v as nat);
    }
    let mut tmp = [0u8; 20];
    let mut rest: u64 = v / 10;
    let mut k: usize = 1;
    tmp[19] = (v % 10) as u8 + 48;
    proof {
        if v < 10 {
            assert(dec_digits(v as nat) =~= tmp@.subrange(19, 20));
        } else {
            assert(dec_digits(v as nat) =~= dec_digits(rest as nat) + tmp@.subrange(19, 20));
        }
    }
    while rest != 0
        invariant
            1 <= k <= 20,
            rest == 0 ==> dec_digits(v as nat) =~= tmp@.subrange(20 - k as int, 20),
            rest != 0 ==> dec_digits(v as nat) =~= dec_digits(rest as nat) + tmp@.subrange(
                20 - k as int,
                20,
            ),
            1 <= dec_digits(v as nat).len() <= 20,
        decreases rest,
    {
        proof {
            assert(dec_digits(v as nat).len() == dec_digits(rest as nat).len() + k);
        }
        let ghost old_tmp = tmp@;
        let ghost old_rest = rest as nat;
        tmp[19 - k] = (rest % 10) as u8 + 48;
        proof {
            assert(tmp@.subrange(20 - k as int, 20) =~= old_tmp.subrange(20 - k as int, 20));
            if old_rest < 10 {
                assert(dec_digits(old_rest) =~= tmp@.subrange(19 - k as int, 20 - k as int));
            } else {
                assert(dec_digits(old_rest) =~= dec_digits(old_rest / 10) + tmp@.subrange(
                    19 - k as int,
                    20 - k as int,
                ));
            }
            assert(dec_digits(old_rest) + old_tmp.subrange(20 - k as int, 20) =~= (if old_rest
                < 10 {
                tmp@.subrange(19 - k as int, 20)
            } else {
                dec_digits(old_rest / 10) + tmp@.subrange(19 - k as int, 20)
            }));
        }
        rest = rest / 10;
        k = k + 1;
    }
    (tmp, k)
}

/// The fixed-width base-16 text of `v`, lowest digits in the tail of the
/// returned array.
pub fn hex_text8(v: u32, uppercase: bool) -> (r: [u8; 8])
    ensures
        r@ == hex_digits_fixed(v as nat, 8, uppercase),
{
    let mut tmp = [0u8; 8];
    let mut rest: u32 = v;
    let mut k: usize = 0;
    while k < 8
        invariant
            k <= 8,
            hex_digits_fixed(v as nat, 8, uppercase) =~= hex_digits_fixed(
                rest as nat,
                (8 - k) as nat,
                uppercase,
            ) + tmp@.subrange(8 - k as int, 8),
        decreases 8 - k,
    {
        let d = (rest % 16) as u8;
        let ghost old_tmp = tmp@;
        let ghost old_rest = rest as nat;
        tmp[7 - k] = if d < 10 {
            d + 48
        } else if uppercase {
            d + 55
        } else {
            d + 87
        };
        proof {
            assert(tmp@.subrange(8 - k as int, 8) =~= old_tmp.subrange(8 - k as int, 8));
            assert(tmp@[7 - k as int] == hex_byte(old_rest % 16, uppercase));
            assert(hex_digits_fixed(old_rest, (8 - k) as nat, uppercase) =~= hex_digits_fixed(
                old_rest / 16,
                (8 - k - 1) as nat,
                uppercase,
            ) + tmp@.subrange(7 - k as int, 8 - k as int));
            assert(hex_digits_fixed(old_rest / 16, (8 - k - 1) as nat, uppercase) + tmp@.subrange(
                7 - k as int,
                8 - k as int,
            ) + old_tmp.subrange(8 - k as int, 8) =~= hex_digits_fixed(
                old_rest / 16,
                (8 - k - 1) as nat,
                uppercase,
            ) + tmp@.subrange(7 - k as int, 8));
        }
        rest = rest / 16;
        k = k + 1;
    }
    proof {
        assert(tmp@.subrange(0, 8) =~= tmp@);
    }
    tmp
}

/// Appending one digit to a run multiplies its value by the radix and adds
/// the digit.
pub proof fn lemma_radix_val_push(s: Seq<u8>, b: u8, base: nat)
    ensures
        radix_val(s.push(b), base) == radix_val(s, base) * base + digit_val(b),
{
    assert(s.push(b).drop_last() =~= s);
    assert(s.push(b).last() == b);
}

/// The decimal text of a value below `pow10(k)` has at most `k` digits.
pub proof fn lemma_dec_digits_len(v: nat, k: nat)
    requires
        k >= 1,
        v < pow10(k),
    ensures
        1 <= dec_digits(v).len() <= k,
    decreases v,
{
    if v >= 10 {
        assert(pow10(k) == 10 * pow10((k - 1) as nat));
        if k == 1 {
            assert(pow10(1nat) == 10);
            assert(false);
        }
        assert(v / 10 < pow10((k - 1) as nat)) by (nonlinear_arith)
            requires
                v < 10 * pow10((k - 1) as nat),
                v >= 10,
        ;
        lemma_dec_digits_len(v / 10, (k - 1) as nat);
    }
}

/// Any value a `u64` can hold has at most 20 decimal digits.
pub proof fn lemma_dec_digits_len_u64(v: nat)
    requires
        v < 0x10000000000000000,
    ensures
        1 <= dec_digits(v).len() <= 20,
{
    reveal_with_fuel(pow10, 21);
    assert(pow10(20) == 100000000000000000000);
    lemma_dec_digits_len(v, 20);
}

/// Literal rewriting is value-preserving: reading the decimal text of `v`
/// back as a base-10 digit run yields `v` again.
pub proof fn lemma_dec_digits_value(v: nat)
    ensures
        radix_val(dec_digits(v), 10) == v,
    decreases v,
{
    if v < 10 {
        let s = seq![(v + 48) as u8];
        assert(s.drop_last() =~= Seq::<u8>::empty());
        assert(radix_val(s.drop_last(), 10) == 0);
        assert(radix_val(s, 10) == 0 * 10 + digit_val((v + 48) as u8));
    } else {
        lemma_dec_digits_value(v / 10);
        let d = ((v % 10) + 48) as u8;
        assert(dec_digits(v) =~= dec_digits(v / 10).push(d));
        lemma_radix_val_push(dec_digits(v / 10), d, 10);
        assert(digit_val(d) == v % 10);
        assert((v / 10) * 10 + v % 10 == v) by (nonlinear_arith);
    }
}

} // verus!
