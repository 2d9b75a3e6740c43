//! The expression evaluator: the second stage of the pipeline.
//!
//! The canonical text produced by the normalizer is parsed by a seven-level
//! operator-precedence grammar, tightest first:
//!
//! ```text
//! factor        := integer_literal | '(' equation ')' | '~' factor
//! multiplicative:= factor (('*'|'/') factor)*
//! additive      := multiplicative (('+'|'-') multiplicative)*
//! shift         := additive (('<<'|'>>') additive)*
//! bitwise_and   := shift ('&' shift)*
//! bitwise_xor   := bitwise_and ('^' bitwise_and)*
//! bitwise_or    := bitwise_xor ('|' bitwise_xor)*
//! equation      := bitwise_or
//! ```
//!
//! Each level folds its operators strictly left-to-right and delegates every
//! operand to the next-tighter level; no syntax tree is built. Values are
//! signed 64-bit; `+`, `-`, `*` and `/` wrap on overflow, shifts take their
//! count modulo 64 on the bit pattern, and `/` by zero is the error
//! `DivisionByZero`, which stops evaluation everywhere, even inside
//! parentheses. Each `spec_*` function is the exact statement of the
//! corresponding `parse_*` function: it maps the unconsumed suffix to the
//! remaining suffix and the folded value, or to an error.

use vstd::prelude::*;
use vstd::slice::slice_subrange;
use vstd::string::StringSliceAdditionalSpecFns;

use crate::errors::EvalError;
use crate::normalize::{preprocess, spec_preprocess};
use crate::numeric::{digit_val, is_dec_digit, lemma_radix_val_push, radix_val};

verus! {

/// How many scratch bytes `evaluate` gives the normalizer.
pub const EVAL_BUFFER_SIZE: usize = 256;

/// `a * b` wrapped to 64 bits.
pub open spec fn mul_wrap(a: i64, b: i64) -> i64 {
    vstd::wrapping::i64_specs::wrapping_mul(a, b)
}

/// `a + b` wrapped to 64 bits.
pub open spec fn add_wrap(a: i64, b: i64) -> i64 {
    vstd::wrapping::i64_specs::wrapping_add(a, b)
}

/// `a - b` wrapped to 64 bits.
pub open spec fn sub_wrap(a: i64, b: i64) -> i64 {
    vstd::wrapping::i64_specs::wrapping_sub(a, b)
}

/// Truncated division: the quotient rounds toward zero.
pub open spec fn div_trunc(x: int, d: int) -> int
    recommends
        d != 0,
{
    if x == 0 {
        0
    } else if x > 0 && d > 0 {
        x / d
    } else if x < 0 && d < 0 {
        (x * -1) / (d * -1)
    } else if x < 0 {
        ((x * -1) / d) * -1
    } else {
        (x / (d * -1)) * -1
    }
}

/// `a / b` with truncation toward zero, wrapping on the one overflowing
/// case: the minimum value divided by -1 stays the minimum value.
pub open spec fn div_wrap(a: i64, b: i64) -> i64
    recommends
        b != 0,
{
    if a == i64::MIN && b == -1 {
        i64::MIN
    } else {
        div_trunc(a as int, b as int) as i64
    }
}

/// `a << b` on the 64-bit pattern: the count is taken modulo 64 (its low six
/// bits), never saturated or rejected.
pub open spec fn shl_wrap(a: i64, b: i64) -> i64 {
    a << (b & 63)
}

/// `a >> b` on the 64-bit pattern: the count is taken modulo 64, and the
/// sign bit is duplicated (arithmetic shift).
pub open spec fn shr_wrap(a: i64, b: i64) -> i64 {
    a >> (b & 63)
}

/// Length of the maximal leading run of decimal digit bytes.
pub open spec fn dec_run_len(s: Seq<u8>) -> nat
    decreases s.len(),
{
    if s.len() == 0 || !is_dec_digit(s[0]) {
        0
    } else {
        (1 + dec_run_len(s.skip(1))) as nat
    }
}

/// A leading digit run never extends past the end of the text.
pub proof fn lemma_dec_run_len_le(s: Seq<u8>)
    ensures
        dec_run_len(s) <= s.len(),
    decreases s.len(),
{
    if s.len() > 0 && is_dec_digit(s[0]) {
        lemma_dec_run_len_le(s.skip(1));
    }
}

/// An integer literal: the maximal decimal digit run, parsed as a signed
/// 64-bit value. Fails when the run is empty or the value overflows.
pub open spec fn spec_number(s: Seq<u8>) -> Result<(Seq<u8>, i64), EvalError> {
    let run = dec_run_len(s);
    let digits = s.take(run as int);
    if run == 0 || radix_val(digits, 10) > i64::MAX {
        Err(EvalError::ParseFailure)
    } else {
        Ok((s.skip(run as int), radix_val(digits, 10) as i64))
    }
}

/// A factor: a literal, a parenthesized equation, or `~` applied to a
/// factor. A successful parse always consumes at least one byte, which is
/// why the `t.len() < s.len()` guards in the level functions below never
/// fail; they only carry the termination measure.
pub open spec fn spec_factor(s: Seq<u8>) -> Result<(Seq<u8>, i64), EvalError>
    decreases s.len(), 0int,
{
    if s.len() == 0 {
        Err(EvalError::ParseFailure)
    } else if is_dec_digit(s[0]) {
        spec_number(s)
    } else if s[0] == 40 {  // '('
        match spec_equation(s.skip(1)) {
            Ok((t, v)) => if t.len() > 0 && t[0] == 41 {  // ')'
                Ok((t.skip(1), v))
            } else {
                Err(EvalError::ParseFailure)
            },
            Err(e) => Err(e),
        }
    } else if s[0] == 126 {  // '~'
        match spec_factor(s.skip(1)) {
            Ok((t, v)) => Ok((t, !v)),
            Err(e) => Err(e),
        }
    } else {
        Err(EvalError::ParseFailure)
    }
}

/// Folds `*` and `/` operators onto `acc`, left to right, as long as one
/// follows. A failed operand parse ends the fold with the operator left
/// unconsumed; division by zero stops everything.
pub open spec fn spec_multiplicative_tail(s: Seq<u8>, acc: i64) -> Result<
    (Seq<u8>, i64),
    EvalError,
>
    decreases s.len(), 1int,
{
    if s.len() > 0 && (s[0] == 42 || s[0] == 47) {  // '*' '/'
        match spec_factor(s.skip(1)) {
            Ok((t, v)) => {
                if s[0] == 47 && v == 0 {
                    Err(EvalError::DivisionByZero)
                } else {
                    let acc2 = if s[0] == 42 {
                        mul_wrap(acc, v)
                    } else {
                        div_wrap(acc, v)
                    };
                    if t.len() < s.len() {
                        spec_multiplicative_tail(t, acc2)
                    } else {
                        Ok((t, acc2))
                    }
                }
            },
            Err(EvalError::DivisionByZero) => Err(EvalError::DivisionByZero),
            Err(_) => Ok((s, acc)),
        }
    } else {
        Ok((s, acc))
    }
}

/// `multiplicative := factor (('*'|'/') factor)*`
pub open spec fn spec_multiplicative(s: Seq<u8>) -> Result<(Seq<u8>, i64), EvalError>
    decreases s.len(), 2int,
{
    match spec_factor(s) {
        Ok((t, v)) => if t.len() < s.len() {
            spec_multiplicative_tail(t, v)
        } else {
            Ok((t, v))
        },
        Err(e) => Err(e),
    }
}

/// Folds `+` and `-` operators onto `acc`, left to right.
pub open spec fn spec_additive_tail(s: Seq<u8>, acc: i64) -> Result<(Seq<u8>, i64), EvalError>
    decreases s.len(), 3int,
{
    if s.len() > 0 && (s[0] == 43 || s[0] == 45) {  // '+' '-'
        match spec_multiplicative(s.skip(1)) {
            Ok((t, v)) => {
                let acc2 = if s[0] == 43 {
                    add_wrap(acc, v)
                } else {
                    sub_wrap(acc, v)
                };
                if t.len() < s.len() {
                    spec_additive_tail(t, acc2)
                } else {
                    Ok((t, acc2))
                }
            },
            Err(EvalError::DivisionByZero) => Err(EvalError::DivisionByZero),
            Err(_) => Ok((s, acc)),
        }
    } else {
        Ok((s, acc))
    }
}

/// `additive := multiplicative (('+'|'-') multiplicative)*`
pub open spec fn spec_additive(s: Seq<u8>) -> Result<(Seq<u8>, i64), EvalError>
    decreases s.len(), 4int,
{
    match spec_multiplicative(s) {
        Ok((t, v)) => if t.len() < s.len() {
            spec_additive_tail(t, v)
        } else {
            Ok((t, v))
        },
        Err(e) => Err(e),
    }
}

/// Folds `<<` and `>>` operators onto `acc`, left to right.
pub open spec fn spec_shift_tail(s: Seq<u8>, acc: i64) -> Result<(Seq<u8>, i64), EvalError>
    decreases s.len(), 5int,
{
    if s.len() >= 2 && ((s[0] == 60 && s[1] == 60) || (s[0] == 62 && s[1] == 62)) {  // "<<" ">>"
        match spec_additive(s.skip(2)) {
            Ok((t, v)) => {
                let acc2 = if s[0] == 60 {
                    shl_wrap(acc, v)
                } else {
                    shr_wrap(acc, v)
                };
                if t.len() < s.len() {
                    spec_shift_tail(t, acc2)
                } else {
                    Ok((t, acc2))
                }
            },
            Err(EvalError::DivisionByZero) => Err(EvalError::DivisionByZero),
            Err(_) => Ok((s, acc)),
        }
    } else {
        Ok((s, acc))
    }
}

/// `shift := additive (('<<'|'>>') additive)*`
pub open spec fn spec_shift(s: Seq<u8>) -> Result<(Seq<u8>, i64), EvalError>
    decreases s.len(), 6int,
{
    match spec_additive(s) {
        Ok((t, v)) => if t.len() < s.len() {
            spec_shift_tail(t, v)
        } else {
            Ok((t, v))
        },
        Err(e) => Err(e),
    }
}

/// Folds `&` operators onto `acc`, left to right.
pub open spec fn spec_bitwise_and_tail(s: Seq<u8>, acc: i64) -> Result<(Seq<u8>, i64), EvalError>
    decreases s.len(), 7int,
{
    if s.len() > 0 && s[0] == 38 {  // '&'
        match spec_shift(s.skip(1)) {
            Ok((t, v)) => if t.len() < s.len() {
                spec_bitwise_and_tail(t, acc & v)
            } else {
                Ok((t, acc & v))
            },
            Err(EvalError::DivisionByZero) => Err(EvalError::DivisionByZero),
            Err(_) => Ok((s, acc)),
        }
    } else {
        Ok((s, acc))
    }
}

/// `bitwise_and := shift ('&' shift)*`
pub open spec fn spec_bitwise_and(s: Seq<u8>) -> Result<(Seq<u8>, i64), EvalError>
    decreases s.len(), 8int,
{
    match spec_shift(s) {
        Ok((t, v)) => if t.len() < s.len() {
            spec_bitwise_and_tail(t, v)
        } else {
            Ok((t, v))
        },
        Err(e) => Err(e),
    }
}

/// Folds `^` operators onto `acc`, left to right.
pub open spec fn spec_bitwise_xor_tail(s: Seq<u8>, acc: i64) -> Result<(Seq<u8>, i64), EvalError>
    decreases s.len(), 9int,
{
    if s.len() > 0 && s[0] == 94 {  // '^'
        match spec_bitwise_and(s.skip(1)) {
            Ok((t, v)) => if t.len() < s.len() {
                spec_bitwise_xor_tail(t, acc ^ v)
            } else {
                Ok((t, acc ^ v))
            },
            Err(EvalError::DivisionByZero) => Err(EvalError::DivisionByZero),
            Err(_) => Ok((s, acc)),
        }
    } else {
        Ok((s, acc))
    }
}

/// `bitwise_xor := bitwise_and ('^' bitwise_and)*`
pub open spec fn spec_bitwise_xor(s: Seq<u8>) -> Result<(Seq<u8>, i64), EvalError>
    decreases s.len(), 10int,
{
    match spec_bitwise_and(s) {
        Ok((t, v)) => if t.len() < s.len() {
            spec_bitwise_xor_tail(t, v)
        } else {
            Ok((t, v))
        },
        Err(e) => Err(e),
    }
}

/// Folds `|` operators onto `acc`, left to right.
pub open spec fn spec_bitwise_or_tail(s: Seq<u8>, acc: i64) -> Result<(Seq<u8>, i64), EvalError>
    decreases s.len(), 11int,
{
    if s.len() > 0 && s[0] == 124 {  // '|'
        match spec_bitwise_xor(s.skip(1)) {
            Ok((t, v)) => if t.len() < s.len() {
                spec_bitwise_or_tail(t, acc | v)
            } else {
                Ok((t, acc | v))
            },
            Err(EvalError::DivisionByZero) => Err(EvalError::DivisionByZero),
            Err(_) => Ok((s, acc)),
        }
    } else {
        Ok((s, acc))
    }
}

/// `bitwise_or := bitwise_xor ('|' bitwise_xor)*`
pub open spec fn spec_bitwise_or(s: Seq<u8>) -> Result<(Seq<u8>, i64), EvalError>
    decreases s.len(), 12int,
{
    match spec_bitwise_xor(s) {
        Ok((t, v)) => if t.len() < s.len() {
            spec_bitwise_or_tail(t, v)
        } else {
            Ok((t, v))
        },
        Err(e) => Err(e),
    }
}

/// The loosest level: an equation is a bitwise-or expression.
pub open spec fn spec_equation(s: Seq<u8>) -> Result<(Seq<u8>, i64), EvalError>
    decreases s.len(), 13int,
{
    spec_bitwise_or(s)
}

/// Evaluation of canonical text: one full equation, with nothing left over.
pub open spec fn spec_evaluate_text(s: Seq<u8>) -> Result<i64, EvalError> {
    match spec_equation(s) {
        Ok((t, v)) => if t.len() == 0 {
            Ok(v)
        } else {
            Err(EvalError::ParseFailure)
        },
        Err(e) => Err(e),
    }
}

/// The whole pipeline on raw input bytes: normalize into a scratch buffer of
/// `EVAL_BUFFER_SIZE` bytes, then evaluate the canonical text.
pub open spec fn spec_evaluate(s: Seq<u8>) -> Result<i64, EvalError> {
    match spec_preprocess(s, EVAL_BUFFER_SIZE as nat) {
        Ok(t) => spec_evaluate_text(t),
        Err(e) => Err(e),
    }
}

/// The parser's contract: the runtime result mirrors the specified one, and
/// a successful parse consumed at least one of the `n` input bytes.
pub open spec fn parse_agrees(
    sp: Result<(Seq<u8>, i64), EvalError>,
    r: Result<(&[u8], i64), EvalError>,
    n: nat,
) -> bool {
    match r {
        Ok(p) => sp == Ok::<(Seq<u8>, i64), EvalError>((p.0@, p.1)) && p.0@.len() < n,
        Err(e) => sp == Err::<(Seq<u8>, i64), EvalError>(e),
    }
}

/// Runtime left shift with the count taken modulo 64.
fn shl_wrapping(a: i64, b: i64) -> (r: i64)
    ensures
        r == shl_wrap(a, b),
{
    proof {
        assert(0 <= (b & 63) < 64) by (bit_vector);
    }
    let c: u32 = (b & 63) as u32;
    a << c
}

/// Runtime arithmetic right shift with the count taken modulo 64.
fn shr_wrapping(a: i64, b: i64) -> (r: i64)
    ensures
        r == shr_wrap(a, b),
{
    proof {
        assert(0 <= (b & 63) < 64) by (bit_vector);
    }
    let c: u32 = (b & 63) as u32;
    a >> c
}

/// Runtime truncated division, wrapping the one overflowing quotient.
fn div_wrapping(a: i64, b: i64) -> (r: i64)
    requires
        b != 0,
    ensures
        r == div_wrap(a, b),
{
    match a.checked_div(b) {
        Some(q) => {
            proof {
                let x = a as int;
                let d = b as int;
                assert(q as int == div_trunc(x, d));
                assert(a == i64::MIN && b == -1 ==> div_trunc(x, d) > i64::MAX);
                assert(q == div_wrap(a, b));
            }
            q
        },
        None => {
            proof {
                broadcast use vstd::arithmetic::div_mod::lemma_div_nonincreasing;
                broadcast use vstd::arithmetic::div_mod::lemma_div_pos_is_pos;

                if !(a == i64::MIN && b == -1) {
                    let x = a as int;
                    let d = b as int;
                    if x > 0 && d > 0 {
                        assert(x / d <= x);
                        assert(x / d >= 0);
                    } else if x < 0 && d < 0 {
                        assert((x * -1) / (d * -1) >= 0);
                        assert(d * -1 >= 2);
                        vstd::arithmetic::div_mod::lemma_div_is_ordered_by_denominator(
                            x * -1,
                            2,
                            d * -1,
                        );
                        vstd::arithmetic::div_mod::lemma_div_is_ordered(
                            x * -1,
                            0x8000000000000000int,
                            2,
                        );
                        assert((x * -1) / (d * -1) <= (x * -1) / 2);
                        assert((x * -1) / 2 <= 0x8000000000000000int / 2);
                    } else if x < 0 {
                        assert((x * -1) / d <= x * -1);
                        assert((x * -1) / d >= 0);
                    } else if x > 0 {
                        assert(x / (d * -1) <= x);
                        assert(x / (d * -1) >= 0);
                    }
                    assert(false);
                }
            }
            i64::MIN
        },
    }
}

/// Parses the maximal leading decimal digit run as a signed 64-bit value.
pub fn parse_number(s: &[u8]) -> (r: Result<(&[u8], i64), EvalError>)
    ensures
        parse_agrees(spec_number(s@), r, s@.len()),
{
    proof {
        lemma_dec_run_len_le(s@);
        assert(s@.skip(0) =~= s@);
    }
    let mut k: usize = 0;
    let mut val: i64 = 0;
    let mut overflow = false;
    while k < s.len() && crate::numeric::dec_digit(s[k])
        invariant
            k <= s@.len(),
            dec_run_len(s@) == k + dec_run_len(s@.skip(k as int)),
            !overflow ==> val >= 0 && val as nat == radix_val(s@.take(k as int), 10),
            overflow ==> radix_val(s@.take(k as int), 10) > i64::MAX,
        decreases s@.len() - k,
    {
        let b = s[k];
        let d = crate::numeric::digit_value(b);
        proof {
            let suf = s@.skip(k as int);
            assert(suf[0] == s@[k as int]);
            assert(suf.skip(1) =~= s@.skip(k as int + 1));
            assert(dec_run_len(suf) == 1 + dec_run_len(suf.skip(1)));
            let taken = s@.take(k as int);
            assert(s@.take(k as int + 1) =~= taken.push(b));
            lemma_radix_val_push(taken, b, 10);
        }
        if !overflow {
            let ghost old_val = val as nat;
            match val.checked_mul(10) {
                Some(v10) => {
                    match v10.checked_add(d as i64) {
                        Some(v2) => {
                            val = v2;
                        },
                        None => {
                            overflow = true;
                            assert(old_val * 10 + digit_val(b) > i64::MAX);
                        },
                    }
                },
                None => {
                    overflow = true;
                    assert(old_val * 10 > i64::MAX);
                    assert(old_val * 10 + digit_val(b) > i64::MAX);
                },
            }
        } else {
            proof {
                let taken = s@.take(k as int);
                let v = radix_val(taken, 10);
                assert(v * 10 + digit_val(b) > i64::MAX) by (nonlinear_arith)
                    requires
                        v > i64::MAX,
                ;
            }
        }
        k = k + 1;
    }
    proof {
        let suf = s@.skip(k as int);
        if k < s@.len() {
            assert(suf[0] == s@[k as int]);
        }
        assert(dec_run_len(suf) == 0);
        assert(dec_run_len(s@) == k);
    }
    if k == 0 || overflow {
        Err(EvalError::ParseFailure)
    } else {
        let rest = slice_subrange(s, k, s.len());
        proof {
            assert(rest@ =~= s@.skip(k as int));
        }
        Ok((rest, val))
    }
}

/// Parses one factor: a literal, `'(' equation ')'`, or `'~'` factor.
pub fn parse_factor(s: &[u8]) -> (r: Result<(&[u8], i64), EvalError>)
    ensures
        parse_agrees(spec_factor(s@), r, s@.len()),
    decreases s@.len(), 0int,
{
    if s.len() == 0 {
        return Err(EvalError::ParseFailure);
    }
    let c = s[0];
    if crate::numeric::dec_digit(c) {
        parse_number(s)
    } else if c == 40 {  // '('
        let rest = slice_subrange(s, 1, s.len());
        proof {
            assert(rest@ =~= s@.skip(1));
        }
        match parse_equation(rest) {
            Ok((t, v)) => {
                if t.len() > 0 && t[0] == 41 {  // ')'
                    let t2 = slice_subrange(t, 1, t.len());
                    proof {
                        assert(t2@ =~= t@.skip(1));
                    }
                    Ok((t2, v))
                } else {
                    Err(EvalError::ParseFailure)
                }
            },
            Err(e) => Err(e),
        }
    } else if c == 126 {  // '~'
        let rest = slice_subrange(s, 1, s.len());
        proof {
            assert(rest@ =~= s@.skip(1));
        }
        match parse_factor(rest) {
            Ok((t, v)) => Ok((t, !v)),
            Err(e) => Err(e),
        }
    } else {
        Err(EvalError::ParseFailure)
    }
}

/// Parses a multiplicative expression: factors folded left-to-right under
/// `*` and `/`.
pub fn parse_multiplicative(s: &[u8]) -> (r: Result<(&[u8], i64), EvalError>)
    ensures
        parse_agrees(spec_multiplicative(s@), r, s@.len()),
    decreases s@.len(), 2int,
{
    let (mut rem, mut acc) = match parse_factor(s) {
        Ok(p) => p,
        Err(e) => {
            return Err(e);
        },
    };
    while rem.len() > 0 && (rem[0] == 42 || rem[0] == 47)
        invariant
            rem@.len() < s@.len(),
            spec_multiplicative(s@) == spec_multiplicative_tail(rem@, acc),
        decreases rem@.len(),
    {
        let op = rem[0];
        let rest = slice_subrange(rem, 1, rem.len());
        proof {
            assert(rest@ =~= rem@.skip(1));
        }
        match parse_factor(rest) {
            Ok((t, v)) => {
                if op == 47 && v == 0 {
                    return Err(EvalError::DivisionByZero);
                }
                let acc2 = if op == 42 {
                    acc.wrapping_mul(v)
                } else {
                    div_wrapping(acc, v)
                };
                proof {
                    assert(spec_multiplicative_tail(rem@, acc) == spec_multiplicative_tail(
                        t@,
                        acc2,
                    ));
                }
                rem = t;
                acc = acc2;
            },
            Err(e) => {
                if matches!(e, EvalError::DivisionByZero) {
                    return Err(EvalError::DivisionByZero);
                }
                return Ok((rem, acc));
            },
        }
    }
    Ok((rem, acc))
}

/// Parses an additive expression: multiplicative expressions folded
/// left-to-right under `+` and `-`.
pub fn parse_additive(s: &[u8]) -> (r: Result<(&[u8], i64), EvalError>)
    ensures
        parse_agrees(spec_additive(s@), r, s@.len()),
    decreases s@.len(), 4int,
{
    let (mut rem, mut acc) = match parse_multiplicative(s) {
        Ok(p) => p,
        Err(e) => {
            return Err(e);
        },
    };
    while rem.len() > 0 && (rem[0] == 43 || rem[0] == 45)
        invariant
            rem@.len() < s@.len(),
            spec_additive(s@) == spec_additive_tail(rem@, acc),
        decreases rem@.len(),
    {
        let op = rem[0];
        let rest = slice_subrange(rem, 1, rem.len());
        proof {
            assert(rest@ =~= rem@.skip(1));
        }
        match parse_multiplicative(rest) {
            Ok((t, v)) => {
                let acc2 = if op == 43 {
                    acc.wrapping_add(v)
                } else {
                    acc.wrapping_sub(v)
                };
                proof {
                    assert(spec_additive_tail(rem@, acc) == spec_additive_tail(t@, acc2));
                }
                rem = t;
                acc = acc2;
            },
            Err(e) => {
                if matches!(e, EvalError::DivisionByZero) {
                    return Err(EvalError::DivisionByZero);
                }
                return Ok((rem, acc));
            },
        }
    }
    Ok((rem, acc))
}

/// Parses a shift expression: additive expressions folded left-to-right
/// under `<<` and `>>`.
pub fn parse_shift(s: &[u8]) -> (r: Result<(&[u8], i64), EvalError>)
    ensures
        parse_agrees(spec_shift(s@), r, s@.len()),
    decreases s@.len(), 6int,
{
    let (mut rem, mut acc) = match parse_additive(s) {
        Ok(p) => p,
        Err(e) => {
            return Err(e);
        },
    };
    while rem.len() >= 2 && ((rem[0] == 60 && rem[1] == 60) || (rem[0] == 62 && rem[1] == 62))
        invariant
            rem@.len() < s@.len(),
            spec_shift(s@) == spec_shift_tail(rem@, acc),
        decreases rem@.len(),
    {
        let op = rem[0];
        let rest = slice_subrange(rem, 2, rem.len());
        proof {
            assert(rest@ =~= rem@.skip(2));
        }
        match parse_additive(rest) {
            Ok((t, v)) => {
                let acc2 = if op == 60 {
                    shl_wrapping(acc, v)
                } else {
                    shr_wrapping(acc, v)
                };
                proof {
                    assert(spec_shift_tail(rem@, acc) == spec_shift_tail(t@, acc2));
                }
                rem = t;
                acc = acc2;
            },
            Err(e) => {
                if matches!(e, EvalError::DivisionByZero) {
                    return Err(EvalError::DivisionByZero);
                }
                return Ok((rem, acc));
            },
        }
    }
    Ok((rem, acc))
}

/// Parses a bitwise-and expression: shift expressions folded left-to-right
/// under `&`.
pub fn parse_bitwise_and(s: &[u8]) -> (r: Result<(&[u8], i64), EvalError>)
    ensures
        parse_agrees(spec_bitwise_and(s@), r, s@.len()),
    decreases s@.len(), 8int,
{
    let (mut rem, mut acc) = match parse_shift(s) {
        Ok(p) => p,
        Err(e) => {
            return Err(e);
        },
    };
    while rem.len() > 0 && rem[0] == 38
        invariant
            rem@.len() < s@.len(),
            spec_bitwise_and(s@) == spec_bitwise_and_tail(rem@, acc),
        decreases rem@.len(),
    {
        let rest = slice_subrange(rem, 1, rem.len());
        proof {
            assert(rest@ =~= rem@.skip(1));
        }
        match parse_shift(rest) {
            Ok((t, v)) => {
                let acc2 = acc & v;
                proof {
                    assert(spec_bitwise_and_tail(rem@, acc) == spec_bitwise_and_tail(t@, acc2));
                }
                rem = t;
                acc = acc2;
            },
            Err(e) => {
                if matches!(e, EvalError::DivisionByZero) {
                    return Err(EvalError::DivisionByZero);
                }
                return Ok((rem, acc));
            },
        }
    }
    Ok((rem, acc))
}

/// Parses a bitwise-xor expression: bitwise-and expressions folded
/// left-to-right under `^`.
pub fn parse_bitwise_xor(s: &[u8]) -> (r: Result<(&[u8], i64), EvalError>)
    ensures
        parse_agrees(spec_bitwise_xor(s@), r, s@.len()),
    decreases s@.len(), 10int,
{
    let (mut rem, mut acc) = match parse_bitwise_and(s) {
        Ok(p) => p,
        Err(e) => {
            return Err(e);
        },
    };
    while rem.len() > 0 && rem[0] == 94
        invariant
            rem@.len() < s@.len(),
            spec_bitwise_xor(s@) == spec_bitwise_xor_tail(rem@, acc),
        decreases rem@.len(),
    {
        let rest = slice_subrange(rem, 1, rem.len());
        proof {
            assert(rest@ =~= rem@.skip(1));
        }
        match parse_bitwise_and(rest) {
            Ok((t, v)) => {
                let acc2 = acc ^ v;
                proof {
                    assert(spec_bitwise_xor_tail(rem@, acc) == spec_bitwise_xor_tail(t@, acc2));
                }
                rem = t;
                acc = acc2;
            },
            Err(e) => {
                if matches!(e, EvalError::DivisionByZero) {
                    return Err(EvalError::DivisionByZero);
                }
                return Ok((rem, acc));
            },
        }
    }
    Ok((rem, acc))
}

/// Parses a bitwise-or expression: bitwise-xor expressions folded
/// left-to-right under `|`.
pub fn parse_bitwise_or(s: &[u8]) -> (r: Result<(&[u8], i64), EvalError>)
    ensures
        parse_agrees(spec_bitwise_or(s@), r, s@.len()),
    decreases s@.len(), 12int,
{
    let (mut rem, mut acc) = match parse_bitwise_xor(s) {
        Ok(p) => p,
        Err(e) => {
            return Err(e);
        },
    };
    while rem.len() > 0 && rem[0] == 124
        invariant
            rem@.len() < s@.len(),
            spec_bitwise_or(s@) == spec_bitwise_or_tail(rem@, acc),
        decreases rem@.len(),
    {
        let rest = slice_subrange(rem, 1, rem.len());
        proof {
            assert(rest@ =~= rem@.skip(1));
        }
        match parse_bitwise_xor(rest) {
            Ok((t, v)) => {
                let acc2 = acc | v;
                proof {
                    assert(spec_bitwise_or_tail(rem@, acc) == spec_bitwise_or_tail(t@, acc2));
                }
                rem = t;
                acc = acc2;
            },
            Err(e) => {
                if matches!(e, EvalError::DivisionByZero) {
                    return Err(EvalError::DivisionByZero);
                }
                return Ok((rem, acc));
            },
        }
    }
    Ok((rem, acc))
}

/// Unary NOT is self-inverse: a factor behind `~~` parses to exactly the
/// same result, value and remaining text alike, as the factor alone.
pub proof fn lemma_double_not(s: Seq<u8>)
    ensures
        spec_factor(seq![126u8, 126u8] + s) == spec_factor(s),
{
    reveal_with_fuel(spec_factor, 3);
    let ss = seq![126u8, 126u8] + s;
    let s1 = seq![126u8] + s;
    assert(ss[0] == 126);
    assert(ss.skip(1) =~= s1);
    assert(s1[0] == 126);
    assert(s1.skip(1) =~= s);
    match spec_factor(s) {
        Ok((t, v)) => {
            assert(!(!v) == v) by (bit_vector);
        },
        Err(_) => {},
    }
}

/// An arithmetic right shift keeps a negative value negative: the sign bit
/// is duplicated, whatever the count.
pub proof fn lemma_shr_preserves_sign(a: i64, b: i64)
    requires
        a < 0,
    ensures
        shr_wrap(a, b) < 0,
{
    assert(0 <= (b & 63) < 64) by (bit_vector);
    assert(a < 0 ==> a >> ((b & 63) as u64) < 0) by (bit_vector);
    assert(a >> ((b & 63) as u64) == a >> (b & 63));
}

/// Whitespace insensitivity at the pipeline level, for input free of the
/// radix prefix letters `x` and `b`: evaluating the input and evaluating the
/// input with all whitespace removed give the same outcome.
pub proof fn lemma_evaluate_whitespace_insensitive(s: Seq<u8>)
    requires
        forall|i: int| 0 <= i < s.len() ==> #[trigger] s[i] != 120 && s[i] != 98,
    ensures
        spec_evaluate(s) == spec_evaluate(crate::normalize::strip_spaces(s)),
{
    crate::normalize::lemma_preprocess_whitespace_insensitive(s, EVAL_BUFFER_SIZE as nat);
}

/// Evaluates raw input bytes: normalizes them into a stack scratch buffer of
/// `EVAL_BUFFER_SIZE` bytes, parses the canonical text as one equation, and
/// requires the whole text to be consumed.
pub fn evaluate_bytes(input: &[u8]) -> (r: Result<i64, EvalError>)
    ensures
        r == spec_evaluate(input@),
{
    let mut buffer = [0u8; EVAL_BUFFER_SIZE];
    let n = match preprocess(input, vstd::array::ref_mut_array_unsizing_coercion(&mut buffer)) {
        Ok(n) => n,
        Err(e) => {
            return Err(e);
        },
    };
    let canonical = slice_subrange(buffer.as_slice(), 0, n);
    match parse_equation(canonical) {
        Ok((rest, value)) => {
            if rest.len() == 0 {
                Ok(value)
            } else {
                Err(EvalError::ParseFailure)
            }
        },
        Err(e) => Err(e),
    }
}

/// Evaluates raw input text; the engine's single outside contract.
pub fn evaluate(input: &str) -> (r: Result<i64, EvalError>)
    ensures
        r == spec_evaluate(input.spec_bytes()),
{
    evaluate_bytes(input.as_bytes())
}

/// Parses an equation, the loosest grammar level.
pub fn parse_equation(s: &[u8]) -> (r: Result<(&[u8], i64), EvalError>)
    ensures
        parse_agrees(spec_equation(s@), r, s@.len()),
    decreases s@.len(), 13int,
{
    parse_bitwise_or(s)
}

} // verus!
