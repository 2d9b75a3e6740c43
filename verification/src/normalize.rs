//! The literal normalizer: the first stage of the pipeline.
//!
//! `preprocess` walks the raw input bytes once, drops whitespace, rewrites
//! `0x`/`0b` literals to decimal text, copies every other byte verbatim, and
//! writes the result into a caller-supplied fixed-capacity buffer. Every
//! write is checked against the remaining capacity. `spec_preprocess` is the
//! exact statement of that transformation, including which error is reported
//! first when several could apply.

use vstd::prelude::*;

use crate::errors::EvalError;
use crate::numeric::{
    dec_digits, digit_val, is_bin_digit, is_hex_digit, lemma_radix_val_push, radix_val,
};

verus! {

/// The whitespace bytes the normalizer drops: space, tab, CR, LF.
pub open spec fn is_space(b: u8) -> bool {
    b == 32 || b == 9 || b == 13 || b == 10
}

/// Length of the maximal leading run of hex digit bytes.
pub open spec fn hex_run_len(s: Seq<u8>) -> nat
    decreases s.len(),
{
    if s.len() == 0 || !is_hex_digit(s[0]) {
        0
    } else {
        (1 + hex_run_len(s.skip(1))) as nat
    }
}

/// Length of the maximal leading run of binary digit bytes.
pub open spec fn bin_run_len(s: Seq<u8>) -> nat
    decreases s.len(),
{
    if s.len() == 0 || !is_bin_digit(s[0]) {
        0
    } else {
        (1 + bin_run_len(s.skip(1))) as nat
    }
}

/// A leading digit run never extends past the end of the text.
pub proof fn lemma_hex_run_len_le(s: Seq<u8>)
    ensures
        hex_run_len(s) <= s.len(),
    decreases s.len(),
{
    if s.len() > 0 && is_hex_digit(s[0]) {
        lemma_hex_run_len_le(s.skip(1));
    }
}

/// A leading digit run never extends past the end of the text.
pub proof fn lemma_bin_run_len_le(s: Seq<u8>)
    ensures
        bin_run_len(s) <= s.len(),
    decreases s.len(),
{
    if s.len() > 0 && is_bin_digit(s[0]) {
        lemma_bin_run_len_le(s.skip(1));
    }
}

/// What normalization produces from the input `s` into a buffer with `room`
/// bytes of capacity left, processing byte by byte:
///
/// - whitespace is dropped;
/// - `0x`/`0b` starts a literal: its maximal digit run is read, rejected if
///   empty or beyond 64 bits, and otherwise re-emitted as decimal text;
/// - a `0` not followed by `x` or `b` is emitted and the next byte is left
///   for the following step;
/// - any other byte is emitted verbatim.
///
/// Each emission is checked against the room remaining at that moment, so a
/// `BufferOverflow` earlier in the text takes precedence over an invalid
/// literal later in it, and vice versa.
pub open spec fn spec_preprocess(s: Seq<u8>, room: nat) -> Result<Seq<u8>, EvalError>
    decreases s.len(),
    via spec_preprocess_decreases
{
    if s.len() == 0 {
        Ok(Seq::empty())
    } else if is_space(s[0]) {
        spec_preprocess(s.skip(1), room)
    } else if s[0] == 48 && s.len() >= 2 && s[1] == 120 {  // "0x"
        let run = hex_run_len(s.skip(2));
        let digits = s.skip(2).take(run as int);
        if run == 0 || radix_val(digits, 16) > u64::MAX {
            Err(EvalError::InvalidHexLiteral)
        } else {
            let text = dec_digits(radix_val(digits, 16));
            if text.len() > room {
                Err(EvalError::BufferOverflow)
            } else {
                match spec_preprocess(s.skip(2 + run as int), (room - text.len()) as nat) {
                    Ok(t) => Ok(text + t),
                    Err(e) => Err(e),
                }
            }
        }
    } else if s[0] == 48 && s.len() >= 2 && s[1] == 98 {  // "0b"
        let run = bin_run_len(s.skip(2));
        let digits = s.skip(2).take(run as int);
        if run == 0 || radix_val(digits, 2) > u64::MAX {
            Err(EvalError::InvalidBinaryLiteral)
        } else {
            let text = dec_digits(radix_val(digits, 2));
            if text.len() > room {
                Err(EvalError::BufferOverflow)
            } else {
                match spec_preprocess(s.skip(2 + run as int), (room - text.len()) as nat) {
                    Ok(t) => Ok(text + t),
                    Err(e) => Err(e),
                }
            }
        }
    } else {
        if room == 0 {
            Err(EvalError::BufferOverflow)
        } else {
            match spec_preprocess(s.skip(1), (room - 1) as nat) {
                Ok(t) => Ok(seq![s[0]] + t),
                Err(e) => Err(e),
            }
        }
    }
}

#[via_fn]
proof fn spec_preprocess_decreases(s: Seq<u8>, room: nat) {
    if s.len() >= 2 {
        lemma_hex_run_len_le(s.skip(2));
        lemma_bin_run_len_le(s.skip(2));
    }
}

/// Prepends already-emitted text to the outcome of normalizing the rest.
pub open spec fn norm_join(prefix: Seq<u8>, rest: Result<Seq<u8>, EvalError>) -> Result<
    Seq<u8>,
    EvalError,
> {
    match rest {
        Ok(t) => Ok(prefix + t),
        Err(e) => Err(e),
    }
}

proof fn lemma_norm_join_assoc(a: Seq<u8>, b: Seq<u8>, r: Result<Seq<u8>, EvalError>)
    ensures
        norm_join(a, norm_join(b, r)) == norm_join(a + b, r),
{
    match r {
        Ok(t) => {
            assert(a + (b + t) =~= (a + b) + t);
        },
        Err(_) => {},
    }
}

proof fn lemma_norm_join_empty(r: Result<Seq<u8>, EvalError>)
    ensures
        norm_join(Seq::empty(), r) == r,
{
    match r {
        Ok(t) => {
            assert(Seq::empty() + t =~= t);
        },
        Err(_) => {},
    }
}

proof fn proof_run_bound_hex(s: Seq<u8>)
    requires
        s.len() >= 2,
    ensures
        hex_run_len(s.skip(2)) <= s.len() - 2,
{
    lemma_hex_run_len_le(s.skip(2));
}

proof fn proof_run_bound_bin(s: Seq<u8>)
    requires
        s.len() >= 2,
    ensures
        bin_run_len(s.skip(2)) <= s.len() - 2,
{
    lemma_bin_run_len_le(s.skip(2));
}

/// A successful normalization fits the room it was given, and any room at
/// least as large as the output itself yields the same output: the buffer
/// bound is exact on the success side.
pub proof fn lemma_preprocess_room(s: Seq<u8>, room: nat, out: Seq<u8>, room2: nat)
    requires
        spec_preprocess(s, room) == Ok::<Seq<u8>, EvalError>(out),
        room2 >= out.len(),
    ensures
        out.len() <= room,
        spec_preprocess(s, room2) == Ok::<Seq<u8>, EvalError>(out),
    decreases s.len(),
{
    if s.len() == 0 {
        assert(out =~= Seq::<u8>::empty());
    } else if is_space(s[0]) {
        lemma_preprocess_room(s.skip(1), room, out, room2);
    } else if s[0] == 48 && s.len() >= 2 && s[1] == 120 {
        let run = hex_run_len(s.skip(2));
        proof_run_bound_hex(s);
        let text = dec_digits(radix_val(s.skip(2).take(run as int), 16));
        match spec_preprocess(s.skip(2 + run as int), (room - text.len()) as nat) {
            Ok(t) => {
                assert(out == text + t);
                lemma_preprocess_room(
                    s.skip(2 + run as int),
                    (room - text.len()) as nat,
                    t,
                    (room2 - text.len()) as nat,
                );
            },
            Err(_) => {},
        }
    } else if s[0] == 48 && s.len() >= 2 && s[1] == 98 {
        let run = bin_run_len(s.skip(2));
        proof_run_bound_bin(s);
        let text = dec_digits(radix_val(s.skip(2).take(run as int), 2));
        match spec_preprocess(s.skip(2 + run as int), (room - text.len()) as nat) {
            Ok(t) => {
                assert(out == text + t);
                lemma_preprocess_room(
                    s.skip(2 + run as int),
                    (room - text.len()) as nat,
                    t,
                    (room2 - text.len()) as nat,
                );
            },
            Err(_) => {},
        }
    } else {
        match spec_preprocess(s.skip(1), (room - 1) as nat) {
            Ok(t) => {
                assert(out == seq![s[0]] + t);
                lemma_preprocess_room(s.skip(1), (room - 1) as nat, t, (room2 - 1) as nat);
            },
            Err(_) => {},
        }
    }
}

/// The buffer bound is exact on the failure side too: any room strictly
/// smaller than the normalized text fails with `BufferOverflow`.
pub proof fn lemma_preprocess_overflow(s: Seq<u8>, room: nat, out: Seq<u8>, room2: nat)
    requires
        spec_preprocess(s, room) == Ok::<Seq<u8>, EvalError>(out),
        room2 < out.len(),
    ensures
        spec_preprocess(s, room2) == Err::<Seq<u8>, EvalError>(EvalError::BufferOverflow),
    decreases s.len(),
{
    if s.len() == 0 {
        assert(out =~= Seq::<u8>::empty());
    } else if is_space(s[0]) {
        lemma_preprocess_overflow(s.skip(1), room, out, room2);
    } else if s[0] == 48 && s.len() >= 2 && s[1] == 120 {
        let run = hex_run_len(s.skip(2));
        proof_run_bound_hex(s);
        let text = dec_digits(radix_val(s.skip(2).take(run as int), 16));
        match spec_preprocess(s.skip(2 + run as int), (room - text.len()) as nat) {
            Ok(t) => {
                assert(out == text + t);
                if room2 >= text.len() {
                    lemma_preprocess_overflow(
                        s.skip(2 + run as int),
                        (room - text.len()) as nat,
                        t,
                        (room2 - text.len()) as nat,
                    );
                }
            },
            Err(_) => {},
        }
    } else if s[0] == 48 && s.len() >= 2 && s[1] == 98 {
        let run = bin_run_len(s.skip(2));
        proof_run_bound_bin(s);
        let text = dec_digits(radix_val(s.skip(2).take(run as int), 2));
        match spec_preprocess(s.skip(2 + run as int), (room - text.len()) as nat) {
            Ok(t) => {
                assert(out == text + t);
                if room2 >= text.len() {
                    lemma_preprocess_overflow(
                        s.skip(2 + run as int),
                        (room - text.len()) as nat,
                        t,
                        (room2 - text.len()) as nat,
                    );
                }
            },
            Err(_) => {},
        }
    } else {
        match spec_preprocess(s.skip(1), (room - 1) as nat) {
            Ok(t) => {
                assert(out == seq![s[0]] + t);
                if room2 >= 1 {
                    lemma_preprocess_overflow(s.skip(1), (room - 1) as nat, t, (room2 - 1) as nat);
                }
            },
            Err(_) => {},
        }
    }
}

/// Canonical text: no whitespace and no recognized radix prefix anywhere.
/// This is what normalization leaves behind when its input was free of
/// literal rewrites.
pub open spec fn is_canonical_text(t: Seq<u8>) -> bool {
    (forall|i: int| 0 <= i < t.len() ==> !is_space(#[trigger] t[i])) && (forall|i: int|
        0 <= i && i + 1 < t.len() ==> !(#[trigger] t[i] == 48 && (t[i + 1] == 120 || t[i + 1]
            == 98)))
}

/// Re-normalizing canonical text is a no-op: every byte is copied verbatim,
/// so the output equals the input whenever it fits.
pub proof fn lemma_preprocess_idempotent(t: Seq<u8>, room: nat)
    requires
        is_canonical_text(t),
        t.len() <= room,
    ensures
        spec_preprocess(t, room) == Ok::<Seq<u8>, EvalError>(t),
    decreases t.len(),
{
    if t.len() > 0 {
        assert(!is_space(t[0]));
        if t.len() >= 2 {
            assert(!(t[0] == 48 && (t[1] == 120 || t[1] == 98)));
        }
        let rest = t.skip(1);
        assert forall|i: int| 0 <= i < rest.len() implies !is_space(#[trigger] rest[i]) by {
            assert(rest[i] == t[i + 1]);
        }
        assert forall|i: int| 0 <= i && i + 1 < rest.len() implies !(#[trigger] rest[i] == 48 && (
        rest[i + 1] == 120 || rest[i + 1] == 98)) by {
            assert(rest[i] == t[i + 1]);
            assert(rest[i + 1] == t[i + 2]);
        }
        lemma_preprocess_idempotent(rest, (room - 1) as nat);
        assert(spec_preprocess(t, room) == norm_join(
            seq![t[0]],
            spec_preprocess(rest, (room - 1) as nat),
        ));
        assert(seq![t[0]] + rest =~= t);
    } else {
        assert(t =~= Seq::<u8>::empty());
    }
}

/// Drops every whitespace byte, leaving the rest in order.
pub open spec fn strip_spaces(s: Seq<u8>) -> Seq<u8>
    decreases s.len(),
{
    if s.len() == 0 {
        Seq::empty()
    } else if is_space(s[0]) {
        strip_spaces(s.skip(1))
    } else {
        seq![s[0]] + strip_spaces(s.skip(1))
    }
}

/// Every byte of the stripped text comes from the unstripped text.
proof fn lemma_strip_spaces_no_prefix_letters(s: Seq<u8>)
    requires
        forall|i: int| 0 <= i < s.len() ==> #[trigger] s[i] != 120 && s[i] != 98,
    ensures
        forall|i: int|
            0 <= i < strip_spaces(s).len() ==> #[trigger] strip_spaces(s)[i] != 120
                && strip_spaces(s)[i] != 98,
    decreases s.len(),
{
    if s.len() > 0 {
        let rest = s.skip(1);
        assert forall|i: int| 0 <= i < rest.len() implies #[trigger] rest[i] != 120 && rest[i]
            != 98 by {
            assert(rest[i] == s[i + 1]);
        }
        lemma_strip_spaces_no_prefix_letters(rest);
        if is_space(s[0]) {
            assert forall|i: int| 0 <= i < strip_spaces(s).len() implies #[trigger] strip_spaces(
                s,
            )[i] != 120 && strip_spaces(s)[i] != 98 by {
                assert(strip_spaces(s)[i] == strip_spaces(rest)[i]);
            }
        } else {
            assert forall|i: int| 0 <= i < strip_spaces(s).len() implies #[trigger] strip_spaces(
                s,
            )[i] != 120 && strip_spaces(s)[i] != 98 by {
                if i == 0 {
                    assert(strip_spaces(s)[0] == s[0]);
                } else {
                    assert(strip_spaces(s)[i] == strip_spaces(rest)[i - 1]);
                }
            }
        }
    }
}

/// Whitespace insensitivity, for input free of the radix prefix letters `x`
/// and `b`: normalizing the input and normalizing the input with all
/// whitespace removed give the same outcome. (With those letters present
/// this can fail, because whitespace around a `0` decides whether a literal
/// prefix is recognized.)
pub proof fn lemma_preprocess_whitespace_insensitive(s: Seq<u8>, room: nat)
    requires
        forall|i: int| 0 <= i < s.len() ==> #[trigger] s[i] != 120 && s[i] != 98,
    ensures
        spec_preprocess(s, room) == spec_preprocess(strip_spaces(s), room),
    decreases s.len(),
{
    if s.len() > 0 {
        let rest = s.skip(1);
        assert forall|i: int| 0 <= i < rest.len() implies #[trigger] rest[i] != 120 && rest[i]
            != 98 by {
            assert(rest[i] == s[i + 1]);
        }
        lemma_preprocess_whitespace_insensitive(rest, room);
        if is_space(s[0]) {
            assert(spec_preprocess(s, room) == spec_preprocess(rest, room));
        } else {
            // Neither side can enter a literal branch: the byte after the
            // leading byte is never `x` or `b`.
            if room > 0 {
                lemma_preprocess_whitespace_insensitive(rest, (room - 1) as nat);
            }
            let stripped = strip_spaces(s);
            assert(stripped == seq![s[0]] + strip_spaces(rest));
            assert(stripped[0] == s[0]);
            assert(stripped.skip(1) =~= strip_spaces(rest));
            lemma_strip_spaces_no_prefix_letters(rest);
            if stripped.len() >= 2 {
                assert(stripped[1] == strip_spaces(rest)[0]);
            }
            if s.len() >= 2 {
                assert(s[1] != 120 && s[1] != 98);
            }
        }
    }
}

/// Reads the maximal run of hex digits starting at `start` and its value.
/// Returns the run length, and `None` when the value does not fit in 64
/// bits.
fn scan_hex_run(input: &[u8], start: usize) -> (r: (usize, Option<u64>))
    requires
        start <= input@.len(),
    ensures
        ({
            let run = hex_run_len(input@.skip(start as int));
            let digits = input@.skip(start as int).take(run as int);
            r.0 == run && start + run <= input@.len() && match r.1 {
                Some(v) => v as nat == radix_val(digits, 16),
                None => radix_val(digits, 16) > u64::MAX,
            }
        }),
{
    proof {
        lemma_hex_run_len_le(input@.skip(start as int));
    }
    let mut k: usize = 0;
    let mut val: u64 = 0;
    let mut overflow = false;
    while k < input.len() - start && crate::numeric::hex_digit(input[start + k])
        invariant
            start + k <= input@.len(),
            hex_run_len(input@.skip(start as int)) == k + hex_run_len(
                input@.skip(start as int + k),
            ),
            !overflow ==> val as nat == radix_val(input@.skip(start as int).take(k as int), 16),
            overflow ==> radix_val(input@.skip(start as int).take(k as int), 16) > u64::MAX,
        decreases input@.len() - start - k,
    {
        let b = input[start + k];
        let d = crate::numeric::digit_value(b);
        proof {
            let suf = input@.skip(start as int + k);
            assert(suf[0] == input@[start as int + k]);
            assert(suf.skip(1) =~= input@.skip(start as int + k + 1));
            assert(hex_run_len(suf) == 1 + hex_run_len(suf.skip(1)));
            let taken = input@.skip(start as int).take(k as int);
            assert(input@.skip(start as int).take(k as int + 1) =~= taken.push(b));
            lemma_radix_val_push(taken, b, 16);
        }
        if !overflow {
            let ghost old_val = val as nat;
            match val.checked_mul(16) {
                Some(v16) => {
                    match v16.checked_add(d as u64) {
                        Some(v2) => {
                            val = v2;
                        },
                        None => {
                            overflow = true;
                            assert(old_val * 16 + digit_val(b) > u64::MAX);
                        },
                    }
                },
                None => {
                    overflow = true;
                    assert(old_val * 16 > u64::MAX);
                    assert(old_val * 16 + digit_val(b) > u64::MAX);
                },
            }
        } else {
            proof {
                let taken = input@.skip(start as int).take(k as int);
                let v = radix_val(taken, 16);
                assert(v * 16 + digit_val(b) > u64::MAX) by (nonlinear_arith)
                    requires
                        v > u64::MAX,
                ;
            }
        }
        k = k + 1;
    }
    proof {
        let suf = input@.skip(start as int + k);
        if start + k == input@.len() {
            assert(suf.len() == 0);
        } else {
            assert(suf[0] == input@[start as int + k]);
        }
        assert(hex_run_len(suf) == 0);
        assert(input@.skip(start as int).take(k as int) =~= input@.skip(start as int).take(
            hex_run_len(input@.skip(start as int)) as int,
        ));
    }
    if overflow {
        (k, None)
    } else {
        (k, Some(val))
    }
}

/// Reads the maximal run of binary digits starting at `start` and its value.
/// Returns the run length, and `None` when the value does not fit in 64
/// bits.
fn scan_bin_run(input: &[u8], start: usize) -> (r: (usize, Option<u64>))
    requires
        start <= input@.len(),
    ensures
        ({
            let run = bin_run_len(input@.skip(start as int));
            let digits = input@.skip(start as int).take(run as int);
            r.0 == run && start + run <= input@.len() && match r.1 {
                Some(v) => v as nat == radix_val(digits, 2),
                None => radix_val(digits, 2) > u64::MAX,
            }
        }),
{
    proof {
        lemma_bin_run_len_le(input@.skip(start as int));
    }
    let mut k: usize = 0;
    let mut val: u64 = 0;
    let mut overflow = false;
    while k < input.len() - start && crate::numeric::bin_digit(input[start + k])
        invariant
            start + k <= input@.len(),
            bin_run_len(input@.skip(start as int)) == k + bin_run_len(
                input@.skip(start as int + k),
            ),
            !overflow ==> val as nat == radix_val(input@.skip(start as int).take(k as int), 2),
            overflow ==> radix_val(input@.skip(start as int).take(k as int), 2) > u64::MAX,
        decreases input@.len() - start - k,
    {
        let b = input[start + k];
        let d = crate::numeric::digit_value(b);
        proof {
            let suf = input@.skip(start as int + k);
            assert(suf[0] == input@[start as int + k]);
            assert(suf.skip(1) =~= input@.skip(start as int + k + 1));
            assert(bin_run_len(suf) == 1 + bin_run_len(suf.skip(1)));
            let taken = input@.skip(start as int).take(k as int);
            assert(input@.skip(start as int).take(k as int + 1) =~= taken.push(b));
            lemma_radix_val_push(taken, b, 2);
        }
        if !overflow {
            let ghost old_val = val as nat;
            match val.checked_mul(2) {
                Some(v2) => {
                    match v2.checked_add(d as u64) {
                        Some(v3) => {
                            val = v3;
                        },
                        None => {
                            overflow = true;
                            assert(old_val * 2 + digit_val(b) > u64::MAX);
                        },
                    }
                },
                None => {
                    overflow = true;
                    assert(old_val * 2 > u64::MAX);
                    assert(old_val * 2 + digit_val(b) > u64::MAX);
                },
            }
        } else {
            proof {
                let taken = input@.skip(start as int).take(k as int);
                let v = radix_val(taken, 2);
                assert(v * 2 + digit_val(b) > u64::MAX) by (nonlinear_arith)
                    requires
                        v > u64::MAX,
                ;
            }
        }
        k = k + 1;
    }
    proof {
        let suf = input@.skip(start as int + k);
        if start + k == input@.len() {
            assert(suf.len() == 0);
        } else {
            assert(suf[0] == input@[start as int + k]);
        }
        assert(bin_run_len(suf) == 0);
        assert(input@.skip(start as int).take(k as int) =~= input@.skip(start as int).take(
            bin_run_len(input@.skip(start as int)) as int,
        ));
    }
    if overflow {
        (k, None)
    } else {
        (k, Some(val))
    }
}

/// Writes the decimal text of `val` into `output` starting at `j`, after
/// checking that it fits; returns the position after the last digit, or
/// `None` when the remaining capacity is too small. Bytes before `j` are
/// left untouched.
fn emit_dec(output: &mut [u8], j: usize, val: u64) -> (r: Option<usize>)
    requires
        j <= old(output)@.len(),
    ensures
        final(output)@.len() == old(output)@.len(),
        final(output)@.subrange(0, j as int) == old(output)@.subrange(0, j as int),
        ({
            let text = dec_digits(val as nat);
            match r {
                Some(j2) => j2 == j + text.len() && j2 <= final(output)@.len() && final(
                    output)@.subrange(j as int, j2 as int) == text,
                None => text.len() > final(output)@.len() - j,
            }
        }),
{
    let (tmp, n) = crate::numeric::dec_text(val);
    if n > output.len() - j {
        // `j <= output.len()`, so the subtraction is safe; the text does not fit.
        return None;
    }
    let mut m: usize = 0;
    let cap: usize = output.len();
    let ghost initial = output@;
    while m < n
        invariant
            0 <= m <= n,
            n == dec_digits(val as nat).len(),
            j + n <= cap,
            cap == output@.len(),
            n <= 20,
            output@.len() == initial.len(),
            output@.subrange(0, j as int) == initial.subrange(0, j as int),
            output@.subrange(j as int, j as int + m as int) =~= dec_digits(val as nat).take(
                m as int,
            ),
            dec_digits(val as nat) =~= tmp@.subrange(20 - n as int, 20),
        decreases n - m,
    {
        let ghost before = output@;
        output[j + m] = tmp[20 - (n - m)];
        proof {
            assert(output@.subrange(0, j as int) =~= before.subrange(0, j as int));
            assert(output@.subrange(j as int, j as int + m as int + 1) =~= dec_digits(
                val as nat,
            ).take(m as int + 1));
        }
        m = m + 1;
    }
    Some(j + n)
}

/// Normalizes `input` into `output`: whitespace is dropped, `0x`/`0b`
/// literals are rewritten as decimal text, everything else is copied
/// verbatim. Returns the number of bytes written; on any failure the partial
/// buffer contents are not to be read.
#[verifier::rlimit(50)]
pub fn preprocess(input: &[u8], output: &mut [u8]) -> (r: Result<usize, EvalError>)
    ensures
        final(output)@.len() == old(output)@.len(),
        match r {
            Ok(n) => n <= final(output)@.len() && spec_preprocess(
                input@,
                old(output)@.len() as nat,
            ) == Ok::<Seq<u8>, EvalError>(final(output)@.subrange(0, n as int)),
            Err(e) => spec_preprocess(input@, old(output)@.len() as nat) == Err::<
                Seq<u8>,
                EvalError,
            >(e),
        },
{
    let cap: usize = output.len();
    let mut i: usize = 0;
    let mut j: usize = 0;
    proof {
        assert(input@.skip(0) =~= input@);
        assert(output@.subrange(0, 0) =~= Seq::<u8>::empty());
        lemma_norm_join_empty(spec_preprocess(input@, cap as nat));
    }
    while i < input.len()
        invariant
            i <= input@.len(),
            j <= cap,
            cap == output@.len(),
            output@.len() == old(output)@.len(),
            norm_join(
                output@.subrange(0, j as int),
                spec_preprocess(input@.skip(i as int), (cap - j) as nat),
            ) == spec_preprocess(input@, cap as nat),
        decreases input@.len() - i,
    {
        let ghost suf = input@.skip(i as int);
        let ghost room = (cap - j) as nat;
        let c = input[i];
        proof {
            assert(suf[0] == input@[i as int]);
            assert(suf.skip(1) =~= input@.skip(i as int + 1));
            if i + 1 < input@.len() {
                assert(suf[1] == input@[i as int + 1]);
            }
        }
        if c == 32 || c == 9 || c == 13 || c == 10 {
            proof {
                assert(spec_preprocess(suf, room) == spec_preprocess(
                    input@.skip(i as int + 1),
                    room,
                ));
            }
            i = i + 1;
        } else if c == 48 && i + 1 < input.len() && (input[i + 1] == 120 || input[i + 1] == 98) {
            let hex = input[i + 1] == 120;
            proof {
                assert(suf.skip(2) =~= input@.skip(i as int + 2));
            }
            let (run, val_opt) = if hex {
                scan_hex_run(input, i + 2)
            } else {
                scan_bin_run(input, i + 2)
            };
            let ghost bad = if hex {
                EvalError::InvalidHexLiteral
            } else {
                EvalError::InvalidBinaryLiteral
            };
            let ghost digits = suf.skip(2).take(run as int);
            let val = match val_opt {
                Some(v) => v,
                None => {
                    proof {
                        assert(spec_preprocess(suf, room) == Err::<Seq<u8>, EvalError>(bad));
                    }
                    return Err(
                        if hex {
                            EvalError::InvalidHexLiteral
                        } else {
                            EvalError::InvalidBinaryLiteral
                        },
                    );
                },
            };
            if run == 0 {
                proof {
                    assert(spec_preprocess(suf, room) == Err::<Seq<u8>, EvalError>(bad));
                }
                return Err(
                    if hex {
                        EvalError::InvalidHexLiteral
                    } else {
                        EvalError::InvalidBinaryLiteral
                    },
                );
            }
            let ghost base: nat = if hex { 16 } else { 2 };
            let ghost text = dec_digits(radix_val(digits, base));
            proof {
                assert(val as nat == radix_val(digits, base));
            }
            let ghost before = output@;
            let ghost rest = spec_preprocess(
                input@.skip(i as int + 2 + run as int),
                (room - text.len()) as nat,
            );
            proof {
                assert(suf.skip(2 + run as int) =~= input@.skip(i as int + 2 + run as int));
                if text.len() <= room {
                    assert(spec_preprocess(suf, room) == norm_join(text, rest));
                } else {
                    assert(spec_preprocess(suf, room) == Err::<Seq<u8>, EvalError>(
                        EvalError::BufferOverflow,
                    ));
                }
            }
            match emit_dec(output, j, val) {
                None => {
                    return Err(EvalError::BufferOverflow);
                },
                Some(j2) => {
                    proof {
                        assert(output@.subrange(0, j as int) =~= before.subrange(0, j as int));
                        assert(output@.subrange(0, j2 as int) =~= before.subrange(0, j as int)
                            + text);
                        lemma_norm_join_assoc(before.subrange(0, j as int), text, rest);
                    }
                    j = j2;
                    i = i + 2 + run;
                },
            }
        } else {
            // A verbatim byte; this also covers a `0` that no recognized
            // radix prefix follows.
            if j == cap {
                proof {
                    assert(spec_preprocess(suf, room) == Err::<Seq<u8>, EvalError>(
                        EvalError::BufferOverflow,
                    ));
                }
                return Err(EvalError::BufferOverflow);
            }
            let ghost before = output@;
            let ghost rest = spec_preprocess(input@.skip(i as int + 1), (room - 1) as nat);
            proof {
                assert(spec_preprocess(suf, room) == norm_join(seq![c], rest));
            }
            output[j] = c;
            proof {
                assert(output@.subrange(0, j as int) =~= before.subrange(0, j as int));
                assert(output@.subrange(0, j as int + 1) =~= before.subrange(0, j as int)
                    + seq![c]);
                lemma_norm_join_assoc(before.subrange(0, j as int), seq![c], rest);
            }
            j = j + 1;
            i = i + 1;
        }
    }
    proof {
        assert(input@.skip(i as int).len() == 0);
        assert(output@.subrange(0, j as int) + Seq::<u8>::empty() =~= output@.subrange(0, j as int));
    }
    Ok(j)
}

} // verus!
