//! The programmer engine's widget: a 32-bit binary view of the current
//! result. Toggling one of its bits rewrites the equation line with the
//! toggled value; the result is also shown as fixed-width hexadecimal.

use vstd::prelude::*;

use crate::editor::LineBuffer;
use crate::keymap::KeyAction;
use crate::numeric::{
    dec_digits, digit_val, hex_digits_fixed, is_dec_digit, lemma_dec_digits_len,
    lemma_radix_val_push, pow10, radix_val,
};

verus! {

/// True when every byte of `s` is a decimal digit.
pub open spec fn all_dec_digits(s: Seq<u8>) -> bool {
    forall|i: int| 0 <= i < s.len() ==> is_dec_digit(#[trigger] s[i])
}

/// A signed 32-bit decimal text: an optional sign, then a digit run whose
/// value fits.
pub open spec fn spec_parse_i32(s: Seq<u8>) -> Option<i32> {
    let neg = s.len() > 0 && s[0] == 45;  // '-'
    let digits = if s.len() > 0 && (s[0] == 45 || s[0] == 43) {
        s.skip(1)
    } else {
        s
    };
    if digits.len() == 0 || !all_dec_digits(digits) {
        None
    } else {
        let v = radix_val(digits, 10);
        if neg {
            if v > 0x80000000 {
                None
            } else {
                Some((-(v as int)) as i32)
            }
        } else {
            if v > 0x7fffffff {
                None
            } else {
                Some(v as i32)
            }
        }
    }
}

/// An unsigned 32-bit decimal text: an optional `+`, then a digit run whose
/// value fits.
pub open spec fn spec_parse_u32(s: Seq<u8>) -> Option<u32> {
    let digits = if s.len() > 0 && s[0] == 43 {
        s.skip(1)
    } else {
        s
    };
    if digits.len() == 0 || !all_dec_digits(digits) {
        None
    } else {
        let v = radix_val(digits, 10);
        if v > 0xffffffff {
            None
        } else {
            Some(v as u32)
        }
    }
}

/// Parses a signed 32-bit decimal text, as the widget reads the result line.
pub fn parse_i32(s: &[u8]) -> (r: Option<i32>)
    ensures
        r == spec_parse_i32(s@),
{
    if s.len() == 0 {
        return None;
    }
    let neg = s[0] == 45;
    let start: usize = if s[0] == 45 || s[0] == 43 {
        1
    } else {
        0
    };
    let ghost digits = if s@[0] == 45 || s@[0] == 43 {
        s@.skip(1)
    } else {
        s@
    };
    proof {
        assert(s@.skip(0) =~= s@);
        assert(digits =~= s@.skip(start as int));
    }
    match scan_digits(s, start) {
        Some(v) => {
            if neg {
                if v > 0x80000000 {
                    None
                } else if v == 0x80000000 {
                    Some(i32::MIN)
                } else {
                    Some(-(v as i32))
                }
            } else {
                if v > 0x7fffffff {
                    None
                } else {
                    Some(v as i32)
                }
            }
        },
        None => None,
    }
}

/// Parses an unsigned 32-bit decimal text.
pub fn parse_u32(s: &[u8]) -> (r: Option<u32>)
    ensures
        r == spec_parse_u32(s@),
{
    if s.len() == 0 {
        return None;
    }
    let start: usize = if s[0] == 43 {
        1
    } else {
        0
    };
    let ghost digits = if s@[0] == 43 {
        s@.skip(1)
    } else {
        s@
    };
    proof {
        assert(s@.skip(0) =~= s@);
        assert(digits =~= s@.skip(start as int));
    }
    match scan_digits(s, start) {
        Some(v) => {
            if v > 0xffffffff {
                None
            } else {
                Some(v as u32)
            }
        },
        None => None,
    }
}

/// The decimal text of a signed 32-bit value: a `-` for negatives, then the
/// digits of its magnitude.
pub open spec fn i32_text(v: i32) -> Seq<u8> {
    if v < 0 {
        seq![45u8] + dec_digits((-(v as int)) as nat)
    } else {
        dec_digits(v as nat)
    }
}

/// Appends the decimal text of `v`.
fn push_dec(out: &mut Vec<u8>, v: u64)
    ensures
        final(out)@ == old(out)@ + dec_digits(v as nat),
{
    let (tmp, n) = crate::numeric::dec_text(v);
    let ghost before = out@;
    let mut m: usize = 0;
    while m < n
        invariant
            m <= n,
            n <= 20,
            out@ =~= before + dec_digits(v as nat).take(m as int),
            dec_digits(v as nat) =~= tmp@.subrange(20 - n as int, 20),
            n == dec_digits(v as nat).len(),
        decreases n - m,
    {
        out.push(tmp[20 - (n - m)]);
        proof {
            assert(out@ =~= before + dec_digits(v as nat).take(m as int + 1));
        }
        m = m + 1;
    }
    proof {
        assert(dec_digits(v as nat).take(n as int) =~= dec_digits(v as nat));
        assert(out@ =~= before + dec_digits(v as nat));
    }
}

/// Writes the decimal text of a signed 32-bit value.
pub fn format_i32(v: i32) -> (r: Vec<u8>)
    ensures
        r@ == i32_text(v),
        r@.len() <= 11,
{
    proof {
        reveal_with_fuel(pow10, 11);
        assert(pow10(10) == 10000000000);
    }
    let mut out: Vec<u8> = Vec::new();
    let magnitude: u64 = if v < 0 {
        out.push(45);
        if v == i32::MIN {
            0x80000000u64
        } else {
            (-v) as u64
        }
    } else {
        v as u64
    };
    proof {
        lemma_dec_digits_len(magnitude as nat, 10);
    }
    push_dec(&mut out, magnitude);
    out
}

/// The decimal text of a signed 64-bit value: a `-` for negatives, then the
/// digits of its magnitude.
pub open spec fn i64_text(v: i64) -> Seq<u8> {
    if v < 0 {
        seq![45u8] + dec_digits((-(v as int)) as nat)
    } else {
        dec_digits(v as nat)
    }
}

/// Writes the decimal text of a signed 64-bit value.
pub fn format_i64(v: i64) -> (r: Vec<u8>)
    ensures
        r@ == i64_text(v),
{
    let mut out: Vec<u8> = Vec::new();
    let magnitude: u64 = if v < 0 {
        out.push(45);
        if v == i64::MIN {
            0x8000000000000000u64
        } else {
            (-v) as u64
        }
    } else {
        v as u64
    };
    push_dec(&mut out, magnitude);
    out
}

/// `current` with its bit `bit` flipped, on the 32-bit pattern.
pub open spec fn spec_toggled(current: i32, bit: u8) -> i32
    recommends
        bit < 32,
{
    current ^ (1i32 << bit)
}

/// The value the widget reads off the result line: a parse failure counts
/// as zero, as an empty or non-numeric result shows no bits.
pub open spec fn spec_result_or_zero(s: Seq<u8>) -> i32 {
    match spec_parse_i32(s) {
        Some(v) => v,
        None => 0,
    }
}

/// The unsigned 32-bit pattern a result line denotes, for the hex display:
/// signed texts are reinterpreted as their two's-complement bits.
pub open spec fn spec_raw_bits(s: Seq<u8>, is_signed: bool) -> Option<u32> {
    if is_signed {
        match spec_parse_i32(s) {
            Some(v) => Some(
                if v < 0 {
                    (v + 0x100000000) as u32
                } else {
                    v as u32
                },
            ),
            None => None,
        }
    } else {
        spec_parse_u32(s)
    }
}

/// Where the widget's selected bit moves under a key: up and down switch
/// between the two 16-bit rows, left and right walk along them, clamped at
/// the ends.
pub open spec fn spec_widget_selection(key: KeyAction, idx: u8) -> u8 {
    match key {
        KeyAction::MoveUp => if idx <= 15 {
            (idx + 16) as u8
        } else {
            idx
        },
        KeyAction::MoveDown => if idx > 15 {
            (idx - 16) as u8
        } else {
            idx
        },
        KeyAction::MoveLeft => if idx < 31 {
            (idx + 1) as u8
        } else {
            idx
        },
        KeyAction::MoveRight => if idx > 0 {
            (idx - 1) as u8
        } else {
            idx
        },
        _ => idx,
    }
}

/// Whether the widget consumes the key: navigation, digits and Enter are
/// its own, except moving up from the top row, which hands focus back.
pub open spec fn spec_widget_handles(key: KeyAction, idx: u8) -> bool {
    match key {
        KeyAction::MoveUp => idx <= 15,
        KeyAction::MoveDown => true,
        KeyAction::MoveLeft => true,
        KeyAction::MoveRight => true,
        KeyAction::InsertChar(_) => true,
        KeyAction::Enter => true,
        _ => false,
    }
}

/// The text the widget writes into the equation line under a key, if any: a
/// digit key drives the selected bit toward set (any nonzero digit) or
/// cleared (`0`), writing only when that flips it; Enter always toggles.
pub open spec fn spec_widget_write(key: KeyAction, current: i32, idx: u8) -> Option<Seq<u8>> {
    match key {
        KeyAction::InsertChar(c) => if 48 <= c <= 57 && ((c != 48) != (current & (1i32 << idx)
            != 0)) {
            Some(i32_text(spec_toggled(current, idx)))
        } else {
            None
        },
        KeyAction::Enter => Some(i32_text(spec_toggled(current, idx))),
        _ => None,
    }
}

/// The programmer engine: the state behind the 32-bit binary widget, which
/// highlights one selected bit.
#[derive(Clone, Copy)]
pub struct ProgrammerEngine {
    pub binary_selection_idx: u8,
}

impl ProgrammerEngine {
    /// The selected bit always names one of the 32 shown bits.
    pub open spec fn wf(self) -> bool {
        self.binary_selection_idx < 32
    }

    /// Starts with bit 0 selected.
    pub fn default() -> (r: Self)
        ensures
            r.wf(),
            r.binary_selection_idx == 0,
    {
        ProgrammerEngine { binary_selection_idx: 0 }
    }

    /// The programmer engine always shows its binary widget.
    pub fn has_widget(&self) -> (r: bool)
        ensures
            r,
    {
        true
    }

    /// Runs the engine over an equation line: the decimal text of its value,
    /// or the error's fixed identifier.
    pub fn evaluate(&self, equation: &[u8]) -> (r: Vec<u8>)
        ensures
            match crate::eval::spec_evaluate(equation@) {
                Ok(v) => r@ == i64_text(v),
                Err(e) => r@ == vstd::utf8::encode_utf8(e.spec_text()),
            },
    {
        match crate::eval::evaluate_bytes(equation) {
            Ok(v) => format_i64(v),
            Err(e) => vstd::slice::slice_to_vec(e.text().as_bytes()),
        }
    }

    /// Rewrites the equation line with the current result's value, bit
    /// `bit_idx` flipped.
    pub fn binary_widget_set_bit(
        &self,
        bit_idx: u8,
        buffer: &mut LineBuffer<24>,
        current_result: &[u8],
    )
        requires
            bit_idx < 32,
            old(buffer).wf(),
        ensures
            final(buffer).wf(),
            final(buffer).content() =~= i32_text(
                spec_toggled(spec_result_or_zero(current_result@), bit_idx),
            ),
            final(buffer).cursor == final(buffer).content().len(),
    {
        let current = match parse_i32(current_result) {
            Some(v) => v,
            None => 0,
        };
        let new_val = current ^ (1i32 << (bit_idx as u32));
        let text = format_i32(new_val);
        buffer.set_content(text.as_slice());
        proof {
            assert(text@.take(text@.len() as int) =~= text@);
        }
    }

    /// Handles one key while the binary widget has focus. Returns whether
    /// the widget consumed the key: moving up from the top row hands focus
    /// back to the equation line, and keys the widget has no meaning for are
    /// left to the caller.
    pub fn on_widget_key(
        &mut self,
        key: KeyAction,
        buffer: &mut LineBuffer<24>,
        current_result: &[u8],
    ) -> (handled: bool)
        requires
            old(self).wf(),
            old(buffer).wf(),
        ensures
            final(self).wf(),
            final(buffer).wf(),
            handled == spec_widget_handles(key, old(self).binary_selection_idx),
            final(self).binary_selection_idx == spec_widget_selection(
                key,
                old(self).binary_selection_idx,
            ),
            match spec_widget_write(
                key,
                spec_result_or_zero(current_result@),
                old(self).binary_selection_idx,
            ) {
                Some(text) => final(buffer).content() =~= text && final(buffer).cursor == text.len(),
                None => *final(buffer) == *old(buffer),
            },
    {
        match key {
            KeyAction::MoveUp => {
                let in_top_row = self.binary_selection_idx > 15;
                if in_top_row {
                    // Focus returns to the equation line.
                    return false;
                } else {
                    self.binary_selection_idx = self.binary_selection_idx + 16;
                }
            },
            KeyAction::MoveDown => {
                let in_bottom_row = self.binary_selection_idx <= 15;
                if !in_bottom_row {
                    self.binary_selection_idx = self.binary_selection_idx - 16;
                }
            },
            KeyAction::MoveLeft => {
                if self.binary_selection_idx < 31 {
                    self.binary_selection_idx = self.binary_selection_idx + 1;
                }
            },
            KeyAction::MoveRight => {
                if self.binary_selection_idx > 0 {
                    self.binary_selection_idx = self.binary_selection_idx - 1;
                }
            },
            KeyAction::InsertChar(c) => {
                if 48 <= c && c <= 57 {
                    let set = c != 48;
                    let current = match parse_i32(current_result) {
                        Some(v) => v,
                        None => 0,
                    };
                    let is_set = (current & (1i32 << (self.binary_selection_idx as u32))) != 0;
                    if set != is_set {
                        let idx = self.binary_selection_idx;
                        self.binary_widget_set_bit(idx, buffer, current_result);
                    }
                }
            },
            KeyAction::Enter => {
                let idx = self.binary_selection_idx;
                self.binary_widget_set_bit(idx, buffer, current_result);
            },
            _ => {
                return false;
            },
        }
        true
    }

    /// The current result reformatted as fixed-width hexadecimal: eight
    /// digits, optionally prefixed with `0x`, read as signed or unsigned
    /// decimal text. `None` when the result line is not such a number.
    pub fn dec_str_to_hex_str(
        input: &[u8],
        include_prefix: bool,
        uppercase: bool,
        is_signed: bool,
    ) -> (r: Option<Vec<u8>>)
        ensures
            ({
                match spec_raw_bits(input@, is_signed) {
                    Some(bits) => match r {
                        Some(out) => out@ == (if include_prefix {
                            seq![48u8, 120u8]
                        } else {
                            Seq::<u8>::empty()
                        }) + hex_digits_fixed(bits as nat, 8, uppercase),
                        None => false,
                    },
                    None => r is None,
                }
            }),
    {
        let bits: u32 = if is_signed {
            match parse_i32(input) {
                Some(v) => {
                    if v >= 0 {
                        v as u32
                    } else {
                        ((v as i64) + 0x100000000i64) as u32
                    }
                },
                None => {
                    return None;
                },
            }
        } else {
            match parse_u32(input) {
                Some(v) => v,
                None => {
                    return None;
                },
            }
        };
        let digits = crate::numeric::hex_text8(bits, uppercase);
        let mut out: Vec<u8> = Vec::new();
        if include_prefix {
            out.push(48);
            out.push(120);
        }
        let ghost prefix = out@;
        let mut m: usize = 0;
        while m < 8
            invariant
                m <= 8,
                digits@.len() == 8,
                out@ =~= prefix + digits@.take(m as int),
            decreases 8 - m,
        {
            out.push(digits[m]);
            proof {
                assert(out@ =~= prefix + digits@.take(m as int + 1));
            }
            m = m + 1;
        }
        proof {
            assert(digits@.take(8) =~= digits@);
            if include_prefix {
                assert(prefix =~= seq![48u8, 120u8]);
            } else {
                assert(prefix =~= Seq::<u8>::empty());
            }
        }
        Some(out)
    }
}

/// Reads the digit run `s[start..]`: its value when every byte is a digit
/// and the run is not empty, capped knowledge above 2^32 (the callers only
/// distinguish values up to there).
fn scan_digits(s: &[u8], start: usize) -> (r: Option<u64>)
    requires
        start <= s@.len(),
    ensures
        ({
            let digits = s@.skip(start as int);
            match r {
                Some(v) => digits.len() > 0 && all_dec_digits(digits) && (v <= 0x100000000
                    ==> v as nat == radix_val(digits, 10)) && (v > 0x100000000 ==> radix_val(
                    digits,
                    10,
                ) > 0x100000000),
                None => digits.len() == 0 || !all_dec_digits(digits),
            }
        }),
{
    let ghost digits = s@.skip(start as int);
    if start == s.len() {
        return None;
    }
    let mut k: usize = start;
    let mut val: u64 = 0;
    let mut overflow = false;
    while k < s.len()
        invariant
            start <= k <= s@.len(),
            digits == s@.skip(start as int),
            forall|j: int| 0 <= j < k - start ==> is_dec_digit(#[trigger] digits[j]),
            !overflow ==> val as nat == radix_val(digits.take(k - start), 10) && val
                <= 0x100000000,
            overflow ==> radix_val(digits.take(k - start), 10) > 0x100000000,
        decreases s@.len() - k,
    {
        let b = s[k];
        if !crate::numeric::dec_digit(b) {
            proof {
                assert(digits[k - start] == s@[k as int]);
                assert(!all_dec_digits(digits));
            }
            return None;
        }
        let d = crate::numeric::digit_value(b);
        proof {
            assert(digits[k - start] == s@[k as int]);
            assert(digits.take(k - start + 1) =~= digits.take(k - start).push(b));
            lemma_radix_val_push(digits.take(k - start), b, 10);
        }
        if !overflow {
            let ghost old_val = val as nat;
            val = val * 10 + d as u64;
            if val > 0x100000000 {
                overflow = true;
            }
        } else {
            proof {
                let v = radix_val(digits.take(k - start), 10);
                assert(v * 10 + digit_val(b) > 0x100000000) by (nonlinear_arith)
                    requires
                        v > 0x100000000,
                ;
            }
        }
        k = k + 1;
    }
    proof {
        assert(digits.take(k - start) =~= digits);
    }
    if overflow {
        Some(0x200000000)
    } else {
        Some(val)
    }
}

} // verus!
