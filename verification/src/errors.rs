//! The error taxonomy of the expression engine.
//!
//! Every failure of the pipeline is one of these values; evaluation stops at
//! the first error and returns it to the caller unchanged.

use vstd::prelude::*;

verus! {

/// A terminal failure of the normalize-then-evaluate pipeline.
#[derive(Clone, Copy, Debug, PartialEq, Eq, Structural)]
pub enum EvalError {
    /// The normalized text would exceed the output buffer's capacity.
    BufferOverflow,
    /// A `0x` prefix is followed by an empty digit run, or the hex value
    /// does not fit in 64 bits.
    InvalidHexLiteral,
    /// A `0b` prefix is followed by an empty digit run, or the binary value
    /// does not fit in 64 bits.
    InvalidBinaryLiteral,
    /// Defensive marker for malformed text on the normalizer's output side.
    /// The byte-level pipeline never produces it.
    InvalidUtf8,
    /// The right operand of `/` evaluated to zero.
    DivisionByZero,
    /// Any other grammar mismatch: an unexpected byte, an unmatched
    /// parenthesis, a missing operand, or trailing input after a complete
    /// expression.
    ParseFailure,
}

impl EvalError {
    /// The short fixed identifier shown to an embedding caller.
    pub open spec fn spec_text(self) -> Seq<char> {
        match self {
            EvalError::BufferOverflow => "buffer-too-small"@,
            EvalError::InvalidHexLiteral => "invalid-hex"@,
            EvalError::InvalidBinaryLiteral => "invalid-binary"@,
            EvalError::InvalidUtf8 => "invalid-encoding"@,
            EvalError::DivisionByZero => "division-by-zero"@,
            EvalError::ParseFailure => "evaluation-failed"@,
        }
    }

    /// The short fixed identifier shown to an embedding caller.
    pub fn text(self) -> (r: &'static str)
        ensures
            r@ == self.spec_text(),
    {
        match self {
            EvalError::BufferOverflow => "buffer-too-small",
            EvalError::InvalidHexLiteral => "invalid-hex",
            EvalError::InvalidBinaryLiteral => "invalid-binary",
            EvalError::InvalidUtf8 => "invalid-encoding",
            EvalError::DivisionByZero => "division-by-zero",
            EvalError::ParseFailure => "evaluation-failed",
        }
    }
}

} // verus!
