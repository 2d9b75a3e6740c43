//! A verified arithmetic and bitwise expression engine, with the small
//! pieces of calculator state that surround it.
//!
//! The engine is a two-stage pipeline. The normalizer ([`normalize`]) strips
//! whitespace and rewrites `0x`/`0b` literals to decimal text inside a
//! fixed-capacity buffer; the evaluator ([`eval`]) then parses the canonical
//! text with a seven-level operator-precedence grammar and folds each level
//! left-to-right, producing a signed 64-bit result or a typed error
//! ([`errors`]). Both stages are specified over byte sequences and verified
//! against those specifications; [`numeric`] holds the digit-run and
//! digit-text machinery they share.
//!
//! Around the engine sit the calculator's verified state types: the pad's
//! keys and their states ([`input`]), the key-to-action map ([`keymap`]),
//! the editable equation line ([`editor`]), the ring of past calculations
//! ([`history`]), the programmer engine's binary widget ([`prog`]), and the
//! secondary apps ([`apps`]). Drawing and device wiring stay with the
//! embedding front end.

pub mod apps;
pub mod calculator;
pub mod editor;
pub mod errors;
pub mod eval;
pub mod history;
pub mod input;
pub mod keymap;
pub mod normalize;
pub mod numeric;
pub mod prog;

pub use errors::EvalError;
pub use eval::evaluate;
