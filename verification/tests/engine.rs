use incredicalculator::errors::EvalError;
use incredicalculator::eval::{
    evaluate, evaluate_bytes, parse_additive, parse_factor, parse_multiplicative,
};
use incredicalculator::normalize::preprocess;

/// Normalizes `input` and returns the written prefix of the buffer.
fn pp<'a>(input: &str, buf: &'a mut [u8]) -> Result<&'a [u8], EvalError> {
    let n = preprocess(input.as_bytes(), buf)?;
    Ok(&buf[..n])
}

#[test]
fn test_preprocess() {
    // Each test gets its own clean buffer.
    let mut buf1 = [0u8; 128];
    assert_eq!(pp(" 1 + 2   *  3 ", &mut buf1), Ok(&b"1+2*3"[..]));

    let mut buf2 = [0u8; 128];
    assert_eq!(pp("0x10 + 0xA", &mut buf2), Ok(&b"16+10"[..]));

    let mut buf3 = [0u8; 128];
    assert_eq!(pp("0x10+0xA", &mut buf3), Ok(&b"16+10"[..]));

    let mut buf4 = [0u8; 128];
    assert_eq!(pp("0b101 << 0b11 + 0", &mut buf4), Ok(&b"5<<3+0"[..]));

    let mut buf5 = [0u8; 128];
    assert_eq!(pp("0b101 << 0xA", &mut buf5), Ok(&b"5<<10"[..]));

    // Test for small buffer still works correctly
    let mut small_buf = [0u8; 3];
    assert_eq!(pp("0b101 << 0xA", &mut small_buf), Err(EvalError::BufferOverflow));
}

#[test]
fn test_parse_factor() {
    assert_eq!(parse_factor(b"123"), Ok((&b""[..], 123)));
    assert_eq!(parse_factor(b"777blahblah"), Ok((&b"blahblah"[..], 777)));
}

#[test]
fn test_parse_multiplicative() {
    assert_eq!(parse_multiplicative(b"1*2"), Ok((&b""[..], 2)));
    assert_eq!(parse_multiplicative(b"3*4*5"), Ok((&b""[..], 60)));
    assert_eq!(parse_multiplicative(b"10"), Ok((&b""[..], 10)));
    assert_eq!(parse_multiplicative(b"7*2+3"), Ok((&b"+3"[..], 14)));
}

#[test]
fn test_parse_additive() {
    assert_eq!(parse_additive(b"1+2"), Ok((&b""[..], 3)));
    assert_eq!(parse_additive(b"3+4+5"), Ok((&b""[..], 12)));
    assert_eq!(parse_additive(b"10"), Ok((&b""[..], 10)));
    assert_eq!(parse_additive(b"2*3+4"), Ok((&b""[..], 10)));
    assert_eq!(parse_additive(b"2+3*4"), Ok((&b""[..], 14)));
    assert_eq!(parse_additive(b"1+2*3+4"), Ok((&b""[..], 11)));
}

#[test]
fn test_evaluate() {
    assert_eq!(evaluate(" 2 * 3 + 4 "), Ok(10));
    assert_eq!(evaluate(" 2 + 3 * 4 "), Ok(14));
    assert_eq!(evaluate(" 1 + 0x10 * 0b10 "), Ok(33));
    assert_eq!(evaluate("(99)"), Ok(99));
    assert_eq!(evaluate("5 * (2 + 3)"), Ok(25));
    assert_eq!(evaluate("(2 + 3) * 5"), Ok(25));
    assert_eq!(evaluate("((0x0002 + 3) * 4) + 5"), Ok(25));
    assert_eq!(evaluate("10 - 5"), Ok(5));
    assert_eq!(evaluate("20 / 4"), Ok(5));
    assert_eq!(evaluate("10 - 2 * 3"), Ok(4));
    assert_eq!(evaluate("20 / 2 - 3"), Ok(7));
    assert_eq!(evaluate("10 - 3 - 2"), Ok(5));
    assert_eq!(evaluate("100 / 10 / 2"), Ok(5));
    assert_eq!(evaluate("100 / (10 / 2)"), Ok(20));
    assert_eq!(evaluate("(10 - 2) * 3"), Ok(24));
    assert_eq!(evaluate("10 << 2"), Ok(40));
    assert_eq!(evaluate("10 >> 1"), Ok(5));
    assert_eq!(evaluate("0b1100 & 0b1010"), Ok(0b1000));
    assert_eq!(evaluate("0b1100 | 0b1010"), Ok(0b1110));
    assert_eq!(evaluate("0b1100 ^ 0b1010"), Ok(0b0110));
    assert_eq!(evaluate("2 * 5 << 1"), Ok(20));
    assert_eq!(evaluate("1 << 2 * 5"), Ok(1024));
    assert_eq!(evaluate("1 + 2 << 3"), Ok(24));
    assert_eq!(evaluate("0b1111 & 0b0101 << 1"), Ok(0b1111 & 0b0101 << 1));
    assert_eq!(evaluate("0b10 | 0b01 & 0b11"), Ok(0b11));
    assert_eq!(evaluate("(1 << 12) & 0x0A + 100 * 2"), Ok((1 << 12) & 0x0A + 100 * 2));
    assert_eq!(evaluate("~0"), Ok(!0));
    assert_eq!(evaluate("~1"), Ok(!1));
    assert_eq!(evaluate("~~1"), Ok(!!1));
    assert_eq!(evaluate("~1 * 5"), Ok(!1 * 5));
    assert_eq!(evaluate("~10 + 5"), Ok(!10 + 5));
    assert_eq!(evaluate("~(10 + 5)"), Ok(!(10 + 5)));
}

#[test]
fn test_trouble() {
    assert_eq!(evaluate("0x01 + 2"), Ok(0x01 + 2));
    assert_eq!(evaluate("0xC+2"), Ok(0xC + 2));
    assert_eq!(evaluate("0xC*2"), Ok(0xC * 2));
}

#[test]
fn precedence() {
    assert_eq!(evaluate("2 + 3 * 4"), Ok(14));
    assert_eq!(evaluate("2 * 3 + 4"), Ok(10));
}

#[test]
fn parens_override_precedence() {
    assert_eq!(evaluate("(2 + 3) * 5"), Ok(25));
    assert_eq!(evaluate("5 * (2 + 3)"), Ok(25));
}

#[test]
fn literal_normalization_preserves_value() {
    assert_eq!(evaluate("0x10 + 0xA"), Ok(26));
    assert_eq!(evaluate("0b1100 & 0b1010"), Ok(8));
}

#[test]
fn division_by_zero_is_an_error() {
    assert_eq!(evaluate("1/0"), Err(EvalError::DivisionByZero));
    assert_eq!(evaluate("(4/0)*2"), Err(EvalError::DivisionByZero));
    assert_eq!(evaluate("6/(3-3)"), Err(EvalError::DivisionByZero));
}

#[test]
fn double_not_is_identity() {
    assert_eq!(evaluate("~~5"), evaluate("5"));
    assert_eq!(evaluate("~~5"), Ok(5));
}

#[test]
fn left_associativity() {
    assert_eq!(evaluate("100 / 10 / 2"), Ok(5));
    assert_eq!(evaluate("10 - 3 - 2"), Ok(5));
}

#[test]
fn whitespace_insensitivity() {
    assert_eq!(evaluate(" 2 * 3 + 4 "), evaluate("2*3+4"));
    assert_eq!(evaluate("\t1 +\r\n2"), evaluate("1+2"));
}

#[test]
fn buffer_boundary_is_exact() {
    // "0x10 + 0xA" normalizes to "16+10": exactly five bytes.
    let mut exact = [0u8; 5];
    assert_eq!(pp("0x10 + 0xA", &mut exact), Ok(&b"16+10"[..]));
    let mut short = [0u8; 4];
    assert_eq!(pp("0x10 + 0xA", &mut short), Err(EvalError::BufferOverflow));
}

#[test]
fn shift_semantics() {
    assert_eq!(evaluate("10 << 2"), Ok(40));
    assert_eq!(evaluate("10 >> 1"), Ok(5));
    // ~7 is -8; an arithmetic right shift keeps the sign.
    assert_eq!(evaluate("~7 >> 1"), Ok(-4));
    assert_eq!(evaluate("~0 >> 63"), Ok(-1));
    // The count is taken modulo 64.
    assert_eq!(evaluate("1 << 64"), Ok(1));
    assert_eq!(evaluate("1 << 65"), Ok(2));
}

#[test]
fn renormalizing_canonical_text_is_a_no_op() {
    let mut buf1 = [0u8; 128];
    let first = pp("0x10 + 0xA * 2", &mut buf1).unwrap().to_vec();
    assert_eq!(first, b"16+10*2".to_vec());
    let mut buf2 = [0u8; 128];
    let second = preprocess(&first, &mut buf2).unwrap();
    assert_eq!(&buf2[..second], &first[..]);
}

#[test]
fn invalid_literals() {
    assert_eq!(evaluate("0x"), Err(EvalError::InvalidHexLiteral));
    assert_eq!(evaluate("0xZZ"), Err(EvalError::InvalidHexLiteral));
    assert_eq!(evaluate("0x10000000000000000"), Err(EvalError::InvalidHexLiteral));
    assert_eq!(evaluate("0b"), Err(EvalError::InvalidBinaryLiteral));
    assert_eq!(evaluate("0b2"), Err(EvalError::InvalidBinaryLiteral));
}

#[test]
fn parse_failures() {
    assert_eq!(evaluate(""), Err(EvalError::ParseFailure));
    assert_eq!(evaluate("2+"), Err(EvalError::ParseFailure));
    assert_eq!(evaluate("(2+3"), Err(EvalError::ParseFailure));
    assert_eq!(evaluate("2)"), Err(EvalError::ParseFailure));
    assert_eq!(evaluate("hello"), Err(EvalError::ParseFailure));
    // Numbers must fit in a signed 64-bit value.
    assert_eq!(evaluate("9223372036854775807"), Ok(i64::MAX));
    assert_eq!(evaluate("9223372036854775808"), Err(EvalError::ParseFailure));
    // An uppercase radix prefix is not recognized: the zero parses alone and
    // the rest is trailing input.
    assert_eq!(evaluate("0X10"), Err(EvalError::ParseFailure));
}

#[test]
fn overlong_input_overflows_the_scratch_buffer() {
    let long = "1".repeat(300);
    assert_eq!(evaluate(&long), Err(EvalError::BufferOverflow));
}

#[test]
fn hex_literal_value_boundaries() {
    assert_eq!(evaluate("0x7FFFFFFFFFFFFFFF"), Ok(i64::MAX));
    assert_eq!(evaluate("0x0"), Ok(0));
    // A hex literal may hold any 64-bit magnitude, but its decimal form must
    // still parse as a signed value.
    assert_eq!(evaluate("0xFFFFFFFFFFFFFFFF"), Err(EvalError::ParseFailure));
}

#[test]
fn wrapping_arithmetic() {
    // i64::MAX + 1 wraps to i64::MIN.
    assert_eq!(evaluate("9223372036854775807 + 1"), Ok(i64::MIN));
    // i64::MIN / -1 wraps back to i64::MIN; ~x*y builds the -1.
    assert_eq!(evaluate("(1 << 63) / ~0"), Ok(i64::MIN));
}

#[test]
fn evaluate_bytes_matches_evaluate() {
    assert_eq!(evaluate_bytes(b"2+3*4"), Ok(14));
    assert_eq!(evaluate_bytes(b"1/0"), Err(EvalError::DivisionByZero));
}

#[test]
fn error_texts() {
    assert_eq!(EvalError::BufferOverflow.text(), "buffer-too-small");
    assert_eq!(EvalError::InvalidHexLiteral.text(), "invalid-hex");
    assert_eq!(EvalError::InvalidBinaryLiteral.text(), "invalid-binary");
    assert_eq!(EvalError::InvalidUtf8.text(), "invalid-encoding");
    assert_eq!(EvalError::DivisionByZero.text(), "division-by-zero");
    assert_eq!(EvalError::ParseFailure.text(), "evaluation-failed");
}
