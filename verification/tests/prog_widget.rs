use incredicalculator::editor::LineBuffer;
use incredicalculator::keymap::KeyAction;
use incredicalculator::prog::{format_i32, format_i64, parse_i32, parse_u32, ProgrammerEngine};

#[test]
fn parse_i32_round_trips() {
    assert_eq!(parse_i32(b"0"), Some(0));
    assert_eq!(parse_i32(b"42"), Some(42));
    assert_eq!(parse_i32(b"-42"), Some(-42));
    assert_eq!(parse_i32(b"+7"), Some(7));
    assert_eq!(parse_i32(b"2147483647"), Some(i32::MAX));
    assert_eq!(parse_i32(b"-2147483648"), Some(i32::MIN));
    assert_eq!(parse_i32(b"2147483648"), None);
    assert_eq!(parse_i32(b"-2147483649"), None);
    assert_eq!(parse_i32(b""), None);
    assert_eq!(parse_i32(b"-"), None);
    assert_eq!(parse_i32(b"12a"), None);
    assert_eq!(parse_u32(b"4294967295"), Some(u32::MAX));
    assert_eq!(parse_u32(b"4294967296"), None);
    assert_eq!(parse_u32(b"-1"), None);
}

#[test]
fn format_i32_matches_std() {
    for v in [0, 7, -7, 120, i32::MAX, i32::MIN, -1] {
        assert_eq!(format_i32(v), v.to_string().into_bytes());
    }
}

#[test]
fn format_i64_matches_std() {
    for v in [0i64, 40, -4, i64::MAX, i64::MIN] {
        assert_eq!(format_i64(v), v.to_string().into_bytes());
    }
}

#[test]
fn engine_evaluate_formats_values_and_errors() {
    let engine = ProgrammerEngine::default();
    assert_eq!(engine.evaluate(b"2+3*4"), b"14".to_vec());
    assert_eq!(engine.evaluate(b"~5"), b"-6".to_vec());
    assert_eq!(engine.evaluate(b"1/0"), b"division-by-zero".to_vec());
    assert_eq!(engine.evaluate(b"0x"), b"invalid-hex".to_vec());
}

#[test]
fn set_bit_toggles_the_result() {
    let engine = ProgrammerEngine::default();
    let mut buffer: LineBuffer<24> = LineBuffer::default();
    engine.binary_widget_set_bit(3, &mut buffer, b"1");
    assert_eq!(buffer.as_bytes(), b"9");
    engine.binary_widget_set_bit(3, &mut buffer, b"9");
    assert_eq!(buffer.as_bytes(), b"1");
    // Bit 31 flips the sign.
    engine.binary_widget_set_bit(31, &mut buffer, b"0");
    assert_eq!(buffer.as_bytes(), b"-2147483648");
    // A non-numeric result counts as zero.
    engine.binary_widget_set_bit(0, &mut buffer, b"oops");
    assert_eq!(buffer.as_bytes(), b"1");
}

#[test]
fn widget_navigation_moves_the_selection() {
    let mut engine = ProgrammerEngine::default();
    let mut buffer: LineBuffer<24> = LineBuffer::default();
    assert!(engine.on_widget_key(KeyAction::MoveLeft, &mut buffer, b"0"));
    assert_eq!(engine.binary_selection_idx, 1);
    assert!(engine.on_widget_key(KeyAction::MoveRight, &mut buffer, b"0"));
    assert_eq!(engine.binary_selection_idx, 0);
    assert!(engine.on_widget_key(KeyAction::MoveUp, &mut buffer, b"0"));
    assert_eq!(engine.binary_selection_idx, 16);
    // Moving up from the top row hands focus back.
    assert!(!engine.on_widget_key(KeyAction::MoveUp, &mut buffer, b"0"));
    assert_eq!(engine.binary_selection_idx, 16);
    assert!(engine.on_widget_key(KeyAction::MoveDown, &mut buffer, b"0"));
    assert_eq!(engine.binary_selection_idx, 0);
    // A key the widget has no meaning for is left to the caller.
    assert!(!engine.on_widget_key(KeyAction::Backspace, &mut buffer, b"0"));
}

#[test]
fn widget_digit_keys_set_and_clear_the_bit() {
    let mut engine = ProgrammerEngine::default();
    let mut buffer: LineBuffer<24> = LineBuffer::default();
    // '1' on a cleared bit sets it.
    assert!(engine.on_widget_key(KeyAction::InsertChar(b'1'), &mut buffer, b"0"));
    assert_eq!(buffer.as_bytes(), b"1");
    // '1' on a set bit changes nothing.
    buffer.clear();
    assert!(engine.on_widget_key(KeyAction::InsertChar(b'1'), &mut buffer, b"1"));
    assert_eq!(buffer.as_bytes(), b"");
    // '0' on a set bit clears it.
    assert!(engine.on_widget_key(KeyAction::InsertChar(b'0'), &mut buffer, b"1"));
    assert_eq!(buffer.as_bytes(), b"0");
    // Enter toggles unconditionally.
    assert!(engine.on_widget_key(KeyAction::Enter, &mut buffer, b"2"));
    assert_eq!(buffer.as_bytes(), b"3");
}

#[test]
fn dec_str_to_hex_str_formats_eight_digits() {
    assert_eq!(
        ProgrammerEngine::dec_str_to_hex_str(b"255", true, true, true),
        Some(b"0x000000FF".to_vec())
    );
    assert_eq!(
        ProgrammerEngine::dec_str_to_hex_str(b"255", false, false, true),
        Some(b"000000ff".to_vec())
    );
    assert_eq!(
        ProgrammerEngine::dec_str_to_hex_str(b"-1", true, true, true),
        Some(b"0xFFFFFFFF".to_vec())
    );
    assert_eq!(
        ProgrammerEngine::dec_str_to_hex_str(b"-2147483648", false, true, true),
        Some(b"80000000".to_vec())
    );
    assert_eq!(ProgrammerEngine::dec_str_to_hex_str(b"-1", true, true, false), None);
    assert_eq!(
        ProgrammerEngine::dec_str_to_hex_str(b"4294967295", false, true, false),
        Some(b"FFFFFFFF".to_vec())
    );
    assert_eq!(ProgrammerEngine::dec_str_to_hex_str(b"what", true, true, true), None);
}
