use incredicalculator::editor::LineBuffer;

#[test]
fn insert_and_read_back() {
    let mut lb: LineBuffer<24> = LineBuffer::default();
    lb.insert_char(b'1');
    lb.insert_char(b'2');
    lb.insert_char(b'+');
    lb.insert_char(b'3');
    assert_eq!(lb.as_bytes(), b"12+3");
    assert_eq!(lb.as_str(), "12+3");
    assert_eq!(lb.cursor, 4);
    assert_eq!(lb.len, 4);
}

#[test]
fn insert_at_cursor_shifts_tail() {
    let mut lb: LineBuffer<24> = LineBuffer::default();
    lb.set_content(b"13");
    lb.move_cursor(false);
    lb.insert_char(b'2');
    assert_eq!(lb.as_bytes(), b"123");
    assert_eq!(lb.cursor, 2);
}

#[test]
fn insert_into_full_buffer_drops_last_byte() {
    let mut lb: LineBuffer<4> = LineBuffer::default();
    lb.set_content(b"abcd");
    assert_eq!(lb.len, 4);
    // At the end of a full buffer nothing fits.
    lb.insert_char(b'x');
    assert_eq!(lb.as_bytes(), b"abcd");
    // In the middle of a full buffer the last byte is pushed out.
    lb.move_cursor(false);
    lb.move_cursor(false);
    lb.insert_char(b'x');
    assert_eq!(lb.as_bytes(), b"abxc");
    assert_eq!(lb.len, 4);
    assert_eq!(lb.cursor, 3);
}

#[test]
fn backspace_removes_before_cursor() {
    let mut lb: LineBuffer<24> = LineBuffer::default();
    lb.set_content(b"12+3");
    lb.move_cursor(false);
    lb.backspace();
    assert_eq!(lb.as_bytes(), b"123");
    assert_eq!(lb.cursor, 2);
    // Backspace at the start does nothing.
    lb.move_cursor(false);
    lb.move_cursor(false);
    assert_eq!(lb.cursor, 0);
    lb.backspace();
    assert_eq!(lb.as_bytes(), b"123");
}

#[test]
fn delete_removes_at_cursor() {
    let mut lb: LineBuffer<24> = LineBuffer::default();
    lb.set_content(b"12+3");
    lb.move_cursor(false);
    lb.move_cursor(false);
    lb.backspace_del();
    assert_eq!(lb.as_bytes(), b"123");
    assert_eq!(lb.cursor, 2);
}

#[test]
fn move_cursor_is_clamped() {
    let mut lb: LineBuffer<24> = LineBuffer::default();
    lb.set_content(b"77");
    lb.move_cursor(true);
    assert_eq!(lb.cursor, 2);
    lb.move_cursor(false);
    lb.move_cursor(false);
    lb.move_cursor(false);
    assert_eq!(lb.cursor, 0);
}

#[test]
fn set_content_truncates_to_capacity() {
    let mut lb: LineBuffer<4> = LineBuffer::default();
    lb.set_content(b"123456");
    assert_eq!(lb.as_bytes(), b"1234");
    assert_eq!(lb.cursor, 4);
}

#[test]
fn clear_empties_the_line() {
    let mut lb: LineBuffer<24> = LineBuffer::default();
    lb.set_content(b"42");
    lb.clear();
    assert_eq!(lb.as_bytes(), b"");
    assert_eq!(lb.len, 0);
    assert_eq!(lb.cursor, 0);
}

#[test]
fn edited_line_feeds_the_engine() {
    let mut lb: LineBuffer<24> = LineBuffer::default();
    lb.set_content(b"2+3*4");
    assert_eq!(incredicalculator::eval::evaluate(lb.as_str()), Ok(14));
}
