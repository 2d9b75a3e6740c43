use incredicalculator::editor::LineBuffer;
use incredicalculator::history::{EqEntry, EqHistory, EQ_HISTORY_MAX};
use incredicalculator::input::IcKey;
use incredicalculator::keymap::{get_action, KeyAction};

fn entry(equation: &[u8], result: &[u8]) -> EqEntry {
    let mut e = EqEntry::default();
    e.equation[..equation.len()].copy_from_slice(equation);
    e.equation_len = equation.len();
    e.result[..result.len()].copy_from_slice(result);
    e.result_len = result.len();
    e
}

#[test]
fn keymap_plain_keys() {
    assert_eq!(get_action(IcKey::Num7, false, false), Some(KeyAction::InsertChar(b'7')));
    assert_eq!(get_action(IcKey::Func3, false, false), Some(KeyAction::InsertChar(b'*')));
    assert_eq!(get_action(IcKey::Func6, false, false), Some(KeyAction::Enter));
    assert_eq!(get_action(IcKey::Shift, false, false), None);
    assert_eq!(get_action(IcKey::Super, false, false), None);
}

#[test]
fn keymap_shift_wins_over_super() {
    assert_eq!(get_action(IcKey::Num0, true, true), Some(KeyAction::InsertChar(b'A')));
    assert_eq!(get_action(IcKey::Num9, true, false), Some(KeyAction::InsertChar(b'x')));
    assert_eq!(get_action(IcKey::Num9, false, true), Some(KeyAction::Backspace));
    assert_eq!(get_action(IcKey::Num5, false, true), Some(KeyAction::Mode));
}

#[test]
fn history_append_and_wrap() {
    let mut h = EqHistory::new();
    for i in 0..3u8 {
        h.history_append(&entry(&[b'1' + i], b"1"));
    }
    assert_eq!(h.len, 3);
    assert_eq!(h.write_idx, 3);
    for _ in 0..3 {
        h.history_append(&entry(b"9", b"9"));
    }
    // The ring holds at most EQ_HISTORY_MAX entries.
    assert_eq!(h.len, EQ_HISTORY_MAX);
    assert_eq!(h.write_idx, 2);
}

#[test]
fn history_nav_enters_at_newest_and_leaves_below() {
    let mut h = EqHistory::new();
    // Navigating an empty history selects nothing.
    h.history_nav(true);
    assert_eq!(h.selection, None);
    h.history_append(&entry(b"1+1", b"2"));
    h.history_append(&entry(b"2+2", b"4"));
    h.history_nav(true);
    assert_eq!(h.selection, Some(1));
    h.history_nav(true);
    assert_eq!(h.selection, Some(0));
    // At the oldest entry, up stays put.
    h.history_nav(true);
    assert_eq!(h.selection, Some(0));
    h.history_nav(false);
    assert_eq!(h.selection, Some(1));
    // Below the newest entry, down leaves the history.
    h.history_nav(false);
    assert_eq!(h.selection, None);
}

#[test]
fn copy_from_history_restores_the_equation() {
    let mut h = EqHistory::new();
    h.history_append(&entry(b"2+3*4", b"14"));
    let mut eq: LineBuffer<24> = LineBuffer::default();
    h.history_nav(true);
    h.copy_from_history(&mut eq);
    assert_eq!(eq.as_bytes(), b"2+3*4");
    assert_eq!(h.selection, None);
}

#[test]
fn delete_compacts_the_ring() {
    let mut h = EqHistory::new();
    h.history_append(&entry(b"1", b"1"));
    h.history_append(&entry(b"2", b"2"));
    h.history_append(&entry(b"3", b"3"));
    // Select the middle entry and delete it.
    h.selection = Some(1);
    h.delete_current_history_entry();
    assert_eq!(h.len, 2);
    assert_eq!(h.write_idx, 2);
    assert_eq!(h.selection, Some(0));
    assert_eq!(&h.entries[0].equation[..1], b"1");
    assert_eq!(&h.entries[1].equation[..1], b"3");
    assert_eq!(h.entries[2].equation_len, 0);
}

#[test]
fn delete_last_entry_clears_selection() {
    let mut h = EqHistory::new();
    h.history_append(&entry(b"7", b"7"));
    h.history_nav(true);
    assert_eq!(h.selection, Some(0));
    h.delete_current_history_entry();
    assert_eq!(h.len, 0);
    assert_eq!(h.selection, None);
}

#[test]
fn delete_without_selection_does_nothing() {
    let mut h = EqHistory::new();
    h.history_append(&entry(b"7", b"7"));
    h.delete_current_history_entry();
    assert_eq!(h.len, 1);
}
