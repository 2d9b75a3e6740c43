use incredicalculator::calculator::{Calculator, EngineMode, EvalRequest, FocusUi, NavDir};
use incredicalculator::input::IcKey;

#[test]
fn typing_builds_the_equation() {
    let mut calc = Calculator::new();
    assert_eq!(calc.on_key(IcKey::Num2, false, false), EvalRequest::Realtime);
    assert_eq!(calc.on_key(IcKey::Func5, false, false), EvalRequest::Realtime);  // '+'
    assert_eq!(calc.on_key(IcKey::Num3, false, false), EvalRequest::Realtime);
    assert_eq!(calc.current_eq.as_bytes(), b"2+3");
    // Shifted keys insert the alternate characters.
    assert_eq!(calc.on_key(IcKey::Num0, true, false), EvalRequest::Realtime);
    assert_eq!(calc.current_eq.as_bytes(), b"2+3A");
    // A modifier alone does nothing.
    assert_eq!(calc.on_key(IcKey::Shift, false, false), EvalRequest::Nothing);
    assert_eq!(calc.current_eq.as_bytes(), b"2+3A");
}

#[test]
fn submit_commits_to_history() {
    let mut calc = Calculator::new();
    calc.on_key(IcKey::Num2, false, false);
    calc.on_key(IcKey::Func3, false, false);  // '*'
    calc.on_key(IcKey::Num3, false, false);
    calc.update_realtime_result(b"6");
    assert_eq!(&calc.current_result[..calc.current_result_len], b"6");
    // Enter asks the front end to evaluate and commit.
    assert_eq!(calc.on_key(IcKey::Func6, false, false), EvalRequest::Submit);
    calc.run_equation(b"6");
    assert_eq!(calc.current_eq.len, 0);
    assert_eq!(calc.current_result_len, 0);
    assert_eq!(calc.history.len, 1);
    let e = &calc.history.entries[0];
    assert_eq!(&e.equation[..e.equation_len], b"2*3");
    assert_eq!(&e.result[..e.result_len], b"6");
}

#[test]
fn empty_line_submits_nothing() {
    let mut calc = Calculator::new();
    assert_eq!(calc.on_key(IcKey::Func6, false, false), EvalRequest::Submit);
    calc.run_equation(b"whatever");
    assert_eq!(calc.history.len, 0);
}

#[test]
fn history_navigation_and_recall() {
    let mut calc = Calculator::new();
    calc.on_key(IcKey::Num7, false, false);
    calc.run_equation(b"7");
    // Super+Num8 is MoveUp: select the stored entry.
    assert_eq!(calc.on_key(IcKey::Num8, false, true), EvalRequest::Realtime);
    assert_eq!(calc.history.selection, Some(0));
    // Enter copies it back into the editor.
    calc.on_key(IcKey::Func6, false, false);
    assert_eq!(calc.history.selection, None);
    assert_eq!(calc.current_eq.as_bytes(), b"7");
}

#[test]
fn widget_focus_and_bit_toggle() {
    let mut calc = Calculator::new();
    calc.update_realtime_result(b"");
    // MoveDown from the equation line enters the widget in programmer mode.
    calc.ui_nav(NavDir::Down);
    assert_eq!(calc.focused_ui, FocusUi::Widget);
    // Navigation inside the widget moves the selected bit.
    assert_eq!(calc.on_key(IcKey::Num4, false, true), EvalRequest::Realtime);  // MoveLeft
    assert_eq!(calc.prog_engine.binary_selection_idx, 1);
    // Enter toggles the selected bit of the (empty, so zero) result.
    calc.on_key(IcKey::Func6, false, false);
    assert_eq!(calc.current_eq.as_bytes(), b"2");
    // MoveUp from the top row leaves the widget.
    calc.on_key(IcKey::Num8, false, true);  // MoveUp: bit 1 -> bit 17
    assert_eq!(calc.prog_engine.binary_selection_idx, 17);
    calc.on_key(IcKey::Num8, false, true);  // MoveUp from top row: refocus
    assert_eq!(calc.focused_ui, FocusUi::Equation);
}

#[test]
fn mode_switch_toggles_the_engine() {
    let mut calc = Calculator::new();
    assert_eq!(calc.engine_mode, EngineMode::Programmer);
    assert!(calc.has_widget());
    assert_eq!(calc.on_key(IcKey::Num5, false, true), EvalRequest::Realtime);  // Mode
    assert_eq!(calc.engine_mode, EngineMode::Scientific);
    assert!(!calc.has_widget());
    calc.on_key(IcKey::Num5, false, true);
    assert_eq!(calc.engine_mode, EngineMode::Programmer);
}

#[test]
fn backspace_edits_or_deletes_history() {
    let mut calc = Calculator::new();
    calc.on_key(IcKey::Num1, false, false);
    calc.on_key(IcKey::Num2, false, false);
    // Super+Num9 is Backspace.
    assert_eq!(calc.on_key(IcKey::Num9, false, true), EvalRequest::Realtime);
    assert_eq!(calc.current_eq.as_bytes(), b"1");
    calc.run_equation(b"1");
    assert_eq!(calc.history.len, 1);
    // With a history entry selected, Backspace deletes the entry.
    calc.on_key(IcKey::Num8, false, true);  // MoveUp: select it
    assert_eq!(calc.history.selection, Some(0));
    calc.on_key(IcKey::Num9, false, true);  // Backspace
    assert_eq!(calc.history.len, 0);
    assert_eq!(calc.history.selection, None);
}
