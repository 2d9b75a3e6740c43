//! The key-to-action mapping of the calculator: which editing action each
//! pad key triggers, under each combination of the Shift and Super
//! modifiers.

use vstd::prelude::*;

use crate::input::IcKey;

verus! {

/// One editing action of the calculator.
#[derive(Clone, Copy, Debug, PartialEq, Eq, Structural)]
pub enum KeyAction {
    /// Insert the given byte at the cursor.
    InsertChar(u8),
    MoveLeft,
    MoveRight,
    MoveUp,
    MoveDown,
    Backspace,
    Delete,
    Enter,
    Clear,
    Home,
    End,
    /// Switch between the programmer and scientific engines.
    Mode,
}

/// The mapping itself: Shift wins over Super; the modifiers and the sentinel
/// trigger nothing on their own.
pub open spec fn spec_get_action(key: IcKey, is_shifted: bool, is_super: bool) -> Option<
    KeyAction,
> {
    if is_shifted {
        match key {
            IcKey::Num0 => Some(KeyAction::InsertChar(65)),  // 'A'
            IcKey::Num1 => Some(KeyAction::InsertChar(66)),  // 'B'
            IcKey::Num2 => Some(KeyAction::InsertChar(67)),  // 'C'
            IcKey::Num3 => Some(KeyAction::InsertChar(68)),  // 'D'
            IcKey::Num4 => Some(KeyAction::InsertChar(69)),  // 'E'
            IcKey::Num5 => Some(KeyAction::InsertChar(70)),  // 'F'
            IcKey::Num6 => Some(KeyAction::InsertChar(46)),  // '.'
            IcKey::Num7 => Some(KeyAction::InsertChar(40)),  // '('
            IcKey::Num8 => Some(KeyAction::InsertChar(41)),  // ')'
            IcKey::Num9 => Some(KeyAction::InsertChar(120)),  // 'x'
            IcKey::Func1 => Some(KeyAction::InsertChar(38)),  // '&'
            IcKey::Func2 => Some(KeyAction::InsertChar(124)),  // '|'
            IcKey::Func3 => Some(KeyAction::InsertChar(37)),  // '%'
            IcKey::Func4 => Some(KeyAction::InsertChar(60)),  // '<'
            IcKey::Func5 => Some(KeyAction::InsertChar(62)),  // '>'
            _ => None,
        }
    } else if is_super {
        match key {
            IcKey::Num1 => Some(KeyAction::End),
            IcKey::Num2 => Some(KeyAction::MoveDown),
            IcKey::Num3 => Some(KeyAction::Clear),
            IcKey::Num4 => Some(KeyAction::MoveLeft),
            IcKey::Num5 => Some(KeyAction::Mode),
            IcKey::Num6 => Some(KeyAction::End),
            IcKey::Num7 => Some(KeyAction::Home),
            IcKey::Num8 => Some(KeyAction::MoveUp),
            IcKey::Num9 => Some(KeyAction::Backspace),
            _ => None,
        }
    } else {
        match key {
            IcKey::Num0 => Some(KeyAction::InsertChar(48)),  // '0'
            IcKey::Num1 => Some(KeyAction::InsertChar(49)),  // '1'
            IcKey::Num2 => Some(KeyAction::InsertChar(50)),  // '2'
            IcKey::Num3 => Some(KeyAction::InsertChar(51)),  // '3'
            IcKey::Num4 => Some(KeyAction::InsertChar(52)),  // '4'
            IcKey::Num5 => Some(KeyAction::InsertChar(53)),  // '5'
            IcKey::Num6 => Some(KeyAction::InsertChar(54)),  // '6'
            IcKey::Num7 => Some(KeyAction::InsertChar(55)),  // '7'
            IcKey::Num8 => Some(KeyAction::InsertChar(56)),  // '8'
            IcKey::Num9 => Some(KeyAction::InsertChar(57)),  // '9'
            IcKey::Func1 => Some(KeyAction::InsertChar(94)),  // '^'
            IcKey::Func2 => Some(KeyAction::InsertChar(47)),  // '/'
            IcKey::Func3 => Some(KeyAction::InsertChar(42)),  // '*'
            IcKey::Func4 => Some(KeyAction::InsertChar(45)),  // '-'
            IcKey::Func5 => Some(KeyAction::InsertChar(43)),  // '+'
            IcKey::Func6 => Some(KeyAction::Enter),
            _ => None,
        }
    }
}

/// The action a key triggers under the given modifiers, if any.
pub fn get_action(key: IcKey, is_shifted: bool, is_super: bool) -> (r: Option<KeyAction>)
    ensures
        r == spec_get_action(key, is_shifted, is_super),
{
    if is_shifted {
        match key {
            IcKey::Num0 => Some(KeyAction::InsertChar(65)),  // 'A'
            IcKey::Num1 => Some(KeyAction::InsertChar(66)),  // 'B'
            IcKey::Num2 => Some(KeyAction::InsertChar(67)),  // 'C'
            IcKey::Num3 => Some(KeyAction::InsertChar(68)),  // 'D'
            IcKey::Num4 => Some(KeyAction::InsertChar(69)),  // 'E'
            IcKey::Num5 => Some(KeyAction::InsertChar(70)),  // 'F'
            IcKey::Num6 => Some(KeyAction::InsertChar(46)),  // '.'
            IcKey::Num7 => Some(KeyAction::InsertChar(40)),  // '('
            IcKey::Num8 => Some(KeyAction::InsertChar(41)),  // ')'
            IcKey::Num9 => Some(KeyAction::InsertChar(120)),  // 'x'
            IcKey::Func1 => Some(KeyAction::InsertChar(38)),  // '&'
            IcKey::Func2 => Some(KeyAction::InsertChar(124)),  // '|'
            IcKey::Func3 => Some(KeyAction::InsertChar(37)),  // '%'
            IcKey::Func4 => Some(KeyAction::InsertChar(60)),  // '<'
            IcKey::Func5 => Some(KeyAction::InsertChar(62)),  // '>'
            _ => None,
        }
    } else if is_super {
        match key {
            IcKey::Num1 => Some(KeyAction::End),
            IcKey::Num2 => Some(KeyAction::MoveDown),
            IcKey::Num3 => Some(KeyAction::Clear),
            IcKey::Num4 => Some(KeyAction::MoveLeft),
            IcKey::Num5 => Some(KeyAction::Mode),
            IcKey::Num6 => Some(KeyAction::End),
            IcKey::Num7 => Some(KeyAction::Home),
            IcKey::Num8 => Some(KeyAction::MoveUp),
            IcKey::Num9 => Some(KeyAction::Backspace),
            _ => None,
        }
    } else {
        match key {
            IcKey::Num0 => Some(KeyAction::InsertChar(48)),  // '0'
            IcKey::Num1 => Some(KeyAction::InsertChar(49)),  // '1'
            IcKey::Num2 => Some(KeyAction::InsertChar(50)),  // '2'
            IcKey::Num3 => Some(KeyAction::InsertChar(51)),  // '3'
            IcKey::Num4 => Some(KeyAction::InsertChar(52)),  // '4'
            IcKey::Num5 => Some(KeyAction::InsertChar(53)),  // '5'
            IcKey::Num6 => Some(KeyAction::InsertChar(54)),  // '6'
            IcKey::Num7 => Some(KeyAction::InsertChar(55)),  // '7'
            IcKey::Num8 => Some(KeyAction::InsertChar(56)),  // '8'
            IcKey::Num9 => Some(KeyAction::InsertChar(57)),  // '9'
            IcKey::Func1 => Some(KeyAction::InsertChar(94)),  // '^'
            IcKey::Func2 => Some(KeyAction::InsertChar(47)),  // '/'
            IcKey::Func3 => Some(KeyAction::InsertChar(42)),  // '*'
            IcKey::Func4 => Some(KeyAction::InsertChar(45)),  // '-'
            IcKey::Func5 => Some(KeyAction::InsertChar(43)),  // '+'
            IcKey::Func6 => Some(KeyAction::Enter),
            _ => None,
        }
    }
}

} // verus!
