//! The calculator app's state and its decisions: one editable equation
//! line, a live result, a history ring, a focus, and the engine selection.
//!
//! All decisions live here, verified. What the calculator cannot do itself —
//! evaluate the equation line through the chosen engine, and draw — is the
//! embedding front end's: `on_key` applies every state change a key causes
//! and answers with the evaluation the front end owes back, which it then
//! hands to `run_equation` or `update_realtime_result`.

use vstd::prelude::*;

use crate::editor::LineBuffer;
use crate::history::{EqEntry, EqHistory, spec_history_nav, EQUATION_MAX_SIZE, EQ_HISTORY_MAX};
use crate::input::IcKey;
use crate::keymap::{get_action, spec_get_action, KeyAction};
use crate::prog::{
    spec_result_or_zero, spec_widget_handles, spec_widget_selection, spec_widget_write,
    ProgrammerEngine,
};

verus! {

/// Which part of the calculator's screen takes keys.
#[derive(Clone, Copy, Debug, PartialEq, Eq, Structural)]
pub enum FocusUi {
    Equation,
    Widget,
}

/// Which engine evaluates the equation line. The programmer engine is this
/// library's own `evaluate`; the scientific engine is an outside expression
/// interpreter the front end supplies.
#[derive(Clone, Copy, Debug, PartialEq, Eq, Structural)]
pub enum EngineMode {
    Programmer,
    Scientific,
}

/// One step of cursor or focus navigation.
#[derive(Clone, Copy, Debug, PartialEq, Eq, Structural)]
pub enum NavDir {
    Up,
    Down,
    Left,
    Right,
}

/// What the front end owes the calculator after a key: nothing, a fresh
/// evaluation of the equation line for the live result (hand the answer to
/// `update_realtime_result`), or a submit of the whole equation (hand the
/// answer to `run_equation`).
#[derive(Clone, Copy, Debug, PartialEq, Eq, Structural)]
pub enum EvalRequest {
    Nothing,
    Realtime,
    Submit,
}

/// The calculator's state.
pub struct Calculator {
    pub current_eq: LineBuffer<EQUATION_MAX_SIZE>,
    pub history: EqHistory,
    pub current_result: [u8; EQUATION_MAX_SIZE],
    pub current_result_len: usize,
    pub focused_ui: FocusUi,
    pub prog_engine: ProgrammerEngine,
    pub engine_mode: EngineMode,
}

impl Calculator {
    /// The parts are well formed, and the binary widget only ever has focus
    /// while the programmer engine (the one with a widget) is selected.
    pub open spec fn wf(self) -> bool {
        &&& self.current_eq.wf()
        &&& self.history.wf()
        &&& self.current_result_len <= EQUATION_MAX_SIZE
        &&& self.prog_engine.wf()
        &&& self.focused_ui == FocusUi::Widget ==> self.engine_mode == EngineMode::Programmer
    }

    /// The live result's text: the filled prefix of its buffer.
    pub open spec fn result_text(self) -> Seq<u8> {
        self.current_result@.subrange(0, self.current_result_len as int)
    }

    /// A fresh calculator: empty line, empty history, programmer engine,
    /// focus on the equation.
    pub fn new() -> (r: Calculator)
        ensures
            r.wf(),
            r.current_eq.cleared(),
            r.history.len == 0,
            r.history.selection is None,
            r.current_result_len == 0,
            r.focused_ui == FocusUi::Equation,
            r.engine_mode == EngineMode::Programmer,
            r.prog_engine.binary_selection_idx == 0,
    {
        Calculator {
            current_eq: LineBuffer::default(),
            history: EqHistory::new(),
            current_result: [0; EQUATION_MAX_SIZE],
            current_result_len: 0,
            focused_ui: FocusUi::Equation,
            prog_engine: ProgrammerEngine::default(),
            engine_mode: EngineMode::Programmer,
        }
    }

    /// Whether the selected engine shows a widget below the editor.
    pub fn has_widget(&self) -> (r: bool)
        ensures
            r == (self.engine_mode == EngineMode::Programmer),
    {
        match self.engine_mode {
            EngineMode::Programmer => true,
            EngineMode::Scientific => false,
        }
    }

    /// Copies `s` into the fixed buffer, truncating to its capacity, and
    /// records the copied length.
    pub fn copy_str_to_buffer(buffer: &mut [u8], len: &mut usize, s: &[u8])
        ensures
            final(buffer)@.len() == old(buffer)@.len(),
            *final(len) == if s@.len() < old(buffer)@.len() {
                s@.len() as int
            } else {
                old(buffer)@.len() as int
            },
            final(buffer)@.subrange(0, *final(len) as int) =~= s@.take(*final(len) as int),
    {
        let copy_len: usize = if s.len() < buffer.len() {
            s.len()
        } else {
            buffer.len()
        };
        let mut m: usize = 0;
        while m < copy_len
            invariant
                m <= copy_len,
                copy_len <= buffer@.len(),
                copy_len <= s@.len(),
                buffer@.len() == old(buffer)@.len(),
                forall|j: int| 0 <= j < m ==> buffer@[j] == s@[j],
            decreases copy_len - m,
        {
            let b = s[m];
            buffer[m] = b;
            m = m + 1;
        }
        *len = copy_len;
    }

    /// How `ui_nav(dir)` relates the state after (`post`) to the state
    /// before (`self`): with the widget focused nothing moves; otherwise up
    /// and down walk the history (down enters the widget when there is one
    /// and no history entry is selected), left and right move the cursor.
    pub open spec fn nav_rel(self, post: Self, dir: NavDir) -> bool {
        &&& post.history.entries == self.history.entries
        &&& post.history.len == self.history.len
        &&& post.history.write_idx == self.history.write_idx
        &&& post.current_result == self.current_result
        &&& post.current_result_len == self.current_result_len
        &&& post.prog_engine == self.prog_engine
        &&& post.engine_mode == self.engine_mode
        &&& if self.focused_ui == FocusUi::Widget {
            post == self
        } else {
            match dir {
                NavDir::Up => post.current_eq == self.current_eq && post.focused_ui
                    == self.focused_ui && post.history.selection == spec_history_nav(
                    self.history.selection,
                    self.history.len,
                    true,
                ),
                NavDir::Down => if self.history.selection is None {
                    post.current_eq == self.current_eq && post.history.selection
                        == self.history.selection && post.focused_ui == (if self.engine_mode
                        == EngineMode::Programmer {
                        FocusUi::Widget
                    } else {
                        self.focused_ui
                    })
                } else {
                    post.current_eq == self.current_eq && post.focused_ui == self.focused_ui
                        && post.history.selection == spec_history_nav(
                        self.history.selection,
                        self.history.len,
                        false,
                    )
                },
                NavDir::Left => post.focused_ui == self.focused_ui && post.history.selection
                    == self.history.selection && self.current_eq.move_rel(post.current_eq, false),
                NavDir::Right => post.focused_ui == self.focused_ui && post.history.selection
                    == self.history.selection && self.current_eq.move_rel(post.current_eq, true),
            }
        }
    }

    /// One step of navigation from the equation line: up and down move
    /// through the history or into the widget, left and right move the
    /// cursor.
    pub fn ui_nav(&mut self, dir: NavDir)
        requires
            old(self).wf(),
        ensures
            final(self).wf(),
            old(self).nav_rel(*final(self), dir),
    {
        match self.focused_ui {
            FocusUi::Equation => {
                match dir {
                    NavDir::Up => self.history.history_nav(true),
                    NavDir::Down => {
                        if self.history.selection.is_none() {
                            if self.has_widget() {
                                self.focused_ui = FocusUi::Widget;
                            }
                        } else {
                            self.history.history_nav(false);
                        }
                    },
                    NavDir::Left => self.current_eq.move_cursor(false),
                    NavDir::Right => self.current_eq.move_cursor(true),
                }
            },
            FocusUi::Widget => {},
        }
    }

    /// Commits the equation line with the answer the engine computed for it:
    /// the pair is appended to the history, and the line and the live result
    /// are cleared. An empty line commits nothing.
    pub fn run_equation(&mut self, answer: &[u8])
        requires
            old(self).wf(),
        ensures
            final(self).wf(),
            old(self).current_eq.len == 0 ==> *final(self) == *old(self),
            old(self).current_eq.len > 0 ==> ({
                let h = old(self).history;
                let n = if answer@.len() < EQUATION_MAX_SIZE {
                    answer@.len() as int
                } else {
                    EQUATION_MAX_SIZE as int
                };
                &&& final(self).history.write_idx == (h.write_idx + 1) % (EQ_HISTORY_MAX as int)
                &&& final(self).history.len == if h.len < EQ_HISTORY_MAX {
                    h.len + 1
                } else {
                    h.len as int
                }
                &&& final(self).history.selection == h.selection
                &&& final(self).history.entries@[h.write_idx as int].equation_text() =~= old(
                    self,
                ).current_eq.content()
                &&& final(self).history.entries@[h.write_idx as int].result_text() =~= answer@.take(
                    n,
                )
                &&& forall|q: int|
                    0 <= q < EQ_HISTORY_MAX && q != h.write_idx
                        ==> final(self).history.entries@[q] == h.entries@[q]
                &&& final(self).current_eq.cleared()
                &&& final(self).current_result_len == 0
                &&& final(self).focused_ui == old(self).focused_ui
                &&& final(self).prog_engine == old(self).prog_engine
                &&& final(self).engine_mode == old(self).engine_mode
            }),
    {
        if self.current_eq.len == 0 {
            return ;
        }
        let mut new_entry = EqEntry::default();
        new_entry.equation = self.current_eq.data;
        new_entry.equation_len = self.current_eq.len;
        let mut result = [0u8; EQUATION_MAX_SIZE];
        let mut result_len: usize = 0;
        Self::copy_str_to_buffer(
            vstd::array::ref_mut_array_unsizing_coercion(&mut result),
            &mut result_len,
            answer,
        );
        new_entry.result = result;
        new_entry.result_len = result_len;
        self.history.history_append(&new_entry);
        self.current_eq.clear();
        self.current_result_len = 0;
    }

    /// Refreshes the live result with the answer the engine computed for the
    /// current line; an empty line shows no result.
    pub fn update_realtime_result(&mut self, answer: &[u8])
        requires
            old(self).wf(),
        ensures
            final(self).wf(),
            final(self).current_eq == old(self).current_eq,
            final(self).history == old(self).history,
            final(self).focused_ui == old(self).focused_ui,
            final(self).prog_engine == old(self).prog_engine,
            final(self).engine_mode == old(self).engine_mode,
            old(self).current_eq.len == 0 ==> final(self).current_result_len == 0,
            old(self).current_eq.len > 0 ==> ({
                let n = if answer@.len() < EQUATION_MAX_SIZE {
                    answer@.len() as int
                } else {
                    EQUATION_MAX_SIZE as int
                };
                final(self).current_result_len == n && final(self).result_text() =~= answer@.take(
                    n,
                )
            }),
    {
        if self.current_eq.len == 0 {
            self.current_result_len = 0;
            return ;
        }
        let mut result = self.current_result;
        let mut result_len: usize = self.current_result_len;
        Self::copy_str_to_buffer(
            vstd::array::ref_mut_array_unsizing_coercion(&mut result),
            &mut result_len,
            answer,
        );
        self.current_result = result;
        self.current_result_len = result_len;
    }

    /// How the main key dispatch relates the state after to the state
    /// before, given the action the key mapped to. This is the step taken
    /// when the widget did not consume the key.
    pub open spec fn action_rel(self, post: Self, act: KeyAction, r: EvalRequest) -> bool {
        match act {
            KeyAction::InsertChar(c) => r == EvalRequest::Realtime && post == (Calculator {
                current_eq: post.current_eq,
                ..self
            }) && self.current_eq.insert_rel(post.current_eq, c),
            KeyAction::Backspace => r == EvalRequest::Realtime && if self.history.selection
                is None {
                post == (Calculator { current_eq: post.current_eq, ..self })
                    && self.current_eq.backspace_rel(post.current_eq)
            } else {
                post == (Calculator { history: post.history, ..self }) && self.history.delete_rel(
                    post.history,
                )
            },
            KeyAction::Clear => r == EvalRequest::Realtime && post == (Calculator {
                current_eq: post.current_eq,
                ..self
            }) && post.current_eq.cleared(),
            KeyAction::Delete => r == EvalRequest::Realtime && post == (Calculator {
                current_eq: post.current_eq,
                ..self
            }) && self.current_eq.delete_rel(post.current_eq),
            KeyAction::Enter => if self.history.selection is None {
                r == EvalRequest::Submit && post == self
            } else {
                r == EvalRequest::Realtime && post == (Calculator {
                    current_eq: post.current_eq,
                    history: post.history,
                    ..self
                }) && self.history.copy_rel(post.history, self.current_eq, post.current_eq)
            },
            KeyAction::MoveUp => r == EvalRequest::Realtime && self.nav_rel(post, NavDir::Up),
            KeyAction::MoveDown => r == EvalRequest::Realtime && self.nav_rel(post, NavDir::Down),
            KeyAction::MoveLeft => r == EvalRequest::Realtime && self.nav_rel(post, NavDir::Left),
            KeyAction::MoveRight => r == EvalRequest::Realtime && self.nav_rel(
                post,
                NavDir::Right,
            ),
            KeyAction::Home => r == EvalRequest::Realtime && post == (Calculator {
                current_eq: post.current_eq,
                ..self
            }) && self.current_eq.move_rel(post.current_eq, false),
            KeyAction::End => r == EvalRequest::Realtime && post == (Calculator {
                current_eq: post.current_eq,
                ..self
            }) && self.current_eq.move_rel(post.current_eq, true),
            KeyAction::Mode => r == EvalRequest::Realtime && post == (Calculator {
                engine_mode: if self.engine_mode == EngineMode::Programmer {
                    EngineMode::Scientific
                } else {
                    EngineMode::Programmer
                },
                prog_engine: ProgrammerEngine { binary_selection_idx: 0 },
                focused_ui: FocusUi::Equation,
                ..self
            }),
        }
    }

    /// How `on_key` relates the state after to the state before. With the
    /// widget focused, a key it consumes goes to it; a refused `MoveUp`
    /// returns focus to the equation line and then navigates like any other
    /// key.
    pub open spec fn key_rel(self, post: Self, act: KeyAction, r: EvalRequest) -> bool {
        if self.focused_ui == FocusUi::Widget && spec_widget_handles(
            act,
            self.prog_engine.binary_selection_idx,
        ) {
            &&& r == EvalRequest::Realtime
            &&& post == (Calculator {
                current_eq: post.current_eq,
                prog_engine: post.prog_engine,
                ..self
            })
            &&& post.prog_engine.binary_selection_idx == spec_widget_selection(
                act,
                self.prog_engine.binary_selection_idx,
            )
            &&& match spec_widget_write(
                act,
                spec_result_or_zero(self.result_text()),
                self.prog_engine.binary_selection_idx,
            ) {
                Some(text) => post.current_eq.content() =~= text && post.current_eq.cursor
                    == text.len(),
                None => post.current_eq == self.current_eq,
            }
        } else {
            let refocused = if self.focused_ui == FocusUi::Widget && act == KeyAction::MoveUp {
                Calculator { focused_ui: FocusUi::Equation, ..self }
            } else {
                self
            };
            refocused.action_rel(post, act, r)
        }
    }

    /// Applies one key of the pad under the current modifiers, and says what
    /// evaluation the front end owes back.
    pub fn on_key(&mut self, key: IcKey, is_shifted: bool, is_super: bool) -> (r: EvalRequest)
        requires
            old(self).wf(),
        ensures
            final(self).wf(),
            match spec_get_action(key, is_shifted, is_super) {
                None => *final(self) == *old(self) && r == EvalRequest::Nothing,
                Some(act) => old(self).key_rel(*final(self), act, r),
            },
    {
        let act = match get_action(key, is_shifted, is_super) {
            Some(a) => a,
            None => {
                return EvalRequest::Nothing;
            },
        };
        if self.focused_ui == FocusUi::Widget {
            let result = self.current_result;
            let result_slice = vstd::slice::slice_subrange(
                result.as_slice(),
                0,
                self.current_result_len,
            );
            let mut eq = self.current_eq;
            let mut engine = self.prog_engine;
            let handled = engine.on_widget_key(act, &mut eq, result_slice);
            self.current_eq = eq;
            self.prog_engine = engine;
            if handled {
                return EvalRequest::Realtime;
            }
            if act == KeyAction::MoveUp {
                self.focused_ui = FocusUi::Equation;
            }
        }
        match act {
            KeyAction::InsertChar(c) => self.current_eq.insert_char(c),
            KeyAction::Backspace => {
                if self.history.selection.is_none() {
                    self.current_eq.backspace();
                } else {
                    self.history.delete_current_history_entry();
                }
            },
            KeyAction::Clear => self.current_eq.clear(),
            KeyAction::Delete => self.current_eq.backspace_del(),
            KeyAction::Enter => {
                if self.history.selection.is_none() {
                    return EvalRequest::Submit;
                } else {
                    let mut eq = self.current_eq;
                    self.history.copy_from_history(&mut eq);
                    self.current_eq = eq;
                }
            },
            KeyAction::MoveUp => self.ui_nav(NavDir::Up),
            KeyAction::MoveDown => self.ui_nav(NavDir::Down),
            KeyAction::MoveLeft => self.ui_nav(NavDir::Left),
            KeyAction::MoveRight => self.ui_nav(NavDir::Right),
            KeyAction::Home => self.current_eq.move_cursor(false),
            KeyAction::End => self.current_eq.move_cursor(true),
            KeyAction::Mode => {
                self.engine_mode = if self.has_widget() {
                    EngineMode::Scientific
                } else {
                    EngineMode::Programmer
                };
                self.prog_engine = ProgrammerEngine::default();
                self.focused_ui = FocusUi::Equation;
            },
        }
        EvalRequest::Realtime
    }
}

} // verus!
