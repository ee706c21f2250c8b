//! What each key does to the wallet app.

use vstd::prelude::*;

use crate::types::{App, AppView, Focus};

verus! {

/// A key the app reacts to; every other key is `Other`.
#[derive(Clone, Copy, Debug, PartialEq, Eq, Structural)]
pub enum Key {
    Char(char),
    Left,
    Right,
    Tab,
    Up,
    Down,
    Esc,
    Backspace,
    Enter,
    Other,
}

/// What the event loop does after a key.
#[derive(Clone, Copy, Debug, PartialEq, Eq, Structural)]
pub enum KeyOutcome {
    /// Keep reading keys.
    Continue,
    /// Leave the app.
    Quit,
    /// Run the selected form's `cast` command.
    Run,
}

impl AppView {
    /// The state after `key`, and what the event loop does next.
    pub open spec fn on_key(self, key: Key) -> (AppView, KeyOutcome) {
        match key {
            Key::Char('q') => (self, KeyOutcome::Quit),
            Key::Left => (self.move_focus_left(), KeyOutcome::Continue),
            Key::Right | Key::Tab => (self.move_focus_right(), KeyOutcome::Continue),
            Key::Esc => (self.clear_output(), KeyOutcome::Continue),
            Key::Up => (
                if self.focus == Focus::Actions {
                    self.select_prev_action()
                } else {
                    self.select_prev_field()
                },
                KeyOutcome::Continue,
            ),
            Key::Down => (
                if self.focus == Focus::Actions {
                    self.select_next_action()
                } else {
                    self.select_next_field()
                },
                KeyOutcome::Continue,
            ),
            Key::Backspace => (
                if self.focus == Focus::Fields {
                    self.backspace()
                } else {
                    self
                },
                KeyOutcome::Continue,
            ),
            Key::Enter => (self, KeyOutcome::Run),
            Key::Char(c) => (
                if self.focus == Focus::Fields {
                    self.insert_char(c)
                } else {
                    self
                },
                KeyOutcome::Continue,
            ),
            Key::Other => (self, KeyOutcome::Continue),
        }
    }
}

/// Up and Down move within whichever panel has the focus. With the forms focused, Down
/// selects the next form and Up the previous one (wrapping around), starting at its first
/// field. With the fields focused, the selected form stays, and Down selects the next field
/// and Up the previous one (wrapping around; nothing moves in a form without fields).
/// Nothing else changes, and the app goes on.
pub proof fn lemma_up_down_navigation(a: AppView)
    requires
        a.wf(),
    ensures
        ({
            let (d, od) = a.on_key(Key::Down);
            let (u, ou) = a.on_key(Key::Up);
            let n = a.forms[a.selected_action].fields.len() as int;
            let m = a.forms.len() as int;
            &&& od == KeyOutcome::Continue && ou == KeyOutcome::Continue
            &&& d.forms == a.forms && u.forms == a.forms
            &&& d.focus == a.focus && u.focus == a.focus
            &&& d.output == a.output && u.output == a.output
            &&& d.last_command == a.last_command && u.last_command == a.last_command
            &&& d.status == a.status && u.status == a.status
            &&& a.focus == Focus::Fields ==> {
                &&& d.selected_action == a.selected_action
                &&& u.selected_action == a.selected_action
                &&& d.selected_field == if n == 0 {
                    a.selected_field
                } else {
                    (a.selected_field + 1) % n
                }
                &&& u.selected_field == if n == 0 {
                    a.selected_field
                } else if a.selected_field == 0 {
                    n - 1
                } else {
                    a.selected_field - 1
                }
            }
            &&& a.focus == Focus::Actions ==> {
                &&& d.selected_action == (a.selected_action + 1) % m
                &&& u.selected_action == if a.selected_action == 0 {
                    m - 1
                } else {
                    a.selected_action - 1
                }
                &&& d.selected_field == 0 && u.selected_field == 0
            }
        }),
{
}

impl App {
    /// Applies a pressed key: `q` quits; Left, Right and Tab move the focus; Esc clears the
    /// output; Up and Down move through the forms or the fields, whichever has the focus;
    /// Backspace and other characters edit the selected field when the fields have the
    /// focus; Enter asks for a run.
    pub fn handle_key(&mut self, key: Key) -> (r: KeyOutcome)
        requires
            old(self)@.wf(),
        ensures
            (final(self)@, r) == old(self)@.on_key(key),
            final(self)@.wf(),
            key == Key::Down && old(self).focus == Focus::Fields ==> final(self).selected_action
                == old(self).selected_action && final(self).focus == Focus::Fields,
            key == Key::Down && old(self).focus == Focus::Actions ==> final(self).selected_field
                == 0,
    {
        let n_forms = self.forms.len();
        let n_fields = self.forms[self.selected_action].fields.len();
        assert(self.forms@[self.selected_action as int]@.fields.len() == n_fields);
        proof {
            crate::types::lemma_steps_keep_wf(self@, match key {
                Key::Char(c) => c,
                _ => ' ',
            });
        }
        match key {
            Key::Char('q') => KeyOutcome::Quit,
            Key::Left => {
                self.move_focus_left();
                KeyOutcome::Continue
            },
            Key::Right | Key::Tab => {
                self.move_focus_right();
                KeyOutcome::Continue
            },
            Key::Esc => {
                self.clear_output();
                KeyOutcome::Continue
            },
            Key::Up => {
                if self.focus == Focus::Actions {
                    self.select_prev_action();
                } else {
                    self.select_prev_field();
                }
                KeyOutcome::Continue
            },
            Key::Down => {
                if self.focus == Focus::Actions {
                    self.select_next_action();
                } else {
                    self.select_next_field();
                }
                KeyOutcome::Continue
            },
            Key::Backspace => {
                if self.focus == Focus::Fields {
                    self.backspace();
                }
                KeyOutcome::Continue
            },
            Key::Enter => KeyOutcome::Run,
            Key::Char(ch) => {
                if self.focus == Focus::Fields {
                    self.insert_char(ch);
                }
                KeyOutcome::Continue
            },
            Key::Other => KeyOutcome::Continue,
        }
    }
}

} // verus!
