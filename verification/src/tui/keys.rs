//! Key handling: what each key press does to the console's state, and what
//! the caller must do next.
use vstd::prelude::*;
use vstd::utf8::encode_utf8;
use crate::text::{all_digits, clear_string, is_digit, pop_char, push_char};
use crate::tui::state::{AppState, LogSource, Modal};

verus! {

/// A key, without the terminal library's type.
#[derive(Clone, Copy, Debug, PartialEq, Eq, Structural)]
pub enum KeyCode {
    Backspace,
    Enter,
    Left,
    Right,
    Up,
    Down,
    Home,
    End,
    PageUp,
    PageDown,
    Tab,
    BackTab,
    Delete,
    Insert,
    F(u8),
    Char(char),
    Esc,
    /// Any other key.
    Other,
}

/// A key press with the modifiers the console reads.
#[derive(Clone, Copy, Debug, PartialEq, Eq, Structural)]
pub struct KeyInput {
    pub code: KeyCode,
    pub ctrl: bool,
    pub alt: bool,
}

/// What the caller does after a key press.
#[derive(Clone, Copy, Debug, PartialEq, Eq, Structural)]
pub enum KeyAction {
    /// Nothing more to do.
    Handled,
    /// Stage the entered pairing PIN.
    SubmitPin,
    /// Pass the key to the embedded shell.
    SendToShell,
    /// Close the embedded shell.
    CloseShell,
}

/// The parts of the console state that keys change.
pub struct UiView {
    pub focused: LogSource,
    pub scroll: usize,
    pub follow: bool,
    pub modal: Modal,
    pub pin: Seq<char>,
    pub message: Seq<char>,
    pub quit: bool,
    pub shell: bool,
}

impl AppState {
    pub open spec fn ui_view(&self) -> UiView {
        UiView {
            focused: self.focused_log,
            scroll: self.log_scroll,
            follow: self.follow_tail,
            modal: self.modal,
            pin: self.pin_input@,
            message: self.pin_message@,
            quit: self.should_quit,
            shell: self.should_shell,
        }
    }
}

pub open spec fn sat_add(a: usize, b: usize) -> usize {
    if a + b > usize::MAX {
        usize::MAX
    } else {
        (a + b) as usize
    }
}

pub open spec fn sat_sub(a: usize, b: usize) -> usize {
    if a < b {
        0
    } else {
        (a - b) as usize
    }
}

/// The longest PIN the dialog accepts, in bytes.
pub open spec fn pin_limit() -> nat {
    8
}

/// What a key does in the pairing dialog.
pub open spec fn pin_outcome(v: UiView, k: KeyInput) -> (UiView, KeyAction) {
    match k.code {
        KeyCode::Esc => (
            UiView { modal: Modal::Closed, pin: Seq::empty(), message: Seq::empty(), ..v },
            KeyAction::Handled,
        ),
        KeyCode::Enter => (v, KeyAction::SubmitPin),
        KeyCode::Backspace => (
            UiView {
                pin: if v.pin.len() > 0 {
                    v.pin.drop_last()
                } else {
                    v.pin
                },
                ..v
            },
            KeyAction::Handled,
        ),
        KeyCode::Char(c) => if is_digit(c) && (encode_utf8(v.pin).len() as usize) < pin_limit() {
            (UiView { pin: v.pin.push(c), ..v }, KeyAction::Handled)
        } else {
            (v, KeyAction::Handled)
        },
        _ => (v, KeyAction::Handled),
    }
}

/// What a key does in the main view.
pub open spec fn main_outcome(v: UiView, code: KeyCode) -> UiView {
    match code {
        KeyCode::Char(c) => if c == 'q' {
            UiView { quit: true, ..v }
        } else if c == 'r' {
            UiView { modal: Modal::PairPin, pin: Seq::empty(), message: Seq::empty(), ..v }
        } else if c == 's' {
            UiView { shell: true, ..v }
        } else if c == 'f' || c == 'F' {
            UiView { follow: true, scroll: 0, ..v }
        } else {
            v
        },
        KeyCode::Esc => UiView { quit: true, ..v },
        KeyCode::Tab => UiView { focused: v.focused.next_spec(), scroll: 0, follow: true, ..v },
        KeyCode::BackTab => UiView { focused: v.focused.prev_spec(), scroll: 0, follow: true, ..v },
        KeyCode::Up => UiView { follow: false, scroll: sat_add(v.scroll, 1), ..v },
        KeyCode::Down => if v.scroll == 0 {
            UiView { follow: true, ..v }
        } else {
            UiView { scroll: (v.scroll - 1) as usize, ..v }
        },
        KeyCode::PageUp => UiView { follow: false, scroll: sat_add(v.scroll, 20), ..v },
        KeyCode::PageDown => {
            let s = sat_sub(v.scroll, 20);
            UiView {
                scroll: s,
                follow: if s == 0 {
                    true
                } else {
                    v.follow
                },
                ..v
            }
        },
        _ => v,
    }
}

/// What a key press does: in the shell, F10 closes it and every other key
/// goes to it; in the pairing dialog, keys edit the PIN; otherwise Ctrl+C,
/// `q` and Esc quit, `r` opens pairing, `s` opens a shell, Tab and Shift+Tab
/// cycle the logs, and the arrows, page keys and `f` scroll.
pub open spec fn key_outcome(v: UiView, k: KeyInput) -> (UiView, KeyAction) {
    if v.modal == Modal::Shell {
        if k.code == KeyCode::F(10) {
            (UiView { modal: Modal::Closed, ..v }, KeyAction::CloseShell)
        } else {
            (v, KeyAction::SendToShell)
        }
    } else if v.modal == Modal::PairPin {
        pin_outcome(v, k)
    } else if k.ctrl && k.code == KeyCode::Char('c') {
        (UiView { quit: true, ..v }, KeyAction::Handled)
    } else {
        (main_outcome(v, k.code), KeyAction::Handled)
    }
}

/// The log a key focuses, if any.
pub open spec fn key_focus(v: UiView, k: KeyInput) -> Option<LogSource> {
    if v.modal == Modal::Closed && !(k.ctrl && k.code == KeyCode::Char('c')) {
        match k.code {
            KeyCode::Tab => Some(v.focused.next_spec()),
            KeyCode::BackTab => Some(v.focused.prev_spec()),
            _ => None,
        }
    } else {
        None
    }
}

/// The buffers after a key: the newly focused log, if any, has no unread
/// lines; everything else is as it was.
pub open spec fn logs_after_key(old_app: AppState, new_app: AppState, k: KeyInput) -> bool {
    match key_focus(old_app.ui_view(), k) {
        Some(s) => {
            &&& new_app.logs@[s.position() as int].unread_count() == 0
            &&& new_app.logs@[s.position() as int].texts() == old_app.logs@[
                s.position() as int
            ].texts()
            &&& forall|i: int|
                #![auto]
                0 <= i < crate::tui::state::LOG_SOURCE_COUNT && i != s.position() ==> new_app.logs@[i]
                    == old_app.logs@[i]
        },
        None => new_app.logs == old_app.logs,
    }
}

fn pin_len(pin: &String) -> (r: usize)
    ensures
        r == encode_utf8(pin@).len() as usize,
{
    pin.as_str().len()
}

/// Applies a key press to the console's state.
pub fn handle(app: &mut AppState, key: KeyInput) -> (r: KeyAction)
    requires
        old(app).wf(),
    ensures
        final(app).wf(),
        (final(app).ui_view(), r) == key_outcome(old(app).ui_view(), key),
        logs_after_key(*old(app), *final(app), key),
        final(app).status == old(app).status,
        old(app).modal == Modal::Closed && (key.code == KeyCode::Char('q') || key.code
            == KeyCode::Esc || (key.ctrl && key.code == KeyCode::Char('c'))) ==> final(app).should_quit,
        old(app).modal == Modal::Closed && !(key.code == KeyCode::Char('q') || key.code
            == KeyCode::Esc || (key.ctrl && key.code == KeyCode::Char('c'))) ==> final(app).should_quit
            == old(app).should_quit,
        old(app).modal == Modal::Shell ==> final(app).should_quit == old(app).should_quit,
{
    if app.modal == Modal::Shell {
        if key.code == KeyCode::F(10) {
            app.modal = Modal::Closed;
            return KeyAction::CloseShell;
        }
        return KeyAction::SendToShell;
    }
    if app.modal == Modal::PairPin {
        return handle_modal_pin(app, key);
    }
    if key.ctrl && key.code == KeyCode::Char('c') {
        app.should_quit = true;
        return KeyAction::Handled;
    }
    match key.code {
        KeyCode::Char(c) => {
            if c == 'q' {
                app.should_quit = true;
            } else if c == 'r' {
                app.modal = Modal::PairPin;
                clear_string(&mut app.pin_input);
                clear_string(&mut app.pin_message);
            } else if c == 's' {
                app.should_shell = true;
            } else if c == 'f' || c == 'F' {
                app.follow_tail = true;
                app.log_scroll = 0;
            }
        },
        KeyCode::Esc => {
            app.should_quit = true;
        },
        KeyCode::Tab => {
            let next = app.focused_log.next();
            app.focus(next);
        },
        KeyCode::BackTab => {
            let prev = app.focused_log.prev();
            app.focus(prev);
        },
        KeyCode::Up => {
            app.follow_tail = false;
            app.log_scroll = if app.log_scroll == usize::MAX {
                usize::MAX
            } else {
                app.log_scroll + 1
            };
        },
        KeyCode::Down => {
            if app.log_scroll == 0 {
                app.follow_tail = true;
            } else {
                app.log_scroll = app.log_scroll - 1;
            }
        },
        KeyCode::PageUp => {
            app.follow_tail = false;
            app.log_scroll = if app.log_scroll > usize::MAX - 20 {
                usize::MAX
            } else {
                app.log_scroll + 20
            };
        },
        KeyCode::PageDown => {
            app.log_scroll = if app.log_scroll < 20 {
                0
            } else {
                app.log_scroll - 20
            };
            if app.log_scroll == 0 {
                app.follow_tail = true;
            }
        },
        _ => {},
    }
    KeyAction::Handled
}

/// Applies a key press to the pairing dialog.
fn handle_modal_pin(app: &mut AppState, key: KeyInput) -> (r: KeyAction)
    requires
        old(app).wf(),
        old(app).modal == Modal::PairPin,
    ensures
        final(app).wf(),
        (final(app).ui_view(), r) == pin_outcome(old(app).ui_view(), key),
        final(app).logs == old(app).logs,
        final(app).status == old(app).status,
{
    match key.code {
        KeyCode::Esc => {
            app.modal = Modal::Closed;
            clear_string(&mut app.pin_input);
            clear_string(&mut app.pin_message);
            KeyAction::Handled
        },
        KeyCode::Enter => KeyAction::SubmitPin,
        KeyCode::Backspace => {
            let _ = pop_char(&mut app.pin_input);
            KeyAction::Handled
        },
        KeyCode::Char(c) => {
            if '0' <= c && c <= '9' && pin_len(&app.pin_input) < 8 {
                push_char(&mut app.pin_input, c);
            }
            KeyAction::Handled
        },
        _ => KeyAction::Handled,
    }
}

// ---------------------------------------------------------------------------
// Laws
// ---------------------------------------------------------------------------

/// Moving to the next log and back to the previous one returns to the
/// starting log, for every log.
pub proof fn law_next_then_prev(s: LogSource)
    ensures
        s.next_spec().prev_spec() == s,
        s.prev_spec().next_spec() == s,
{
}

/// In the main view, Tab followed by Shift+Tab focuses the log that was
/// focused before, following its tail.
pub proof fn law_tab_back_tab(v: UiView, tab: KeyInput, back_tab: KeyInput)
    requires
        v.modal == Modal::Closed,
        tab.code == KeyCode::Tab,
        back_tab.code == KeyCode::BackTab,
    ensures
        ({
            let after_tab = key_outcome(v, tab).0;
            let after_back = key_outcome(after_tab, back_tab).0;
            &&& after_back.focused == v.focused
            &&& after_back.scroll == 0
            &&& after_back.follow
        }),
{
    law_next_then_prev(v.focused);
}

/// A PIN of at most eight ASCII digits.
pub open spec fn pin_ok(pin: Seq<char>) -> bool {
    pin.len() <= pin_limit() && all_digits(pin)
}

proof fn lemma_digits_encode_len(s: Seq<char>)
    requires
        all_digits(s),
    ensures
        encode_utf8(s).len() == s.len(),
    decreases s.len(),
{
    if s.len() > 0 {
        assert(is_digit(s[0]));
        assert(all_digits(s.drop_first()));
        lemma_digits_encode_len(s.drop_first());
    }
}

/// In the main view, `q`, Esc and Ctrl+C quit the console and no other key
/// changes whether it quits; in the shell no key quits it.
pub proof fn law_quit_keys(v: UiView, k: KeyInput)
    ensures
        v.modal == Modal::Closed && (k.code == KeyCode::Char('q') || k.code == KeyCode::Esc || (k.ctrl
            && k.code == KeyCode::Char('c'))) ==> key_outcome(v, k).0.quit,
        v.modal == Modal::Closed && !(k.code == KeyCode::Char('q') || k.code == KeyCode::Esc || (
        k.ctrl && k.code == KeyCode::Char('c'))) ==> key_outcome(v, k).0.quit == v.quit,
        v.modal == Modal::Shell ==> key_outcome(v, k).0.quit == v.quit,
{
}

/// Every key keeps the PIN at most eight ASCII digits.
pub proof fn law_pin_stays_digits(v: UiView, k: KeyInput)
    requires
        pin_ok(v.pin),
    ensures
        pin_ok(key_outcome(v, k).0.pin),
{
    lemma_digits_encode_len(v.pin);
    let p = v.pin;
    if v.pin.len() > 0 {
        assert(all_digits(p.drop_last()));
    }
    if let KeyCode::Char(c) = k.code {
        if is_digit(c) {
            assert(all_digits(p.push(c))) by {
                assert forall|i: int| 0 <= i < p.push(c).len() implies is_digit(
                    #[trigger] p.push(c)[i],
                ) by {
                    if i < p.len() {
                        assert(p.push(c)[i] == p[i]);
                    }
                }
            }
        }
    }
}

/// Closing the pairing dialog with Esc clears what was entered.
pub proof fn law_pin_cancel_clears(v: UiView, esc: KeyInput)
    requires
        v.modal == Modal::PairPin,
        esc.code == KeyCode::Esc,
    ensures
        key_outcome(v, esc).0.modal == Modal::Closed,
        key_outcome(v, esc).0.pin.len() == 0,
        key_outcome(v, esc).0.message.len() == 0,
{
}

} // verus!
