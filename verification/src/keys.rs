//! Key handling: which key does what in which panel and dialog.

use vstd::prelude::*;
use crate::app::{App, AppState};
use crate::modes::{AppResult, DialogState, FocusedPanel, RenameMode};

verus! {

/// A key, as far as the application tells keys apart.
#[derive(Debug, Clone, Copy, PartialEq, Eq, Structural)]
pub enum Key {
    Char(char),
    Up,
    Down,
    Left,
    Right,
    Tab,
    BackTab,
    Enter,
    Esc,
    Backspace,
    /// A function key, by number.
    F(u8),
    /// Any other key.
    Other,
}

/// A key press, with whether Control was held.
#[derive(Debug, Clone, Copy, PartialEq, Eq, Structural)]
pub struct KeyPress {
    pub key: Key,
    pub control: bool,
}

/// The key reaches the focused text field.
pub open spec fn key_goes_to_text(s: AppState, k: KeyPress) -> bool {
    &&& s.dialog_state == DialogState::Closed
    &&& !(k.control && k.key == Key::Char('c'))
    &&& s.focused_panel != FocusedPanel::Files
}

/// A key press can be handled without a panic: typing in a text field
/// needs the cursor on a character boundary, deleting needs it within the
/// text.
pub open spec fn key_allowed(s: AppState, k: KeyPress) -> bool {
    key_goes_to_text(s, k) ==> match k.key {
        Key::Char(_) => s.can_insert_char(),
        Key::Backspace => s.can_delete_char(),
        _ => true,
    }
}

/// The key in the confirmation dialog.
pub open spec fn confirm_step(s: AppState, k: Key) -> (AppState, AppResult) {
    match k {
        Key::Enter | Key::Char('y') | Key::Char('Y') => (s, AppResult::RenameRequested),
        Key::Esc | Key::Char('n') | Key::Char('N') | Key::Char('q') => (
            s.after_close_dialog(),
            AppResult::Continue,
        ),
        _ => (s, AppResult::Continue),
    }
}

/// The key in the help dialog.
pub open spec fn help_step(s: AppState, k: Key) -> (AppState, AppResult) {
    match k {
        Key::Esc | Key::Char('q') | Key::Char('?') | Key::Enter => (
            s.after_close_dialog(),
            AppResult::Continue,
        ),
        _ => (s, AppResult::Continue),
    }
}

/// The key in a success or error message.
pub open spec fn message_step(s: AppState, k: Key) -> (AppState, AppResult) {
    match k {
        Key::Esc | Key::Enter | Key::Char('q') => (s.after_close_dialog(), AppResult::Continue),
        _ => (s, AppResult::Continue),
    }
}

/// The key in the file list.
pub open spec fn files_step(s: AppState, k: Key) -> (AppState, AppResult) {
    match k {
        Key::Char('q') => (s, AppResult::Quit),
        Key::Char('j') | Key::Down => (s.after_select_next(), AppResult::Continue),
        Key::Char('k') | Key::Up => (s.after_select_previous(), AppResult::Continue),
        Key::Char(' ') => (s.after_toggle_selection(), AppResult::Continue),
        Key::Char('a') => (s.after_select_all(), AppResult::Continue),
        Key::Char('m') => (s.after_cycle_mode(), AppResult::Continue),
        Key::Char('s') => (s.after_cycle_sort(), AppResult::Continue),
        Key::Char('t') => if s.rename_mode == RenameMode::Prefix || s.rename_mode
            == RenameMode::Suffix {
            (s.after_toggle_prefix_action(), AppResult::Continue)
        } else {
            (s, AppResult::Continue)
        },
        Key::Tab => (s.after_next_panel(), AppResult::Continue),
        Key::BackTab => (s.after_previous_panel(), AppResult::Continue),
        Key::Enter => (s.after_show_confirm_dialog(), AppResult::Continue),
        Key::Char('?') => (s.after_show_help(), AppResult::Continue),
        _ => (s, AppResult::Continue),
    }
}

/// The key in a text field.
pub open spec fn input_step(s: AppState, k: Key) -> (AppState, AppResult) {
    match k {
        Key::Esc => (AppState { focused_panel: FocusedPanel::Files, ..s }, AppResult::Continue),
        Key::Tab => (s.after_next_panel(), AppResult::Continue),
        Key::BackTab => (s.after_previous_panel(), AppResult::Continue),
        Key::Char(c) => (s.after_insert_char(c), AppResult::Continue),
        Key::Backspace => (s.after_delete_char(), AppResult::Continue),
        Key::Left => (s.after_cursor_left(), AppResult::Continue),
        Key::Right => (s.after_cursor_right(), AppResult::Continue),
        Key::Enter => (s.after_show_confirm_dialog(), AppResult::Continue),
        Key::F(1) => (s.after_show_help(), AppResult::Continue),
        _ => (s, AppResult::Continue),
    }
}

/// The effect of a key press: Control+C quits from any state; otherwise an
/// open dialog takes the key, and with no dialog the focused panel does.
pub open spec fn key_step(s: AppState, k: KeyPress) -> (AppState, AppResult) {
    if k.control && k.key == Key::Char('c') {
        (s, AppResult::Quit)
    } else {
        match s.dialog_state {
            DialogState::Confirm => confirm_step(s, k.key),
            DialogState::Help => help_step(s, k.key),
            DialogState::Success | DialogState::Error => message_step(s, k.key),
            DialogState::Closed => if s.focused_panel == FocusedPanel::Files {
                files_step(s, k.key)
            } else {
                input_step(s, k.key)
            },
        }
    }
}

fn handle_confirm_dialog(app: &mut App, key: Key) -> (res: AppResult)
    ensures
        (final(app)@, res) == confirm_step(old(app)@, key),
{
    match key {
        Key::Enter | Key::Char('y') | Key::Char('Y') => AppResult::RenameRequested,
        Key::Esc | Key::Char('n') | Key::Char('N') | Key::Char('q') => {
            app.close_dialog();
            AppResult::Continue
        },
        _ => AppResult::Continue,
    }
}

fn handle_help_dialog(app: &mut App, key: Key) -> (res: AppResult)
    ensures
        (final(app)@, res) == help_step(old(app)@, key),
{
    match key {
        Key::Esc | Key::Char('q') | Key::Char('?') | Key::Enter => {
            app.close_dialog();
            AppResult::Continue
        },
        _ => AppResult::Continue,
    }
}

fn handle_message_dialog(app: &mut App, key: Key) -> (res: AppResult)
    ensures
        (final(app)@, res) == message_step(old(app)@, key),
{
    match key {
        Key::Esc | Key::Enter | Key::Char('q') => {
            app.close_dialog();
            AppResult::Continue
        },
        _ => AppResult::Continue,
    }
}

fn handle_files_panel(app: &mut App, key: Key) -> (res: AppResult)
    ensures
        (final(app)@, res) == files_step(old(app)@, key),
{
    match key {
        Key::Char('q') => AppResult::Quit,
        Key::Char('j') | Key::Down => {
            app.select_next();
            AppResult::Continue
        },
        Key::Char('k') | Key::Up => {
            app.select_previous();
            AppResult::Continue
        },
        Key::Char(' ') => {
            app.toggle_selection();
            AppResult::Continue
        },
        Key::Char('a') => {
            app.select_all();
            AppResult::Continue
        },
        Key::Char('m') => {
            app.cycle_mode();
            AppResult::Continue
        },
        Key::Char('s') => {
            app.cycle_sort();
            AppResult::Continue
        },
        Key::Char('t') => {
            if app.rename_mode == RenameMode::Prefix || app.rename_mode == RenameMode::Suffix {
                app.toggle_prefix_action();
            }
            AppResult::Continue
        },
        Key::Tab => {
            app.next_panel();
            AppResult::Continue
        },
        Key::BackTab => {
            app.previous_panel();
            AppResult::Continue
        },
        Key::Enter => {
            app.show_confirm_dialog();
            AppResult::Continue
        },
        Key::Char('?') => {
            app.show_help();
            AppResult::Continue
        },
        _ => AppResult::Continue,
    }
}

fn handle_input_field(app: &mut App, key: Key) -> (res: AppResult)
    requires
        old(app)@.focused_panel != FocusedPanel::Files,
        key is Char ==> old(app)@.can_insert_char(),
        key is Backspace ==> old(app)@.can_delete_char(),
    ensures
        (final(app)@, res) == input_step(old(app)@, key),
{
    match key {
        Key::Esc => {
            app.focused_panel = FocusedPanel::Files;
            AppResult::Continue
        },
        Key::Tab => {
            app.next_panel();
            AppResult::Continue
        },
        Key::BackTab => {
            app.previous_panel();
            AppResult::Continue
        },
        Key::Char(c) => {
            app.insert_char(c);
            AppResult::Continue
        },
        Key::Backspace => {
            app.delete_char();
            AppResult::Continue
        },
        Key::Left => {
            app.cursor_left();
            AppResult::Continue
        },
        Key::Right => {
            app.cursor_right();
            AppResult::Continue
        },
        Key::Enter => {
            app.show_confirm_dialog();
            AppResult::Continue
        },
        Key::F(n) => {
            if n == 1 {
                app.show_help();
            }
            AppResult::Continue
        },
        _ => AppResult::Continue,
    }
}

/// Handle a key event and update the application state accordingly.
/// `RenameRequested` asks the caller to carry out the renames and to report
/// back with `App::execute_rename`.
pub fn handle_key_event(app: &mut App, key: KeyPress) -> (res: AppResult)
    requires
        key_allowed(old(app)@, key),
    ensures
        (final(app)@, res) == key_step(old(app)@, key),
{
    if key.control && key.key == Key::Char('c') {
        return AppResult::Quit;
    }
    match app.dialog_state {
        DialogState::Confirm => return handle_confirm_dialog(app, key.key),
        DialogState::Help => return handle_help_dialog(app, key.key),
        DialogState::Success | DialogState::Error => return handle_message_dialog(app, key.key),
        DialogState::Closed => {},
    }
    match app.focused_panel {
        FocusedPanel::Files => handle_files_panel(app, key.key),
        FocusedPanel::SearchField | FocusedPanel::ReplaceField => handle_input_field(app, key.key),
    }
}

/// Control+C quits from every state, dialogs included, and changes
/// nothing.
pub proof fn law_control_c_quits(s: AppState)
    ensures
        key_step(s, KeyPress { key: Key::Char('c'), control: true }) == (s, AppResult::Quit),
{
}

/// Escape leaves every dialog, and the help dialog and the messages
/// disappear with their texts.
pub proof fn law_escape_leaves_dialogs(s: AppState, control: bool)
    requires
        s.dialog_state != DialogState::Closed,
    ensures
        key_step(s, KeyPress { key: Key::Esc, control }).0 == s.after_close_dialog(),
        key_step(s, KeyPress { key: Key::Esc, control }).1 == AppResult::Continue,
{
}

/// A key pressed while a dialog is open never reaches the file list or the
/// text fields: only the dialog's own keys change anything, and then only
/// by closing it.
pub proof fn law_dialog_takes_keys(s: AppState, k: KeyPress)
    requires
        s.dialog_state != DialogState::Closed,
    ensures
        key_step(s, k).0 == s || key_step(s, k).0 == s.after_close_dialog(),
{
}

/// In the file list with no dialog open, Up and `k` move the selection to
/// the previous file (staying on the first), Down and `j` to the next one
/// (staying on the last); nothing else changes.
pub proof fn law_file_list_navigation(s: AppState, control: bool)
    requires
        s.dialog_state == DialogState::Closed,
        s.focused_panel == FocusedPanel::Files,
    ensures
        key_step(s, KeyPress { key: Key::Up, control }) == key_step(s, KeyPress { key: Key::Char('k'), control: false }),
        key_step(s, KeyPress { key: Key::Down, control }) == key_step(s, KeyPress { key: Key::Char('j'), control: false }),
        key_step(s, KeyPress { key: Key::Up, control }) == (
            AppState {
                selected_index: if s.selected_index > 0 { (s.selected_index - 1) as usize } else { s.selected_index },
                ..s
            },
            AppResult::Continue,
        ),
        key_step(s, KeyPress { key: Key::Down, control }) == (
            AppState {
                selected_index: if s.selected_index + 1 < s.files.len() {
                    (s.selected_index + 1) as usize
                } else {
                    s.selected_index
                },
                ..s
            },
            AppResult::Continue,
        ),
{
}

/// In the file list with no dialog open, `q` quits without changing
/// anything, `?` opens the help, and Space selects or deselects the current
/// file.
pub proof fn law_file_list_keys(s: AppState)
    requires
        s.dialog_state == DialogState::Closed,
        s.focused_panel == FocusedPanel::Files,
    ensures
        key_step(s, KeyPress { key: Key::Char('q'), control: false }) == (s, AppResult::Quit),
        key_step(s, KeyPress { key: Key::Char('?'), control: false }) == (
            AppState { dialog_state: DialogState::Help, ..s },
            AppResult::Continue,
        ),
        s.files.len() > 0 ==> key_step(s, KeyPress { key: Key::Char(' '), control: false }).0.selected_files
            == if s.selected_files.contains(s.selected_index) {
                s.selected_files.remove(s.selected_index)
            } else {
                s.selected_files.insert(s.selected_index)
            },
{
}

} // verus!
