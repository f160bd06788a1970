use std::path::PathBuf;

use rnm::app::App;
use rnm::entry::FileEntry;
use rnm::keys::{handle_key_event, Key, KeyPress};
use rnm::modes::{AppResult, DialogState, FocusedPanel, PrefixAction, RenameMode, SortOrder};

fn file(name: &str, size: u64) -> FileEntry {
    FileEntry {
        path: PathBuf::from(name),
        name: name.to_string(),
        is_dir: false,
        size,
        modified: None,
        extension: String::new(),
    }
}

fn sample_app() -> App {
    App::new(
        PathBuf::from("."),
        vec![file("a.txt", 30), file("b.txt", 10), file("c.txt", 20)],
    )
}

fn press(app: &mut App, key: Key) -> AppResult {
    handle_key_event(app, KeyPress { key, control: false })
}

#[test]
fn new_app_starts_empty() {
    let app = sample_app();
    assert_eq!(app.selected_index, 0);
    assert!(app.selected_files.is_empty());
    assert_eq!(app.focused_panel, FocusedPanel::Files);
    assert_eq!(app.search_input, "");
    assert_eq!(app.replace_input, "");
    assert!(app.previews.is_empty());
    assert_eq!(app.dialog_state, DialogState::Closed);
    assert_eq!(app.rename_mode, RenameMode::SearchReplace);
    assert_eq!(app.sort_order, SortOrder::Name);
    assert_eq!(app.prefix_action, PrefixAction::Add);
    assert_eq!(app.number_start, 1);
    assert_eq!(app.number_step, 1);
    assert!(app.regex_error.is_none());
}

#[test]
fn selection_moves_within_bounds() {
    let mut app = sample_app();
    app.select_previous();
    assert_eq!(app.selected_index, 0);
    app.select_next();
    app.select_next();
    app.select_next();
    assert_eq!(app.selected_index, 2);
    app.select_previous();
    assert_eq!(app.selected_index, 1);
}

#[test]
fn toggle_selection_twice_restores() {
    let mut app = sample_app();
    app.select_next();
    app.toggle_selection();
    assert!(app.selected_files.contains(&1));
    app.toggle_selection();
    assert!(app.selected_files.is_empty());
}

#[test]
fn select_all_then_clear() {
    let mut app = sample_app();
    app.select_all();
    assert_eq!(app.selected_files.len(), 3);
    app.select_all();
    assert!(app.selected_files.is_empty());
}

#[test]
fn panels_follow_the_mode() {
    let mut app = sample_app();
    app.next_panel();
    assert_eq!(app.focused_panel, FocusedPanel::SearchField);
    app.next_panel();
    assert_eq!(app.focused_panel, FocusedPanel::ReplaceField);
    app.next_panel();
    assert_eq!(app.focused_panel, FocusedPanel::Files);
    app.previous_panel();
    assert_eq!(app.focused_panel, FocusedPanel::ReplaceField);

    app.set_mode(RenameMode::Prefix);
    app.focused_panel = FocusedPanel::Files;
    app.next_panel();
    assert_eq!(app.focused_panel, FocusedPanel::SearchField);
    app.next_panel();
    assert_eq!(app.focused_panel, FocusedPanel::Files);

    app.set_mode(RenameMode::Uppercase);
    app.next_panel();
    assert_eq!(app.focused_panel, FocusedPanel::Files);
    app.previous_panel();
    assert_eq!(app.focused_panel, FocusedPanel::Files);
}

#[test]
fn typing_updates_previews() {
    let mut app = App::new(PathBuf::from("."), vec![file("IMG_001.jpg", 1)]);
    app.next_panel();
    for c in "IMG_".chars() {
        app.insert_char(c);
    }
    app.next_panel();
    for c in "photo_".chars() {
        app.insert_char(c);
    }
    assert_eq!(app.search_input, "IMG_");
    assert_eq!(app.search_cursor, 4);
    assert_eq!(app.replace_input, "photo_");
    assert_eq!(app.previews.len(), 1);
    assert_eq!(app.previews[0].new_name, "photo_001.jpg");
    assert!(app.has_changes());
}

#[test]
fn cursor_editing_in_the_middle() {
    let mut app = sample_app();
    app.next_panel();
    app.insert_char('a');
    app.insert_char('c');
    app.cursor_left();
    app.insert_char('b');
    assert_eq!(app.search_input, "abc");
    assert_eq!(app.search_cursor, 2);
    app.cursor_right();
    app.cursor_right();
    assert_eq!(app.search_cursor, 3);
    app.delete_char();
    assert_eq!(app.search_input, "ab");
    app.cursor_left();
    app.cursor_left();
    app.cursor_left();
    assert_eq!(app.search_cursor, 0);
    app.delete_char();
    assert_eq!(app.search_input, "ab");
}

#[test]
fn type_then_backspace_restores_the_field() {
    let mut app = sample_app();
    app.next_panel();
    app.insert_char('x');
    app.insert_char('z');
    app.cursor_left();
    let before = app.search_input.clone();
    let cursor = app.search_cursor;
    app.insert_char('ü');
    assert_eq!(app.search_cursor, cursor + 2);
    app.delete_char();
    assert_eq!(app.search_input, before);
    assert_eq!(app.search_cursor, cursor);
}

#[test]
fn cursor_moves_by_whole_characters() {
    let mut app = sample_app();
    app.next_panel();
    app.insert_char('ä');
    assert_eq!(app.search_cursor, 2);
    app.insert_char('€');
    assert_eq!(app.search_cursor, 5);
    app.insert_char('x');
    assert_eq!(app.search_input, "ä€x");
    assert_eq!(app.search_cursor, 6);
    app.cursor_left();
    assert_eq!(app.search_cursor, 5);
    app.cursor_left();
    assert_eq!(app.search_cursor, 2);
    app.cursor_left();
    assert_eq!(app.search_cursor, 0);
    app.cursor_right();
    assert_eq!(app.search_cursor, 2);
    app.insert_char('b');
    assert_eq!(app.search_input, "äb€x");
    app.cursor_right();
    assert_eq!(app.search_cursor, 6);
    app.delete_char();
    assert_eq!(app.search_input, "äbx");
    assert_eq!(app.search_cursor, 3);
    app.delete_char();
    app.delete_char();
    assert_eq!(app.search_input, "x");
    assert_eq!(app.search_cursor, 0);
}

#[test]
fn cycle_mode_fills_numbering_pattern() {
    let mut app = sample_app();
    app.cycle_mode();
    assert_eq!(app.rename_mode, RenameMode::Regex);
    app.cycle_mode();
    assert_eq!(app.rename_mode, RenameMode::Numbering);
    assert_eq!(app.search_input, "file_###");
    assert_eq!(app.search_cursor, 8);
    assert_eq!(app.previews[0].new_name, "file_001.txt");
    assert_eq!(app.previews[2].new_name, "file_003.txt");
}

#[test]
fn cycle_mode_without_input_focuses_files() {
    let mut app = sample_app();
    app.set_mode(RenameMode::DateInsert);
    app.focused_panel = FocusedPanel::SearchField;
    app.cycle_mode();
    assert_eq!(app.rename_mode, RenameMode::Uppercase);
    assert_eq!(app.focused_panel, FocusedPanel::Files);
    assert_eq!(app.previews[0].new_name, "A.txt");
}

#[test]
fn regex_error_is_recorded() {
    let mut app = sample_app();
    app.set_mode(RenameMode::Regex);
    app.set_search_replace("(".to_string(), "x".to_string());
    assert!(app.regex_error.as_deref().unwrap().contains("unclosed group"));
    assert!(app.previews.is_empty());
    app.set_search_replace("^(\\w)".to_string(), "$1$1".to_string());
    assert!(app.regex_error.is_none());
    assert_eq!(app.previews[0].new_name, "aa.txt");
}

#[test]
fn set_search_replace_moves_cursors_to_end() {
    let mut app = sample_app();
    app.set_search_replace("ä.".to_string(), "-".to_string());
    assert_eq!(app.search_cursor, 3);
    assert_eq!(app.replace_cursor, 1);
    assert_eq!(app.previews[0].new_name, "a.txt");
    app.set_search_replace(".".to_string(), "-".to_string());
    assert_eq!(app.previews[0].new_name, "a-txt");
}

#[test]
fn toggle_prefix_action_switches_and_back() {
    let mut app = App::new(PathBuf::from("."), vec![file("old_a.txt", 1)]);
    app.set_mode(RenameMode::Prefix);
    app.set_search_replace("old_".to_string(), String::new());
    assert_eq!(app.previews[0].new_name, "old_old_a.txt");
    app.toggle_prefix_action();
    assert_eq!(app.prefix_action, PrefixAction::Remove);
    assert_eq!(app.previews[0].new_name, "a.txt");
    app.toggle_prefix_action();
    assert_eq!(app.prefix_action, PrefixAction::Add);
}

#[test]
fn cycle_sort_reorders_and_clears_selection() {
    let mut app = sample_app();
    app.select_all();
    app.select_next();
    app.cycle_sort();
    assert_eq!(app.sort_order, SortOrder::NameDesc);
    assert_eq!(app.files[0].name, "c.txt");
    assert!(app.selected_files.is_empty());
    assert_eq!(app.selected_index, 0);
    app.cycle_sort();
    assert_eq!(app.sort_order, SortOrder::Size);
    let names: Vec<&str> = app.files.iter().map(|f| f.name.as_str()).collect();
    assert_eq!(names, vec!["b.txt", "c.txt", "a.txt"]);
    app.cycle_sort();
    let names: Vec<&str> = app.files.iter().map(|f| f.name.as_str()).collect();
    assert_eq!(names, vec!["a.txt", "c.txt", "b.txt"]);
}

#[test]
fn confirm_dialog_only_with_changes() {
    let mut app = sample_app();
    app.show_confirm_dialog();
    assert_eq!(app.dialog_state, DialogState::Closed);
    app.set_search_replace("a".to_string(), "z".to_string());
    app.show_confirm_dialog();
    assert_eq!(app.dialog_state, DialogState::Confirm);
}

#[test]
fn affected_files_are_the_changed_ones() {
    let mut app = sample_app();
    app.set_search_replace("b".to_string(), "x".to_string());
    let affected = app.get_affected_files();
    assert_eq!(affected.len(), 1);
    assert_eq!(affected[0].name, "b.txt");
}

#[test]
fn execute_rename_success_reloads() {
    let mut app = sample_app();
    app.set_search_replace("a".to_string(), "z".to_string());
    app.select_next();
    let res = app.execute_rename(Ok(1), Some(vec![file("z.txt", 1)]));
    assert_eq!(res, Ok(1));
    assert_eq!(app.last_rename_count, 1);
    assert_eq!(app.success_message.as_deref(), Some("1 Dateien erfolgreich umbenannt"));
    assert_eq!(app.dialog_state, DialogState::Success);
    assert_eq!(app.files.len(), 1);
    assert_eq!(app.search_input, "");
    assert_eq!(app.selected_index, 0);
    assert!(app.previews.is_empty());
}

#[test]
fn execute_rename_success_without_reload_keeps_files() {
    let mut app = sample_app();
    let res = app.execute_rename(Ok(12), None);
    assert_eq!(res, Ok(12));
    assert_eq!(app.success_message.as_deref(), Some("12 Dateien erfolgreich umbenannt"));
    assert_eq!(app.files.len(), 3);
}

#[test]
fn execute_rename_failure_shows_error() {
    let mut app = sample_app();
    let res = app.execute_rename(Err("kaputt".to_string()), None);
    assert_eq!(res, Err("kaputt".to_string()));
    assert_eq!(app.error_message.as_deref(), Some("kaputt"));
    assert_eq!(app.dialog_state, DialogState::Error);
    app.close_dialog();
    assert_eq!(app.dialog_state, DialogState::Closed);
    assert!(app.error_message.is_none());
    assert!(app.success_message.is_none());
}

#[test]
fn keys_in_file_list() {
    let mut app = sample_app();
    assert_eq!(press(&mut app, Key::Char('j')), AppResult::Continue);
    assert_eq!(app.selected_index, 1);
    press(&mut app, Key::Down);
    assert_eq!(app.selected_index, 2);
    press(&mut app, Key::Char('k'));
    assert_eq!(app.selected_index, 1);
    press(&mut app, Key::Char(' '));
    assert!(app.selected_files.contains(&1));
    press(&mut app, Key::Char('a'));
    assert_eq!(app.selected_files.len(), 3);
    press(&mut app, Key::Char('m'));
    assert_eq!(app.rename_mode, RenameMode::Regex);
    press(&mut app, Key::Char('s'));
    assert_eq!(app.sort_order, SortOrder::NameDesc);
    press(&mut app, Key::Char('?'));
    assert_eq!(app.dialog_state, DialogState::Help);
    press(&mut app, Key::Char('x'));
    assert_eq!(app.dialog_state, DialogState::Help);
    press(&mut app, Key::Esc);
    assert_eq!(app.dialog_state, DialogState::Closed);
    assert_eq!(press(&mut app, Key::Char('q')), AppResult::Quit);
}

#[test]
fn t_toggles_only_in_prefix_and_suffix() {
    let mut app = sample_app();
    press(&mut app, Key::Char('t'));
    assert_eq!(app.prefix_action, PrefixAction::Add);
    app.set_mode(RenameMode::Suffix);
    press(&mut app, Key::Char('t'));
    assert_eq!(app.prefix_action, PrefixAction::Remove);
}

#[test]
fn control_c_quits_in_the_help_dialog() {
    let mut app = sample_app();
    app.show_help();
    let r = handle_key_event(&mut app, KeyPress { key: Key::Char('c'), control: true });
    assert_eq!(r, AppResult::Quit);
    assert_eq!(app.dialog_state, DialogState::Help);
}

#[test]
fn control_c_quits_in_a_text_field() {
    let mut app = sample_app();
    app.next_panel();
    let r = handle_key_event(&mut app, KeyPress { key: Key::Char('c'), control: true });
    assert_eq!(r, AppResult::Quit);
    assert_eq!(app.search_input, "");
}

#[test]
fn keys_in_text_field() {
    let mut app = sample_app();
    press(&mut app, Key::Tab);
    assert_eq!(app.focused_panel, FocusedPanel::SearchField);
    press(&mut app, Key::Char('q'));
    press(&mut app, Key::Char('a'));
    assert_eq!(app.search_input, "qa");
    press(&mut app, Key::Left);
    press(&mut app, Key::Backspace);
    assert_eq!(app.search_input, "a");
    press(&mut app, Key::Right);
    press(&mut app, Key::F(1));
    assert_eq!(app.dialog_state, DialogState::Help);
    press(&mut app, Key::Enter);
    assert_eq!(app.dialog_state, DialogState::Closed);
    press(&mut app, Key::BackTab);
    assert_eq!(app.focused_panel, FocusedPanel::Files);
    press(&mut app, Key::Tab);
    press(&mut app, Key::Esc);
    assert_eq!(app.focused_panel, FocusedPanel::Files);
}

#[test]
fn confirm_dialog_keys() {
    let mut app = sample_app();
    app.set_search_replace("a".to_string(), "z".to_string());
    press(&mut app, Key::Enter);
    assert_eq!(app.dialog_state, DialogState::Confirm);
    assert_eq!(press(&mut app, Key::Char('y')), AppResult::RenameRequested);
    assert_eq!(app.dialog_state, DialogState::Confirm);
    assert_eq!(press(&mut app, Key::Char('n')), AppResult::Continue);
    assert_eq!(app.dialog_state, DialogState::Closed);
    press(&mut app, Key::Enter);
    assert_eq!(press(&mut app, Key::Enter), AppResult::RenameRequested);
    let r = handle_key_event(&mut app, KeyPress { key: Key::Char('c'), control: true });
    assert_eq!(r, AppResult::Quit);
    assert_eq!(app.dialog_state, DialogState::Confirm);
}

#[test]
fn message_dialog_keys() {
    let mut app = sample_app();
    app.execute_rename(Ok(2), None);
    press(&mut app, Key::Char('x'));
    assert_eq!(app.dialog_state, DialogState::Success);
    press(&mut app, Key::Enter);
    assert_eq!(app.dialog_state, DialogState::Closed);
    assert!(app.success_message.is_none());
}

#[test]
fn update_preview_twice_changes_nothing() {
    let mut app = sample_app();
    app.set_search_replace(".txt".to_string(), ".md".to_string());
    app.update_preview();
    let first: Vec<String> = app.previews.iter().map(|p| p.new_name.clone()).collect();
    app.update_preview();
    let second: Vec<String> = app.previews.iter().map(|p| p.new_name.clone()).collect();
    assert_eq!(first, second);
    assert_eq!(first, vec!["a.md", "b.md", "c.md"]);
}

#[test]
fn tab_and_shift_tab_undo_each_other() {
    let mut app = sample_app();
    for _ in 0..3 {
        let before = app.focused_panel;
        app.next_panel();
        app.previous_panel();
        assert_eq!(app.focused_panel, before);
        app.next_panel();
    }
    app.set_mode(RenameMode::Numbering);
    app.focused_panel = FocusedPanel::SearchField;
    app.previous_panel();
    app.next_panel();
    assert_eq!(app.focused_panel, FocusedPanel::SearchField);
}

#[test]
fn cursor_left_then_right_restores() {
    let mut app = sample_app();
    app.set_search_replace("abc".to_string(), String::new());
    app.focused_panel = FocusedPanel::SearchField;
    app.cursor_left();
    app.cursor_right();
    assert_eq!(app.search_cursor, 3);
}

#[test]
fn changes_exactly_when_files_are_affected() {
    let mut app = sample_app();
    app.set_search_replace("q".to_string(), "z".to_string());
    assert!(!app.has_changes());
    assert!(app.get_affected_files().is_empty());
    app.set_search_replace("c".to_string(), "z".to_string());
    assert!(app.has_changes());
    assert_eq!(app.get_affected_files().len(), 1);
}
