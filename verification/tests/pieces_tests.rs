use std::path::PathBuf;

use rnm::app::App;
use rnm::date::date_chars;
use rnm::entry::FileEntry;
use rnm::modes::{DatePosition, FocusedPanel, PrefixAction, RenameMode, SortOrder};
use rnm::panels::{help_entries, preview_panel, visible_start, PreviewPanel};
use rnm::text::{
    chars_of, compare_chars, decimal_string, find_ext_start, padded_decimal, replace_chars, string_of,
    title_chars,
};

fn file(name: &str) -> FileEntry {
    FileEntry {
        path: PathBuf::from(name),
        name: name.to_string(),
        is_dir: false,
        size: 0,
        modified: None,
        extension: String::new(),
    }
}

fn text(v: &[char]) -> String {
    v.iter().collect()
}

#[test]
fn mode_cycle_visits_eight_modes_and_returns() {
    let mut m = RenameMode::SearchReplace;
    let mut seen = Vec::new();
    for _ in 0..8 {
        seen.push(m.display_name());
        m = m.next();
    }
    assert_eq!(m, RenameMode::SearchReplace);
    assert_eq!(
        seen,
        vec![
            "Suchen/Ersetzen",
            "Regex",
            "Nummerierung",
            "Prefix",
            "Suffix",
            "GROSSBUCHSTABEN",
            "kleinbuchstaben",
            "Titel Schreibweise"
        ]
    );
    assert_eq!(RenameMode::Suffix.next(), RenameMode::Uppercase);
    assert_eq!(RenameMode::DateInsert.next(), RenameMode::Uppercase);
    assert_eq!(RenameMode::DateInsert.display_name(), "Datum einfuegen");
}

#[test]
fn sort_cycle_visits_all_seven_and_returns() {
    let mut s = SortOrder::Name;
    let mut seen = Vec::new();
    for _ in 0..7 {
        seen.push((s.display_name(), s.short_indicator()));
        s = s.next();
    }
    assert_eq!(s, SortOrder::Name);
    assert_eq!(seen[0], ("Name A-Z", "[A-Z]"));
    assert_eq!(seen[3], ("Groesse -", "[S-]"));
    assert_eq!(seen[6], ("Datum neu", "[D-]"));
}

#[test]
fn mode_fields() {
    assert!(RenameMode::Regex.uses_search_replace());
    assert!(!RenameMode::Prefix.uses_search_replace());
    assert!(RenameMode::Prefix.uses_input());
    assert!(RenameMode::Numbering.uses_input());
    assert!(!RenameMode::TitleCase.uses_input());
    assert!(!RenameMode::DateInsert.uses_input());
}

#[test]
fn prefix_action_toggles() {
    assert_eq!(PrefixAction::Add.toggle(), PrefixAction::Remove);
    assert_eq!(PrefixAction::Remove.toggle(), PrefixAction::Add);
    assert_eq!(PrefixAction::Add.toggle().toggle(), PrefixAction::Add);
    assert_eq!(PrefixAction::default(), PrefixAction::Add);
    assert_eq!(DatePosition::Replace.display_name(), "Ersetzen");
}

#[test]
fn scroll_window_keeps_selection_in_view() {
    assert_eq!(visible_start(5, 10, 3), 0);
    assert_eq!(visible_start(100, 10, 2), 0);
    assert_eq!(visible_start(100, 10, 50), 45);
    assert_eq!(visible_start(100, 10, 99), 90);
    assert_eq!(visible_start(100, 10, 95), 90);
}

#[test]
fn help_bar_hints() {
    let files = help_entries(FocusedPanel::Files, RenameMode::SearchReplace);
    assert_eq!(files.len(), 9);
    assert_eq!(files[0], ("j/k", "Nav"));
    assert_eq!(files[8], ("q", "Ende"));
    let prefix = help_entries(FocusedPanel::Files, RenameMode::Prefix);
    assert_eq!(prefix.len(), 10);
    assert_eq!(prefix[5], ("t", "Toggle"));
    let field = help_entries(FocusedPanel::SearchField, RenameMode::Regex);
    assert_eq!(field, vec![("Tab", "Naechstes"), ("Enter", "Ausfuehren"), ("Esc", "Zurueck"), ("F1", "Hilfe")]);
}

#[test]
fn preview_panel_messages() {
    let mut app = App::new(PathBuf::from("."), vec![file("a.txt")]);
    match preview_panel(&app) {
        PreviewPanel::Hint(h) => assert_eq!(h, "Gib einen Suchbegriff ein, um die Vorschau zu sehen"),
        other => panic!("unexpected {:?}", other),
    }
    app.set_search_replace("zz".to_string(), "y".to_string());
    assert!(matches!(preview_panel(&app), PreviewPanel::NoChanges));
    app.set_search_replace("a".to_string(), "y".to_string());
    assert!(matches!(preview_panel(&app), PreviewPanel::Changes));
    app.set_mode(RenameMode::Regex);
    app.set_search_replace("[".to_string(), "y".to_string());
    assert!(matches!(preview_panel(&app), PreviewPanel::RegexError));
    app.set_mode(RenameMode::Lowercase);
    assert!(matches!(preview_panel(&app), PreviewPanel::NoChanges));
}

#[test]
fn text_helpers() {
    let s = chars_of("abcabc");
    assert_eq!(text(&replace_chars(&s, &chars_of("bc"), &chars_of("X"))), "aXaX");
    assert_eq!(text(&replace_chars(&s, &chars_of("abc"), &chars_of(""))), "");
    assert_eq!(text(&replace_chars(&chars_of("aaa"), &chars_of("aa"), &chars_of("b"))), "ba");
    assert_eq!(string_of(&s), "abcabc");
    assert_eq!(compare_chars(&chars_of("abc"), &chars_of("abd")), -1);
    assert_eq!(compare_chars(&chars_of("abc"), &chars_of("ab")), 1);
    assert_eq!(compare_chars(&chars_of("ab"), &chars_of("ab")), 0);
    assert_eq!(find_ext_start(&chars_of("photo.tar.gz")), 9);
    assert_eq!(find_ext_start(&chars_of("README")), 6);
    assert_eq!(find_ext_start(&chars_of(".bashrc")), 7);
    assert_eq!(text(&title_chars(&chars_of("hello big-world"))), "Hello Big-World");
    assert_eq!(text(&padded_decimal(7, 3)), "007");
    assert_eq!(text(&padded_decimal(1234, 2)), "1234");
    assert_eq!(decimal_string(0), "0");
    assert_eq!(decimal_string(4096), "4096");
}

#[test]
fn dates_of_modification_times() {
    assert_eq!(date_chars(None), None);
    assert_eq!(text(&date_chars(Some(0)).unwrap()), "19700101");
    let day: i128 = 86_400_000_000_000;
    assert_eq!(text(&date_chars(Some(day * 19_723)).unwrap()), "20240101");
    assert_eq!(text(&date_chars(Some(day * 11_016 + 5)).unwrap()), "20000229");
    assert_eq!(text(&date_chars(Some(-1)).unwrap()), "19691231");
}
