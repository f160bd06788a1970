//! What the screen shows, decided apart from drawing it: the scroll window
//! of the file list, the key hints of the help bar and the message of the
//! preview panel.

use vstd::prelude::*;
use crate::app::{any_change, App};
use crate::modes::{FocusedPanel, RenameMode};

verus! {

/// The first visible line of a list of `total` lines shown `height` at a
/// time, keeping the line `selected` in view and centred where it can.
pub open spec fn scroll_start(total: int, height: int, selected: int) -> int {
    if total <= height {
        0
    } else if selected < height / 2 {
        0
    } else if selected > total - height / 2 {
        if total >= height { total - height } else { 0 }
    } else {
        if selected >= height / 2 { selected - height / 2 } else { 0 }
    }
}

/// The first visible line of the file list.
pub fn visible_start(total: usize, height: usize, selected: usize) -> (res: usize)
    ensures
        res == scroll_start(total as int, height as int, selected as int),
{
    if total <= height {
        0
    } else if selected < height / 2 {
        0
    } else if selected > total - height / 2 {
        total - height
    } else {
        selected - height / 2
    }
}

/// The key hints of the help bar: key and what it does.
pub open spec fn help_hints(panel: FocusedPanel, mode: RenameMode) -> Seq<(Seq<char>, Seq<char>)> {
    let toggles = mode == RenameMode::Prefix || mode == RenameMode::Suffix;
    match panel {
        FocusedPanel::Files => seq![("j/k"@, "Nav"@), ("Space"@, "Ausw"@), ("a"@, "Alle"@), ("m"@, "Modus"@), ("s"@, "Sort"@)]
            + (if toggles { seq![("t"@, "Toggle"@)] } else { seq![] })
            + seq![("Tab"@, "Feld"@), ("Enter"@, "Run"@), ("?"@, "Hilfe"@), ("q"@, "Ende"@)],
        _ => seq![("Tab"@, "Naechstes"@)]
            + (if toggles { seq![("t"@, "Toggle"@)] } else { seq![] })
            + seq![("Enter"@, "Ausfuehren"@), ("Esc"@, "Zurueck"@), ("F1"@, "Hilfe"@)],
    }
}

/// The key hints of the help bar for the focused panel and mode.
pub fn help_entries(panel: FocusedPanel, mode: RenameMode) -> (res: Vec<(&'static str, &'static str)>)
    ensures
        res@.map_values(|e: (&'static str, &'static str)| (e.0@, e.1@)) == help_hints(panel, mode),
{
    let toggles = mode == RenameMode::Prefix || mode == RenameMode::Suffix;
    let mut v: Vec<(&'static str, &'static str)> = Vec::new();
    match panel {
        FocusedPanel::Files => {
            v.push(("j/k", "Nav"));
            v.push(("Space", "Ausw"));
            v.push(("a", "Alle"));
            v.push(("m", "Modus"));
            v.push(("s", "Sort"));
            if toggles {
                v.push(("t", "Toggle"));
            }
            v.push(("Tab", "Feld"));
            v.push(("Enter", "Run"));
            v.push(("?", "Hilfe"));
            v.push(("q", "Ende"));
        },
        _ => {
            v.push(("Tab", "Naechstes"));
            if toggles {
                v.push(("t", "Toggle"));
            }
            v.push(("Enter", "Ausfuehren"));
            v.push(("Esc", "Zurueck"));
            v.push(("F1", "Hilfe"));
        },
    }
    assert(v@.map_values(|e: (&'static str, &'static str)| (e.0@, e.1@)) =~= help_hints(panel, mode));
    v
}

/// What the preview panel shows.
#[derive(Debug, Clone, Copy)]
pub enum PreviewPanel {
    /// The regex pattern was refused; its error is shown.
    RegexError,
    /// A hint to fill in the field the mode needs.
    Hint(&'static str),
    /// No name would change.
    NoChanges,
    /// The renames that would happen.
    Changes,
}

/// The hint for a mode whose field is empty.
pub open spec fn empty_field_hint(mode: RenameMode) -> Seq<char> {
    match mode {
        RenameMode::Regex => "Gib ein Regex-Muster ein (z.B. IMG_(\\d+) -> photo_$1)"@,
        RenameMode::SearchReplace => "Gib einen Suchbegriff ein, um die Vorschau zu sehen"@,
        RenameMode::Numbering => "Gib ein Muster ein (z.B. photo_###)"@,
        RenameMode::Prefix => "Gib einen Prefix ein"@,
        _ => "Gib einen Suffix ein"@,
    }
}

/// Decide what the preview panel shows: the regex error if there is one;
/// for a mode that reads the search field while it is empty, a hint;
/// otherwise whether some name changes.
pub fn preview_panel(app: &App) -> (res: PreviewPanel)
    ensures
        app@.regex_error is Some ==> res is RegexError,
        app@.regex_error is None && app@.rename_mode.spec_uses_input() && app@.search_input.len() == 0
            ==> (res matches PreviewPanel::Hint(h) && h@ == empty_field_hint(app@.rename_mode)),
        app@.regex_error is None && !(app@.rename_mode.spec_uses_input() && app@.search_input.len() == 0)
            ==> (if any_change(app@.previews) {
            res is Changes
        } else {
            res is NoChanges
        }),
{
    if app.regex_error.is_some() {
        return PreviewPanel::RegexError;
    }
    if app.rename_mode.uses_input() && app.search_input.as_str().is_empty() {
        let h = match app.rename_mode {
            RenameMode::Regex => "Gib ein Regex-Muster ein (z.B. IMG_(\\d+) -> photo_$1)",
            RenameMode::SearchReplace => "Gib einen Suchbegriff ein, um die Vorschau zu sehen",
            RenameMode::Numbering => "Gib ein Muster ein (z.B. photo_###)",
            RenameMode::Prefix => "Gib einen Prefix ein",
            _ => "Gib einen Suffix ein",
        };
        return PreviewPanel::Hint(h);
    }
    if app.has_changes() {
        PreviewPanel::Changes
    } else {
        PreviewPanel::NoChanges
    }
}

} // verus!
