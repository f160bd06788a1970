//! The interactive application state and every operation on it. Each
//! operation is stated as a step of the abstract state `AppState`.

use std::collections::HashSet;
use std::path::PathBuf;
use vstd::prelude::*;
use crate::entry::{sort_files, sorted_entries, FileEntry};
use crate::modes::{DatePosition, DialogState, FocusedPanel, PrefixAction, RenameMode, SortOrder};
use crate::operations::{views, PreviewView, RenamePreview};
use crate::rules::{generate_mode_previews, mode_previews, RenameSettings};
use crate::text::{decimal, decimal_string, owned};
use crate::utf8text::{
    at_char_boundary, byte_len, char_len_utf8, char_width, insert_at, inserted_at_byte,
    law_insert_then_remove, lemma_next_boundary, lemma_next_boundary_unique, lemma_prev_boundary,
    lemma_remove_keeps_boundary, next_boundary,
    next_boundary_of, prev_boundary, prev_boundary_of, remove_at, removed_at_byte, utf8_len,
};
use vstd::string::*;

verus! {

broadcast use vstd::std_specs::hash::group_hash_axioms;

/// Main application state.
pub struct App {
    /// Current working directory.
    pub directory: PathBuf,
    /// List of files in the directory.
    pub files: Vec<FileEntry>,
    /// Currently selected file index.
    pub selected_index: usize,
    /// Set of selected file indices for batch operations.
    pub selected_files: HashSet<usize>,
    /// Current focused panel.
    pub focused_panel: FocusedPanel,
    /// Search input field content (also used for pattern/prefix/suffix).
    pub search_input: String,
    /// Replace input field content.
    pub replace_input: String,
    /// Cursor position in the search field, in bytes.
    pub search_cursor: usize,
    /// Cursor position in the replace field, in bytes.
    pub replace_cursor: usize,
    /// Preview of rename operations.
    pub previews: Vec<RenamePreview>,
    /// Current dialog state.
    pub dialog_state: DialogState,
    /// Error message to display.
    pub error_message: Option<String>,
    /// Success message to display.
    pub success_message: Option<String>,
    /// Number of files renamed in the last operation.
    pub last_rename_count: usize,
    /// Current rename mode.
    pub rename_mode: RenameMode,
    /// Current sort order.
    pub sort_order: SortOrder,
    /// Action for prefix/suffix mode.
    pub prefix_action: PrefixAction,
    /// Starting number for numbering mode.
    pub number_start: usize,
    /// Step for numbering mode.
    pub number_step: usize,
    /// Where date insertion puts the date.
    pub date_position: DatePosition,
    /// Regex error message (if the pattern is invalid).
    pub regex_error: Option<String>,
}

/// The application state as plain values; the regex error is kept as the
/// text that the `regex` crate gave for the refused pattern.
pub struct AppState {
    pub directory: PathBuf,
    pub files: Seq<FileEntry>,
    pub selected_index: usize,
    pub selected_files: Set<usize>,
    pub focused_panel: FocusedPanel,
    pub search_input: Seq<char>,
    pub replace_input: Seq<char>,
    pub search_cursor: usize,
    pub replace_cursor: usize,
    pub previews: Seq<PreviewView>,
    pub dialog_state: DialogState,
    pub error_message: Option<Seq<char>>,
    pub success_message: Option<Seq<char>>,
    pub last_rename_count: usize,
    pub rename_mode: RenameMode,
    pub sort_order: SortOrder,
    pub prefix_action: PrefixAction,
    pub number_start: usize,
    pub number_step: usize,
    pub date_position: DatePosition,
    pub regex_error: Option<Seq<char>>,
}

pub open spec fn opt_view(o: Option<String>) -> Option<Seq<char>> {
    match o {
        Some(s) => Some(s@),
        None => None,
    }
}

impl View for App {
    type V = AppState;

    open spec fn view(&self) -> AppState {
        AppState {
            directory: self.directory,
            files: self.files@,
            selected_index: self.selected_index,
            selected_files: self.selected_files@,
            focused_panel: self.focused_panel,
            search_input: self.search_input@,
            replace_input: self.replace_input@,
            search_cursor: self.search_cursor,
            replace_cursor: self.replace_cursor,
            previews: views(self.previews@),
            dialog_state: self.dialog_state,
            error_message: opt_view(self.error_message),
            success_message: opt_view(self.success_message),
            last_rename_count: self.last_rename_count,
            rename_mode: self.rename_mode,
            sort_order: self.sort_order,
            prefix_action: self.prefix_action,
            number_start: self.number_start,
            number_step: self.number_step,
            date_position: self.date_position,
            regex_error: opt_view(self.regex_error),
        }
    }
}

/// Every index below `n`.
pub open spec fn all_indices(n: nat) -> Set<usize> {
    Set::new(|i: usize| i < n)
}


/// Some preview will change a name.
pub open spec fn any_change(p: Seq<PreviewView>) -> bool {
    exists|k: int| 0 <= k < p.len() && #[trigger] p[k].will_change
}

/// The position of the first file named `name`, if any.
pub open spec fn first_named(files: Seq<FileEntry>, name: Seq<char>) -> Option<int>
    decreases files.len(),
{
    if files.len() == 0 {
        None
    } else {
        match first_named(files.drop_last(), name) {
            Some(i) => Some(i),
            None => if files.last().name@ == name {
                Some(files.len() - 1)
            } else {
                None
            },
        }
    }
}

/// For the first `n` previews that will change, in order, the position of
/// the first file bearing the preview's original name (previews whose
/// name no file bears are left out).
pub open spec fn affected_positions(previews: Seq<PreviewView>, files: Seq<FileEntry>, n: int) -> Seq<int>
    decreases n,
{
    if n <= 0 {
        seq![]
    } else {
        affected_positions(previews, files, n - 1) + if previews[n - 1].will_change {
            match first_named(files, previews[n - 1].original_name) {
                Some(i) => seq![i],
                None => seq![],
            }
        } else {
            seq![]
        }
    }
}

proof fn lemma_boundary_in_range(s: Seq<char>, i: int)
    requires
        at_char_boundary(s, i),
    ensures
        0 <= i <= utf8_len(s),
{
    vstd::utf8::encode_utf8_valid_utf8(s);
}

fn find_file(files: &[FileEntry], name: &String) -> (r: Option<usize>)
    ensures
        match (r, first_named(files@, name@)) {
            (Some(i), Some(j)) => i == j,
            (None, None) => true,
            _ => false,
        },
{
    let n = files.len();
    let mut i: usize = 0;
    assert(files@.take(0) =~= Seq::<FileEntry>::empty());
    while i < n
        invariant
            i <= n,
            n == files@.len(),
            first_named(files@.take(i as int), name@) is None,
        decreases n - i,
    {
        assert(files@.take(i + 1).drop_last() =~= files@.take(i as int));
        if files[i].name == *name {
            proof {
                lemma_first_named_prefix(files@, name@, (i + 1) as int);
            }
            return Some(i);
        }
        i += 1;
    }
    assert(files@.take(n as int) =~= files@);
    None
}

proof fn lemma_first_named_bounds(files: Seq<FileEntry>, name: Seq<char>)
    ensures
        first_named(files, name) matches Some(i) ==> 0 <= i < files.len(),
    decreases files.len(),
{
    if files.len() > 0 {
        lemma_first_named_bounds(files.drop_last(), name);
    }
}

proof fn lemma_first_named_prefix(files: Seq<FileEntry>, name: Seq<char>, k: int)
    requires
        0 < k <= files.len(),
        first_named(files.take(k - 1), name) is None,
        files[k - 1].name@ == name,
    ensures
        first_named(files, name) == Some(k - 1),
    decreases files.len(),
{
    assert(files.take(k).drop_last() =~= files.take(k - 1));
    if k < files.len() {
        assert(files.drop_last().take(k) =~= files.take(k));
        assert(files.drop_last().take(k - 1) =~= files.take(k - 1));
        lemma_first_named_prefix(files.drop_last(), name, k);
    } else {
        assert(files.take(k) =~= files);
        assert(files.drop_last() =~= files.take(k - 1));
    }
}

impl AppState {
    /// The rename settings the previews are computed from.
    pub open spec fn settings(self) -> RenameSettings {
        RenameSettings {
            mode: self.rename_mode,
            search: self.search_input,
            replace: self.replace_input,
            action: self.prefix_action,
            start: self.number_start as nat,
            step: self.number_step as nat,
            date_position: self.date_position,
        }
    }

    pub open spec fn after_select_previous(self) -> AppState {
        if self.selected_index > 0 {
            AppState { selected_index: (self.selected_index - 1) as usize, ..self }
        } else {
            self
        }
    }

    pub open spec fn after_select_next(self) -> AppState {
        if self.selected_index + 1 < self.files.len() {
            AppState { selected_index: (self.selected_index + 1) as usize, ..self }
        } else {
            self
        }
    }

    pub open spec fn after_toggle_selection(self) -> AppState {
        if self.files.len() == 0 {
            self
        } else if self.selected_files.contains(self.selected_index) {
            AppState { selected_files: self.selected_files.remove(self.selected_index), ..self }
        } else {
            AppState { selected_files: self.selected_files.insert(self.selected_index), ..self }
        }
    }

    pub open spec fn after_select_all(self) -> AppState {
        if self.selected_files.len() == self.files.len() {
            AppState { selected_files: Set::empty(), ..self }
        } else {
            AppState { selected_files: all_indices(self.files.len()), ..self }
        }
    }

    /// The panel after `Tab`.
    pub open spec fn next_panel_of(self) -> FocusedPanel {
        match self.focused_panel {
            FocusedPanel::Files => if self.rename_mode.spec_uses_input() {
                FocusedPanel::SearchField
            } else {
                FocusedPanel::Files
            },
            FocusedPanel::SearchField => if self.rename_mode.spec_uses_search_replace() {
                FocusedPanel::ReplaceField
            } else {
                FocusedPanel::Files
            },
            FocusedPanel::ReplaceField => FocusedPanel::Files,
        }
    }

    /// The panel after `Shift+Tab`.
    pub open spec fn previous_panel_of(self) -> FocusedPanel {
        match self.focused_panel {
            FocusedPanel::Files => if self.rename_mode.spec_uses_search_replace() {
                FocusedPanel::ReplaceField
            } else if self.rename_mode.spec_uses_input() {
                FocusedPanel::SearchField
            } else {
                FocusedPanel::Files
            },
            FocusedPanel::SearchField => FocusedPanel::Files,
            FocusedPanel::ReplaceField => FocusedPanel::SearchField,
        }
    }

    pub open spec fn after_next_panel(self) -> AppState {
        AppState { focused_panel: self.next_panel_of(), ..self }
    }

    pub open spec fn after_previous_panel(self) -> AppState {
        AppState { focused_panel: self.previous_panel_of(), ..self }
    }

    /// The previews recomputed from the current files, selection and
    /// settings; on a refused regex, no previews and the error text kept.
    pub open spec fn after_update_preview(self) -> AppState {
        match mode_previews(self.files, self.selected_files, self.settings()) {
            Ok(p) => AppState { previews: p, regex_error: None, ..self },
            Err(m) => AppState { previews: seq![], regex_error: Some(m), ..self },
        }
    }

    pub open spec fn after_apply_sort(self) -> AppState {
        AppState {
            files: sorted_entries(self.files, self.sort_order),
            selected_files: Set::empty(),
            selected_index: 0,
            ..self
        }.after_update_preview()
    }

    pub open spec fn after_cycle_sort(self) -> AppState {
        AppState { sort_order: self.sort_order.spec_next(), ..self }.after_apply_sort()
    }

    pub open spec fn after_toggle_prefix_action(self) -> AppState {
        AppState { prefix_action: self.prefix_action.spec_toggle(), ..self }.after_update_preview()
    }

    pub open spec fn after_set_mode(self, mode: RenameMode) -> AppState {
        AppState {
            rename_mode: mode,
            focused_panel: if mode.spec_uses_input() {
                self.focused_panel
            } else {
                FocusedPanel::Files
            },
            ..self
        }.after_update_preview()
    }

    pub open spec fn after_cycle_mode(self) -> AppState {
        let mode = self.rename_mode.spec_next();
        let focus = if mode.spec_uses_input() {
            self.focused_panel
        } else {
            FocusedPanel::Files
        };
        let fill = mode == RenameMode::Numbering && self.search_input.len() == 0;
        AppState {
            rename_mode: mode,
            focused_panel: focus,
            regex_error: None,
            search_input: if fill {
                "file_###"@
            } else {
                self.search_input
            },
            search_cursor: if fill {
                8
            } else {
                self.search_cursor
            },
            ..self
        }.after_update_preview()
    }


    /// Whether a typed character can go in: in a text field the cursor
    /// must sit between two characters (`String::insert` panics otherwise).
    pub open spec fn can_insert_char(self) -> bool {
        match self.focused_panel {
            FocusedPanel::SearchField => at_char_boundary(self.search_input, self.search_cursor as int)
                && utf8_len(self.search_input) + 4 <= isize::MAX,
            FocusedPanel::ReplaceField => at_char_boundary(
                self.replace_input,
                self.replace_cursor as int,
            ) && utf8_len(self.replace_input) + 4 <= isize::MAX,
            FocusedPanel::Files => true,
        }
    }

    /// Whether Backspace can take a character out: the cursor must not lie
    /// beyond the end of the text (`String::remove` panics otherwise).
    pub open spec fn can_delete_char(self) -> bool {
        match self.focused_panel {
            FocusedPanel::SearchField => self.search_cursor > 0 ==> self.search_cursor <= utf8_len(
                self.search_input,
            ),
            FocusedPanel::ReplaceField => self.replace_cursor > 0 ==> self.replace_cursor
                <= utf8_len(self.replace_input),
            FocusedPanel::Files => true,
        }
    }

    pub open spec fn after_insert_char(self, c: char) -> AppState {
        match self.focused_panel {
            FocusedPanel::SearchField => AppState {
                search_input: inserted_at_byte(self.search_input, self.search_cursor as int, c),
                search_cursor: (self.search_cursor + char_width(c)) as usize,
                ..self
            },
            FocusedPanel::ReplaceField => AppState {
                replace_input: inserted_at_byte(self.replace_input, self.replace_cursor as int, c),
                replace_cursor: (self.replace_cursor + char_width(c)) as usize,
                ..self
            },
            FocusedPanel::Files => self,
        }.after_update_preview()
    }

    pub open spec fn after_delete_char(self) -> AppState {
        match self.focused_panel {
            FocusedPanel::SearchField => if self.search_cursor > 0 {
                AppState {
                    search_input: removed_at_byte(
                        self.search_input,
                        prev_boundary(self.search_input, self.search_cursor as int),
                    ),
                    search_cursor: prev_boundary(self.search_input, self.search_cursor as int) as usize,
                    ..self
                }
            } else {
                self
            },
            FocusedPanel::ReplaceField => if self.replace_cursor > 0 {
                AppState {
                    replace_input: removed_at_byte(
                        self.replace_input,
                        prev_boundary(self.replace_input, self.replace_cursor as int),
                    ),
                    replace_cursor: prev_boundary(self.replace_input, self.replace_cursor as int) as usize,
                    ..self
                }
            } else {
                self
            },
            FocusedPanel::Files => self,
        }.after_update_preview()
    }

    pub open spec fn after_cursor_left(self) -> AppState {
        match self.focused_panel {
            FocusedPanel::SearchField => if self.search_cursor > 0 {
                AppState {
                    search_cursor: prev_boundary(self.search_input, self.search_cursor as int) as usize,
                    ..self
                }
            } else {
                self
            },
            FocusedPanel::ReplaceField => if self.replace_cursor > 0 {
                AppState {
                    replace_cursor: prev_boundary(self.replace_input, self.replace_cursor as int) as usize,
                    ..self
                }
            } else {
                self
            },
            FocusedPanel::Files => self,
        }
    }

    pub open spec fn after_cursor_right(self) -> AppState {
        match self.focused_panel {
            FocusedPanel::SearchField => if self.search_cursor < utf8_len(self.search_input) {
                AppState {
                    search_cursor: next_boundary(self.search_input, self.search_cursor as int) as usize,
                    ..self
                }
            } else {
                self
            },
            FocusedPanel::ReplaceField => if self.replace_cursor < utf8_len(self.replace_input) {
                AppState {
                    replace_cursor: next_boundary(self.replace_input, self.replace_cursor as int) as usize,
                    ..self
                }
            } else {
                self
            },
            FocusedPanel::Files => self,
        }
    }

    pub open spec fn after_set_search_replace(self, search: Seq<char>, replace: Seq<char>) -> AppState {
        AppState {
            search_input: search,
            replace_input: replace,
            search_cursor: utf8_len(search) as usize,
            replace_cursor: utf8_len(replace) as usize,
            ..self
        }.after_update_preview()
    }

    /// The state after the renames of a batch were carried out (or
    /// refused) on disk; `reloaded` is the file list read back afterwards,
    /// if reading it succeeded.
    pub open spec fn after_execute_rename(
        self,
        outcome: Result<usize, Seq<char>>,
        reloaded: Option<Seq<FileEntry>>,
    ) -> AppState {
        match outcome {
            Ok(count) => {
                let s = AppState {
                    last_rename_count: count,
                    success_message: Some(decimal(count as nat) + " Dateien erfolgreich umbenannt"@),
                    dialog_state: DialogState::Success,
                    ..self
                };
                match reloaded {
                    Some(fs) => AppState {
                        files: fs,
                        selected_files: Set::empty(),
                        selected_index: 0,
                        search_input: Seq::empty(),
                        replace_input: Seq::empty(),
                        search_cursor: 0,
                        replace_cursor: 0,
                        previews: Seq::empty(),
                        ..s
                    },
                    None => s,
                }
            },
            Err(m) => AppState { error_message: Some(m), dialog_state: DialogState::Error, ..self },
        }
    }

    pub open spec fn after_show_confirm_dialog(self) -> AppState {
        let s = self.after_update_preview();
        if any_change(s.previews) {
            AppState { dialog_state: DialogState::Confirm, ..s }
        } else {
            s
        }
    }

    pub open spec fn after_show_help(self) -> AppState {
        AppState { dialog_state: DialogState::Help, ..self }
    }

    pub open spec fn after_close_dialog(self) -> AppState {
        AppState { dialog_state: DialogState::Closed, error_message: None, success_message: None, ..self }
    }
}

/// The panel the focus may rest on in a mode: a text field only when the
/// mode uses it.
pub open spec fn panel_fits_mode(p: FocusedPanel, m: RenameMode) -> bool {
    match p {
        FocusedPanel::Files => true,
        FocusedPanel::SearchField => m.spec_uses_input(),
        FocusedPanel::ReplaceField => m.spec_uses_search_replace(),
    }
}

proof fn lemma_affected_nonempty(previews: Seq<PreviewView>, files: Seq<FileEntry>, n: int)
    requires
        0 <= n <= previews.len(),
        forall|k: int| 0 <= k < n ==> first_named(files, (#[trigger] previews[k]).original_name) is Some,
    ensures
        affected_positions(previews, files, n).len() > 0 <==> exists|k: int| 0 <= k < n
            && #[trigger] previews[k].will_change,
    decreases n,
{
    if n > 0 {
        lemma_affected_nonempty(previews, files, n - 1);
        if exists|k: int| 0 <= k < n && #[trigger] previews[k].will_change {
            let k = choose|k: int| 0 <= k < n && #[trigger] previews[k].will_change;
            if k < n - 1 {
                assert(exists|j: int| 0 <= j < n - 1 && #[trigger] previews[j].will_change);
            }
        }
        if exists|k: int| 0 <= k < n - 1 && #[trigger] previews[k].will_change {
            let k = choose|k: int| 0 <= k < n - 1 && #[trigger] previews[k].will_change;
            assert(0 <= k < n && previews[k].will_change);
        }
        if previews[n - 1].will_change {
            assert(first_named(files, previews[n - 1].original_name) is Some);
        }
    }
}

/// When every preview names a file of the list, some name will change
/// (`has_changes`) exactly when some file is affected
/// (`get_affected_files` is not empty).
pub proof fn law_changes_iff_affected(s: AppState)
    requires
        forall|k: int| 0 <= k < s.previews.len() ==> first_named(
            s.files,
            (#[trigger] s.previews[k]).original_name,
        ) is Some,
    ensures
        any_change(s.previews) <==> affected_positions(s.previews, s.files, s.previews.len() as int).len() > 0,
{
    lemma_affected_nonempty(s.previews, s.files, s.previews.len() as int);
}

/// `Shift+Tab` undoes `Tab` and `Tab` undoes `Shift+Tab`, on every panel
/// the mode lets the focus rest on; both keep the focus on such a panel.
pub proof fn law_panel_cycle_inverse(s: AppState)
    requires
        panel_fits_mode(s.focused_panel, s.rename_mode),
    ensures
        s.after_next_panel().after_previous_panel() == s,
        s.after_previous_panel().after_next_panel() == s,
        panel_fits_mode(s.after_next_panel().focused_panel, s.rename_mode),
        panel_fits_mode(s.after_previous_panel().focused_panel, s.rename_mode),
{
}

/// Toggling the selection of the current file twice gives back the
/// selection.
pub proof fn law_toggle_selection_twice(s: AppState)
    ensures
        s.after_toggle_selection().after_toggle_selection() == s,
{
    if s.files.len() > 0 {
        if s.selected_files.contains(s.selected_index) {
            assert(s.selected_files.remove(s.selected_index).insert(s.selected_index) =~= s.selected_files);
        } else {
            assert(s.selected_files.insert(s.selected_index).remove(s.selected_index) =~= s.selected_files);
        }
    }
}

/// `a` on a list where not every file is selected selects them all; `a`
/// again deselects them all.
pub proof fn law_select_all_then_clear(s: AppState)
    requires
        s.selected_files.len() != s.files.len(),
        s.files.len() <= usize::MAX,
    ensures
        s.after_select_all().selected_files == all_indices(s.files.len()),
        s.after_select_all().after_select_all().selected_files == Set::<usize>::empty(),
{
    lemma_all_indices_len(s.files.len());
}

proof fn lemma_all_indices_len(n: nat)
    requires
        n <= usize::MAX,
    ensures
        all_indices(n).len() == n,
        all_indices(n).finite(),
    decreases n,
{
    if n == 0 {
        assert(all_indices(0) =~= Set::<usize>::empty());
    } else {
        lemma_all_indices_len((n - 1) as nat);
        assert(all_indices(n) =~= all_indices((n - 1) as nat).insert((n - 1) as usize));
    }
}

/// Recomputing the previews a second time changes nothing.
pub proof fn law_update_preview_idempotent(s: AppState)
    ensures
        s.after_update_preview().after_update_preview() == s.after_update_preview(),
{
}

/// Toggling the prefix/suffix action twice gives back the state with its
/// previews recomputed.
pub proof fn law_toggle_prefix_action_twice(s: AppState)
    ensures
        s.after_toggle_prefix_action().after_toggle_prefix_action() == s.after_update_preview(),
{
}

/// The cursor of the focused text field sits between two characters (or
/// at an end).
pub open spec fn cursor_on_boundary(s: AppState) -> bool {
    match s.focused_panel {
        FocusedPanel::SearchField => at_char_boundary(s.search_input, s.search_cursor as int),
        FocusedPanel::ReplaceField => at_char_boundary(s.replace_input, s.replace_cursor as int),
        FocusedPanel::Files => true,
    }
}

/// Moving the cursor one character left and then one right gives back the
/// cursor, inside a text field.
pub proof fn law_cursor_left_right(s: AppState)
    requires
        cursor_on_boundary(s),
        s.focused_panel == FocusedPanel::SearchField ==> 0 < s.search_cursor <= utf8_len(s.search_input),
        s.focused_panel == FocusedPanel::ReplaceField ==> 0 < s.replace_cursor <= utf8_len(s.replace_input),
    ensures
        s.after_cursor_left().after_cursor_right() == s,
{
    if s.focused_panel == FocusedPanel::SearchField {
        let t = s.search_input;
        let k = s.search_cursor as int;
        lemma_prev_boundary(t, k);
        lemma_next_boundary_unique(t, prev_boundary(t, k), k);
    } else if s.focused_panel == FocusedPanel::ReplaceField {
        let t = s.replace_input;
        let k = s.replace_cursor as int;
        lemma_prev_boundary(t, k);
        lemma_next_boundary_unique(t, prev_boundary(t, k), k);
    }
}

/// Typing, deleting and moving the cursor keep a cursor that sits between
/// two characters there: the cursor never ends up inside a character.
pub proof fn law_cursor_stays_on_boundary(s: AppState, c: char)
    requires
        cursor_on_boundary(s),
        utf8_len(s.search_input) <= usize::MAX,
        utf8_len(s.replace_input) <= usize::MAX,
    ensures
        s.can_insert_char() ==> cursor_on_boundary(s.after_insert_char(c)),
        s.can_delete_char() ==> cursor_on_boundary(s.after_delete_char()),
        cursor_on_boundary(s.after_cursor_left()),
        cursor_on_boundary(s.after_cursor_right()),
{
    if s.focused_panel == FocusedPanel::SearchField {
        let t = s.search_input;
        let k = s.search_cursor as int;
        law_insert_then_remove(t, k, c);
        lemma_boundary_in_range(t, k);
        if k > 0 {
            lemma_prev_boundary(t, k);
            if k <= utf8_len(t) {
                lemma_remove_keeps_boundary(t, prev_boundary(t, k));
            }
        }
        if k < utf8_len(t) {
            lemma_next_boundary(t, k);
        }
    } else if s.focused_panel == FocusedPanel::ReplaceField {
        let t = s.replace_input;
        let k = s.replace_cursor as int;
        law_insert_then_remove(t, k, c);
        lemma_boundary_in_range(t, k);
        if k > 0 {
            lemma_prev_boundary(t, k);
            if k <= utf8_len(t) {
                lemma_remove_keeps_boundary(t, prev_boundary(t, k));
            }
        }
        if k < utf8_len(t) {
            lemma_next_boundary(t, k);
        }
    }
}

/// Closing a dialog leaves no dialog and no message.
pub proof fn law_close_dialog(s: AppState)
    ensures
        s.after_close_dialog().dialog_state == DialogState::Closed,
        s.after_close_dialog().error_message is None,
        s.after_close_dialog().success_message is None,
{
}

/// Typing a character into a text field and pressing Backspace gives
/// back the field and its cursor; only the previews are recomputed.
pub proof fn law_type_then_backspace(s: AppState, c: char)
    requires
        s.focused_panel != FocusedPanel::Files,
        s.can_insert_char(),
    ensures
        s.after_insert_char(c).can_delete_char(),
        s.after_insert_char(c).after_delete_char() == s.after_update_preview(),
{
    if s.focused_panel == FocusedPanel::SearchField {
        law_insert_then_remove(s.search_input, s.search_cursor as int, c);
        lemma_boundary_in_range(s.search_input, s.search_cursor as int);
    } else {
        law_insert_then_remove(s.replace_input, s.replace_cursor as int, c);
        lemma_boundary_in_range(s.replace_input, s.replace_cursor as int);
    }
}

impl App {
    /// A fresh application over `files` (already loaded and ordered by
    /// name) in `directory`.
    pub fn new(directory: PathBuf, files: Vec<FileEntry>) -> (app: App)
        ensures
            app@ == (AppState {
                directory,
                files: files@,
                selected_index: 0,
                selected_files: Set::empty(),
                focused_panel: FocusedPanel::Files,
                search_input: Seq::empty(),
                replace_input: Seq::empty(),
                search_cursor: 0,
                replace_cursor: 0,
                previews: Seq::empty(),
                dialog_state: DialogState::Closed,
                error_message: None,
                success_message: None,
                last_rename_count: 0,
                rename_mode: RenameMode::SearchReplace,
                sort_order: SortOrder::Name,
                prefix_action: PrefixAction::Add,
                number_start: 1,
                number_step: 1,
                date_position: DatePosition::Prefix,
                regex_error: None,
            }),
    {
        let app = App {
            directory,
            files,
            selected_index: 0,
            selected_files: HashSet::new(),
            focused_panel: FocusedPanel::Files,
            search_input: String::new(),
            replace_input: String::new(),
            search_cursor: 0,
            replace_cursor: 0,
            previews: Vec::new(),
            dialog_state: DialogState::Closed,
            error_message: None,
            success_message: None,
            last_rename_count: 0,
            rename_mode: RenameMode::SearchReplace,
            sort_order: SortOrder::Name,
            prefix_action: PrefixAction::Add,
            number_start: 1,
            number_step: 1,
            date_position: DatePosition::Prefix,
            regex_error: None,
        };
        assert(views(app.previews@) =~= Seq::<PreviewView>::empty());
        app
    }

    /// Move selection up.
    pub fn select_previous(&mut self)
        ensures
            final(self)@ == old(self)@.after_select_previous(),
    {
        if self.selected_index > 0 {
            self.selected_index -= 1;
        }
    }

    /// Move selection down.
    pub fn select_next(&mut self)
        ensures
            final(self)@ == old(self)@.after_select_next(),
    {
        let last = if self.files.len() > 0 { self.files.len() - 1 } else { 0 };
        if self.selected_index < last {
            self.selected_index += 1;
        }
    }

    /// Toggle selection of the current file.
    pub fn toggle_selection(&mut self)
        ensures
            final(self)@ == old(self)@.after_toggle_selection(),
    {
        if self.files.len() == 0 {
            return;
        }
        let idx = self.selected_index;
        if self.selected_files.contains(&idx) {
            self.selected_files.remove(&idx);
        } else {
            self.selected_files.insert(idx);
        }
    }

    /// Select all files, or deselect all when all are selected.
    pub fn select_all(&mut self)
        ensures
            final(self)@ == old(self)@.after_select_all(),
    {
        let n = self.files.len();
        if self.selected_files.len() == n {
            self.selected_files.clear();
        } else {
            let mut all: HashSet<usize> = HashSet::new();
            for i in 0..n
                invariant
                    all@ == Set::new(|k: usize| k < i),
            {
                all.insert(i);
                assert(all@ =~= Set::new(|k: usize| k < i + 1));
            }
            self.selected_files = all;
            assert(self.selected_files@ =~= all_indices(n as nat));
        }
    }

    /// Switch to the next panel.
    pub fn next_panel(&mut self)
        ensures
            final(self)@ == old(self)@.after_next_panel(),
    {
        self.focused_panel = match self.focused_panel {
            FocusedPanel::Files => {
                if self.rename_mode.uses_input() {
                    FocusedPanel::SearchField
                } else {
                    FocusedPanel::Files
                }
            },
            FocusedPanel::SearchField => {
                if self.rename_mode.uses_search_replace() {
                    FocusedPanel::ReplaceField
                } else {
                    FocusedPanel::Files
                }
            },
            FocusedPanel::ReplaceField => FocusedPanel::Files,
        };
    }

    /// Switch to the previous panel.
    pub fn previous_panel(&mut self)
        ensures
            final(self)@ == old(self)@.after_previous_panel(),
    {
        self.focused_panel = match self.focused_panel {
            FocusedPanel::Files => {
                if self.rename_mode.uses_search_replace() {
                    FocusedPanel::ReplaceField
                } else if self.rename_mode.uses_input() {
                    FocusedPanel::SearchField
                } else {
                    FocusedPanel::Files
                }
            },
            FocusedPanel::SearchField => FocusedPanel::Files,
            FocusedPanel::ReplaceField => FocusedPanel::SearchField,
        };
    }

    /// Update the previews from the current files, selection and settings.
    pub fn update_preview(&mut self)
        ensures
            final(self)@ == old(self)@.after_update_preview(),
    {
        let result = generate_mode_previews(
            self.files.as_slice(),
            &self.selected_files,
            self.search_input.as_str(),
            self.replace_input.as_str(),
            self.rename_mode,
            self.prefix_action,
            self.number_start,
            self.number_step,
            self.date_position,
        );
        assert(self@.settings() == (RenameSettings {
            mode: self.rename_mode,
            search: self.search_input@,
            replace: self.replace_input@,
            action: self.prefix_action,
            start: self.number_start as nat,
            step: self.number_step as nat,
            date_position: self.date_position,
        }));
        match result {
            Ok(previews) => {
                self.previews = previews;
                self.regex_error = None;
            },
            Err(e) => {
                self.previews = Vec::new();
                self.regex_error = Some(e);
                assert(views(self.previews@) =~= Seq::<PreviewView>::empty());
            },
        }
    }

    /// Toggle the prefix/suffix action (add/remove).
    pub fn toggle_prefix_action(&mut self)
        ensures
            final(self)@ == old(self)@.after_toggle_prefix_action(),
    {
        self.prefix_action = self.prefix_action.toggle();
        self.update_preview();
    }

    /// Apply the current sort order to the files; the selection is reset.
    pub fn apply_sort(&mut self)
        ensures
            final(self)@ == old(self)@.after_apply_sort(),
    {
        sort_files(&mut self.files, self.sort_order);
        self.selected_files.clear();
        self.selected_index = 0;
        self.update_preview();
    }

    /// Cycle to the next sort order.
    pub fn cycle_sort(&mut self)
        ensures
            final(self)@ == old(self)@.after_cycle_sort(),
    {
        self.sort_order = self.sort_order.next();
        self.apply_sort();
    }

    /// Set the rename mode directly.
    pub fn set_mode(&mut self, mode: RenameMode)
        ensures
            final(self)@ == old(self)@.after_set_mode(mode),
    {
        self.rename_mode = mode;
        if !mode.uses_input() {
            self.focused_panel = FocusedPanel::Files;
        }
        self.update_preview();
    }

    /// Cycle to the next rename mode. A mode without input fields moves
    /// the focus to the file list; numbering starts from `file_###` when
    /// the field is empty.
    pub fn cycle_mode(&mut self)
        ensures
            final(self)@ == old(self)@.after_cycle_mode(),
    {
        self.rename_mode = self.rename_mode.next();
        if !self.rename_mode.uses_input() {
            self.focused_panel = FocusedPanel::Files;
        }
        self.regex_error = None;
        if self.rename_mode == RenameMode::Numbering && self.search_input.as_str().is_empty() {
            self.search_input = crate::text::owned("file_###");
            self.search_cursor = byte_len(&self.search_input);
            proof {
                reveal_strlit("file_###");
                assert(vstd::utf8::encode_utf8("file_###"@).len() == 8) by {
                    reveal_with_fuel(vstd::utf8::encode_utf8, 9);
                }
            }
        }
        self.update_preview();
    }


    /// Insert a character at the cursor of the focused text field; the
    /// cursor moves past it.
    pub fn insert_char(&mut self, c: char)
        requires
            old(self)@.can_insert_char(),
        ensures
            final(self)@ == old(self)@.after_insert_char(c),
    {
        let w = char_len_utf8(c);
        match self.focused_panel {
            FocusedPanel::SearchField => {
                proof {
                    lemma_boundary_in_range(self.search_input@, self.search_cursor as int);
                }
                let ghost before = self.search_input@;
                insert_at(&mut self.search_input, self.search_cursor, c);
                proof {
                    vstd::utf8::encode_utf8_decode_utf8(self.search_input@);
                }
                assert(self.search_input@ == inserted_at_byte(before, self.search_cursor as int, c));
                self.search_cursor += w;
            },
            FocusedPanel::ReplaceField => {
                proof {
                    lemma_boundary_in_range(self.replace_input@, self.replace_cursor as int);
                }
                let ghost before = self.replace_input@;
                insert_at(&mut self.replace_input, self.replace_cursor, c);
                proof {
                    vstd::utf8::encode_utf8_decode_utf8(self.replace_input@);
                }
                assert(self.replace_input@ == inserted_at_byte(before, self.replace_cursor as int, c));
                self.replace_cursor += w;
            },
            FocusedPanel::Files => {},
        }
        self.update_preview();
    }

    /// Delete the character before the cursor of the focused text field;
    /// the cursor moves to where it started.
    pub fn delete_char(&mut self)
        requires
            old(self)@.can_delete_char(),
        ensures
            final(self)@ == old(self)@.after_delete_char(),
    {
        match self.focused_panel {
            FocusedPanel::SearchField => {
                if self.search_cursor > 0 {
                    let p = prev_boundary_of(&self.search_input, self.search_cursor);
                    proof {
                        lemma_prev_boundary(self.search_input@, self.search_cursor as int);
                    }
                    let ghost before = self.search_input@;
                    remove_at(&mut self.search_input, p);
                    proof {
                        vstd::utf8::encode_utf8_decode_utf8(self.search_input@);
                    }
                    assert(self.search_input@ == removed_at_byte(before, p as int));
                    self.search_cursor = p;
                }
            },
            FocusedPanel::ReplaceField => {
                if self.replace_cursor > 0 {
                    let p = prev_boundary_of(&self.replace_input, self.replace_cursor);
                    proof {
                        lemma_prev_boundary(self.replace_input@, self.replace_cursor as int);
                    }
                    let ghost before = self.replace_input@;
                    remove_at(&mut self.replace_input, p);
                    proof {
                        vstd::utf8::encode_utf8_decode_utf8(self.replace_input@);
                    }
                    assert(self.replace_input@ == removed_at_byte(before, p as int));
                    self.replace_cursor = p;
                }
            },
            FocusedPanel::Files => {},
        }
        self.update_preview();
    }

    /// Move the cursor of the focused text field one character left.
    pub fn cursor_left(&mut self)
        ensures
            final(self)@ == old(self)@.after_cursor_left(),
    {
        match self.focused_panel {
            FocusedPanel::SearchField => {
                if self.search_cursor > 0 {
                    self.search_cursor = prev_boundary_of(&self.search_input, self.search_cursor);
                }
            },
            FocusedPanel::ReplaceField => {
                if self.replace_cursor > 0 {
                    self.replace_cursor = prev_boundary_of(&self.replace_input, self.replace_cursor);
                }
            },
            FocusedPanel::Files => {},
        }
    }

    /// Move the cursor of the focused text field one character right, up
    /// to the end.
    pub fn cursor_right(&mut self)
        ensures
            final(self)@ == old(self)@.after_cursor_right(),
    {
        match self.focused_panel {
            FocusedPanel::SearchField => {
                if self.search_cursor < byte_len(&self.search_input) {
                    self.search_cursor = next_boundary_of(&self.search_input, self.search_cursor);
                }
            },
            FocusedPanel::ReplaceField => {
                if self.replace_cursor < byte_len(&self.replace_input) {
                    self.replace_cursor = next_boundary_of(&self.replace_input, self.replace_cursor);
                }
            },
            FocusedPanel::Files => {},
        }
    }

    /// Set the search and replace values; the cursors go to their ends.
    pub fn set_search_replace(&mut self, search: String, replace: String)
        ensures
            final(self)@ == old(self)@.after_set_search_replace(search@, replace@),
    {
        self.search_input = search;
        self.replace_input = replace;
        self.search_cursor = byte_len(&self.search_input);
        self.replace_cursor = byte_len(&self.replace_input);
        self.update_preview();
    }

    /// Check if any preview will change a name.
    pub fn has_changes(&self) -> (res: bool)
        ensures
            res == any_change(self@.previews),
    {
        let n = self.previews.len();
        for i in 0..n
            invariant
                n == self.previews@.len(),
                forall|k: int| 0 <= k < i ==> !self.previews@[k].will_change,
        {
            if self.previews[i].will_change {
                assert(self@.previews[i as int].will_change);
                return true;
            }
        }
        assert forall|k: int| 0 <= k < self@.previews.len() implies !#[trigger] self@.previews[k].will_change by {
            assert(self@.previews[k] == self.previews@[k]@);
        }
        false
    }

    /// Show the confirmation dialog, after refreshing the previews, when
    /// some name will change.
    pub fn show_confirm_dialog(&mut self)
        ensures
            final(self)@ == old(self)@.after_show_confirm_dialog(),
    {
        self.update_preview();
        if self.previews.len() > 0 && self.has_changes() {
            self.dialog_state = DialogState::Confirm;
        }
    }

    /// The files that the renames will affect: for each preview that will
    /// change, the first file bearing its original name.
    pub fn get_affected_files(&self) -> (res: Vec<&FileEntry>)
        ensures
            ({
                let ps = affected_positions(self@.previews, self@.files, self@.previews.len() as int);
                &&& res@.len() == ps.len()
                &&& forall|k: int| 0 <= k < ps.len() ==> 0 <= ps[k] < self@.files.len() && *res@[k]
                    == self@.files[ps[k]]
            }),
    {
        let n = self.previews.len();
        let mut res: Vec<&FileEntry> = Vec::new();
        let mut i: usize = 0;
        while i < n
            invariant
                i <= n,
                n == self.previews@.len(),
                res@.len() == affected_positions(self@.previews, self@.files, i as int).len(),
                forall|k: int| 0 <= k < res@.len() ==> 0 <= #[trigger] affected_positions(self@.previews, self@.files, i as int)[k]
                    < self@.files.len() && *res@[k] == self@.files[affected_positions(self@.previews, self@.files, i as int)[k]],
            decreases n - i,
        {
            let p = &self.previews[i];
            assert(self@.previews[i as int] == p@);
            let ghost ps0 = affected_positions(self@.previews, self@.files, i as int);
            let ghost r0 = res@;
            let mut found: Option<usize> = None;
            if p.will_change {
                found = find_file(self.files.as_slice(), &p.original_name);
            }
            match found {
                Some(j) => {
                    proof {
                        lemma_first_named_bounds(self@.files, p.original_name@);
                    }
                    res.push(&self.files[j]);
                    proof {
                        let ps1 = affected_positions(self@.previews, self@.files, i + 1);
                        assert(ps1 =~= ps0.push(j as int));
                        assert forall|k: int| 0 <= k < res@.len() implies 0 <= #[trigger] ps1[k]
                            < self@.files.len() && *res@[k] == self@.files[ps1[k]] by {
                            if k < r0.len() {
                                assert(ps1[k] == ps0[k]);
                                assert(res@[k] == r0[k]);
                            }
                        }
                    }
                },
                None => {
                    proof {
                        let ps1 = affected_positions(self@.previews, self@.files, i + 1);
                        assert(ps1 =~= ps0);
                    }
                },
            }
            i += 1;
        }
        res
    }

    /// Record the outcome of the renames carried out on disk: on success
    /// the count and a success message, and, when the file list could be
    /// read back, the new list with selection, inputs and previews reset;
    /// on failure the error message. The outcome is handed back.
    pub fn execute_rename(&mut self, outcome: Result<usize, String>, reloaded: Option<
        Vec<FileEntry>,
    >) -> (res: Result<usize, String>)
        ensures
            final(self)@ == old(self)@.after_execute_rename(
                match outcome {
                    Ok(c) => Ok(c),
                    Err(m) => Err(m@),
                },
                match reloaded {
                    Some(v) => Some(v@),
                    None => None,
                },
            ),
            res == outcome,
    {
        match outcome {
            Ok(count) => {
                self.last_rename_count = count;
                let mut msg = decimal_string(count);
                msg.append(" Dateien erfolgreich umbenannt");
                self.success_message = Some(msg);
                self.dialog_state = DialogState::Success;
                match reloaded {
                    Some(files) => {
                        self.files = files;
                        self.selected_files.clear();
                        self.selected_index = 0;
                        self.search_input = String::new();
                        self.replace_input = String::new();
                        self.search_cursor = 0;
                        self.replace_cursor = 0;
                        self.previews = Vec::new();
                        assert(views(self.previews@) =~= Seq::<PreviewView>::empty());
                    },
                    None => {},
                }
                Ok(count)
            },
            Err(e) => {
                self.error_message = Some(e.clone());
                self.dialog_state = DialogState::Error;
                Err(e)
            },
        }
    }

    /// Show the help dialog.
    pub fn show_help(&mut self)
        ensures
            final(self)@ == old(self)@.after_show_help(),
    {
        self.dialog_state = DialogState::Help;
    }

    /// Close any open dialog.
    pub fn close_dialog(&mut self)
        ensures
            final(self)@ == old(self)@.after_close_dialog(),
    {
        self.dialog_state = DialogState::Closed;
        self.error_message = None;
        self.success_message = None;
    }
}

} // verus!
