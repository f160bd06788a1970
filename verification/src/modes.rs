//! The small enumerations that steer the application: rename mode,
//! sort order, prefix/suffix action, date position, focus and dialogs.

use vstd::prelude::*;

verus! {

/// Result of handling a key event.
#[derive(Debug, Clone, Copy, PartialEq, Eq, Structural)]
pub enum AppResult {
    Continue,
    Quit,
    /// The confirmation dialog was accepted: the caller performs the
    /// renames on disk and reports the outcome with `App::execute_rename`.
    RenameRequested,
}

/// Which panel is currently focused.
#[derive(Debug, Clone, Copy, PartialEq, Eq, Structural)]
pub enum FocusedPanel {
    Files,
    SearchField,
    ReplaceField,
}

/// Dialog state.
#[derive(Debug, Clone, Copy, PartialEq, Eq, Structural)]
pub enum DialogState {
    Closed,
    Confirm,
    Help,
    Success,
    Error,
}

/// Action for prefix/suffix mode.
#[derive(Debug, Clone, Copy, PartialEq, Eq, Structural)]
pub enum PrefixAction {
    Add,
    Remove,
}

impl PrefixAction {
    pub open spec fn spec_toggle(self) -> PrefixAction {
        match self {
            PrefixAction::Add => PrefixAction::Remove,
            PrefixAction::Remove => PrefixAction::Add,
        }
    }

    pub fn toggle(&self) -> (res: Self)
        ensures
            res == self.spec_toggle(),
    {
        match self {
            PrefixAction::Add => PrefixAction::Remove,
            PrefixAction::Remove => PrefixAction::Add,
        }
    }

    pub fn display_name(&self) -> (res: &'static str)
        ensures
            *self == PrefixAction::Add ==> res@ == "Hinzufuegen"@,
            *self == PrefixAction::Remove ==> res@ == "Entfernen"@,
    {
        match self {
            PrefixAction::Add => "Hinzufuegen",
            PrefixAction::Remove => "Entfernen",
        }
    }
}

impl Default for PrefixAction {
    fn default() -> (res: Self)
        ensures
            res == PrefixAction::Add,
    {
        PrefixAction::Add
    }
}

/// Toggling the prefix/suffix action twice gives back the action.
pub proof fn law_toggle_involution(a: PrefixAction)
    ensures
        a.spec_toggle().spec_toggle() == a,
{
}

/// Rename operation mode.
#[derive(Debug, Clone, Copy, PartialEq, Eq, Structural)]
pub enum RenameMode {
    SearchReplace,
    Regex,
    Numbering,
    Prefix,
    Suffix,
    DateInsert,
    Uppercase,
    Lowercase,
    TitleCase,
}

impl RenameMode {
    pub open spec fn spec_next(self) -> RenameMode {
        match self {
            RenameMode::SearchReplace => RenameMode::Regex,
            RenameMode::Regex => RenameMode::Numbering,
            RenameMode::Numbering => RenameMode::Prefix,
            RenameMode::Prefix => RenameMode::Suffix,
            RenameMode::Suffix => RenameMode::Uppercase,
            RenameMode::DateInsert => RenameMode::Uppercase,
            RenameMode::Uppercase => RenameMode::Lowercase,
            RenameMode::Lowercase => RenameMode::TitleCase,
            RenameMode::TitleCase => RenameMode::SearchReplace,
        }
    }

    pub open spec fn spec_display_name(self) -> Seq<char> {
        match self {
            RenameMode::SearchReplace => "Suchen/Ersetzen"@,
            RenameMode::Regex => "Regex"@,
            RenameMode::Numbering => "Nummerierung"@,
            RenameMode::Prefix => "Prefix"@,
            RenameMode::Suffix => "Suffix"@,
            RenameMode::DateInsert => "Datum einfuegen"@,
            RenameMode::Uppercase => "GROSSBUCHSTABEN"@,
            RenameMode::Lowercase => "kleinbuchstaben"@,
            RenameMode::TitleCase => "Titel Schreibweise"@,
        }
    }

    /// The modes whose two fields hold a search pattern and its replacement.
    pub open spec fn spec_uses_search_replace(self) -> bool {
        self == RenameMode::SearchReplace || self == RenameMode::Regex
    }

    /// The modes that read the text fields at all.
    pub open spec fn spec_uses_input(self) -> bool {
        ||| self == RenameMode::SearchReplace
        ||| self == RenameMode::Regex
        ||| self == RenameMode::Numbering
        ||| self == RenameMode::Prefix
        ||| self == RenameMode::Suffix
    }

    /// Cycle to the next mode.
    pub fn next(&self) -> (res: Self)
        ensures
            res == self.spec_next(),
    {
        match self {
            RenameMode::SearchReplace => RenameMode::Regex,
            RenameMode::Regex => RenameMode::Numbering,
            RenameMode::Numbering => RenameMode::Prefix,
            RenameMode::Prefix => RenameMode::Suffix,
            RenameMode::Suffix => RenameMode::Uppercase,
            RenameMode::DateInsert => RenameMode::Uppercase,
            RenameMode::Uppercase => RenameMode::Lowercase,
            RenameMode::Lowercase => RenameMode::TitleCase,
            RenameMode::TitleCase => RenameMode::SearchReplace,
        }
    }

    /// Get display name for the mode.
    pub fn display_name(&self) -> (res: &'static str)
        ensures
            res@ == self.spec_display_name(),
    {
        match self {
            RenameMode::SearchReplace => "Suchen/Ersetzen",
            RenameMode::Regex => "Regex",
            RenameMode::Numbering => "Nummerierung",
            RenameMode::Prefix => "Prefix",
            RenameMode::Suffix => "Suffix",
            RenameMode::DateInsert => "Datum einfuegen",
            RenameMode::Uppercase => "GROSSBUCHSTABEN",
            RenameMode::Lowercase => "kleinbuchstaben",
            RenameMode::TitleCase => "Titel Schreibweise",
        }
    }

    /// Check if this mode uses search/replace fields.
    pub fn uses_search_replace(&self) -> (res: bool)
        ensures
            res == self.spec_uses_search_replace(),
    {
        match self {
            RenameMode::SearchReplace | RenameMode::Regex => true,
            _ => false,
        }
    }

    /// Check if this mode uses input fields at all.
    pub fn uses_input(&self) -> (res: bool)
        ensures
            res == self.spec_uses_input(),
    {
        match self {
            RenameMode::SearchReplace | RenameMode::Regex | RenameMode::Numbering
            | RenameMode::Prefix | RenameMode::Suffix => true,
            _ => false,
        }
    }
}

impl Default for RenameMode {
    fn default() -> (res: Self)
        ensures
            res == RenameMode::SearchReplace,
    {
        RenameMode::SearchReplace
    }
}

/// Sort order for the file list.
#[derive(Debug, Clone, Copy, PartialEq, Eq, Structural)]
pub enum SortOrder {
    Name,
    NameDesc,
    Size,
    SizeDesc,
    Extension,
    Date,
    DateDesc,
}

impl SortOrder {
    pub open spec fn spec_next(self) -> SortOrder {
        match self {
            SortOrder::Name => SortOrder::NameDesc,
            SortOrder::NameDesc => SortOrder::Size,
            SortOrder::Size => SortOrder::SizeDesc,
            SortOrder::SizeDesc => SortOrder::Extension,
            SortOrder::Extension => SortOrder::Date,
            SortOrder::Date => SortOrder::DateDesc,
            SortOrder::DateDesc => SortOrder::Name,
        }
    }

    pub open spec fn spec_display_name(self) -> Seq<char> {
        match self {
            SortOrder::Name => "Name A-Z"@,
            SortOrder::NameDesc => "Name Z-A"@,
            SortOrder::Size => "Groesse +"@,
            SortOrder::SizeDesc => "Groesse -"@,
            SortOrder::Extension => "Erweiterung"@,
            SortOrder::Date => "Datum alt"@,
            SortOrder::DateDesc => "Datum neu"@,
        }
    }

    pub open spec fn spec_short_indicator(self) -> Seq<char> {
        match self {
            SortOrder::Name => "[A-Z]"@,
            SortOrder::NameDesc => "[Z-A]"@,
            SortOrder::Size => "[S+]"@,
            SortOrder::SizeDesc => "[S-]"@,
            SortOrder::Extension => "[Ext]"@,
            SortOrder::Date => "[D+]"@,
            SortOrder::DateDesc => "[D-]"@,
        }
    }

    /// Cycle to the next sort order.
    pub fn next(&self) -> (res: Self)
        ensures
            res == self.spec_next(),
    {
        match self {
            SortOrder::Name => SortOrder::NameDesc,
            SortOrder::NameDesc => SortOrder::Size,
            SortOrder::Size => SortOrder::SizeDesc,
            SortOrder::SizeDesc => SortOrder::Extension,
            SortOrder::Extension => SortOrder::Date,
            SortOrder::Date => SortOrder::DateDesc,
            SortOrder::DateDesc => SortOrder::Name,
        }
    }

    /// Get display name for the sort order.
    pub fn display_name(&self) -> (res: &'static str)
        ensures
            res@ == self.spec_display_name(),
    {
        match self {
            SortOrder::Name => "Name A-Z",
            SortOrder::NameDesc => "Name Z-A",
            SortOrder::Size => "Groesse +",
            SortOrder::SizeDesc => "Groesse -",
            SortOrder::Extension => "Erweiterung",
            SortOrder::Date => "Datum alt",
            SortOrder::DateDesc => "Datum neu",
        }
    }

    /// Get short indicator for the title bar.
    pub fn short_indicator(&self) -> (res: &'static str)
        ensures
            res@ == self.spec_short_indicator(),
    {
        match self {
            SortOrder::Name => "[A-Z]",
            SortOrder::NameDesc => "[Z-A]",
            SortOrder::Size => "[S+]",
            SortOrder::SizeDesc => "[S-]",
            SortOrder::Extension => "[Ext]",
            SortOrder::Date => "[D+]",
            SortOrder::DateDesc => "[D-]",
        }
    }
}

impl Default for SortOrder {
    fn default() -> (res: Self)
        ensures
            res == SortOrder::Name,
    {
        SortOrder::Name
    }
}

/// Where date insertion puts the date.
#[derive(Debug, Clone, Copy, PartialEq, Eq, Structural)]
pub enum DatePosition {
    /// In front of the name.
    Prefix,
    /// After the stem, before the extension.
    Suffix,
    /// In place of the stem; the extension stays.
    Replace,
}

impl DatePosition {
    pub open spec fn spec_display_name(self) -> Seq<char> {
        match self {
            DatePosition::Prefix => "Prefix"@,
            DatePosition::Suffix => "Suffix"@,
            DatePosition::Replace => "Ersetzen"@,
        }
    }

    /// Get display name for the position.
    pub fn display_name(&self) -> (res: &'static str)
        ensures
            res@ == self.spec_display_name(),
    {
        match self {
            DatePosition::Prefix => "Prefix",
            DatePosition::Suffix => "Suffix",
            DatePosition::Replace => "Ersetzen",
        }
    }
}

pub open spec fn mode_iterate(m: RenameMode, n: nat) -> RenameMode
    decreases n,
{
    if n == 0 { m } else { mode_iterate(m.spec_next(), (n - 1) as nat) }
}

pub open spec fn sort_iterate(s: SortOrder, n: nat) -> SortOrder
    decreases n,
{
    if n == 0 { s } else { sort_iterate(s.spec_next(), (n - 1) as nat) }
}

/// Cycling the rename mode eight times comes back to the start, and no
/// shorter positive number of steps does: the cycle visits the eight modes
/// other than date insertion. Date insertion, which is chosen directly and
/// not by cycling, goes on to the uppercase mode.
pub proof fn law_mode_cycle(m: RenameMode)
    ensures
        m != RenameMode::DateInsert ==> mode_iterate(m, 8) == m,
        m != RenameMode::DateInsert ==> forall|k: nat| 0 < k < 8 ==> mode_iterate(m, k) != m,
        forall|k: nat| 0 < k ==> mode_iterate(m, k) != RenameMode::DateInsert,
        RenameMode::DateInsert.spec_next() == RenameMode::Uppercase,
{
    if m != RenameMode::DateInsert {
        assert(mode_iterate(m, 8) == m) by {
            reveal_with_fuel(mode_iterate, 9);
        }
        assert forall|k: nat| 0 < k < 8 implies mode_iterate(m, k) != m by {
            reveal_with_fuel(mode_iterate, 8);
            if k == 1 {} else if k == 2 {} else if k == 3 {} else if k == 4 {} else if k == 5 {}
            else if k == 6 {} else {}
        }
    }
    assert forall|k: nat| 0 < k implies mode_iterate(m, k) != RenameMode::DateInsert by {
        lemma_iterate_skips_date(m, k);
    }
}

proof fn lemma_iterate_skips_date(m: RenameMode, k: nat)
    requires
        0 < k,
    ensures
        mode_iterate(m, k) != RenameMode::DateInsert,
    decreases k,
{
    reveal_with_fuel(mode_iterate, 2);
    if k > 1 {
        lemma_iterate_skips_date(m.spec_next(), (k - 1) as nat);
    }
}

/// Cycling the sort order seven times comes back to the start, and no
/// shorter positive number of steps does.
pub proof fn law_sort_cycle(s: SortOrder)
    ensures
        sort_iterate(s, 7) == s,
        forall|k: nat| 0 < k < 7 ==> sort_iterate(s, k) != s,
{
    reveal_with_fuel(sort_iterate, 8);
    assert forall|k: nat| 0 < k < 7 implies sort_iterate(s, k) != s by {
        if k == 1 {} else if k == 2 {} else if k == 3 {} else if k == 4 {} else if k == 5 {}
        else {}
    }
}

/// A mode that uses the search/replace pair uses input fields.
pub proof fn law_search_replace_uses_input(m: RenameMode)
    ensures
        m.spec_uses_search_replace() ==> m.spec_uses_input(),
{
}

} // verus!
