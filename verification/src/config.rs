//! Saved rename presets and the words accepted for modes and date
//! positions.

use vstd::prelude::*;
use crate::modes::{DatePosition, RenameMode, SortOrder};
use crate::text::{chars_equal, chars_of, lowercase_of, to_lowercase};

verus! {

/// A saved rename preset.
#[derive(Debug, Clone)]
pub struct Preset {
    /// Name of the preset.
    pub name: String,
    /// Rename mode.
    pub mode: RenameMode,
    /// Search pattern.
    pub search: String,
    /// Replace pattern.
    pub replace: String,
}

/// A preset as plain values.
pub struct PresetView {
    pub name: Seq<char>,
    pub mode: RenameMode,
    pub search: Seq<char>,
    pub replace: Seq<char>,
}

impl View for Preset {
    type V = PresetView;

    open spec fn view(&self) -> PresetView {
        PresetView { name: self.name@, mode: self.mode, search: self.search@, replace: self.replace@ }
    }
}

impl Preset {
    pub fn new(name: String, mode: RenameMode, search: String, replace: String) -> (p: Self)
        ensures
            p@ == (PresetView { name: name@, mode, search: search@, replace: replace@ }),
    {
        Preset { name, mode, search, replace }
    }
}

/// Application configuration.
#[derive(Debug, Clone)]
pub struct Config {
    /// Default rename mode.
    pub default_mode: RenameMode,
    /// Default sort order.
    pub default_sort: SortOrder,
    /// Saved presets, no two with the same name.
    pub presets: Vec<Preset>,
}

/// The presets by name.
pub open spec fn presets_by_name(ps: Seq<Preset>) -> Map<Seq<char>, PresetView>
    decreases ps.len(),
{
    if ps.len() == 0 {
        Map::empty()
    } else {
        presets_by_name(ps.drop_last()).insert(ps.last().name@, ps.last()@)
    }
}

/// No two presets share a name.
pub open spec fn distinct_names(ps: Seq<Preset>) -> bool {
    forall|i: int, j: int| 0 <= i < j < ps.len() ==> ps[i].name@ != ps[j].name@
}

impl Config {
    /// The configuration is well formed: preset names are distinct.
    pub open spec fn wf(&self) -> bool {
        distinct_names(self.presets@)
    }

    /// The saved presets by name.
    pub open spec fn preset_map(&self) -> Map<Seq<char>, PresetView> {
        presets_by_name(self.presets@)
    }
}

impl Default for Config {
    fn default() -> (c: Self)
        ensures
            c.default_mode == RenameMode::SearchReplace,
            c.default_sort == SortOrder::Name,
            c.presets@.len() == 0,
            c.wf(),
    {
        Config { default_mode: RenameMode::SearchReplace, default_sort: SortOrder::Name, presets: Vec::new() }
    }
}

proof fn lemma_map_contains(ps: Seq<Preset>, k: Seq<char>)
    requires
        distinct_names(ps),
    ensures
        presets_by_name(ps).contains_key(k) <==> exists|i: int| 0 <= i < ps.len() && #[trigger] ps[i].name@ == k,
        forall|i: int| 0 <= i < ps.len() && #[trigger] ps[i].name@ == k ==> presets_by_name(ps)[k] == ps[i]@,
    decreases ps.len(),
{
    if ps.len() > 0 {
        let d = ps.drop_last();
        assert(distinct_names(d));
        lemma_map_contains(d, k);
        if presets_by_name(ps).contains_key(k) && ps.last().name@ != k {
            let i = choose|i: int| 0 <= i < d.len() && #[trigger] d[i].name@ == k;
            assert(ps[i].name@ == k);
        }
        if exists|i: int| 0 <= i < ps.len() && #[trigger] ps[i].name@ == k {
            let i = choose|i: int| 0 <= i < ps.len() && #[trigger] ps[i].name@ == k;
            if i < ps.len() - 1 {
                assert(d[i].name@ == k);
            }
        }
        assert forall|i: int| 0 <= i < ps.len() && #[trigger] ps[i].name@ == k implies presets_by_name(ps)[k] == ps[i]@ by {
            if i < ps.len() - 1 {
                assert(d[i].name@ == k);
            }
        }
    }
}

proof fn lemma_map_update(ps: Seq<Preset>, j: int, p: Preset)
    requires
        distinct_names(ps),
        0 <= j < ps.len(),
        ps[j].name@ == p.name@,
    ensures
        distinct_names(ps.update(j, p)),
        presets_by_name(ps.update(j, p)) == presets_by_name(ps).insert(p.name@, p@),
    decreases ps.len(),
{
    let q = ps.update(j, p);
    assert forall|a: int, b: int| 0 <= a < b < q.len() implies q[a].name@ != q[b].name@ by {
        if a != j && b != j {
            assert(q[a] == ps[a] && q[b] == ps[b]);
        } else if a == j {
            assert(ps[a].name@ != ps[b].name@);
        } else {
            assert(ps[a].name@ != ps[b].name@);
        }
    }
    if j == ps.len() - 1 {
        assert(q.drop_last() =~= ps.drop_last());
        assert(presets_by_name(ps).insert(p.name@, p@) =~= presets_by_name(ps.drop_last()).insert(
            p.name@,
            p@,
        ));
    } else {
        let d = ps.drop_last();
        assert(distinct_names(d));
        lemma_map_update(d, j, p);
        assert(q.drop_last() =~= d.update(j, p));
        assert(ps.last().name@ != p.name@);
        assert(presets_by_name(q) =~= presets_by_name(ps).insert(p.name@, p@));
    }
}

proof fn lemma_map_remove(ps: Seq<Preset>, j: int)
    requires
        distinct_names(ps),
        0 <= j < ps.len(),
    ensures
        distinct_names(ps.remove(j)),
        presets_by_name(ps.remove(j)) == presets_by_name(ps).remove(ps[j].name@),
    decreases ps.len(),
{
    let q = ps.remove(j);
    assert forall|a: int, b: int| 0 <= a < b < q.len() implies q[a].name@ != q[b].name@ by {
        let a1 = if a < j { a } else { a + 1 };
        let b1 = if b < j { b } else { b + 1 };
        assert(q[a] == ps[a1] && q[b] == ps[b1]);
    }
    let d = ps.drop_last();
    assert(distinct_names(d));
    if j == ps.len() - 1 {
        assert(q =~= d);
        lemma_map_contains(d, ps[j].name@);
        assert(!presets_by_name(d).contains_key(ps[j].name@));
        assert(presets_by_name(ps).remove(ps[j].name@) =~= presets_by_name(d));
    } else {
        lemma_map_remove(d, j);
        assert(q.drop_last() =~= d.remove(j));
        assert(q.last() == ps.last());
        assert(ps.last().name@ != ps[j].name@);
        assert(presets_by_name(q) =~= presets_by_name(ps).remove(ps[j].name@));
    }
}

/// Whether two strings hold the same characters.
pub fn same_text(a: &str, b: &str) -> (res: bool)
    ensures
        res == (a@ == b@),
{
    let x = chars_of(a);
    let y = chars_of(b);
    chars_equal(x.as_slice(), y.as_slice())
}

fn position_of(ps: &Vec<Preset>, name: &str) -> (r: Option<usize>)
    requires
        distinct_names(ps@),
    ensures
        match r {
            Some(i) => i < ps@.len() && ps@[i as int].name@ == name@,
            None => forall|i: int| 0 <= i < ps@.len() ==> ps@[i].name@ != name@,
        },
{
    let n = ps.len();
    for i in 0..n
        invariant
            n == ps@.len(),
            forall|k: int| 0 <= k < i ==> ps@[k].name@ != name@,
    {
        if same_text(ps[i].name.as_str(), name) {
            return Some(i);
        }
    }
    None
}

impl Config {
    /// Add a preset, replacing one of the same name.
    pub fn add_preset(&mut self, preset: Preset)
        requires
            old(self).wf(),
        ensures
            final(self).wf(),
            final(self).preset_map() == old(self).preset_map().insert(preset.name@, preset@),
            final(self).default_mode == old(self).default_mode,
            final(self).default_sort == old(self).default_sort,
    {
        match position_of(&self.presets, preset.name.as_str()) {
            Some(j) => {
                proof {
                    lemma_map_update(self.presets@, j as int, preset);
                }
                let ghost before = self.presets@;
                self.presets.set(j, preset);
                assert(self.presets@ == before.update(j as int, preset));
            },
            None => {
                let ghost before = self.presets@;
                self.presets.push(preset);
                assert(self.presets@.drop_last() =~= before);
            },
        }
    }

    /// Remove a preset, handing it back if there was one of that name.
    pub fn remove_preset(&mut self, name: &str) -> (res: Option<Preset>)
        requires
            old(self).wf(),
        ensures
            final(self).wf(),
            final(self).preset_map() == old(self).preset_map().remove(name@),
            match res {
                Some(p) => old(self).preset_map().contains_key(name@) && p@ == old(self).preset_map()[name@],
                None => !old(self).preset_map().contains_key(name@),
            },
            final(self).default_mode == old(self).default_mode,
            final(self).default_sort == old(self).default_sort,
    {
        proof {
            lemma_map_contains(self.presets@, name@);
        }
        match position_of(&self.presets, name) {
            Some(j) => {
                proof {
                    lemma_map_remove(self.presets@, j as int);
                }
                let p = self.presets.remove(j);
                Some(p)
            },
            None => {
                assert(old(self).preset_map().remove(name@) =~= old(self).preset_map());
                None
            },
        }
    }

    /// Get a preset by name.
    pub fn get_preset(&self, name: &str) -> (res: Option<&Preset>)
        requires
            self.wf(),
        ensures
            match res {
                Some(p) => self.preset_map().contains_key(name@) && p@ == self.preset_map()[name@],
                None => !self.preset_map().contains_key(name@),
            },
    {
        proof {
            lemma_map_contains(self.presets@, name@);
        }
        match position_of(&self.presets, name) {
            Some(j) => Some(&self.presets[j]),
            None => None,
        }
    }

    /// The names of all presets, each once.
    pub fn list_presets(&self) -> (res: Vec<&str>)
        requires
            self.wf(),
        ensures
            forall|k: Seq<char>| self.preset_map().contains_key(k) <==> exists|i: int| 0 <= i < res@.len() && (#[trigger] res@[i])@ == k,
            forall|i: int, j: int| 0 <= i < j < res@.len() ==> res@[i]@ != res@[j]@,
    {
        let n = self.presets.len();
        let mut res: Vec<&str> = Vec::new();
        for i in 0..n
            invariant
                n == self.presets@.len(),
                res@.len() == i,
                forall|t: int| 0 <= t < i ==> (#[trigger] res@[t])@ == self.presets@[t].name@,
        {
            res.push(self.presets[i].name.as_str());
        }
        proof {
            assert forall|k: Seq<char>| self.preset_map().contains_key(k) <==> exists|i: int| 0 <= i < res@.len() && (#[trigger] res@[i])@ == k by {
                lemma_map_contains(self.presets@, k);
                if self.preset_map().contains_key(k) {
                    let i = choose|i: int| 0 <= i < self.presets@.len() && #[trigger] self.presets@[i].name@ == k;
                    assert(res@[i]@ == k);
                }
                if exists|i: int| 0 <= i < res@.len() && (#[trigger] res@[i])@ == k {
                    let i = choose|i: int| 0 <= i < res@.len() && (#[trigger] res@[i])@ == k;
                    assert(self.presets@[i].name@ == k);
                }
            }
        }
        res
    }
}

/// The mode a lowercase word names.
pub open spec fn mode_for_word(w: Seq<char>) -> Option<RenameMode> {
    if w == "search"@ || w == "searchreplace"@ || w == "search-replace"@ || w == "s"@ {
        Some(RenameMode::SearchReplace)
    } else if w == "regex"@ || w == "r"@ {
        Some(RenameMode::Regex)
    } else if w == "numbering"@ || w == "number"@ || w == "num"@ || w == "n"@ {
        Some(RenameMode::Numbering)
    } else if w == "prefix"@ || w == "pre"@ {
        Some(RenameMode::Prefix)
    } else if w == "suffix"@ || w == "suf"@ {
        Some(RenameMode::Suffix)
    } else if w == "date"@ || w == "dateinsert"@ || w == "date-insert"@ || w == "d"@ {
        Some(RenameMode::DateInsert)
    } else if w == "upper"@ || w == "uppercase"@ || w == "u"@ {
        Some(RenameMode::Uppercase)
    } else if w == "lower"@ || w == "lowercase"@ || w == "l"@ {
        Some(RenameMode::Lowercase)
    } else if w == "title"@ || w == "titlecase"@ || w == "t"@ {
        Some(RenameMode::TitleCase)
    } else {
        None
    }
}

/// The date position a lowercase word names.
pub open spec fn position_for_word(w: Seq<char>) -> Option<DatePosition> {
    if w == "prefix"@ || w == "pre"@ || w == "p"@ {
        Some(DatePosition::Prefix)
    } else if w == "suffix"@ || w == "suf"@ || w == "s"@ {
        Some(DatePosition::Suffix)
    } else if w == "replace"@ || w == "rep"@ || w == "r"@ {
        Some(DatePosition::Replace)
    } else {
        None
    }
}

/// The mode named by a word already in lowercase.
pub fn mode_for_lowercase(w: &str) -> (res: Option<RenameMode>)
    ensures
        res == mode_for_word(w@),
{
    if same_text(w, "search") || same_text(w, "searchreplace") || same_text(w, "search-replace")
        || same_text(w, "s") {
        Some(RenameMode::SearchReplace)
    } else if same_text(w, "regex") || same_text(w, "r") {
        Some(RenameMode::Regex)
    } else if same_text(w, "numbering") || same_text(w, "number") || same_text(w, "num")
        || same_text(w, "n") {
        Some(RenameMode::Numbering)
    } else if same_text(w, "prefix") || same_text(w, "pre") {
        Some(RenameMode::Prefix)
    } else if same_text(w, "suffix") || same_text(w, "suf") {
        Some(RenameMode::Suffix)
    } else if same_text(w, "date") || same_text(w, "dateinsert") || same_text(w, "date-insert")
        || same_text(w, "d") {
        Some(RenameMode::DateInsert)
    } else if same_text(w, "upper") || same_text(w, "uppercase") || same_text(w, "u") {
        Some(RenameMode::Uppercase)
    } else if same_text(w, "lower") || same_text(w, "lowercase") || same_text(w, "l") {
        Some(RenameMode::Lowercase)
    } else if same_text(w, "title") || same_text(w, "titlecase") || same_text(w, "t") {
        Some(RenameMode::TitleCase)
    } else {
        None
    }
}

/// The date position named by a word already in lowercase.
pub fn position_for_lowercase(w: &str) -> (res: Option<DatePosition>)
    ensures
        res == position_for_word(w@),
{
    if same_text(w, "prefix") || same_text(w, "pre") || same_text(w, "p") {
        Some(DatePosition::Prefix)
    } else if same_text(w, "suffix") || same_text(w, "suf") || same_text(w, "s") {
        Some(DatePosition::Suffix)
    } else if same_text(w, "replace") || same_text(w, "rep") || same_text(w, "r") {
        Some(DatePosition::Replace)
    } else {
        None
    }
}

/// Parse a mode from a command-line word, in any case.
pub fn parse_mode(mode_str: &str) -> (res: Option<RenameMode>)
    ensures
        res == mode_for_word(lowercase_of(mode_str@)),
{
    let lowered = to_lowercase(mode_str);
    mode_for_lowercase(lowered.as_str())
}

/// Parse a date position from a command-line word, in any case.
pub fn parse_date_position(position_str: &str) -> (res: Option<DatePosition>)
    ensures
        res == position_for_word(lowercase_of(position_str@)),
{
    let lowered = to_lowercase(position_str);
    position_for_lowercase(lowered.as_str())
}

/// A preset that was added is read back under its name; removing it then
/// leaves no preset of that name; presets of other names are untouched by
/// both.
pub proof fn law_preset_add_get_remove(m: Map<Seq<char>, PresetView>, p: PresetView, other: Seq<char>)
    ensures
        m.insert(p.name, p).contains_key(p.name),
        m.insert(p.name, p)[p.name] == p,
        !m.insert(p.name, p).remove(p.name).contains_key(p.name),
        other != p.name ==> (m.insert(p.name, p).contains_key(other) == m.contains_key(other)
            && m.insert(p.name, p).remove(p.name).contains_key(other) == m.contains_key(other)),
        other != p.name && m.contains_key(other) ==> m.insert(p.name, p)[other] == m[other]
            && m.insert(p.name, p).remove(p.name)[other] == m[other],
{
}

/// Parsing is case-blind: two words with the same lowercase form name the
/// same mode and the same date position.
pub proof fn law_parse_case_blind(a: Seq<char>, b: Seq<char>)
    requires
        lowercase_of(a) == lowercase_of(b),
    ensures
        mode_for_word(lowercase_of(a)) == mode_for_word(lowercase_of(b)),
        position_for_word(lowercase_of(a)) == position_for_word(lowercase_of(b)),
{
}

} // verus!
