//! The command-line settings: which mode and values the options choose,
//! the checks on them, and how a path argument splits into a directory and
//! a glob pattern.

use vstd::prelude::*;
use vstd::string::*;
use crate::config::{mode_for_word, parse_date_position, parse_mode, position_for_word, Config, Preset, PresetView};
use crate::modes::{DatePosition, PrefixAction, RenameMode};
use crate::text::{chars_of, contains_char, lowercase_of, owned};

verus! {

/// The options of the command line that decide what is renamed and how.
pub struct CliOptions {
    pub dry_run: bool,
    pub search: Option<String>,
    pub replace: Option<String>,
    pub mode: Option<String>,
    pub pattern: Option<String>,
    pub start: usize,
    pub prefix: Option<String>,
    pub suffix: Option<String>,
    pub remove_prefix: Option<String>,
    pub remove_suffix: Option<String>,
    pub date: bool,
    pub date_position: String,
    pub preset: Option<String>,
}

/// What the options choose: mode, search text, replacement, prefix/suffix
/// action, first number and date position.
pub type ModeChoice = (RenameMode, String, String, PrefixAction, usize, DatePosition);

pub type ModeChoiceView = (RenameMode, Seq<char>, Seq<char>, PrefixAction, usize, DatePosition);

pub open spec fn text_or_empty(o: Option<String>) -> Seq<char> {
    match o {
        Some(s) => s@,
        None => Seq::empty(),
    }
}

/// The choice the options make, or the error message.
pub open spec fn mode_choice(args: CliOptions, presets: Map<Seq<char>, PresetView>) -> Result<
    ModeChoiceView,
    Seq<char>,
> {
    match position_for_word(lowercase_of(args.date_position@)) {
        None => Err("Unbekannte Datums-Position: "@ + args.date_position@
            + " (erlaubt: prefix, suffix, replace)"@),
        Some(dp) => if args.preset is Some {
            let name = args.preset->0@;
            if presets.contains_key(name) {
                let p = presets[name];
                Ok((p.mode, p.search, p.replace, PrefixAction::Add, 1, dp))
            } else {
                Err("Preset nicht gefunden: "@ + name)
            }
        } else if args.date {
            Ok((RenameMode::DateInsert, Seq::empty(), Seq::empty(), PrefixAction::Add, 1, dp))
        } else if args.prefix is Some {
            Ok((RenameMode::Prefix, args.prefix->0@, Seq::empty(), PrefixAction::Add, 1, dp))
        } else if args.suffix is Some {
            Ok((RenameMode::Suffix, args.suffix->0@, Seq::empty(), PrefixAction::Add, 1, dp))
        } else if args.remove_prefix is Some {
            Ok((RenameMode::Prefix, args.remove_prefix->0@, Seq::empty(), PrefixAction::Remove, 1, dp))
        } else if args.remove_suffix is Some {
            Ok((RenameMode::Suffix, args.remove_suffix->0@, Seq::empty(), PrefixAction::Remove, 1, dp))
        } else if args.pattern is Some {
            Ok((RenameMode::Numbering, args.pattern->0@, Seq::empty(), PrefixAction::Add, args.start, dp))
        } else {
            match args.mode {
                Some(m) => match mode_for_word(lowercase_of(m@)) {
                    Some(mode) => Ok((mode, text_or_empty(args.search), text_or_empty(args.replace), PrefixAction::Add, args.start, dp)),
                    None => Err("Unbekannter Modus: "@ + m@),
                },
                None => Ok((RenameMode::SearchReplace, text_or_empty(args.search), text_or_empty(args.replace), PrefixAction::Add, args.start, dp)),
            }
        }
    }
}

fn text_copy(o: &Option<String>) -> (r: String)
    ensures
        r@ == text_or_empty(*o),
{
    match o {
        Some(s) => s.clone(),
        None => String::new(),
    }
}

/// Determine mode and settings from the command-line options: a preset
/// comes first, then the date, prefix, suffix, remove-prefix,
/// remove-suffix and pattern shortcuts, then the explicit mode (search and
/// replace by default).
pub fn determine_mode_from_args(args: &CliOptions, config: &Config) -> (res: Result<ModeChoice, String>)
    requires
        config.wf(),
    ensures
        match (res, mode_choice(*args, config.preset_map())) {
            (Ok(c), Ok(v)) => (c.0, c.1@, c.2@, c.3, c.4, c.5) == v,
            (Err(m), Err(t)) => m@ == t,
            _ => false,
        },
{
    let date_position = match parse_date_position(args.date_position.as_str()) {
        Some(dp) => dp,
        None => {
            let mut m = owned("Unbekannte Datums-Position: ");
            m.append(args.date_position.as_str());
            m.append(" (erlaubt: prefix, suffix, replace)");
            return Err(m);
        },
    };
    if let Some(preset_name) = &args.preset {
        match config.get_preset(preset_name.as_str()) {
            Some(p) => {
                return Ok((p.mode, p.search.clone(), p.replace.clone(), PrefixAction::Add, 1, date_position));
            },
            None => {
                let mut m = owned("Preset nicht gefunden: ");
                m.append(preset_name.as_str());
                return Err(m);
            },
        }
    }
    if args.date {
        return Ok((RenameMode::DateInsert, String::new(), String::new(), PrefixAction::Add, 1, date_position));
    }
    if let Some(prefix) = &args.prefix {
        return Ok((RenameMode::Prefix, prefix.clone(), String::new(), PrefixAction::Add, 1, date_position));
    }
    if let Some(suffix) = &args.suffix {
        return Ok((RenameMode::Suffix, suffix.clone(), String::new(), PrefixAction::Add, 1, date_position));
    }
    if let Some(prefix) = &args.remove_prefix {
        return Ok((RenameMode::Prefix, prefix.clone(), String::new(), PrefixAction::Remove, 1, date_position));
    }
    if let Some(suffix) = &args.remove_suffix {
        return Ok((RenameMode::Suffix, suffix.clone(), String::new(), PrefixAction::Remove, 1, date_position));
    }
    if let Some(pattern) = &args.pattern {
        return Ok((RenameMode::Numbering, pattern.clone(), String::new(), PrefixAction::Add, args.start, date_position));
    }
    let mode = match &args.mode {
        Some(mode_str) => match parse_mode(mode_str.as_str()) {
            Some(m) => m,
            None => {
                let mut m = owned("Unbekannter Modus: ");
                m.append(mode_str.as_str());
                return Err(m);
            },
        },
        None => RenameMode::SearchReplace,
    };
    Ok((mode, text_copy(&args.search), text_copy(&args.replace), PrefixAction::Add, args.start, date_position))
}

/// The check of the search text for a mode: the modes that read it need it.
pub open spec fn mode_input_check(mode: RenameMode, search: Seq<char>) -> Result<(), Seq<char>> {
    if search.len() > 0 {
        Ok(())
    } else {
        match mode {
            RenameMode::SearchReplace | RenameMode::Regex => Err(
                "Fuer diesen Modus muss --search angegeben werden"@,
            ),
            RenameMode::Numbering => Err("Fuer Nummerierung muss --pattern angegeben werden"@),
            RenameMode::Prefix | RenameMode::Suffix => Err(
                "Fuer Prefix/Suffix muss ein Wert angegeben werden"@,
            ),
            _ => Ok(()),
        }
    }
}

/// Validate the search text for the chosen mode.
pub fn validate_mode_inputs(mode: RenameMode, search: &str) -> (res: Result<(), String>)
    ensures
        match (res, mode_input_check(mode, search@)) {
            (Ok(()), Ok(())) => true,
            (Err(m), Err(t)) => m@ == t,
            _ => false,
        },
{
    let empty = search.is_empty();
    match mode {
        RenameMode::SearchReplace | RenameMode::Regex => {
            if empty {
                return Err(owned("Fuer diesen Modus muss --search angegeben werden"));
            }
        },
        RenameMode::Numbering => {
            if empty {
                return Err(owned("Fuer Nummerierung muss --pattern angegeben werden"));
            }
        },
        RenameMode::Prefix | RenameMode::Suffix => {
            if empty {
                return Err(owned("Fuer Prefix/Suffix muss ein Wert angegeben werden"));
            }
        },
        _ => {},
    }
    Ok(())
}

/// Whether the options ask for the command-line run rather than the
/// interactive one.
pub fn is_non_interactive(args: &CliOptions) -> (res: bool)
    ensures
        res == (args.search is Some || args.mode is Some || args.preset is Some || args.pattern
            is Some || args.prefix is Some || args.suffix is Some || args.remove_prefix is Some
            || args.remove_suffix is Some || args.date || args.dry_run),
{
    args.search.is_some() || args.mode.is_some() || args.preset.is_some() || args.pattern.is_some()
        || args.prefix.is_some() || args.suffix.is_some() || args.remove_prefix.is_some()
        || args.remove_suffix.is_some() || args.date || args.dry_run
}

/// The preset that `--save-preset name` stores: the explicit mode
/// (search and replace by default) with the search and replace texts.
pub open spec fn preset_choice(name: Seq<char>, args: CliOptions) -> Result<PresetView, Seq<char>> {
    match args.mode {
        Some(m) => match mode_for_word(lowercase_of(m@)) {
            Some(mode) => Ok(PresetView { name, mode, search: text_or_empty(args.search), replace: text_or_empty(args.replace) }),
            None => Err("Unbekannter Modus: "@ + m@),
        },
        None => Ok(PresetView { name, mode: RenameMode::SearchReplace, search: text_or_empty(args.search), replace: text_or_empty(args.replace) }),
    }
}

/// Build the preset that `--save-preset` stores.
pub fn preset_from_args(name: &str, args: &CliOptions) -> (res: Result<Preset, String>)
    ensures
        match (res, preset_choice(name@, *args)) {
            (Ok(p), Ok(v)) => p@ == v,
            (Err(m), Err(t)) => m@ == t,
            _ => false,
        },
{
    let mode = match &args.mode {
        Some(mode_str) => match parse_mode(mode_str.as_str()) {
            Some(m) => m,
            None => {
                let mut m = owned("Unbekannter Modus: ");
                m.append(mode_str.as_str());
                return Err(m);
            },
        },
        None => RenameMode::SearchReplace,
    };
    Ok(Preset::new(owned(name), mode, text_copy(&args.search), text_copy(&args.replace)))
}

/// The line describing the mode's settings, for the modes that have one.
pub open spec fn mode_details(
    mode: RenameMode,
    search: Seq<char>,
    replace: Seq<char>,
    action: PrefixAction,
    date_position: DatePosition,
) -> Option<Seq<char>> {
    match mode {
        RenameMode::SearchReplace => Some("Suche: '"@ + search + "' -> Ersetze: '"@ + replace + "'"@),
        RenameMode::Regex => Some("Regex: '"@ + search + "' -> '"@ + replace + "'"@),
        RenameMode::Numbering => Some("Muster: '"@ + search + "'"@),
        RenameMode::Prefix | RenameMode::Suffix => Some(mode.spec_display_name() + ": '"@ + search
            + "' ("@ + (if action == PrefixAction::Add { "Hinzufuegen"@ } else { "Entfernen"@ })
            + ")"@),
        RenameMode::DateInsert => Some("Position: "@ + date_position.spec_display_name()
            + " (Format: YYYYMMDD)"@),
        _ => None,
    }
}

/// The line describing the mode's settings, printed before the previews.
pub fn mode_details_line(
    mode: RenameMode,
    search: &str,
    replace: &str,
    prefix_action: PrefixAction,
    date_position: DatePosition,
) -> (res: Option<String>)
    ensures
        match (res, mode_details(mode, search@, replace@, prefix_action, date_position)) {
            (Some(s), Some(t)) => s@ == t,
            (None, None) => true,
            _ => false,
        },
{
    match mode {
        RenameMode::SearchReplace => {
            let mut s = owned("Suche: '");
            s.append(search);
            s.append("' -> Ersetze: '");
            s.append(replace);
            s.append("'");
            Some(s)
        },
        RenameMode::Regex => {
            let mut s = owned("Regex: '");
            s.append(search);
            s.append("' -> '");
            s.append(replace);
            s.append("'");
            Some(s)
        },
        RenameMode::Numbering => {
            let mut s = owned("Muster: '");
            s.append(search);
            s.append("'");
            Some(s)
        },
        RenameMode::Prefix | RenameMode::Suffix => {
            let mut s = owned(mode.display_name());
            s.append(": '");
            s.append(search);
            s.append("' (");
            if prefix_action == PrefixAction::Add {
                s.append("Hinzufuegen");
            } else {
                s.append("Entfernen");
            }
            s.append(")");
            Some(s)
        },
        RenameMode::DateInsert => {
            let mut s = owned("Position: ");
            s.append(date_position.display_name());
            s.append(" (Format: YYYYMMDD)");
            Some(s)
        },
        _ => None,
    }
}

/// What `Path::parent` gives for a path written as this text.
pub uninterp spec fn parent_of(path: Seq<char>) -> Option<Seq<char>>;

/// What `Path::file_name` gives for a path written as this text.
pub uninterp spec fn file_name_of(path: Seq<char>) -> Option<Seq<char>>;

/// Trusted: calls `std::path::Path::parent` on the path `s` and turns the
/// parent back into text. Claimed: the result depends on the text alone,
/// named `parent_of`. (A parent of a path given as text is itself valid
/// text, so nothing is lost in the conversion.)
#[verifier::external_body]
fn path_parent(s: &str) -> (r: Option<String>)
    ensures
        match (r, parent_of(s@)) {
            (Some(p), Some(q)) => p@ == q,
            (None, None) => true,
            _ => false,
        },
{
    std::path::Path::new(s).parent().map(|p| p.to_string_lossy().into_owned())
}

/// Trusted: calls `std::path::Path::file_name` on the path `s` and turns
/// the name back into text. Claimed: the result depends on the text alone,
/// named `file_name_of`.
#[verifier::external_body]
fn path_file_name(s: &str) -> (r: Option<String>)
    ensures
        match (r, file_name_of(s@)) {
            (Some(p), Some(q)) => p@ == q,
            (None, None) => true,
            _ => false,
        },
{
    std::path::Path::new(s).file_name().map(|n| n.to_string_lossy().into_owned())
}

/// The input contains a glob character.
pub open spec fn is_glob(input: Seq<char>) -> bool {
    input.contains('*') || input.contains('?') || input.contains('[')
}

/// How a path argument splits: a glob pattern into the directory it names
/// (`.` when it names none) and its last component; anything else is a
/// directory.
pub open spec fn input_split(input: Seq<char>) -> (Seq<char>, Option<Seq<char>>) {
    if is_glob(input) {
        match parent_of(input) {
            Some(p) => (if p.len() == 0 { "."@ } else { p }, file_name_of(input)),
            None => ("."@, Some(input)),
        }
    } else {
        (input, None)
    }
}

/// Split a path argument into the directory to list and the glob pattern.
pub fn parse_input(input: &str) -> (res: (String, Option<String>))
    ensures
        res.0@ == input_split(input@).0,
        match (res.1, input_split(input@).1) {
            (Some(p), Some(q)) => p@ == q,
            (None, None) => true,
            _ => false,
        },
{
    let chars = chars_of(input);
    if contains_char(chars.as_slice(), '*') || contains_char(chars.as_slice(), '?')
        || contains_char(chars.as_slice(), '[') {
        match path_parent(input) {
            Some(parent) => {
                let dir = if parent.as_str().is_empty() { owned(".") } else { parent };
                (dir, path_file_name(input))
            },
            None => (owned("."), Some(owned(input))),
        }
    } else {
        (owned(input), None)
    }
}

/// With no preset and no shortcut option, the search and replacement
/// texts are those of `--search` and `--replace` (empty only where the
/// option is absent), whether or not `--mode` is given; the mode is the one
/// `--mode` names, search and replace by default; the numbering starts at
/// `--start`. The only errors are an unknown date position or mode.
pub proof fn law_explicit_mode_keeps_texts(args: CliOptions, presets: Map<Seq<char>, PresetView>)
    requires
        args.preset is None,
        !args.date,
        args.prefix is None,
        args.suffix is None,
        args.remove_prefix is None,
        args.remove_suffix is None,
        args.pattern is None,
    ensures
        match mode_choice(args, presets) {
            Ok(c) => {
                &&& c.1 == match args.search { Some(t) => t@, None => Seq::<char>::empty() }
                &&& c.2 == match args.replace { Some(t) => t@, None => Seq::<char>::empty() }
                &&& c.3 == PrefixAction::Add
                &&& c.4 == args.start
                &&& args.mode is None ==> c.0 == RenameMode::SearchReplace
                &&& args.mode matches Some(m) ==> mode_for_word(lowercase_of(m@)) == Some(c.0)
            },
            Err(_) => position_for_word(lowercase_of(args.date_position@)) is None || (args.mode matches Some(m)
                && mode_for_word(lowercase_of(m@)) is None),
        },
{
}

/// The shortcut options choose their mode and text, adding for `--prefix`
/// and `--suffix` and removing for `--remove-prefix` and
/// `--remove-suffix`, with no replacement; `--date` chooses date
/// insertion; a preset, when given and found, gives its own mode and texts.
pub proof fn law_shortcut_options(args: CliOptions, presets: Map<Seq<char>, PresetView>)
    requires
        position_for_word(lowercase_of(args.date_position@)) is Some,
    ensures
        args.preset is Some && presets.contains_key(args.preset->0@) ==> (match mode_choice(args, presets) {
            Ok(c) => c.0 == presets[args.preset->0@].mode && c.1 == presets[args.preset->0@].search
                && c.2 == presets[args.preset->0@].replace,
            Err(_) => false,
        }),
        args.preset is Some && !presets.contains_key(args.preset->0@) ==> mode_choice(args, presets) is Err,
        args.preset is None && args.date ==> (match mode_choice(args, presets) {
            Ok(c) => c.0 == RenameMode::DateInsert,
            Err(_) => false,
        }),
        args.preset is None && !args.date && args.prefix is Some ==> (match mode_choice(args, presets) {
            Ok(c) => c.0 == RenameMode::Prefix && c.1 == args.prefix->0@ && c.2.len() == 0 && c.3
                == PrefixAction::Add,
            Err(_) => false,
        }),
        args.preset is None && !args.date && args.prefix is None && args.suffix is Some ==> (match mode_choice(
            args,
            presets,
        ) {
            Ok(c) => c.0 == RenameMode::Suffix && c.1 == args.suffix->0@ && c.2.len() == 0 && c.3
                == PrefixAction::Add,
            Err(_) => false,
        }),
        args.preset is None && !args.date && args.prefix is None && args.suffix is None
            && args.remove_prefix is Some ==> (match mode_choice(args, presets) {
            Ok(c) => c.0 == RenameMode::Prefix && c.1 == args.remove_prefix->0@ && c.3 == PrefixAction::Remove,
            Err(_) => false,
        }),
        args.preset is None && !args.date && args.prefix is None && args.suffix is None
            && args.remove_prefix is None && args.remove_suffix is Some ==> (match mode_choice(args, presets) {
            Ok(c) => c.0 == RenameMode::Suffix && c.1 == args.remove_suffix->0@ && c.3 == PrefixAction::Remove,
            Err(_) => false,
        }),
        args.preset is None && !args.date && args.prefix is None && args.suffix is None
            && args.remove_prefix is None && args.remove_suffix is None && args.pattern is Some ==> (
        match mode_choice(args, presets) {
            Ok(c) => c.0 == RenameMode::Numbering && c.1 == args.pattern->0@ && c.4 == args.start,
            Err(_) => false,
        }),
{
}

} // verus!
