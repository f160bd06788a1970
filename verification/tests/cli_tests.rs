use rnm::cli::{
    determine_mode_from_args, is_non_interactive, mode_details_line, parse_input, preset_from_args,
    validate_mode_inputs, CliOptions,
};
use rnm::config::{Config, Preset};
use rnm::modes::{DatePosition, PrefixAction, RenameMode};

fn options() -> CliOptions {
    CliOptions {
        dry_run: false,
        search: None,
        replace: None,
        mode: None,
        pattern: None,
        start: 1,
        prefix: None,
        suffix: None,
        remove_prefix: None,
        remove_suffix: None,
        date: false,
        date_position: "prefix".to_string(),
        preset: None,
    }
}

fn some(s: &str) -> Option<String> {
    Some(s.to_string())
}

#[test]
fn default_is_search_and_replace() {
    let mut a = options();
    a.search = some("foo");
    a.replace = some("bar");
    let c = determine_mode_from_args(&a, &Config::default()).unwrap();
    assert_eq!(c, (RenameMode::SearchReplace, "foo".to_string(), "bar".to_string(), PrefixAction::Add, 1, DatePosition::Prefix));
}

#[test]
fn explicit_mode_is_parsed_case_blind() {
    let mut a = options();
    a.mode = some("Regex");
    a.search = some("x");
    a.start = 7;
    let c = determine_mode_from_args(&a, &Config::default()).unwrap();
    assert_eq!(c.0, RenameMode::Regex);
    assert_eq!(c.1, "x");
    assert_eq!(c.2, "");
    assert_eq!(c.4, 7);
}

#[test]
fn unknown_mode_is_an_error() {
    let mut a = options();
    a.mode = some("sideways");
    let e = determine_mode_from_args(&a, &Config::default()).unwrap_err();
    assert_eq!(e, "Unbekannter Modus: sideways");
}

#[test]
fn unknown_date_position_is_an_error() {
    let mut a = options();
    a.date_position = "middle".to_string();
    a.date = true;
    let e = determine_mode_from_args(&a, &Config::default()).unwrap_err();
    assert_eq!(e, "Unbekannte Datums-Position: middle (erlaubt: prefix, suffix, replace)");
}

#[test]
fn shortcuts_in_their_order() {
    let cfg = Config::default();
    let mut a = options();
    a.pattern = some("p_###");
    a.start = 5;
    assert_eq!(determine_mode_from_args(&a, &cfg).unwrap(), (RenameMode::Numbering, "p_###".to_string(), String::new(), PrefixAction::Add, 5, DatePosition::Prefix));
    a.remove_suffix = some("_old");
    assert_eq!(determine_mode_from_args(&a, &cfg).unwrap(), (RenameMode::Suffix, "_old".to_string(), String::new(), PrefixAction::Remove, 1, DatePosition::Prefix));
    a.remove_prefix = some("x_");
    assert_eq!(determine_mode_from_args(&a, &cfg).unwrap(), (RenameMode::Prefix, "x_".to_string(), String::new(), PrefixAction::Remove, 1, DatePosition::Prefix));
    a.suffix = some("_v2");
    assert_eq!(determine_mode_from_args(&a, &cfg).unwrap(), (RenameMode::Suffix, "_v2".to_string(), String::new(), PrefixAction::Add, 1, DatePosition::Prefix));
    a.prefix = some("new_");
    assert_eq!(determine_mode_from_args(&a, &cfg).unwrap(), (RenameMode::Prefix, "new_".to_string(), String::new(), PrefixAction::Add, 1, DatePosition::Prefix));
    a.date = true;
    a.date_position = "SUFFIX".to_string();
    assert_eq!(determine_mode_from_args(&a, &cfg).unwrap(), (RenameMode::DateInsert, String::new(), String::new(), PrefixAction::Add, 1, DatePosition::Suffix));
}

#[test]
fn preset_wins_and_missing_preset_fails() {
    let mut cfg = Config::default();
    cfg.add_preset(Preset::new("fotos".to_string(), RenameMode::Regex, "IMG_(\\d+)".to_string(), "photo_$1".to_string()));
    let mut a = options();
    a.preset = some("fotos");
    a.date = true;
    let c = determine_mode_from_args(&a, &cfg).unwrap();
    assert_eq!(c, (RenameMode::Regex, "IMG_(\\d+)".to_string(), "photo_$1".to_string(), PrefixAction::Add, 1, DatePosition::Prefix));
    a.preset = some("videos");
    assert_eq!(determine_mode_from_args(&a, &cfg).unwrap_err(), "Preset nicht gefunden: videos");
}

#[test]
fn mode_inputs_are_checked() {
    assert_eq!(validate_mode_inputs(RenameMode::SearchReplace, ""), Err("Fuer diesen Modus muss --search angegeben werden".to_string()));
    assert_eq!(validate_mode_inputs(RenameMode::Regex, ""), Err("Fuer diesen Modus muss --search angegeben werden".to_string()));
    assert_eq!(validate_mode_inputs(RenameMode::Numbering, ""), Err("Fuer Nummerierung muss --pattern angegeben werden".to_string()));
    assert_eq!(validate_mode_inputs(RenameMode::Prefix, ""), Err("Fuer Prefix/Suffix muss ein Wert angegeben werden".to_string()));
    assert_eq!(validate_mode_inputs(RenameMode::Suffix, ""), Err("Fuer Prefix/Suffix muss ein Wert angegeben werden".to_string()));
    assert_eq!(validate_mode_inputs(RenameMode::Uppercase, ""), Ok(()));
    assert_eq!(validate_mode_inputs(RenameMode::DateInsert, ""), Ok(()));
    assert_eq!(validate_mode_inputs(RenameMode::Prefix, "x"), Ok(()));
}

#[test]
fn interactive_only_without_options() {
    let mut a = options();
    assert!(!is_non_interactive(&a));
    a.dry_run = true;
    assert!(is_non_interactive(&a));
    let mut b = options();
    b.suffix = some("s");
    assert!(is_non_interactive(&b));
}

#[test]
fn saving_a_preset() {
    let mut a = options();
    a.search = some("a");
    let p = preset_from_args("mine", &a).unwrap();
    assert_eq!(p.name, "mine");
    assert_eq!(p.mode, RenameMode::SearchReplace);
    assert_eq!(p.search, "a");
    assert_eq!(p.replace, "");
    a.mode = some("upper");
    assert_eq!(preset_from_args("mine", &a).unwrap().mode, RenameMode::Uppercase);
    a.mode = some("nope");
    assert_eq!(preset_from_args("mine", &a).unwrap_err(), "Unbekannter Modus: nope");
}

#[test]
fn details_lines() {
    assert_eq!(mode_details_line(RenameMode::SearchReplace, "a", "b", PrefixAction::Add, DatePosition::Prefix).unwrap(), "Suche: 'a' -> Ersetze: 'b'");
    assert_eq!(mode_details_line(RenameMode::Regex, "a+", "b", PrefixAction::Add, DatePosition::Prefix).unwrap(), "Regex: 'a+' -> 'b'");
    assert_eq!(mode_details_line(RenameMode::Numbering, "f_##", "", PrefixAction::Add, DatePosition::Prefix).unwrap(), "Muster: 'f_##'");
    assert_eq!(mode_details_line(RenameMode::Prefix, "x_", "", PrefixAction::Remove, DatePosition::Prefix).unwrap(), "Prefix: 'x_' (Entfernen)");
    assert_eq!(mode_details_line(RenameMode::Suffix, "_x", "", PrefixAction::Add, DatePosition::Prefix).unwrap(), "Suffix: '_x' (Hinzufuegen)");
    assert_eq!(mode_details_line(RenameMode::DateInsert, "", "", PrefixAction::Add, DatePosition::Replace).unwrap(), "Position: Ersetzen (Format: YYYYMMDD)");
    assert_eq!(mode_details_line(RenameMode::TitleCase, "", "", PrefixAction::Add, DatePosition::Prefix), None);
}

#[test]
fn input_paths_split_into_directory_and_pattern() {
    assert_eq!(parse_input("*.jpg"), (".".to_string(), Some("*.jpg".to_string())));
    assert_eq!(parse_input("/path/to/*.png"), ("/path/to".to_string(), Some("*.png".to_string())));
    assert_eq!(parse_input("photos/img?.gif"), ("photos".to_string(), Some("img?.gif".to_string())));
    assert_eq!(parse_input("/some/dir"), ("/some/dir".to_string(), None));
    assert_eq!(parse_input("."), (".".to_string(), None));
}
