use rnm::config::{parse_date_position, parse_mode, Config, Preset};
use rnm::modes::{DatePosition, RenameMode, SortOrder};

#[test]
fn test_default_config() {
    let config = Config::default();
    assert_eq!(config.default_mode, RenameMode::SearchReplace);
    assert_eq!(config.default_sort, SortOrder::Name);
    assert!(config.presets.is_empty());
}

#[test]
fn test_preset_management() {
    let mut config = Config::default();

    let preset = Preset::new(
        "test".to_string(),
        RenameMode::SearchReplace,
        "foo".to_string(),
        "bar".to_string(),
    );

    config.add_preset(preset);

    assert!(config.get_preset("test").is_some());
    assert_eq!(config.get_preset("test").unwrap().search, "foo");

    config.remove_preset("test");
    assert!(config.get_preset("test").is_none());
}

#[test]
fn test_parse_mode() {
    assert_eq!(parse_mode("upper"), Some(RenameMode::Uppercase));
    assert_eq!(parse_mode("UPPER"), Some(RenameMode::Uppercase));
    assert_eq!(parse_mode("lowercase"), Some(RenameMode::Lowercase));
    assert_eq!(parse_mode("title"), Some(RenameMode::TitleCase));
    assert_eq!(parse_mode("search"), Some(RenameMode::SearchReplace));
    assert_eq!(parse_mode("date"), Some(RenameMode::DateInsert));
    assert_eq!(parse_mode("invalid"), None);
}

#[test]
fn test_parse_date_position() {
    assert_eq!(parse_date_position("prefix"), Some(DatePosition::Prefix));
    assert_eq!(parse_date_position("SUFFIX"), Some(DatePosition::Suffix));
    assert_eq!(parse_date_position("replace"), Some(DatePosition::Replace));
    assert_eq!(parse_date_position("p"), Some(DatePosition::Prefix));
    assert_eq!(parse_date_position("invalid"), None);
}

#[test]
fn parse_mode_accepts_every_alias() {
    let cases = [
        ("s", RenameMode::SearchReplace),
        ("search-replace", RenameMode::SearchReplace),
        ("SearchReplace", RenameMode::SearchReplace),
        ("r", RenameMode::Regex),
        ("Regex", RenameMode::Regex),
        ("num", RenameMode::Numbering),
        ("n", RenameMode::Numbering),
        ("number", RenameMode::Numbering),
        ("numbering", RenameMode::Numbering),
        ("pre", RenameMode::Prefix),
        ("PREFIX", RenameMode::Prefix),
        ("suf", RenameMode::Suffix),
        ("suffix", RenameMode::Suffix),
        ("d", RenameMode::DateInsert),
        ("date-insert", RenameMode::DateInsert),
        ("dateinsert", RenameMode::DateInsert),
        ("u", RenameMode::Uppercase),
        ("uppercase", RenameMode::Uppercase),
        ("l", RenameMode::Lowercase),
        ("lower", RenameMode::Lowercase),
        ("t", RenameMode::TitleCase),
        ("TitleCase", RenameMode::TitleCase),
    ];
    for (word, mode) in cases {
        assert_eq!(parse_mode(word), Some(mode), "{}", word);
    }
    assert_eq!(parse_mode(""), None);
    assert_eq!(parse_mode("upper "), None);
}

#[test]
fn parse_date_position_aliases() {
    assert_eq!(parse_date_position("pre"), Some(DatePosition::Prefix));
    assert_eq!(parse_date_position("suf"), Some(DatePosition::Suffix));
    assert_eq!(parse_date_position("s"), Some(DatePosition::Suffix));
    assert_eq!(parse_date_position("Rep"), Some(DatePosition::Replace));
    assert_eq!(parse_date_position("r"), Some(DatePosition::Replace));
    assert_eq!(parse_date_position(""), None);
}

#[test]
fn add_replaces_preset_of_same_name() {
    let mut config = Config::default();
    config.add_preset(Preset::new("a".to_string(), RenameMode::SearchReplace, "x".to_string(), "y".to_string()));
    config.add_preset(Preset::new("b".to_string(), RenameMode::Uppercase, String::new(), String::new()));
    config.add_preset(Preset::new("a".to_string(), RenameMode::Regex, "z".to_string(), "w".to_string()));
    assert_eq!(config.presets.len(), 2);
    let a = config.get_preset("a").unwrap();
    assert_eq!(a.mode, RenameMode::Regex);
    assert_eq!(a.search, "z");
    assert_eq!(a.replace, "w");
    assert_eq!(config.get_preset("b").unwrap().mode, RenameMode::Uppercase);
    let mut names = config.list_presets();
    names.sort();
    assert_eq!(names, vec!["a", "b"]);
}

#[test]
fn remove_hands_back_the_preset() {
    let mut config = Config::default();
    config.add_preset(Preset::new("keep".to_string(), RenameMode::Prefix, "p_".to_string(), String::new()));
    config.add_preset(Preset::new("drop".to_string(), RenameMode::Suffix, "_s".to_string(), String::new()));
    let removed = config.remove_preset("drop").unwrap();
    assert_eq!(removed.name, "drop");
    assert_eq!(removed.search, "_s");
    assert!(config.remove_preset("drop").is_none());
    assert!(config.get_preset("keep").is_some());
    assert_eq!(config.list_presets(), vec!["keep"]);
}
