use std::collections::HashSet;
use std::path::PathBuf;

use rnm::entry::FileEntry;
use rnm::modes::{DatePosition, PrefixAction, RenameMode};
use rnm::operations::RenamePreview;
use rnm::rules::generate_mode_previews;

fn file(name: &str) -> FileEntry {
    FileEntry {
        path: PathBuf::from(name),
        name: name.to_string(),
        is_dir: false,
        size: 0,
        modified: None,
        extension: String::new(),
    }
}

fn dated(name: &str, nanos: i128) -> FileEntry {
    let mut f = file(name);
    f.modified = Some(nanos);
    f
}

fn run(files: &[FileEntry], search: &str, replace: &str, mode: RenameMode, action: PrefixAction) -> Vec<RenamePreview> {
    generate_mode_previews(files, &HashSet::new(), search, replace, mode, action, 1, 1, DatePosition::Prefix).unwrap()
}

fn new_names(previews: &[RenamePreview]) -> Vec<String> {
    previews.iter().map(|p| p.new_name.clone()).collect()
}

#[test]
fn search_replace_mode_matches_readme() {
    let files = vec![file("IMG_001.jpg")];
    let p = run(&files, "IMG_", "photo_", RenameMode::SearchReplace, PrefixAction::Add);
    assert_eq!(new_names(&p), vec!["photo_001.jpg"]);
    assert!(p[0].will_change);
}

#[test]
fn regex_mode_uses_capture_groups() {
    let files = vec![file("IMG_001.jpg"), file("vacation_2024.jpg")];
    let p = run(&files, "IMG_(\\d+)", "photo_$1", RenameMode::Regex, PrefixAction::Add);
    assert_eq!(p[0].new_name, "photo_001.jpg");
    assert_eq!(p[1].new_name, "vacation_2024.jpg");
    assert!(!p[1].will_change);
    let p = run(&files, "(.+)_(\\d+)", "${2}_$1", RenameMode::Regex, PrefixAction::Add);
    assert_eq!(p[1].new_name, "2024_vacation.jpg");
}

#[test]
fn regex_mode_refuses_bad_pattern() {
    let files = vec![file("a.txt")];
    let r = generate_mode_previews(&files, &HashSet::new(), "(unclosed", "x", RenameMode::Regex, PrefixAction::Add, 1, 1, DatePosition::Prefix);
    assert!(r.is_err());
    let p = run(&files, "", "x", RenameMode::Regex, PrefixAction::Add);
    assert_eq!(p[0].new_name, "a.txt");
}

#[test]
fn numbering_pads_and_keeps_extension() {
    let files = vec![file("a.jpg"), file("b.jpg"), file("c.png")];
    let p = run(&files, "photo_###", "", RenameMode::Numbering, PrefixAction::Add);
    assert_eq!(new_names(&p), vec!["photo_001.jpg", "photo_002.jpg", "photo_003.png"]);
    let p = generate_mode_previews(&files, &HashSet::new(), "image_####", "", RenameMode::Numbering, PrefixAction::Add, 10, 5, DatePosition::Prefix).unwrap();
    assert_eq!(new_names(&p), vec!["image_0010.jpg", "image_0015.jpg", "image_0020.png"]);
    let p = generate_mode_previews(&files, &HashSet::new(), "x#y", "", RenameMode::Numbering, PrefixAction::Add, 99, 1, DatePosition::Prefix).unwrap();
    assert_eq!(new_names(&p), vec!["x99y.jpg", "x100y.jpg", "x101y.png"]);
    let p = run(&files, "plain", "", RenameMode::Numbering, PrefixAction::Add);
    assert_eq!(new_names(&p), vec!["plain1.jpg", "plain2.jpg", "plain3.png"]);
}

#[test]
fn prefix_add_and_remove() {
    let files = vec![file("file.txt"), file("backup_old.txt")];
    let p = run(&files, "backup_", "", RenameMode::Prefix, PrefixAction::Add);
    assert_eq!(new_names(&p), vec!["backup_backup_old.txt", "backup_file.txt"]);
    let p = run(&files, "backup_", "", RenameMode::Prefix, PrefixAction::Remove);
    assert_eq!(new_names(&p), vec!["old.txt", "file.txt"]);
    assert!(!p[1].will_change);
}

#[test]
fn suffix_goes_before_extension() {
    let files = vec![file("file.txt"), file("notes_old.md"), file(".bashrc"), file("README")];
    let p = run(&files, "_v2", "", RenameMode::Suffix, PrefixAction::Add);
    assert_eq!(new_names(&p), vec![".bashrc_v2", "README_v2", "file_v2.txt", "notes_old_v2.md"]);
    let p = run(&files, "_old", "", RenameMode::Suffix, PrefixAction::Remove);
    assert_eq!(p[3].new_name, "notes.md");
    assert!(!p[2].will_change);
}

#[test]
fn case_modes() {
    let files = vec![file("file.txt")];
    assert_eq!(run(&files, "", "", RenameMode::Uppercase, PrefixAction::Add)[0].new_name, "FILE.txt");
    let files = vec![file("FILE.TXT")];
    assert_eq!(run(&files, "", "", RenameMode::Lowercase, PrefixAction::Add)[0].new_name, "file.txt");
    let files = vec![file("hello_world"), file("the QUICK-brown fox.JPG")];
    let p = run(&files, "", "", RenameMode::TitleCase, PrefixAction::Add);
    assert_eq!(p[0].new_name, "Hello_World");
    assert_eq!(p[1].new_name, "The Quick-Brown Fox.jpg");
    let files = vec![file("straße.txt")];
    assert_eq!(run(&files, "", "", RenameMode::Uppercase, PrefixAction::Add)[0].new_name, "STRASSE.txt");
}

#[test]
fn date_insert_positions() {
    // 2024-03-05 12:00:00 UTC
    let t: i128 = 1_709_640_000 * 1_000_000_000;
    let files = vec![dated("photo.jpg", t), file("undated.jpg")];
    let mk = |pos| generate_mode_previews(&files, &HashSet::new(), "", "", RenameMode::DateInsert, PrefixAction::Add, 1, 1, pos).unwrap();
    let p = mk(DatePosition::Prefix);
    assert_eq!(p[0].new_name, "20240305_photo.jpg");
    assert_eq!(p[1].new_name, "undated.jpg");
    assert!(!p[1].will_change);
    assert_eq!(mk(DatePosition::Suffix)[0].new_name, "photo_20240305.jpg");
    assert_eq!(mk(DatePosition::Replace)[0].new_name, "20240305.jpg");
}

#[test]
fn dates_around_the_epoch_and_leap_days() {
    let day: i128 = 86_400 * 1_000_000_000;
    let cases: Vec<(i128, &str)> = vec![
        (0, "19700101"),
        (-1, "19691231"),
        (day - 1, "19700101"),
        (day, "19700102"),
        // 2000-02-29
        (11_016 * day, "20000229"),
        // 1900-03-01 (1900 is no leap year)
        (-25_508 * day, "19000301"),
        // 0000-01-01
        (-719_528 * day, "00000101"),
        // 9999-12-31
        (2_932_896 * day, "99991231"),
    ];
    for (t, want) in cases {
        let files = vec![dated("x", t)];
        let p = run(&files, "", "", RenameMode::DateInsert, PrefixAction::Add);
        assert_eq!(p[0].new_name, format!("{}_x", want), "time {}", t);
    }
    for t in [-719_529 * day, 2_932_897 * day] {
        let files = vec![dated("x", t)];
        let p = run(&files, "", "", RenameMode::DateInsert, PrefixAction::Add);
        assert_eq!(p[0].new_name, "x");
    }
}

#[test]
fn selection_limits_the_batch_and_numbering_counts_it() {
    let files = vec![file("a.jpg"), file("b.jpg"), file("c.jpg")];
    let mut selected = HashSet::new();
    selected.insert(0);
    selected.insert(2);
    let p = generate_mode_previews(&files, &selected, "n_#", "", RenameMode::Numbering, PrefixAction::Add, 1, 1, DatePosition::Prefix).unwrap();
    assert_eq!(new_names(&p), vec!["n_1.jpg", "n_2.jpg"]);
    assert_eq!(p[1].file_index, 2);
}

#[test]
fn search_replace_mode_agrees_with_plain_previews() {
    let files = vec![file("b_old.txt"), file("a_old.txt"), file("keep.txt")];
    let plain = rnm::operations::generate_previews(&files, &HashSet::new(), "_old", "_new");
    let moded = run(&files, "_old", "_new", RenameMode::SearchReplace, PrefixAction::Add);
    assert_eq!(new_names(&plain), new_names(&moded));
    assert_eq!(new_names(&plain), vec!["a_new.txt", "b_new.txt", "keep.txt"]);
}
