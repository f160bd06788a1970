use std::collections::HashSet;
use std::path::PathBuf;

use rnm::entry::FileEntry;
use rnm::operations::{generate_previews, pending_renames, validate_renames, RenameCheck, RenamePreview};

fn file(name: &str) -> FileEntry {
    FileEntry {
        path: PathBuf::from(name),
        name: name.to_string(),
        is_dir: false,
        size: 0,
        modified: None,
        extension: String::new(),
    }
}

#[test]
fn test_generate_previews_empty_search() {
    let files = vec![FileEntry {
        path: PathBuf::from("test.txt"),
        name: "test.txt".to_string(),
        is_dir: false,
        size: 0,
        modified: None,
        extension: String::new(),
    }];
    let selected = HashSet::new();

    let previews = generate_previews(&files, &selected, "", "replacement");

    assert_eq!(previews.len(), 1);
    assert!(!previews[0].will_change);
    assert_eq!(previews[0].original_name, "test.txt");
    assert_eq!(previews[0].new_name, "test.txt");
}

#[test]
fn test_generate_previews_with_replacement() {
    let files = vec![
        FileEntry {
            path: PathBuf::from("image001.jpg"),
            name: "image001.jpg".to_string(),
            is_dir: false,
            size: 0,
            modified: None,
            extension: String::new(),
        },
        FileEntry {
            path: PathBuf::from("image002.jpg"),
            name: "image002.jpg".to_string(),
            is_dir: false,
            size: 0,
            modified: None,
            extension: String::new(),
        },
    ];
    let selected = HashSet::new();

    let previews = generate_previews(&files, &selected, "image", "photo");

    assert_eq!(previews.len(), 2);
    assert!(previews[0].will_change);
    assert_eq!(previews[0].new_name, "photo001.jpg");
    assert!(previews[1].will_change);
    assert_eq!(previews[1].new_name, "photo002.jpg");
}

#[test]
fn previews_skip_directories_and_unselected_files_and_sort_by_name() {
    let mut dir = file("photos");
    dir.is_dir = true;
    let files = vec![file("b_x.txt"), dir, file("a_x.txt"), file("c_x.txt")];
    let mut selected = HashSet::new();
    selected.insert(0);
    selected.insert(1);
    selected.insert(2);
    selected.insert(99);
    let previews = generate_previews(&files, &selected, "_x", "");
    assert_eq!(previews.len(), 2);
    assert_eq!(previews[0].original_name, "a_x.txt");
    assert_eq!(previews[0].new_name, "a.txt");
    assert_eq!(previews[0].file_index, 2);
    assert_eq!(previews[1].original_name, "b_x.txt");
    assert_eq!(previews[1].file_index, 0);
}

#[test]
fn replacement_is_left_to_right_without_overlap() {
    let files = vec![file("aaaa"), file("abcabc.txt"), file("nothing")];
    let previews = generate_previews(&files, &HashSet::new(), "aa", "b");
    assert_eq!(previews[0].new_name, "bb");
    let previews = generate_previews(&files, &HashSet::new(), "abc", "");
    assert_eq!(previews[1].new_name, ".txt");
    assert_eq!(previews[2].original_name, "nothing");
    assert!(!previews[2].will_change);
}

fn preview(orig: &str, new: &str, change: bool) -> RenamePreview {
    RenamePreview { original_name: orig.to_string(), new_name: new.to_string(), will_change: change, file_index: 0 }
}

fn ok_check() -> RenameCheck {
    RenameCheck { source_exists: true, target_exists: false, same_path: false }
}

#[test]
fn validation_passes_for_clean_renames() {
    let previews = vec![preview("a", "b", true), preview("c", "c", false)];
    let checks = vec![ok_check(), RenameCheck { source_exists: false, target_exists: true, same_path: true }];
    assert_eq!(validate_renames(&previews, &checks), Ok(()));
}

#[test]
fn validation_reports_every_problem() {
    let previews = vec![
        preview("gone", "x", true),
        preview("a", "taken", true),
        preview("b", "sub/dir", true),
        preview("c", "back\\slash", true),
        preview("d", "", true),
        preview("e", "same", true),
    ];
    let checks = vec![
        RenameCheck { source_exists: false, target_exists: false, same_path: false },
        RenameCheck { source_exists: true, target_exists: true, same_path: false },
        ok_check(),
        ok_check(),
        ok_check(),
        RenameCheck { source_exists: true, target_exists: true, same_path: true },
    ];
    let err = validate_renames(&previews, &checks).unwrap_err();
    assert_eq!(
        err,
        "Validierungsfehler:\nQuelldatei existiert nicht: gone\nZieldatei existiert bereits: taken\nUngueltiger Dateiname: sub/dir\nUngueltiger Dateiname: back\\slash\nLeerer Dateiname ist nicht erlaubt"
    );
}

#[test]
fn pending_renames_are_the_changing_previews() {
    let previews = vec![preview("a", "b", true), preview("c", "c", false), preview("d", "e", true)];
    assert_eq!(pending_renames(&previews), vec![0, 2]);
}

#[test]
fn replacing_a_text_by_itself_changes_nothing() {
    let files = vec![file("aaa.txt"), file("banana"), file("x")];
    let previews = generate_previews(&files, &HashSet::new(), "a", "a");
    assert_eq!(previews.len(), 3);
    for p in &previews {
        assert_eq!(p.new_name, p.original_name);
        assert!(!p.will_change);
    }
}
