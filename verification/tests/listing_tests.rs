use std::path::PathBuf;

use rnm::entry::{finish_listing, sort_files, FileEntry};
use rnm::modes::SortOrder;

fn entry(name: &str, is_dir: bool, size: u64, modified: Option<i128>, extension: &str) -> FileEntry {
    FileEntry {
        path: PathBuf::from(name),
        name: name.to_string(),
        is_dir,
        size,
        modified,
        extension: extension.to_string(),
    }
}

fn sample() -> Vec<FileEntry> {
    vec![
        entry("beta.txt", false, 300, Some(20), "txt"),
        entry("Alpha.JPG", false, 100, Some(30), "JPG"),
        entry("docs", true, 0, Some(5), ""),
        entry("gamma.png", false, 200, None, "png"),
        entry("archive", true, 0, Some(1), ""),
    ]
}

fn names(v: &[FileEntry]) -> Vec<&str> {
    v.iter().map(|e| e.name.as_str()).collect()
}

#[test]
fn sort_by_name_puts_directories_first_and_ignores_case() {
    let mut v = sample();
    sort_files(&mut v, SortOrder::Name);
    assert_eq!(names(&v), vec!["archive", "docs", "Alpha.JPG", "beta.txt", "gamma.png"]);
}

#[test]
fn sort_by_name_descending() {
    let mut v = sample();
    sort_files(&mut v, SortOrder::NameDesc);
    assert_eq!(names(&v), vec!["docs", "archive", "gamma.png", "beta.txt", "Alpha.JPG"]);
}

#[test]
fn sort_by_size_both_ways() {
    let mut v = sample();
    sort_files(&mut v, SortOrder::Size);
    assert_eq!(names(&v), vec!["docs", "archive", "Alpha.JPG", "gamma.png", "beta.txt"]);
    sort_files(&mut v, SortOrder::SizeDesc);
    assert_eq!(names(&v), vec!["docs", "archive", "beta.txt", "gamma.png", "Alpha.JPG"]);
}

#[test]
fn sort_by_extension() {
    let mut v = sample();
    sort_files(&mut v, SortOrder::Extension);
    assert_eq!(names(&v), vec!["docs", "archive", "Alpha.JPG", "gamma.png", "beta.txt"]);
}

#[test]
fn sort_by_date_unknown_first() {
    let mut v = sample();
    sort_files(&mut v, SortOrder::Date);
    assert_eq!(names(&v), vec!["archive", "docs", "gamma.png", "beta.txt", "Alpha.JPG"]);
    sort_files(&mut v, SortOrder::DateDesc);
    assert_eq!(names(&v), vec!["docs", "archive", "Alpha.JPG", "beta.txt", "gamma.png"]);
}

#[test]
fn sort_is_stable_for_equal_keys() {
    let mut v = vec![
        entry("x1", false, 5, None, ""),
        entry("x2", false, 5, None, ""),
        entry("x0", false, 1, None, ""),
        entry("x3", false, 5, None, ""),
    ];
    sort_files(&mut v, SortOrder::Size);
    assert_eq!(names(&v), vec!["x0", "x1", "x2", "x3"]);
}

#[test]
fn sorting_empty_list() {
    let mut v: Vec<FileEntry> = Vec::new();
    sort_files(&mut v, SortOrder::Name);
    assert!(v.is_empty());
}

#[test]
fn listing_drops_hidden_files_when_asked() {
    let v = vec![
        entry(".hidden", false, 1, None, ""),
        entry("b", false, 1, None, ""),
        entry("a", false, 1, None, ""),
    ];
    let shown = finish_listing(v.clone(), true, SortOrder::Name);
    assert_eq!(names(&shown), vec!["a", "b"]);
    let all = finish_listing(v, false, SortOrder::Name);
    assert_eq!(names(&all), vec![".hidden", "a", "b"]);
}

#[test]
fn sorting_twice_changes_nothing() {
    for order in [SortOrder::Name, SortOrder::NameDesc, SortOrder::Size, SortOrder::SizeDesc, SortOrder::Extension, SortOrder::Date, SortOrder::DateDesc] {
        let mut v = sample();
        sort_files(&mut v, order);
        let once: Vec<String> = v.iter().map(|e| e.name.clone()).collect();
        sort_files(&mut v, order);
        let twice: Vec<String> = v.iter().map(|e| e.name.clone()).collect();
        assert_eq!(once, twice);
    }
}
