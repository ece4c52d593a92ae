//! The path classifier and the walker's decisions on concrete entries.

use shunbin::path::{EntryKind, FsEntry, PathExt};
use shunbin::walk::{WalkStep, Walker};

fn file(path: &str, modified: Option<i64>) -> FsEntry {
    FsEntry { path: path.to_string(), kind: EntryKind::File, modified }
}

fn dir(path: &str) -> FsEntry {
    FsEntry { path: path.to_string(), kind: EntryKind::Dir, modified: None }
}

#[test]
fn hidden_file_is_hidden() {
    assert!(file("/data/notes/.secret.md", None).is_hidden());
    assert!(file(".bashrc", None).is_hidden());
    assert!(!file("/data/notes/a.md", None).is_hidden());
    assert!(!file("a.md", None).is_hidden());
}

#[test]
fn hidden_dir_is_hidden() {
    assert!(dir("/data/notes/.git").is_hidden());
    assert!(!dir("/data/notes/sub").is_hidden());
}

#[test]
fn regular_file_excludes_dirs_and_hidden() {
    assert!(file("/d/a.md", None).is_regular_file());
    assert!(!dir("/d/sub").is_regular_file());
    assert!(!file("/d/.a.md", None).is_regular_file());
    let other = FsEntry { path: "/d/pipe".to_string(), kind: EntryKind::Other, modified: None };
    assert!(!other.is_regular_file());
}

#[test]
fn index_target_needs_allowed_extension() {
    assert!(file("/d/a.md", None).is_index_target());
    assert!(file("/d/b.txt", None).is_index_target());
    assert!(!file("/d/c.rs", None).is_index_target());
    assert!(!file("/d/noext", None).is_index_target());
    assert!(!file("/d/.md", None).is_index_target());
    assert!(!file("/d/trailingdot.", None).is_index_target());
    assert!(!dir("/d/sub.md").is_index_target());
    // extension match is case-sensitive
    assert!(!file("/d/a.MD", None).is_index_target());
}

#[test]
fn walker_yields_targets_and_descends_dirs() {
    let mut w = Walker::new(None);
    assert_eq!(w.on_entry(&file("/data/notes/a.md", Some(100))), WalkStep::Yield);
    assert_eq!(w.on_entry(&dir("/data/notes/sub")), WalkStep::Descend);
    assert_eq!(w.on_entry(&file("/data/notes/x.bin", Some(100))), WalkStep::Skip);
    // queued directories come back in order, then the walk is complete
    assert_eq!(w.on_entry(&dir("/data/notes/later")), WalkStep::Descend);
    assert_eq!(w.next_dir().as_deref(), Some("/data/notes/sub"));
    assert_eq!(w.next_dir().as_deref(), Some("/data/notes/later"));
    assert_eq!(w.next_dir(), None);
}

#[test]
fn walker_never_yields_hidden_entries() {
    // hidden file and hidden directory below the root: neither is yielded,
    // and the hidden directory is never queued, whatever extension its
    // contents would have had
    let mut w = Walker::new(None);
    assert_eq!(w.on_entry(&file("/data/notes/.secret.md", Some(100))), WalkStep::Skip);
    assert_eq!(w.on_entry(&dir("/data/notes/.git")), WalkStep::Skip);
    assert_eq!(w.next_dir(), None);
}

#[test]
fn walker_cutoff_keeps_only_strictly_newer_files() {
    let mut w = Walker::new(Some(100));
    assert_eq!(w.on_entry(&file("/d/old.md", Some(99))), WalkStep::Skip);
    assert_eq!(w.on_entry(&file("/d/same.md", Some(100))), WalkStep::Skip);
    assert_eq!(w.on_entry(&file("/d/new.md", Some(101))), WalkStep::Yield);
    // a file whose time could not be read is yielded: fail open
    assert_eq!(w.on_entry(&file("/d/unknown.md", None)), WalkStep::Yield);
}

#[test]
fn walker_without_cutoff_ignores_timestamps() {
    let mut w = Walker::new(None);
    assert_eq!(w.on_entry(&file("/d/old.md", Some(0))), WalkStep::Yield);
    assert_eq!(w.on_entry(&file("/d/ancient.md", Some(-5))), WalkStep::Yield);
}
