//! Title derivation, relative paths, document identifiers and update plans
//! on concrete inputs.

use shunbin::update::{derive_title, document_id, plan_file_update, relative_path, UpdatePlan};

#[test]
fn title_strips_heading_markers() {
    assert_eq!(derive_title("# Hello World\nbody..."), "Hello World");
    assert_eq!(derive_title("No heading\n..."), "No heading");
}

#[test]
fn title_edge_cases() {
    assert_eq!(derive_title("### deep heading\nrest"), "deep heading");
    assert_eq!(derive_title("#tight\nrest"), "tight");
    assert_eq!(derive_title("  spaced  \nrest"), "spaced");
    assert_eq!(derive_title("single line only"), "single line only");
    assert_eq!(derive_title("\nbody"), "");
    assert_eq!(derive_title("# windows line\r\nbody"), "windows line");
    assert_eq!(derive_title("###\nbody"), "");
    assert_eq!(derive_title(""), "");
}

#[test]
fn relative_path_strips_root_and_separators() {
    assert_eq!(relative_path("/data/notes/a.md", "/data/notes").as_deref(), Some("a.md"));
    assert_eq!(relative_path("/data/notes/sub/b.md", "/data/notes").as_deref(), Some("sub/b.md"));
    assert_eq!(relative_path("/data/notes/a.md", "/data/notes/").as_deref(), Some("a.md"));
    assert_eq!(relative_path("/data/other/a.md", "/data/notes"), None);
}

#[test]
fn document_id_qualifies_by_source() {
    assert_eq!(
        document_id("notes", "/data/notes", "/data/notes/a.md").as_deref(),
        Some("notes:a.md")
    );
    assert_eq!(document_id("notes", "/data/notes", "/elsewhere/a.md"), None);
}

#[test]
fn plan_skips_file_outside_root() {
    let plan = plan_file_update("notes", "/data/notes", "/elsewhere/a.md", "# A\ntext", 42);
    assert!(matches!(plan, UpdatePlan::Skip));
}

#[test]
fn plan_removes_document_of_emptied_file() {
    let plan = plan_file_update("notes", "/data/notes", "/data/notes/a.md", "", 42);
    match plan {
        UpdatePlan::Remove { id } => assert_eq!(id, "notes:a.md"),
        _ => panic!("expected a bare delete for empty content"),
    }
}

#[test]
fn plan_replaces_document_of_changed_file() {
    let plan = plan_file_update("notes", "/data/notes", "/data/notes/a.md", "# A\ntext", 42);
    match plan {
        UpdatePlan::Replace { id, doc } => {
            assert_eq!(id, "notes:a.md");
            assert_eq!(doc.id, "notes:a.md");
            assert_eq!(doc.title, "A");
            assert_eq!(doc.body, "# A\ntext");
            assert_eq!(doc.source, "notes");
            assert_eq!(doc.path, "a.md");
            assert_eq!(doc.updated_at, 42);
        },
        _ => panic!("expected a delete-then-insert for non-empty content"),
    }
}

#[test]
fn reindexing_keeps_one_document_per_identifier() {
    // the same file planned twice with different content names the same
    // identifier both times, so the second plan's delete covers the first
    // plan's insert
    let first = plan_file_update("notes", "/data/notes", "/data/notes/a.md", "old", 1);
    let second = plan_file_update("notes", "/data/notes", "/data/notes/a.md", "new text", 2);
    let id_of = |p: &UpdatePlan| match p {
        UpdatePlan::Replace { id, .. } => id.clone(),
        _ => panic!("expected inserts"),
    };
    assert_eq!(id_of(&first), id_of(&second));
}
