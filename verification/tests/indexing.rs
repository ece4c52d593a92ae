//! The orchestrator's decisions: mode selection, cutoffs, watermark
//! advancement and document counting, driven as an indexing run drives them.

use shunbin::indexer::{count_added, plan_single_file, select_index_mode, Indexer};
use shunbin::path::{EntryKind, FsEntry};
use shunbin::table::Table;
use shunbin::timestamp::TimestampManager;
use shunbin::update::{plan_file_update, UpdatePlan};
use shunbin::walk::{WalkStep, Walker};

fn md_file(path: &str, modified: i64) -> FsEntry {
    FsEntry { path: path.to_string(), kind: EntryKind::File, modified: Some(modified) }
}

#[test]
fn mode_selection_follows_flags_and_store() {
    // --full always wins
    assert_eq!(select_index_mode(true, false, true), Some(false));
    assert_eq!(select_index_mode(true, false, false), Some(false));
    // --increment needs a watermark store
    assert_eq!(select_index_mode(false, true, true), Some(true));
    assert_eq!(select_index_mode(false, true, false), None);
    // with neither flag, incremental exactly when a store is available
    assert_eq!(select_index_mode(false, false, true), Some(true));
    assert_eq!(select_index_mode(false, false, false), Some(false));
}

#[test]
fn indexer_without_store_is_not_incrementable() {
    let indexer = Indexer::new(None);
    assert!(!indexer.is_incrementable());
    assert_eq!(indexer.indexed_count(), 0);
    assert_eq!(indexer.source_cutoff("docs", "notes"), None);
}

#[test]
fn cutoff_is_the_stored_watermark_in_incremental_mode() {
    let mut store = TimestampManager::new();
    store.update("docs".to_string(), "notes".to_string(), 100);
    let indexer = Indexer::new(Some(store));
    assert!(indexer.is_incrementable());
    assert_eq!(indexer.source_cutoff("docs", "notes"), Some(100));
    assert_eq!(indexer.source_cutoff("docs", "unseen"), None);
}

#[test]
fn full_mode_ignores_the_stored_watermark() {
    let mut store = TimestampManager::new();
    store.update("docs".to_string(), "notes".to_string(), 100);
    let indexer = Indexer::new(Some(store)).set_increment(false);
    assert_eq!(indexer.source_cutoff("docs", "notes"), None);
}

#[test]
fn watermark_advances_to_pass_start_time() {
    // a pass starts at 100 and commits at 130; a file changed at 120 while
    // the pass ran must be picked up by the next incremental pass
    let mut indexer = Indexer::new(Some(TimestampManager::new()));
    let start_at = 100;
    indexer.update_timestamp("docs", "notes", start_at);
    let cutoff = indexer.source_cutoff("docs", "notes");
    assert_eq!(cutoff, Some(100));
    let mut w = Walker::new(cutoff);
    assert_eq!(w.on_entry(&md_file("/data/notes/during.md", 120)), WalkStep::Yield);
    assert_eq!(w.on_entry(&md_file("/data/notes/before.md", 90)), WalkStep::Skip);
}

#[test]
fn count_accumulates_added_documents() {
    let mut indexer = Indexer::new(None);
    indexer.record_added(2);
    indexer.record_added(3);
    assert_eq!(indexer.indexed_count(), 5);
}

#[test]
fn count_added_counts_only_inserts() {
    let plans = vec![
        plan_file_update("notes", "/data/notes", "/data/notes/a.md", "# A\ntext", 1),
        plan_file_update("notes", "/data/notes", "/data/notes/empty.md", "", 1),
        plan_file_update("notes", "/data/notes", "/elsewhere/b.md", "content", 1),
    ];
    assert_eq!(count_added(&plans), 1);
}

#[test]
fn single_file_matches_only_prefixed_sources() {
    let mut sources: Table<String> = Table::new();
    sources.insert("notes".to_string(), "/data/notes".to_string());
    sources.insert("wiki".to_string(), "/data/wiki".to_string());
    let plans = plan_single_file(&sources, "/data/notes/a.md", "# A\ntext", 7);
    assert_eq!(plans.len(), 2);
    assert_eq!(plans[0].0, "notes");
    assert!(matches!(&plans[0].1, UpdatePlan::Replace { id, .. } if id == "notes:a.md"));
    assert_eq!(plans[1].0, "wiki");
    assert!(matches!(&plans[1].1, UpdatePlan::Skip));
}

#[test]
fn scenario_index_then_unchanged_incremental_rerun() {
    // index "docs", source "notes" rooted at /data/notes, one file a.md
    let mut indexer = Indexer::new(Some(TimestampManager::new()));
    let file_mtime = 50;

    // first pass, starting at 100: no watermark yet, so a full walk
    let first_start = 100;
    let cutoff = indexer.source_cutoff("docs", "notes");
    assert_eq!(cutoff, None);
    let mut w = Walker::new(cutoff);
    assert_eq!(w.on_entry(&md_file("/data/notes/a.md", file_mtime)), WalkStep::Yield);
    let plan = plan_file_update("notes", "/data/notes", "/data/notes/a.md", "# A\ntext", first_start);
    match &plan {
        UpdatePlan::Replace { id, doc } => {
            assert_eq!(id, "notes:a.md");
            assert_eq!(doc.title, "A");
        },
        _ => panic!("expected an insert"),
    }
    indexer.record_added(count_added(&vec![plan]));
    indexer.update_timestamp("docs", "notes", first_start);
    assert_eq!(indexer.indexed_count(), 1);

    // second pass, starting at 200, nothing changed: zero new documents,
    // watermark still advances
    let second_start = 200;
    let cutoff = indexer.source_cutoff("docs", "notes");
    assert_eq!(cutoff, Some(first_start));
    let mut w = Walker::new(cutoff);
    assert_eq!(w.on_entry(&md_file("/data/notes/a.md", file_mtime)), WalkStep::Skip);
    indexer.record_added(0);
    indexer.update_timestamp("docs", "notes", second_start);
    assert_eq!(indexer.indexed_count(), 1);
    assert_eq!(indexer.source_cutoff("docs", "notes"), Some(second_start));
}
