//! The indexing orchestrator's decisions.
//!
//! One pass over an index works per source: record the pass start time,
//! derive the walk cutoff from the mode and the stored watermark
//! ([`Indexer::begin_source`]), drive the walker and plan one update per
//! yielded file, execute the plans and commit inside the engine's write
//! transaction, then advance the watermark to the recorded *start* time and
//! the document count by what was added ([`Indexer::update_timestamp`],
//! [`Indexer::record_added`]). The caller owns the engine and the
//! filesystem; everything decided here is decided from plain values.

use vstd::prelude::*;

use crate::table::Table;
use crate::time::now_utc_seconds;
use crate::timestamp::TimestampManager;
use crate::update::{plan_file_update, plan_of, PlanModel, UpdatePlan};

verus! {

/// Orchestrates indexing passes: counts added documents and carries the
/// watermark store, when one could be loaded.
#[derive(Debug)]
pub struct Indexer {
    tms: Option<TimestampManager>,
    count: usize,
    increment: bool,
}

impl Indexer {
    /// The watermark store, when one is available.
    pub closed spec fn spec_store(self) -> Option<TimestampManager> {
        self.tms
    }

    /// How many documents the passes so far added.
    pub closed spec fn spec_count(self) -> usize {
        self.count
    }

    /// Whether passes run incrementally.
    pub closed spec fn spec_increment(self) -> bool {
        self.increment
    }

    /// The watermark stored for (index, source), if a store is available
    /// and holds one.
    pub open spec fn spec_watermark(self, index: Seq<char>, source: Seq<char>) -> Option<i64> {
        match self.spec_store() {
            Some(m) => m.spec_timestamp(index, source),
            None => None,
        }
    }

    /// A fresh orchestrator around an optionally-loaded watermark store:
    /// nothing counted yet, incremental by default.
    pub fn new(tms: Option<TimestampManager>) -> (r: Indexer)
        ensures
            r.spec_store() == tms,
            r.spec_count() == 0,
            r.spec_increment(),
    {
        Indexer { tms, count: 0, increment: true }
    }

    /// Selects full (`false`) or incremental (`true`) passes.
    pub fn set_increment(self, increment: bool) -> (r: Indexer)
        ensures
            r.spec_store() == self.spec_store(),
            r.spec_count() == self.spec_count(),
            r.spec_increment() == increment,
    {
        Indexer { increment, ..self }
    }

    /// Whether incremental passes are possible: a watermark store is
    /// available.
    pub fn is_incrementable(&self) -> (r: bool)
        ensures
            r == (self.spec_store() is Some),
    {
        self.tms.is_some()
    }

    /// How many documents the passes so far added.
    pub fn indexed_count(&self) -> (r: usize)
        ensures
            r == self.spec_count(),
    {
        self.count
    }

    /// The walk cutoff for one source: the stored watermark in incremental
    /// mode, nothing in full mode — a full pass ignores any watermark.
    pub fn source_cutoff(&self, index_name: &str, source_name: &str) -> (r: Option<i64>)
        ensures
            r == (if self.spec_increment() {
                self.spec_watermark(index_name@, source_name@)
            } else {
                None::<i64>
            }),
    {
        if !self.increment {
            return None;
        }
        match &self.tms {
            Some(m) => m.get_timestamp(index_name, source_name),
            None => None,
        }
    }

    /// Opens one source's pass: records the wall-clock start time — the
    /// value the watermark will be advanced to once the source commits —
    /// and derives the walk cutoff.
    pub fn begin_source(&self, index_name: &str, source_name: &str) -> (r: (i64, Option<i64>))
        ensures
            r.1 == (if self.spec_increment() {
                self.spec_watermark(index_name@, source_name@)
            } else {
                None::<i64>
            }),
    {
        let start_at = now_utc_seconds();
        let cutoff = self.source_cutoff(index_name, source_name);
        (start_at, cutoff)
    }

    /// Advances the watermark of (index, source) to `start_at` — the pass
    /// *start* time recorded by `begin_source`, not the completion time, so
    /// a file modified while the pass ran falls after the new watermark and
    /// is picked up by the next incremental pass. Without a store this does
    /// nothing; the caller persists the store afterwards and treats a
    /// persistence failure as non-fatal.
    pub fn update_timestamp(&mut self, index_name: &str, source_name: &str, start_at: i64)
        ensures
            final(self).spec_count() == old(self).spec_count(),
            final(self).spec_increment() == old(self).spec_increment(),
            final(self).spec_store() is Some <==> old(self).spec_store() is Some,
            old(self).spec_store() is Some ==> {
                &&& final(self).spec_watermark(index_name@, source_name@) == Some(start_at)
                &&& forall|i2: Seq<char>, s2: Seq<char>|
                    !(i2 == index_name@ && s2 == source_name@)
                        ==> #[trigger] final(self).spec_watermark(i2, s2) == old(
                        self,
                    ).spec_watermark(i2, s2)
            },
            old(self).spec_store() is None ==> final(self).spec_store() == old(self).spec_store(),
    {
        match &mut self.tms {
            Some(m) => {
                m.update(String::from_str(index_name), String::from_str(source_name), start_at);
            },
            None => {},
        }
    }

    /// Accumulates the documents one source's pass added.
    pub fn record_added(&mut self, added: usize)
        requires
            old(self).spec_count() + added <= usize::MAX,
        ensures
            final(self).spec_count() == old(self).spec_count() + added,
            final(self).spec_increment() == old(self).spec_increment(),
            final(self).spec_store() == old(self).spec_store(),
    {
        self.count = self.count + added;
    }

    /// A snapshot of the watermark store, for the caller to persist.
    pub fn store(&self) -> (r: &Option<TimestampManager>)
        ensures
            *r == self.spec_store(),
    {
        &self.tms
    }
}

/// How one run resolves the `--full` / `--increment` flags against watermark
/// availability: `--full` forces full passes; `--increment` asks for
/// incremental ones and is an error (`None`) when no watermark store is
/// available; with neither flag, incremental passes run exactly when a store
/// is available.
pub fn select_index_mode(full: bool, increment: bool, incrementable: bool) -> (r: Option<bool>)
    ensures
        r == (if full {
            Some(false)
        } else if increment {
            if incrementable {
                Some(true)
            } else {
                None::<bool>
            }
        } else {
            Some(incrementable)
        }),
{
    if full {
        Some(false)
    } else if increment {
        if incrementable {
            Some(true)
        } else {
            None
        }
    } else {
        Some(incrementable)
    }
}

/// How many documents a batch of plans adds: its `Replace` plans.
pub open spec fn count_replaces(plans: Seq<PlanModel>) -> int
    decreases plans.len(),
{
    if plans.len() == 0 {
        0
    } else {
        count_replaces(plans.drop_last()) + (if plans.last() is Replace {
            1int
        } else {
            0int
        })
    }
}

/// Counts the documents a batch of plans adds.
pub fn count_added(plans: &Vec<UpdatePlan>) -> (r: usize)
    ensures
        r == count_replaces(plans@.map_values(|p: UpdatePlan| p@)),
{
    let n = plans.len();
    let mut r: usize = 0;
    let mut i: usize = 0;
    proof {
        assert(plans@.map_values(|p: UpdatePlan| p@).take(0) =~= Seq::<PlanModel>::empty());
    }
    while i < n
        invariant
            i <= n,
            n == plans@.len(),
            r <= i,
            r == count_replaces(plans@.map_values(|p: UpdatePlan| p@).take(i as int)),
        decreases n - i,
    {
        let is_replace = match &plans[i] {
            UpdatePlan::Replace { .. } => true,
            _ => false,
        };
        proof {
            let m = plans@.map_values(|p: UpdatePlan| p@);
            assert(m.take(i as int + 1).drop_last() =~= m.take(i as int));
            assert(m.take(i as int + 1).last() == m[i as int]);
        }
        if is_replace {
            r += 1;
        }
        i += 1;
    }
    proof {
        let m = plans@.map_values(|p: UpdatePlan| p@);
        assert(m.take(n as int) =~= m);
    }
    r
}

/// The single-file entry point's decision: one update plan per configured
/// source, in configuration order — the file only matches the sources whose
/// root is a prefix of its path; for the rest the plan is `Skip`. The caller
/// executes each non-`Skip` plan and commits when a document was added.
pub fn plan_single_file(
    sources: &Table<String>,
    path: &str,
    content: &str,
    now: i64,
) -> (r: Vec<(String, UpdatePlan)>)
    ensures
        r@.len() == sources.entries_view().len(),
        forall|i: int|
            0 <= i < r@.len() ==> {
                &&& (#[trigger] r@[i]).0@ == sources.entries_view()[i].0
                &&& r@[i].1@ == plan_of(
                    sources.entries_view()[i].0,
                    sources.entries_view()[i].1@,
                    path@,
                    content@,
                    now,
                )
            },
{
    let n = sources.len();
    let mut r: Vec<(String, UpdatePlan)> = Vec::new();
    let mut i: usize = 0;
    while i < n
        invariant
            i <= n,
            n == sources.entries_view().len(),
            r@.len() == i,
            forall|j: int|
                0 <= j < i ==> {
                    &&& (#[trigger] r@[j]).0@ == sources.entries_view()[j].0
                    &&& r@[j].1@ == plan_of(
                        sources.entries_view()[j].0,
                        sources.entries_view()[j].1@,
                        path@,
                        content@,
                        now,
                    )
                },
        decreases n - i,
    {
        let name = sources.key_at(i);
        let root = sources.value_at(i);
        let plan = plan_file_update(name.as_str(), root.as_str(), path, content, now);
        r.push((name.clone(), plan));
        i += 1;
    }
    r
}

} // verus!
