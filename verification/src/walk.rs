//! The recursive source walker, as a decision machine.
//!
//! The caller owns the directory cursors: it reads entries with
//! `read_dir`, describes each one as an [`FsEntry`](crate::path::FsEntry)
//! and asks [`Walker::on_entry`] what to do with it. Hidden entries are
//! skipped, directories are queued for later traversal (breadth-first),
//! non-indexable files are skipped, and — when a cutoff is set — so is any
//! file whose modification time is not strictly greater than the cutoff.
//! A file whose modification time could not be read is yielded: silently
//! dropping a file from indexing is worse than a harmless re-index. When a
//! directory cursor is exhausted the caller asks [`Walker::next_dir`] for
//! the next queued directory; `None` means the walk is complete.

use vstd::prelude::*;

use crate::path::{is_hidden_path, is_index_target_path, EntryKind, FsEntry, PathExt};
use std::collections::VecDeque;

verus! {

/// What the walker does with one enumerated entry.
#[derive(Clone, Copy, Debug, PartialEq, Eq, Structural)]
pub enum WalkStep {
    /// The entry is an indexable file within the requested window.
    Yield,
    /// The entry is a directory that was queued for later traversal.
    Descend,
    /// The entry takes no part in the walk.
    Skip,
}

/// The walker's whole behaviour on one entry, given the optional
/// modification-time cutoff.
pub open spec fn walk_decision(
    path: Seq<char>,
    kind: EntryKind,
    modified: Option<i64>,
    cutoff: Option<i64>,
) -> WalkStep {
    if is_hidden_path(path) {
        WalkStep::Skip
    } else if kind is Dir {
        WalkStep::Descend
    } else if !is_index_target_path(path, kind) {
        WalkStep::Skip
    } else if cutoff matches Some(t) && modified matches Some(m) && m <= t {
        WalkStep::Skip
    } else {
        WalkStep::Yield
    }
}

/// State of one walk: the queue of directories still to be read, and the
/// cutoff the walk was started with.
#[derive(Debug)]
pub struct Walker {
    pending: VecDeque<String>,
    cutoff: Option<i64>,
}

impl Walker {
    /// The queued directories, oldest first.
    pub closed spec fn pending_dirs(self) -> Seq<Seq<char>> {
        self.pending@.map_values(|d: String| d@)
    }

    /// The cutoff the walk was started with.
    pub closed spec fn cutoff_time(self) -> Option<i64> {
        self.cutoff
    }

    /// Every queued directory is non-hidden: hidden directories are skipped
    /// before they can be queued, so nothing below one is ever enumerated.
    pub closed spec fn wf(self) -> bool {
        forall|i: int|
            0 <= i < self.pending_dirs().len() ==> !is_hidden_path(#[trigger] self.pending_dirs()[i])
    }

    /// Starts a walk. `cutoff` is the stored watermark in incremental mode
    /// and `None` in full mode.
    pub fn new(cutoff: Option<i64>) -> (w: Walker)
        ensures
            w.cutoff_time() == cutoff,
            w.pending_dirs() =~= Seq::<Seq<char>>::empty(),
            w.wf(),
    {
        Walker { pending: VecDeque::new(), cutoff }
    }

    /// Classifies one enumerated entry, queueing it when it is a
    /// non-hidden directory.
    pub fn on_entry(&mut self, e: &FsEntry) -> (r: WalkStep)
        ensures
            r == walk_decision(e.path@, e.kind, e.modified, old(self).cutoff_time()),
            final(self).cutoff_time() == old(self).cutoff_time(),
            r is Descend ==> final(self).pending_dirs() =~= old(self).pending_dirs().push(
                e.path@,
            ),
            !(r is Descend) ==> final(self).pending_dirs() =~= old(self).pending_dirs(),
            old(self).wf() ==> final(self).wf(),
    {
        if e.is_hidden() {
            return WalkStep::Skip;
        }
        let is_dir = match e.kind {
            EntryKind::Dir => true,
            _ => false,
        };
        if is_dir {
            self.pending.push_back(e.path.clone());
            proof {
                assert(self.pending_dirs() =~= old(self).pending_dirs().push(e.path@));
            }
            return WalkStep::Descend;
        }
        if !e.is_index_target() {
            return WalkStep::Skip;
        }
        if let Some(t) = self.cutoff {
            if let Some(m) = e.modified {
                if m <= t {
                    return WalkStep::Skip;
                }
            }
        }
        WalkStep::Yield
    }

    /// Hands out the next queued directory once the current cursor is
    /// exhausted; `None` means the walk is complete.
    pub fn next_dir(&mut self) -> (r: Option<String>)
        ensures
            final(self).cutoff_time() == old(self).cutoff_time(),
            match r {
                None => {
                    &&& old(self).pending_dirs().len() == 0
                    &&& final(self).pending_dirs() =~= old(self).pending_dirs()
                },
                Some(d) => {
                    &&& old(self).pending_dirs().len() > 0
                    &&& d@ == old(self).pending_dirs()[0]
                    &&& final(self).pending_dirs() =~= old(self).pending_dirs().drop_first()
                },
            },
            old(self).wf() ==> final(self).wf(),
            old(self).wf() ==> (r matches Some(d) ==> !is_hidden_path(d@)),
    {
        let r = self.pending.pop_front();
        proof {
            if r is Some {
                assert(self.pending_dirs() =~= old(self).pending_dirs().drop_first());
            }
        }
        r
    }
}

/// A hidden entry — file or directory — never takes part in a walk,
/// whatever its extension or timestamp.
pub proof fn lemma_hidden_never_yielded(
    path: Seq<char>,
    kind: EntryKind,
    modified: Option<i64>,
    cutoff: Option<i64>,
)
    requires
        is_hidden_path(path),
    ensures
        walk_decision(path, kind, modified, cutoff) is Skip,
{
}

/// With cutoff `t`, an entry is yielded exactly when it is an index target
/// whose modification time is strictly greater than `t` or could not be
/// read (fail open).
pub proof fn lemma_incremental_yield(
    path: Seq<char>,
    kind: EntryKind,
    modified: Option<i64>,
    t: i64,
)
    ensures
        walk_decision(path, kind, modified, Some(t)) is Yield <==> (is_index_target_path(
            path,
            kind,
        ) && match modified {
            Some(m) => m > t,
            None => true,
        }),
{
}

/// Without a cutoff — full mode — every index target is yielded, whatever
/// any stored watermark says.
pub proof fn lemma_full_mode_yields(path: Seq<char>, kind: EntryKind, modified: Option<i64>)
    ensures
        walk_decision(path, kind, modified, None) is Yield <==> is_index_target_path(path, kind),
{
}

/// An indexable file modified strictly after a pass's start time is yielded
/// by the next incremental pass whose cutoff is that start time: advancing
/// the watermark to the pass start (not its completion) loses no file that
/// changed while the pass ran.
pub proof fn lemma_pass_start_no_omission(path: Seq<char>, kind: EntryKind, m: i64, start: i64)
    requires
        is_index_target_path(path, kind),
        m > start,
    ensures
        walk_decision(path, kind, Some(m), Some(start)) is Yield,
{
}

} // verus!
