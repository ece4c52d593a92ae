//! The search result mapper: raw matches from the engine become typed
//! results, and a result's relative path resolves to an absolute one
//! against the source mapping the caller currently has configured.

use vstd::prelude::*;

use crate::table::Table;
use crate::text::{joined, join_path};

verus! {

/// One search result.
#[derive(Debug)]
pub struct Doc {
    /// The stored title.
    pub title: String,
    /// When the document was indexed, seconds since the epoch.
    pub updated_at: i64,
    /// The source name the document was indexed under.
    pub source: String,
    /// The document's path relative to its source root.
    pub path: String,
}

/// Why a search result could not be used.
#[derive(Debug)]
pub enum SearchError {
    /// The result's source name is absent from the supplied mapping — the
    /// configuration changed since the document was indexed.
    SourceNotFound { source: String, path: String },
}

impl Doc {
    /// Builds a result from the fields extracted out of one raw match:
    /// missing text fields default to the empty string, a missing or
    /// unreadable timestamp to zero — one bad field never fails a whole
    /// query.
    pub fn from_fields(
        title: Option<String>,
        path: Option<String>,
        updated_at: Option<i64>,
        source: Option<String>,
    ) -> (d: Doc)
        ensures
            d.title@ == match title {
                Some(t) => t@,
                None => Seq::<char>::empty(),
            },
            d.path@ == match path {
                Some(p) => p@,
                None => Seq::<char>::empty(),
            },
            d.updated_at == match updated_at {
                Some(t) => t,
                None => 0i64,
            },
            d.source@ == match source {
                Some(s) => s@,
                None => Seq::<char>::empty(),
            },
    {
        Doc {
            title: match title {
                Some(t) => t,
                None => String::new(),
            },
            path: match path {
                Some(p) => p,
                None => String::new(),
            },
            updated_at: match updated_at {
                Some(t) => t,
                None => 0,
            },
            source: match source {
                Some(s) => s,
                None => String::new(),
            },
        }
    }

    /// The result's absolute path: its source's root joined with its
    /// relative path. Fails exactly when the source name is absent from the
    /// supplied mapping.
    pub fn absolute_path(&self, sources: &Table<String>) -> (r: Result<String, SearchError>)
        ensures
            match r {
                Ok(p) => sources.spec_get(self.source@) matches Some(root) && p@ == joined(
                    root@,
                    self.path@,
                ),
                Err(e) => {
                    &&& sources.spec_get(self.source@) is None
                    &&& e matches SearchError::SourceNotFound { source, path } && source@
                        == self.source@ && path@ == self.path@
                },
            },
    {
        match sources.get(self.source.as_str()) {
            Some(root) => Ok(join_path(root.as_str(), self.path.as_str())),
            None => Err(
                SearchError::SourceNotFound {
                    source: self.source.clone(),
                    path: self.path.clone(),
                },
            ),
        }
    }
}

} // verus!
