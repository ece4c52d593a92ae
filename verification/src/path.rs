//! Path classification: which filesystem entries are eligible for indexing.
//!
//! An entry is described to the library as an [`FsEntry`]: its path as a
//! string, what kind of object a `stat` of it reported, and its
//! last-modified time in seconds when that could be read. The predicates
//! here are pure; the caller performs the `stat` calls and degrades any
//! failure to `EntryKind::Other` / `modified == None`, so that a failure
//! makes an entry ineligible rather than aborting a traversal.

use vstd::prelude::*;

verus! {

/// What a `stat` of the entry reported: a regular file, a directory, or
/// anything else (special files, broken links, or a failed `stat`).
#[derive(Clone, Copy, Debug)]
pub enum EntryKind {
    File,
    Dir,
    Other,
}

/// One filesystem entry as the walker and classifier see it.
#[derive(Debug)]
pub struct FsEntry {
    /// The full path of the entry.
    pub path: String,
    /// What kind of object the entry is.
    pub kind: EntryKind,
    /// Last-modified time in seconds since the epoch, when it could be read.
    pub modified: Option<i64>,
}

/// Index at which the final path segment starts: just after the last `/`,
/// or 0 when the path holds no separator.
pub open spec fn name_start(s: Seq<char>) -> int
    decreases s.len(),
{
    if s.len() == 0 {
        0
    } else if s.last() == '/' {
        s.len() as int
    } else {
        name_start(s.drop_last())
    }
}

/// The final segment of a path: the characters after its last `/`.
pub open spec fn file_name_of(s: Seq<char>) -> Seq<char> {
    s.subrange(name_start(s), s.len() as int)
}

/// A path is hidden when its final segment starts with a dot.
pub open spec fn is_hidden_path(s: Seq<char>) -> bool {
    file_name_of(s).len() > 0 && file_name_of(s)[0] == '.'
}

/// Index of the dot that starts the extension of a file name, or 0 when the
/// name has no extension. A dot at index 0 (a hidden-style name) does not
/// start an extension.
pub open spec fn ext_start(n: Seq<char>) -> int
    decreases n.len(),
{
    if n.len() <= 1 {
        0
    } else if n.last() == '.' {
        n.len() - 1
    } else {
        ext_start(n.drop_last())
    }
}

pub proof fn lemma_ext_start_bounds(n: Seq<char>)
    ensures
        0 <= ext_start(n) < n.len() || (n.len() == 0 && ext_start(n) == 0),
    decreases n.len(),
{
    if n.len() > 1 && n.last() != '.' {
        lemma_ext_start_bounds(n.drop_last());
    }
}

/// The extension of a file name: what follows its final dot, provided that
/// dot is not the leading character.
pub open spec fn extension_of(n: Seq<char>) -> Option<Seq<char>> {
    if ext_start(n) == 0 {
        None
    } else {
        Some(n.subrange(ext_start(n) + 1, n.len() as int))
    }
}

/// The extension allow-list: markdown and plain text.
pub open spec fn is_md_or_txt(e: Seq<char>) -> bool {
    e == "md"@ || e == "txt"@
}

/// An entry is an index target when it is a regular, non-hidden file whose
/// extension is on the allow-list.
pub open spec fn is_index_target_path(path: Seq<char>, kind: EntryKind) -> bool {
    &&& kind is File
    &&& !is_hidden_path(path)
    &&& match extension_of(file_name_of(path)) {
        Some(e) => is_md_or_txt(e),
        None => false,
    }
}

/// The classifier predicates, as paths offer them.
pub trait PathExt {
    /// The characters of the entry's path.
    spec fn path_chars(&self) -> Seq<char>;

    /// What kind of object the entry is.
    spec fn entry_kind(&self) -> EntryKind;

    /// Whether the final path segment starts with a dot.
    fn is_hidden(&self) -> (r: bool)
        ensures
            r == is_hidden_path(self.path_chars()),
    ;

    /// Whether the entry is a regular file that is not hidden.
    fn is_regular_file(&self) -> (r: bool)
        ensures
            r == (self.entry_kind() is File && !is_hidden_path(self.path_chars())),
    ;

    /// Whether the entry is a regular, non-hidden file with an allow-listed
    /// extension.
    fn is_index_target(&self) -> (r: bool)
        ensures
            r == is_index_target_path(self.path_chars(), self.entry_kind()),
    ;
}

/// Index at which the final segment of `s` starts.
fn name_start_exec(s: &str) -> (k: usize)
    ensures
        k == name_start(s@),
        k <= s@.len(),
{
    let n = s.unicode_len();
    let mut j = n;
    proof {
        assert(s@.take(n as int) =~= s@);
    }
    while j > 0
        invariant
            j <= n,
            n == s@.len(),
            name_start(s@) == name_start(s@.take(j as int)),
        decreases j,
    {
        if s.get_char(j - 1) == '/' {
            proof {
                assert(s@.take(j as int).last() == '/');
            }
            return j;
        }
        proof {
            assert(s@.take(j as int).drop_last() =~= s@.take(j as int - 1));
        }
        j -= 1;
    }
    proof {
        assert(s@.take(0) =~= Seq::<char>::empty());
    }
    0
}

/// Index of the extension dot of the name `n`, or 0 when there is none.
fn ext_start_exec(n: &str) -> (e: usize)
    ensures
        e == ext_start(n@),
{
    let len = n.unicode_len();
    if len <= 1 {
        return 0;
    }
    let mut j = len;
    proof {
        assert(n@.take(len as int) =~= n@);
    }
    while j > 1
        invariant
            1 <= j <= len,
            len == n@.len(),
            ext_start(n@) == ext_start(n@.take(j as int)),
        decreases j,
    {
        if n.get_char(j - 1) == '.' {
            proof {
                assert(n@.take(j as int).last() == '.');
            }
            return j - 1;
        }
        proof {
            assert(n@.take(j as int).drop_last() =~= n@.take(j as int - 1));
        }
        j -= 1;
    }
    proof {
        assert(n@.take(1).len() == 1);
    }
    0
}

impl PathExt for FsEntry {
    open spec fn path_chars(&self) -> Seq<char> {
        self.path@
    }

    open spec fn entry_kind(&self) -> EntryKind {
        self.kind
    }

    fn is_hidden(&self) -> (r: bool)
    {
        let s = self.path.as_str();
        let n = s.unicode_len();
        let k = name_start_exec(s);
        k < n && s.get_char(k) == '.'
    }

    fn is_regular_file(&self) -> (r: bool)
    {
        let is_file = match self.kind {
            EntryKind::File => true,
            _ => false,
        };
        is_file && !self.is_hidden()
    }

    fn is_index_target(&self) -> (r: bool)
    {
        if !self.is_regular_file() {
            return false;
        }
        let s = self.path.as_str();
        let n = s.unicode_len();
        let k = name_start_exec(s);
        let name = s.substring_char(k, n);
        proof {
            assert(name@ == file_name_of(self.path@));
        }
        let name_len = name.unicode_len();
        let e = ext_start_exec(name);
        if e == 0 {
            return false;
        }
        proof {
            lemma_ext_start_bounds(name@);
        }
        let ext = name.substring_char(e + 1, name_len);
        crate::text::str_eq(ext, "md") || crate::text::str_eq(ext, "txt")
    }
}

} // verus!
