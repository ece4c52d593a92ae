//! Document identity and update planning.
//!
//! Given one file of one source, this module computes the file's path
//! relative to the source root, its stable document identifier
//! `"<source>:<relative-path>"`, and the title derived from its first line,
//! and turns them into an [`UpdatePlan`]: the delete-then-insert update the
//! caller must run against the engine's pending write transaction. The
//! module also models the engine's document store as a sequence and proves
//! that executing a plan never leaves duplicates, and that an emptied file
//! removes its previous document.

use vstd::prelude::*;

use crate::text::{drop_while, drop_while_end, lemma_drop_while_skip, lemma_drop_while_end_take,
    str_has_prefix};

verus! {

/// The characters `str::trim` removes: Unicode white space.
pub open spec fn is_ws_char(c: char) -> bool {
    ||| c == ' '
    ||| c == '\t'
    ||| c == '\n'
    ||| c == '\u{000B}'
    ||| c == '\u{000C}'
    ||| c == '\r'
    ||| c == '\u{0085}'
    ||| c == '\u{00A0}'
    ||| c == '\u{1680}'
    ||| c == '\u{2000}'
    ||| c == '\u{2001}'
    ||| c == '\u{2002}'
    ||| c == '\u{2003}'
    ||| c == '\u{2004}'
    ||| c == '\u{2005}'
    ||| c == '\u{2006}'
    ||| c == '\u{2007}'
    ||| c == '\u{2008}'
    ||| c == '\u{2009}'
    ||| c == '\u{200A}'
    ||| c == '\u{2028}'
    ||| c == '\u{2029}'
    ||| c == '\u{202F}'
    ||| c == '\u{205F}'
    ||| c == '\u{3000}'
}

/// Whether `c` is Unicode white space.
pub fn is_ws(c: char) -> (r: bool)
    ensures
        r == is_ws_char(c),
{
    c == ' ' || c == '\t' || c == '\n' || c == '\u{000B}' || c == '\u{000C}' || c == '\r'
        || c == '\u{0085}' || c == '\u{00A0}' || c == '\u{1680}' || c == '\u{2000}'
        || c == '\u{2001}' || c == '\u{2002}' || c == '\u{2003}' || c == '\u{2004}'
        || c == '\u{2005}' || c == '\u{2006}' || c == '\u{2007}' || c == '\u{2008}'
        || c == '\u{2009}' || c == '\u{200A}' || c == '\u{2028}' || c == '\u{2029}'
        || c == '\u{202F}' || c == '\u{205F}' || c == '\u{3000}'
}

/// The path of a file relative to a source root: defined when the root is a
/// string prefix of the path, as the remainder with leading separators
/// stripped.
pub open spec fn rel_path_of(path: Seq<char>, root: Seq<char>) -> Option<Seq<char>> {
    if root.is_prefix_of(path) {
        Some(drop_while(path.skip(root.len() as int), |c: char| c == '/'))
    } else {
        None
    }
}

/// The stable document identifier of a file: `"<source>:<relative-path>"`.
pub open spec fn doc_id_of(source: Seq<char>, rel: Seq<char>) -> Seq<char> {
    source + seq![':'] + rel
}

/// The characters of `c` before its first newline.
pub open spec fn before_newline(c: Seq<char>) -> Seq<char>
    decreases c.len(),
{
    if c.len() == 0 {
        c
    } else if c[0] == '\n' {
        Seq::empty()
    } else {
        seq![c[0]] + before_newline(c.drop_first())
    }
}

/// `before_newline` keeps exactly the first `k` characters when no newline
/// stands among them and the character after them (if any) is a newline.
pub proof fn lemma_before_newline_take(c: Seq<char>, k: int)
    requires
        0 <= k <= c.len(),
        forall|j: int| 0 <= j < k ==> c[j] != '\n',
        k < c.len() ==> c[k] == '\n',
    ensures
        before_newline(c) =~= c.take(k),
    decreases k,
{
    if k == 0 {
        assert(c.take(0) =~= Seq::<char>::empty());
        if c.len() > 0 {
            assert(before_newline(c) =~= Seq::<char>::empty());
        }
    } else {
        lemma_before_newline_take(c.drop_first(), k - 1);
        assert(seq![c[0]] + c.drop_first().take(k - 1) =~= c.take(k));
    }
}

/// The first line of a file: the characters before its first newline, with
/// a trailing carriage return removed.
pub open spec fn first_line_of(c: Seq<char>) -> Seq<char> {
    let l = before_newline(c);
    if l.len() > 0 && l.last() == '\r' {
        l.drop_last()
    } else {
        l
    }
}

/// The title derived from a file's content: its first line with all leading
/// `#` heading markers stripped and surrounding white space trimmed.
pub open spec fn title_of(c: Seq<char>) -> Seq<char> {
    let unhashed = drop_while(first_line_of(c), |ch: char| ch == '#');
    drop_while_end(drop_while(unhashed, |ch: char| is_ws_char(ch)), |ch: char| is_ws_char(ch))
}

/// One document as handed to the engine: every field a plain value.
#[derive(Debug)]
pub struct IndexedDocument {
    /// Derived title (stored by the engine).
    pub title: String,
    /// Full file content.
    pub body: String,
    /// Raw source name.
    pub source: String,
    /// Path relative to the source root.
    pub path: String,
    /// Indexing timestamp, seconds since the epoch.
    pub updated_at: i64,
    /// The document identifier, `"<source>:<relative-path>"`.
    pub id: String,
}

/// Mathematical image of an [`IndexedDocument`].
pub struct DocModel {
    pub title: Seq<char>,
    pub body: Seq<char>,
    pub source: Seq<char>,
    pub path: Seq<char>,
    pub updated_at: i64,
    pub id: Seq<char>,
}

impl View for IndexedDocument {
    type V = DocModel;

    open spec fn view(&self) -> DocModel {
        DocModel {
            title: self.title@,
            body: self.body@,
            source: self.source@,
            path: self.path@,
            updated_at: self.updated_at,
            id: self.id@,
        }
    }
}

/// The update one file asks of the engine's pending write transaction.
#[derive(Debug)]
pub enum UpdatePlan {
    /// The file lies outside the source root: nothing to do for this source.
    Skip,
    /// The file is empty: delete any document stored under `id`.
    Remove { id: String },
    /// Delete any document stored under `id`, then insert `doc`.
    Replace { id: String, doc: IndexedDocument },
}

/// Mathematical image of an [`UpdatePlan`].
pub enum PlanModel {
    Skip,
    Remove { id: Seq<char> },
    Replace { id: Seq<char>, doc: DocModel },
}

impl View for UpdatePlan {
    type V = PlanModel;

    open spec fn view(&self) -> PlanModel {
        match self {
            UpdatePlan::Skip => PlanModel::Skip,
            UpdatePlan::Remove { id } => PlanModel::Remove { id: id@ },
            UpdatePlan::Replace { id, doc } => PlanModel::Replace { id: id@, doc: doc@ },
        }
    }
}

/// The whole update decided by one file of one source: skip when the path
/// cannot be expressed relative to the root, a bare delete when the content
/// is empty, and a delete-then-insert otherwise.
pub open spec fn plan_of(
    source: Seq<char>,
    root: Seq<char>,
    path: Seq<char>,
    content: Seq<char>,
    now: i64,
) -> PlanModel {
    match rel_path_of(path, root) {
        None => PlanModel::Skip,
        Some(rel) => {
            let id = doc_id_of(source, rel);
            if content.len() == 0 {
                PlanModel::Remove { id }
            } else {
                PlanModel::Replace {
                    id,
                    doc: DocModel {
                        title: title_of(content),
                        body: content,
                        source,
                        path: rel,
                        updated_at: now,
                        id,
                    },
                }
            }
        },
    }
}

/// The path of `path` relative to `root`, when `root` is a prefix of it.
pub fn relative_path(path: &str, root: &str) -> (r: Option<String>)
    ensures
        match r {
            Some(s) => rel_path_of(path@, root@) == Some(s@),
            None => rel_path_of(path@, root@) is None,
        },
{
    if !str_has_prefix(path, root) {
        return None;
    }
    let n = path.unicode_len();
    let nr = root.unicode_len();
    let mut s = nr;
    while s < n && path.get_char(s) == '/'
        invariant
            nr <= s <= n,
            n == path@.len(),
            nr == root@.len(),
            forall|j: int| nr <= j < s ==> path@[j] == '/',
        decreases n - s,
    {
        s += 1;
    }
    proof {
        let tail = path@.skip(nr as int);
        lemma_drop_while_skip(tail, |c: char| c == '/', s - nr);
        assert(tail.skip(s - nr) =~= path@.subrange(s as int, n as int));
    }
    Some(String::from_str(path.substring_char(s, n)))
}

/// The document identifier of `path` under `source_name`, when the path
/// lies under `root`.
pub fn document_id(source_name: &str, root: &str, path: &str) -> (r: Option<String>)
    ensures
        match r {
            Some(id) => rel_path_of(path@, root@) matches Some(rel) && id@ == doc_id_of(
                source_name@,
                rel,
            ),
            None => rel_path_of(path@, root@) is None,
        },
{
    match relative_path(path, root) {
        None => None,
        Some(rel) => {
            proof {
                reveal_strlit(":");
            }
            let mut id = String::from_str(source_name);
            id.append(":");
            id.append(rel.as_str());
            proof {
                assert(id@ =~= doc_id_of(source_name@, rel@));
            }
            Some(id)
        },
    }
}

/// The title of `content`: its first line, with leading `#` markers and
/// surrounding white space removed.
pub fn derive_title(content: &str) -> (r: String)
    ensures
        r@ == title_of(content@),
{
    let n = content.unicode_len();
    let mut k: usize = 0;
    while k < n && content.get_char(k) != '\n'
        invariant
            k <= n,
            n == content@.len(),
            forall|j: int| 0 <= j < k ==> content@[j] != '\n',
        decreases n - k,
    {
        k += 1;
    }
    proof {
        lemma_before_newline_take(content@, k as int);
    }
    let mut e = k;
    if e > 0 && content.get_char(e - 1) == '\r' {
        e -= 1;
        proof {
            assert(content@.take(k as int).drop_last() =~= content@.take(e as int));
        }
    }
    // content@.take(e) is now the first line
    let ghost line = first_line_of(content@);
    proof {
        assert(line =~= content@.take(e as int));
    }
    let mut s: usize = 0;
    while s < e && content.get_char(s) == '#'
        invariant
            s <= e,
            e <= n,
            n == content@.len(),
            forall|j: int| 0 <= j < s ==> content@[j] == '#',
        decreases e - s,
    {
        s += 1;
    }
    let ghost unhashed = drop_while(line, |ch: char| ch == '#');
    proof {
        lemma_drop_while_skip(line, |ch: char| ch == '#', s as int);
        assert(line.skip(s as int) =~= content@.subrange(s as int, e as int));
    }
    // content@.subrange(s, e) is the line without its heading markers
    let mut t = s;
    while t < e && is_ws(content.get_char(t))
        invariant
            s <= t <= e,
            e <= n,
            n == content@.len(),
            forall|j: int| s <= j < t ==> is_ws_char(content@[j]),
        decreases e - t,
    {
        t += 1;
    }
    let ghost led = drop_while(unhashed, |ch: char| is_ws_char(ch));
    proof {
        lemma_drop_while_skip(unhashed, |ch: char| is_ws_char(ch), t - s);
        assert(unhashed.skip(t - s) =~= content@.subrange(t as int, e as int));
    }
    let mut f = e;
    while f > t && is_ws(content.get_char(f - 1))
        invariant
            t <= f <= e,
            e <= n,
            n == content@.len(),
            forall|j: int| f <= j < e ==> is_ws_char(content@[j]),
        decreases f,
    {
        f -= 1;
    }
    proof {
        lemma_drop_while_end_take(led, |ch: char| is_ws_char(ch), f - t);
        assert(led.take(f - t) =~= content@.subrange(t as int, f as int));
    }
    String::from_str(content.substring_char(t, f))
}

/// The update plan for one file of one source, from the already-read
/// content. The caller reads the file and executes the plan inside the
/// engine's write transaction.
pub fn plan_file_update(
    source_name: &str,
    root: &str,
    path: &str,
    content: &str,
    now: i64,
) -> (r: UpdatePlan)
    ensures
        r@ == plan_of(source_name@, root@, path@, content@, now),
{
    let rel = match relative_path(path, root) {
        None => {
            return UpdatePlan::Skip;
        },
        Some(rel) => rel,
    };
    proof {
        reveal_strlit(":");
    }
    let mut id = String::from_str(source_name);
    id.append(":");
    id.append(rel.as_str());
    proof {
        assert(id@ =~= doc_id_of(source_name@, rel@));
    }
    if content.unicode_len() == 0 {
        proof {
            assert(content@ =~= Seq::<char>::empty());
        }
        return UpdatePlan::Remove { id };
    }
    let title = derive_title(content);
    let doc = IndexedDocument {
        title,
        body: String::from_str(content),
        source: String::from_str(source_name),
        path: rel,
        updated_at: now,
        id: id.clone(),
    };
    UpdatePlan::Replace { id, doc }
}

// ---------------------------------------------------------------------------
// Model of the engine's document store.
// ---------------------------------------------------------------------------

/// The documents of `docs` stored under `id`.
pub open spec fn docs_with_id(docs: Seq<DocModel>, id: Seq<char>) -> Seq<DocModel> {
    docs.filter(|d: DocModel| d.id == id)
}

/// What a delete-by-identifier leaves of the store: every document whose
/// identifier differs.
pub open spec fn engine_delete(docs: Seq<DocModel>, id: Seq<char>) -> Seq<DocModel> {
    docs.filter(|d: DocModel| d.id != id)
}

/// The store after one plan is executed: a `Replace` is a delete-by-`id`
/// followed by an insert.
pub open spec fn apply_plan(docs: Seq<DocModel>, p: PlanModel) -> Seq<DocModel> {
    match p {
        PlanModel::Skip => docs,
        PlanModel::Remove { id } => engine_delete(docs, id),
        PlanModel::Replace { id, doc } => engine_delete(docs, id).push(doc),
    }
}

/// `filter` over a sequence extended by one element.
proof fn lemma_filter_push(s: Seq<DocModel>, pred: spec_fn(DocModel) -> bool, x: DocModel)
    ensures
        s.push(x).filter(pred) =~= (if pred(x) {
            s.filter(pred).push(x)
        } else {
            s.filter(pred)
        }),
{
    reveal(Seq::filter);
    assert(s.push(x).drop_last() =~= s);
    assert(s.push(x).last() == x);
}

/// After a delete-by-identifier, no document is stored under that
/// identifier.
pub proof fn lemma_delete_removes_all(docs: Seq<DocModel>, id: Seq<char>)
    ensures
        docs_with_id(engine_delete(docs, id), id) =~= Seq::<DocModel>::empty(),
    decreases docs.len(),
{
    if docs.len() == 0 {
        reveal(Seq::filter);
        assert(engine_delete(docs, id) =~= Seq::<DocModel>::empty());
        assert(docs_with_id(Seq::<DocModel>::empty(), id) =~= Seq::<DocModel>::empty());
    } else {
        let prefix = docs.drop_last();
        lemma_delete_removes_all(prefix, id);
        let last = docs.last();
        assert(prefix.push(last) =~= docs);
        lemma_filter_push(prefix, |d: DocModel| d.id != id, last);
        if last.id != id {
            let del = engine_delete(prefix, id);
            assert(engine_delete(docs, id) =~= del.push(last));
            lemma_filter_push(del, |d: DocModel| d.id == id, last);
            assert(docs_with_id(del.push(last), id) =~= docs_with_id(del, id));
        } else {
            assert(engine_delete(docs, id) =~= engine_delete(prefix, id));
        }
    }
}

/// Executing a `Replace` plan leaves exactly the inserted document under its
/// identifier, whatever the store held before.
pub proof fn lemma_replace_leaves_exactly_one(docs: Seq<DocModel>, id: Seq<char>, d: DocModel)
    requires
        d.id == id,
    ensures
        docs_with_id(apply_plan(docs, PlanModel::Replace { id, doc: d }), id) =~= seq![d],
{
    lemma_delete_removes_all(docs, id);
    let del = engine_delete(docs, id);
    lemma_filter_push(del, |dd: DocModel| dd.id == id, d);
    assert(docs_with_id(del.push(d), id) =~= docs_with_id(del, id).push(d));
    assert(docs_with_id(del, id).push(d) =~= seq![d]);
}

/// Indexing the same file twice — under one (source, relative path), with
/// any two contents, the second non-empty — leaves exactly one document
/// under its identifier, the one of the second pass: delete-then-insert
/// never produces duplicates.
pub proof fn lemma_reindex_no_duplicates(
    docs: Seq<DocModel>,
    source: Seq<char>,
    root: Seq<char>,
    path: Seq<char>,
    c1: Seq<char>,
    c2: Seq<char>,
    t1: i64,
    t2: i64,
)
    requires
        rel_path_of(path, root) is Some,
        c2.len() > 0,
    ensures
        ({
            let id = doc_id_of(source, rel_path_of(path, root)->Some_0);
            let after = apply_plan(
                apply_plan(docs, plan_of(source, root, path, c1, t1)),
                plan_of(source, root, path, c2, t2),
            );
            &&& docs_with_id(after, id).len() == 1
            &&& docs_with_id(after, id)[0].body == c2
        }),
{
    let id = doc_id_of(source, rel_path_of(path, root)->Some_0);
    let mid = apply_plan(docs, plan_of(source, root, path, c1, t1));
    let p2 = plan_of(source, root, path, c2, t2);
    let d2 = DocModel {
        title: title_of(c2),
        body: c2,
        source,
        path: rel_path_of(path, root)->Some_0,
        updated_at: t2,
        id,
    };
    assert(p2 == PlanModel::Replace { id, doc: d2 });
    lemma_replace_leaves_exactly_one(mid, id, d2);
}

/// Indexing a file whose content is empty stores nothing, and removes any
/// document previously stored under the same identifier.
pub proof fn lemma_empty_content_removes(
    docs: Seq<DocModel>,
    source: Seq<char>,
    root: Seq<char>,
    path: Seq<char>,
    t: i64,
)
    requires
        rel_path_of(path, root) is Some,
    ensures
        ({
            let id = doc_id_of(source, rel_path_of(path, root)->Some_0);
            docs_with_id(apply_plan(docs, plan_of(source, root, path, Seq::empty(), t)), id).len()
                == 0
        }),
{
    let id = doc_id_of(source, rel_path_of(path, root)->Some_0);
    lemma_delete_removes_all(docs, id);
}

} // verus!
