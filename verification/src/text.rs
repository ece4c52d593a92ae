//! Character-sequence helpers shared by the path, title and key logic:
//! verified string comparison, prefix tests, path joining, and the
//! `drop_while` forms that the trimming specifications are written in.

use vstd::prelude::*;

verus! {

/// The sequence left after removing the longest prefix whose characters all
/// satisfy `p`.
pub open spec fn drop_while(s: Seq<char>, p: spec_fn(char) -> bool) -> Seq<char>
    decreases s.len(),
{
    if s.len() > 0 && p(s[0]) {
        drop_while(s.drop_first(), p)
    } else {
        s
    }
}

/// The sequence left after removing the longest suffix whose characters all
/// satisfy `p`.
pub open spec fn drop_while_end(s: Seq<char>, p: spec_fn(char) -> bool) -> Seq<char>
    decreases s.len(),
{
    if s.len() > 0 && p(s.last()) {
        drop_while_end(s.drop_last(), p)
    } else {
        s
    }
}

/// `drop_while` removes exactly the first `k` characters when those satisfy
/// `p` and the character after them (if any) does not.
pub proof fn lemma_drop_while_skip(s: Seq<char>, p: spec_fn(char) -> bool, k: int)
    requires
        0 <= k <= s.len(),
        forall|j: int| 0 <= j < k ==> p(s[j]),
        k < s.len() ==> !p(s[k]),
    ensures
        drop_while(s, p) =~= s.skip(k),
    decreases k,
{
    if k == 0 {
        assert(s.skip(0) =~= s);
    } else {
        lemma_drop_while_skip(s.drop_first(), p, k - 1);
        assert(s.drop_first().skip(k - 1) =~= s.skip(k));
    }
}

/// `drop_while_end` removes exactly the last `len - k` characters when those
/// satisfy `p` and the character before them (if any) does not.
pub proof fn lemma_drop_while_end_take(s: Seq<char>, p: spec_fn(char) -> bool, k: int)
    requires
        0 <= k <= s.len(),
        forall|j: int| k <= j < s.len() ==> p(s[j]),
        k > 0 ==> !p(s[k - 1]),
    ensures
        drop_while_end(s, p) =~= s.take(k),
    decreases s.len() - k,
{
    if k == s.len() {
        assert(s.take(k) =~= s);
    } else {
        lemma_drop_while_end_take(s.drop_last(), p, k);
        assert(s.drop_last().take(k) =~= s.take(k));
    }
}

/// Character-by-character string equality, specified against the views.
pub fn str_eq(a: &str, b: &str) -> (r: bool)
    ensures
        r == (a@ == b@),
{
    let n = a.unicode_len();
    if n != b.unicode_len() {
        return false;
    }
    let mut i: usize = 0;
    while i < n
        invariant
            i <= n,
            n == a@.len(),
            n == b@.len(),
            forall|j: int| 0 <= j < i ==> a@[j] == b@[j],
        decreases n - i,
    {
        if a.get_char(i) != b.get_char(i) {
            return false;
        }
        i += 1;
    }
    proof {
        assert(a@ =~= b@);
    }
    true
}

/// Whether `pre` is a prefix of `s`, specified against the views.
pub fn str_has_prefix(s: &str, pre: &str) -> (r: bool)
    ensures
        r == pre@.is_prefix_of(s@),
{
    let np = pre.unicode_len();
    if np > s.unicode_len() {
        return false;
    }
    let mut i: usize = 0;
    while i < np
        invariant
            i <= np,
            np == pre@.len(),
            np <= s@.len(),
            forall|j: int| 0 <= j < i ==> pre@[j] == s@[j],
        decreases np - i,
    {
        if pre.get_char(i) != s.get_char(i) {
            proof {
                assert(!(pre@ =~= s@.subrange(0, np as int)));
            }
            return false;
        }
        i += 1;
    }
    proof {
        assert(pre@ =~= s@.subrange(0, np as int));
    }
    true
}

/// How one path is joined below another: an absolute right-hand side stands
/// alone, otherwise the two are separated by exactly one `/`.
pub open spec fn joined(a: Seq<char>, b: Seq<char>) -> Seq<char> {
    if b.len() > 0 && b[0] == '/' {
        b
    } else if a.len() == 0 {
        b
    } else if a.last() == '/' {
        a + b
    } else {
        a + seq!['/'] + b
    }
}

/// Joins `b` below `a` as `joined` describes.
pub fn join_path(a: &str, b: &str) -> (r: String)
    ensures
        r@ == joined(a@, b@),
{
    proof {
        reveal_strlit("/");
    }
    let nb = b.unicode_len();
    if nb > 0 && b.get_char(0) == '/' {
        return String::from_str(b);
    }
    let na = a.unicode_len();
    if na == 0 {
        return String::from_str(b);
    }
    let mut r = String::from_str(a);
    if a.get_char(na - 1) != '/' {
        r.append("/");
        proof {
            assert(r@ =~= a@ + seq!['/']);
        }
    }
    r.append(b);
    proof {
        assert(r@ =~= joined(a@, b@));
    }
    r
}

} // verus!
