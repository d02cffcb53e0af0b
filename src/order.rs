use crate::repository::{Repository, RepositoryView};
use crate::text::chars_of;
use vstd::prelude::*;

verus! {

/// `a` comes before `b`, character by character; a proper prefix comes first.
/// This is the order of `str`, since UTF-8 keeps the order of code points.
pub open spec fn chars_lt(a: Seq<char>, b: Seq<char>) -> bool
    decreases a.len(),
{
    if a.len() == 0 {
        b.len() > 0
    } else if b.len() == 0 {
        false
    } else if a[0] != b[0] {
        a[0] < b[0]
    } else {
        chars_lt(a.drop_first(), b.drop_first())
    }
}

/// An absent remote comes before any remote.
pub open spec fn remote_lt(a: Option<Seq<char>>, b: Option<Seq<char>>) -> bool {
    match (a, b) {
        (None, Some(_)) => true,
        (Some(x), Some(y)) => chars_lt(x, y),
        _ => false,
    }
}

/// The natural order of records: by path, then by remote.
pub open spec fn repo_lt(a: RepositoryView, b: RepositoryView) -> bool {
    chars_lt(a.path, b.path) || (a.path == b.path && remote_lt(a.remote, b.remote))
}

pub proof fn lemma_chars_lt_irreflexive(a: Seq<char>)
    ensures
        !chars_lt(a, a),
    decreases a.len(),
{
    if a.len() > 0 {
        lemma_chars_lt_irreflexive(a.drop_first());
    }
}

pub proof fn lemma_chars_lt_transitive(a: Seq<char>, b: Seq<char>, c: Seq<char>)
    requires
        chars_lt(a, b),
        chars_lt(b, c),
    ensures
        chars_lt(a, c),
    decreases a.len(),
{
    if a.len() > 0 && b.len() > 0 && c.len() > 0 && a[0] == b[0] && b[0] == c[0] {
        lemma_chars_lt_transitive(a.drop_first(), b.drop_first(), c.drop_first());
    }
}

pub proof fn lemma_chars_lt_total(a: Seq<char>, b: Seq<char>)
    ensures
        a == b || chars_lt(a, b) || chars_lt(b, a),
    decreases a.len(),
{
    if a.len() > 0 && b.len() > 0 {
        if a[0] == b[0] {
            lemma_chars_lt_total(a.drop_first(), b.drop_first());
            if a.drop_first() == b.drop_first() {
                assert(a =~= seq![a[0]] + a.drop_first());
                assert(b =~= seq![b[0]] + b.drop_first());
            }
        } else {
            assert(a[0] < b[0] || b[0] < a[0]);
        }
    } else if a.len() == 0 && b.len() == 0 {
        assert(a =~= b);
    }
}

/// `<` on records never holds both ways, nor of a record and itself.
pub proof fn lemma_repo_lt_asymmetric(a: RepositoryView, b: RepositoryView)
    ensures
        !(repo_lt(a, b) && repo_lt(b, a)),
        !repo_lt(a, a),
{
    lemma_chars_lt_irreflexive(a.path);
    if let Some(x) = a.remote {
        lemma_chars_lt_irreflexive(x);
    }
    if repo_lt(a, b) && repo_lt(b, a) {
        if chars_lt(a.path, b.path) && chars_lt(b.path, a.path) {
            lemma_chars_lt_transitive(a.path, b.path, a.path);
        } else if let (Some(x), Some(y)) = (a.remote, b.remote) {
            lemma_chars_lt_transitive(x, y, x);
        }
    }
}

pub proof fn lemma_repo_lt_transitive(a: RepositoryView, b: RepositoryView, c: RepositoryView)
    requires
        repo_lt(a, b),
        repo_lt(b, c),
    ensures
        repo_lt(a, c),
{
    if chars_lt(a.path, b.path) && chars_lt(b.path, c.path) {
        lemma_chars_lt_transitive(a.path, b.path, c.path);
    } else if a.path == b.path && b.path == c.path {
        if let (Some(x), Some(y), Some(z)) = (a.remote, b.remote, c.remote) {
            lemma_chars_lt_transitive(x, y, z);
        }
    }
}

pub proof fn lemma_repo_lt_total(a: RepositoryView, b: RepositoryView)
    ensures
        a == b || repo_lt(a, b) || repo_lt(b, a),
{
    lemma_chars_lt_total(a.path, b.path);
    if let (Some(x), Some(y)) = (a.remote, b.remote) {
        lemma_chars_lt_total(x, y);
    }
}

/// Dropping an equal prefix keeps the order of two sequences.
proof fn lemma_chars_lt_common_prefix(a: Seq<char>, b: Seq<char>, i: int)
    requires
        0 <= i <= a.len(),
        i <= b.len(),
        a.take(i) == b.take(i),
    ensures
        chars_lt(a, b) == chars_lt(a.skip(i), b.skip(i)),
    decreases i,
{
    if i > 0 {
        assert(a[0] == a.take(i)[0]);
        assert(b[0] == b.take(i)[0]);
        assert(a.drop_first().take(i - 1) =~= a.take(i).drop_first());
        assert(b.drop_first().take(i - 1) =~= b.take(i).drop_first());
        lemma_chars_lt_common_prefix(a.drop_first(), b.drop_first(), i - 1);
        assert(a.drop_first().skip(i - 1) =~= a.skip(i));
        assert(b.drop_first().skip(i - 1) =~= b.skip(i));
    } else {
        assert(a.skip(0) =~= a);
        assert(b.skip(0) =~= b);
    }
}

/// Compares two strings: negative when `a` comes first, zero when they are
/// equal, positive when `b` comes first.
pub fn compare_str(a: &str, b: &str) -> (r: i8)
    ensures
        (r < 0) == chars_lt(a@, b@),
        (r == 0) == (a@ == b@),
        (r > 0) == chars_lt(b@, a@),
{
    let x = chars_of(a);
    let y = chars_of(b);
    let mut i: usize = 0;
    proof {
        lemma_chars_lt_irreflexive(a@);
        lemma_chars_lt_total(a@, b@);
        if chars_lt(a@, b@) && chars_lt(b@, a@) {
            lemma_chars_lt_transitive(a@, b@, a@);
        }
    }
    while i < x.len() && i < y.len() && x[i] == y[i]
        invariant
            x@ == a@,
            y@ == b@,
            i <= x@.len(),
            i <= y@.len(),
            x@.take(i as int) == y@.take(i as int),
        decreases x@.len() - i,
    {
        proof {
            assert(x@.take(i + 1) =~= x@.take(i as int).push(x@[i as int]));
            assert(y@.take(i + 1) =~= y@.take(i as int).push(y@[i as int]));
        }
        i = i + 1;
    }
    proof {
        lemma_chars_lt_common_prefix(x@, y@, i as int);
        lemma_chars_lt_common_prefix(y@, x@, i as int);
    }
    if i == x.len() && i == y.len() {
        proof {
            assert(x@ =~= x@.take(i as int));
            assert(y@ =~= y@.take(i as int));
        }
        0
    } else if i == x.len() {
        proof {
            assert(x@.skip(i as int).len() == 0);
        }
        -1
    } else if i == y.len() {
        proof {
            assert(y@.skip(i as int).len() == 0);
        }
        1
    } else if x[i] < y[i] {
        proof {
            assert(x@.skip(i as int)[0] == x@[i as int]);
            assert(y@.skip(i as int)[0] == y@[i as int]);
        }
        -1
    } else {
        proof {
            assert(x@.skip(i as int)[0] == x@[i as int]);
            assert(y@.skip(i as int)[0] == y@[i as int]);
        }
        1
    }
}

/// Compares two records in their natural order, as `compare_str` does.
pub fn compare_repo(a: &Repository, b: &Repository) -> (r: i8)
    ensures
        (r < 0) == repo_lt(a@, b@),
        (r == 0) == (a@ == b@),
        (r > 0) == repo_lt(b@, a@),
{
    proof {
        lemma_repo_lt_asymmetric(a@, b@);
        lemma_repo_lt_total(a@, b@);
    }
    let p = compare_str(a.path.as_str(), b.path.as_str());
    if p != 0 {
        return p;
    }
    match &a.remote {
        None => match &b.remote {
            None => 0,
            Some(_) => -1,
        },
        Some(x) => match &b.remote {
            None => 1,
            Some(y) => compare_str(x.as_str(), y.as_str()),
        },
    }
}

} // verus!
