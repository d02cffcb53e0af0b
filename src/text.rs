use vstd::prelude::*;
use vstd::std_specs::iter::IteratorSpec;

verus! {

broadcast use {vstd::string::axiom_spec_iter, vstd::string::next_postcondition};

/// The prefix that marks a verbatim path on Windows: `\\?\`.
pub open spec fn verbatim_prefix() -> Seq<char> {
    seq!['\\', '\\', '?', '\\']
}

/// `s` without every verbatim prefix at its start.
pub open spec fn strip_verbatim(s: Seq<char>) -> Seq<char>
    decreases s.len(),
{
    if s.len() >= 4 && s.take(4) == verbatim_prefix() {
        strip_verbatim(s.skip(4))
    } else {
        s
    }
}

/// `s` with each backslash turned into a forward slash.
pub open spec fn forward_slashes(s: Seq<char>) -> Seq<char> {
    s.map_values(|c: char| if c == '\\' { '/' } else { c })
}

/// The display form of a canonical path: on Windows, without the verbatim
/// prefix and with forward slashes; elsewhere, as it is.
pub open spec fn pretty_path(s: Seq<char>, windows: bool) -> Seq<char> {
    if windows {
        forward_slashes(strip_verbatim(s))
    } else {
        s
    }
}

/// Skipping characters at the start of a string.
pub trait StrSkip: View<V = Seq<char>> {
    /// The string after its first `n` characters; empty if it has no more.
    fn skip(&self, n: usize) -> (r: &str)
        ensures
            n <= self.view().len() ==> r@ == self.view().skip(n as int),
            n > self.view().len() ==> r@.len() == 0;
}

impl StrSkip for str {
    fn skip(&self, n: usize) -> (r: &str) {
        let mut chars = self.chars();
        let mut k: usize = 0;
        while k < n
            invariant
                k <= n,
                k <= self@.len() ==> chars.remaining() == self@.skip(k as int),
                k > self@.len() ==> chars.remaining().len() == 0,
            decreases n - k,
        {
            let _ = chars.next();
            proof {
                if k < self@.len() {
                    assert(self@.skip(k as int).drop_first() =~= self@.skip(k + 1));
                }
            }
            k = k + 1;
        }
        rest_of(&chars)
    }
}

/// Relies on `Chars::as_str`: the part of the string not yet handed out.
#[verifier::external_body]
fn rest_of<'a>(chars: &std::str::Chars<'a>) -> (r: &'a str)
    ensures
        r@ == chars.remaining(),
{
    chars.as_str()
}

/// Relies on `String::push`: appends one character.
#[verifier::external_body]
fn push_char(s: &mut String, c: char)
    ensures
        final(s)@ == old(s)@.push(c),
{
    s.push(c)
}

/// The characters of `s`, in order.
pub(crate) fn chars_of(s: &str) -> (r: Vec<char>)
    ensures
        r@ == s@,
{
    let mut chars = s.chars();
    let mut out: Vec<char> = Vec::new();
    loop
        invariant
            out@ + chars.remaining() == s@,
        ensures
            out@ == s@,
        decreases s@.len() - out@.len(),
    {
        match chars.next() {
            Some(c) => {
                out.push(c);
            },
            None => {
                assert(out@ =~= s@);
                break;
            },
        }
    }
    out
}

/// Whether the verbatim prefix starts at `i`.
fn prefix_at(v: &Vec<char>, i: usize) -> (r: bool)
    requires
        i <= v@.len(),
    ensures
        r == (v@.len() - i >= 4 && v@.skip(i as int).take(4) == verbatim_prefix()),
{
    if v.len() - i < 4 {
        return false;
    }
    let r = v[i] == '\\' && v[i + 1] == '\\' && v[i + 2] == '?' && v[i + 3] == '\\';
    proof {
        if r {
            assert(v@.skip(i as int).take(4) =~= verbatim_prefix());
        } else {
            let t = v@.skip(i as int).take(4);
            assert(t[0] == v@[i as int] && t[1] == v@[i + 1] && t[2] == v@[i + 2] && t[3] == v@[i + 3]);
            assert(t != verbatim_prefix()) by {
                if t == verbatim_prefix() {
                    assert(verbatim_prefix()[0] == '\\');
                    assert(verbatim_prefix()[2] == '?');
                }
            }
        }
    }
    r
}

/// The display form of a path that was already made canonical: on Windows
/// (`windows`), every leading `\\?\` is dropped and backslashes become
/// forward slashes; elsewhere the path is kept as it is.
pub fn canonicalize_pretty(canonical: &str, windows: bool) -> (r: String)
    ensures
        r@ == pretty_path(canonical@, windows),
{
    if !windows {
        return canonical.to_owned();
    }
    let v = chars_of(canonical);
    let mut i: usize = 0;
    assert(v@.skip(0) =~= v@);
    while prefix_at(&v, i)
        invariant
            i <= v@.len(),
            strip_verbatim(v@) == strip_verbatim(v@.skip(i as int)),
        decreases v@.len() - i,
    {
        let n = v.len();
        proof {
            assert(v@.skip(i as int).skip(4) =~= v@.skip(i + 4));
        }
        assert(i + 4 <= n);
        i = i + 4;
    }
    let ghost stripped = v@.skip(i as int);
    assert(strip_verbatim(v@) == stripped);
    let mut out = String::new();
    let mut j: usize = i;
    while j < v.len()
        invariant
            i <= j <= v@.len(),
            stripped == v@.skip(i as int),
            out@ == forward_slashes(v@.subrange(i as int, j as int)),
        decreases v@.len() - j,
    {
        let c = v[j];
        let d = if c == '\\' { '/' } else { c };
        push_char(&mut out, d);
        proof {
            assert(forward_slashes(v@.subrange(i as int, j + 1)) =~= forward_slashes(v@.subrange(i as int, j as int)).push(d));
        }
        j = j + 1;
    }
    assert(v@.subrange(i as int, v@.len() as int) =~= stripped);
    out
}

} // verus!
