//! Tidying a rendered path: a separator that an empty value left doubled
//! is collapsed, and a separator left at the edge of a path component is
//! removed.

use vstd::prelude::*;

use crate::error::CrateError;
use crate::template::grammar::{segment_char, span};
use crate::template::parser::{scan, CharClass};
use crate::text::{chars_of, text_of};

verus! {

/// `s` starts with `p`.
pub open spec fn starts_with(s: Seq<char>, p: Seq<char>) -> bool {
    p.len() <= s.len() && s.take(p.len() as int) == p
}

/// `s` ends with `p`.
pub open spec fn ends_with(s: Seq<char>, p: Seq<char>) -> bool {
    p.len() <= s.len() && s.skip(s.len() - p.len()) == p
}

/// `p` stands in `s` at index `i`.
pub open spec fn occurs_at(s: Seq<char>, p: Seq<char>, i: int) -> bool {
    0 <= i && i + p.len() <= s.len() && s.subrange(i, i + p.len()) == p
}

/// `p` stands somewhere in `s`.
pub open spec fn contains(s: Seq<char>, p: Seq<char>) -> bool {
    exists|i: int| occurs_at(s, p, i)
}

/// One more character behind text that holds no doubled separator: where
/// the character completes a doubled separator, the second of the two is
/// dropped.
pub open spec fn collapse_step(out: Seq<char>, c: char, sep: Seq<char>) -> Seq<char> {
    let next = out.push(c);
    if sep.len() > 0 && ends_with(next, sep + sep) {
        next.take(next.len() - sep.len())
    } else {
        next
    }
}

/// `s` with every doubled separator collapsed to a single one, from left
/// to right, until none is left.
pub open spec fn collapse(s: Seq<char>, sep: Seq<char>) -> Seq<char>
    decreases s.len(),
{
    if s.len() == 0 {
        Seq::empty()
    } else {
        collapse_step(collapse(s.drop_last(), sep), s.last(), sep)
    }
}

/// `s` without `p` at its start, where it starts with `p`.
pub open spec fn strip_prefix(s: Seq<char>, p: Seq<char>) -> Seq<char> {
    if starts_with(s, p) {
        s.skip(p.len() as int)
    } else {
        s
    }
}

/// `s` without `p` at its end, where it ends with `p`.
pub open spec fn strip_suffix(s: Seq<char>, p: Seq<char>) -> Seq<char> {
    if ends_with(s, p) {
        s.take(s.len() - p.len())
    } else {
        s
    }
}

/// A path component without a separator at its start and, after that,
/// without one at its end.
pub open spec fn strip(s: Seq<char>, sep: Seq<char>) -> Seq<char> {
    strip_suffix(strip_prefix(s, sep), sep)
}

/// The path `s` with each of its components, the runs between slashes,
/// stripped.
pub open spec fn strip_components(s: Seq<char>, sep: Seq<char>) -> Seq<char>
    decreases s.len(),
{
    let n = span(s, segment_char()) as int;
    let head = strip(s.take(n), sep);
    if 0 <= n < s.len() {
        head + seq!['/'] + strip_components(s.skip(n + 1), sep)
    } else {
        head
    }
}

/// The path `s` cleared of extra separators: doubled ones collapsed, then
/// each component stripped.
pub open spec fn clear_spec(s: Seq<char>, sep: Seq<char>) -> Seq<char> {
    strip_components(collapse(s, sep), sep)
}

/// Whether `pat` stands in `chars` at index `at`.
pub fn matches_at(chars: &Vec<char>, at: usize, pat: &Vec<char>) -> (r: bool)
    ensures
        r == occurs_at(chars@, pat@, at as int),
{
    if pat.len() > chars.len() || at > chars.len() - pat.len() {
        return false;
    }
    let mut k: usize = 0;
    while k < pat.len()
        invariant
            k <= pat.len(),
            at + pat.len() <= chars.len(),
            forall|j: int| 0 <= j < k ==> chars@[at + j] == pat@[j],
        decreases pat.len() - k,
    {
        if chars[at + k] != pat[k] {
            proof {
                assert(chars@.subrange(at as int, at + pat.len())[k as int] == chars@[at + k]);
            }
            return false;
        }
        k += 1;
    }
    assert(chars@.subrange(at as int, at + pat.len()) =~= pat@);
    true
}

/// Two occurrences of `sep`, one behind the other, are one of `sep + sep`.
proof fn lemma_doubled(s: Seq<char>, sep: Seq<char>, i: int)
    ensures
        occurs_at(s, sep + sep, i) <==> occurs_at(s, sep, i) && occurs_at(s, sep, i + sep.len()),
{
    let n = sep.len() as int;
    if occurs_at(s, sep + sep, i) {
        let d = s.subrange(i, i + 2 * n);
        assert(s.subrange(i, i + n) =~= d.take(n));
        assert(s.subrange(i + n, i + 2 * n) =~= d.skip(n));
        assert((sep + sep).take(n) =~= sep);
        assert((sep + sep).skip(n) =~= sep);
    }
    if occurs_at(s, sep, i) && occurs_at(s, sep, i + n) {
        assert(s.subrange(i, i + 2 * n) =~= s.subrange(i, i + n) + s.subrange(i + n, i + 2 * n));
    }
}

/// Collapses each doubled `sep` in `s` to a single one.
pub fn collapse_separator(s: &str, sep: &str) -> (r: String)
    ensures
        r@ == collapse(s@, sep@),
{
    let chars = chars_of(s);
    let pat = chars_of(sep);
    let out = collapse_chars(&chars, &pat);
    text_of(&out, 0, out.len())
}

/// [`collapse_separator`] on characters.
pub fn collapse_chars(chars: &Vec<char>, pat: &Vec<char>) -> (out: Vec<char>)
    ensures
        out@ == collapse(chars@, pat@),
{
    let mut out: Vec<char> = Vec::new();
    let n = pat.len();
    let mut i: usize = 0;
    assert(chars@.take(0) =~= Seq::empty());
    while i < chars.len()
        invariant
            i <= chars.len(),
            n == pat.len(),
            out@ == collapse(chars@.take(i as int), pat@),
            out.len() <= i,
        decreases chars.len() - i,
    {
        proof {
            let upto = chars@.take(i + 1);
            assert(upto.drop_last() =~= chars@.take(i as int));
            assert(upto.last() == chars@[i as int]);
        }
        out.push(chars[i]);
        if n > 0 && out.len() >= n && out.len() - n >= n {
            let at = out.len() - n - n;
            proof {
                lemma_doubled(out@, pat@, at as int);
                assert(out@.skip(at as int) =~= out@.subrange(at as int, out.len() as int));
            }
            if matches_at(&out, at, pat) && matches_at(&out, at + n, pat) {
                out.truncate(at + n);
            }
        }
        i += 1;
    }
    assert(chars@.take(chars.len() as int) =~= chars@);
    out
}

/// The bounds of the component `path[at..end]` once it is stripped.
pub fn strip_bounds(path: &Vec<char>, at: usize, end: usize, pat: &Vec<char>) -> (r: (
    usize,
    usize,
))
    requires
        at <= end <= path.len(),
    ensures
        at <= r.0 <= r.1 <= end,
        path@.subrange(r.0 as int, r.1 as int) == strip(
            path@.subrange(at as int, end as int),
            pat@,
        ),
{
    let ghost part = path@.subrange(at as int, end as int);
    let mut start = at;
    let mut stop = end;
    if pat.len() <= end - at {
        proof {
            assert(part.take(pat.len() as int) =~= path@.subrange(at as int, at + pat.len()));
        }
        if matches_at(path, at, pat) {
            start = at + pat.len();
        }
    }
    assert(path@.subrange(start as int, end as int) =~= strip_prefix(part, pat@));
    let ghost mid = path@.subrange(start as int, end as int);
    if pat.len() <= end - start {
        proof {
            assert(mid.skip(mid.len() - pat.len()) =~= path@.subrange(
                end - pat.len(),
                end as int,
            ));
        }
        if matches_at(path, end - pat.len(), pat) {
            stop = end - pat.len();
        }
    }
    assert(path@.subrange(start as int, stop as int) =~= strip_suffix(mid, pat@));
    (start, stop)
}

/// What can clear a path of extra separators.
pub trait SepCleaner: Sized {
    /// The path as text.
    spec fn path_text(&self) -> Seq<char>;

    /// Remove extra separator from each path component.
    fn try_clear_separator(&self, sep: &str) -> (r: Result<Self, CrateError>)
        ensures
            r matches Ok(p) && p.path_text() == clear_spec(self.path_text(), sep@),
    ;
}

impl SepCleaner for String {
    open spec fn path_text(&self) -> Seq<char> {
        self@
    }

    fn try_clear_separator(&self, sep: &str) -> (r: Result<Self, CrateError>) {
        let chars = chars_of(self.as_str());
        let pat = chars_of(sep);
        let path = collapse_chars(&chars, &pat);
        let mut out: Vec<char> = Vec::new();
        let mut at: usize = 0;
        let mut done = false;
        assert(path@.skip(0) =~= path@);
        assert(out@ + strip_components(path@, pat@) =~= strip_components(path@, pat@));
        while !done
            invariant
                at <= path.len(),
                !done ==> out@ + strip_components(path@.skip(at as int), pat@)
                    == strip_components(path@, pat@),
                done ==> out@ == strip_components(path@, pat@),
            decreases path.len() - at + (if done { 0int } else { 1int }),
        {
            let ghost before = out@;
            let ghost tail = path@.skip(at as int);
            let end = scan(&path, at, CharClass::Segment);
            proof {
                assert(tail.take(end - at) =~= path@.subrange(at as int, end as int));
            }
            let (start, stop) = strip_bounds(&path, at, end, &pat);
            let ghost head = path@.subrange(start as int, stop as int);
            let mut k: usize = start;
            while k < stop
                invariant
                    start <= k <= stop <= path.len(),
                    out@ == before + path@.subrange(start as int, k as int),
                decreases stop - k,
            {
                out.push(path[k]);
                k += 1;
            }
            if end < path.len() {
                out.push('/');
                proof {
                    assert(tail.skip(end - at + 1) =~= path@.skip(end + 1));
                    let rest = strip_components(path@.skip(end + 1), pat@);
                    assert(out@ + rest =~= before + (head + seq!['/'] + rest));
                }
                at = end + 1;
            } else {
                proof {
                    assert(out@ =~= before + head);
                }
                at = end;
                done = true;
            }
        }
        Ok(text_of(&out, 0, out.len()))
    }
}

/// Once collapsed, a text holds no doubled separator.
pub proof fn law_collapse_leaves_none_doubled(s: Seq<char>, sep: Seq<char>)
    requires
        sep.len() > 0,
    ensures
        !contains(collapse(s, sep), sep + sep),
    decreases s.len(),
{
    let pp = sep + sep;
    let r = collapse(s, sep);
    if s.len() == 0 {
        assert forall|i: int| !occurs_at(r, pp, i) by {}
    } else {
        let out = collapse(s.drop_last(), sep);
        law_collapse_leaves_none_doubled(s.drop_last(), sep);
        let next = out.push(s.last());
        assert forall|i: int| !occurs_at(r, pp, i) by {
            if occurs_at(r, pp, i) {
                if ends_with(next, pp) {
                    assert(r.subrange(i, i + pp.len()) =~= out.subrange(i, i + pp.len()));
                    assert(occurs_at(out, pp, i));
                } else if i + pp.len() <= out.len() {
                    assert(r.subrange(i, i + pp.len()) =~= out.subrange(i, i + pp.len()));
                    assert(occurs_at(out, pp, i));
                } else {
                    assert(next.skip(next.len() - pp.len()) =~= next.subrange(i, i + pp.len()));
                }
            }
        }
    }
}

/// A text without a doubled separator is left as it is.
pub proof fn law_collapse_keeps_clean(s: Seq<char>, sep: Seq<char>)
    requires
        sep.len() == 0 || !contains(s, sep + sep),
    ensures
        collapse(s, sep) == s,
    decreases s.len(),
{
    let pp = sep + sep;
    if s.len() > 0 {
        let front = s.drop_last();
        if sep.len() > 0 {
            assert forall|i: int| !occurs_at(front, pp, i) by {
                if occurs_at(front, pp, i) {
                    assert(front.subrange(i, i + pp.len()) =~= s.subrange(i, i + pp.len()));
                    assert(occurs_at(s, pp, i));
                }
            }
        }
        law_collapse_keeps_clean(front, sep);
        assert(front.push(s.last()) =~= s);
        if sep.len() > 0 && ends_with(s, pp) {
            assert(s.skip(s.len() - pp.len()) =~= s.subrange(s.len() - pp.len(), s.len() as int));
            assert(occurs_at(s, pp, s.len() - pp.len()));
        }
    }
}

} // verus!
