//! The pattern grammar, as functions on sequences of characters.
//!
//! A pattern is literal text with placeholders in it. A placeholder is a
//! name between braces, `{name}`; a name is one or more ASCII letters or
//! underscores. Everything else is literal text, which runs up to the next
//! `{`. In a compiled template the literal text is cut at each `/`, which
//! becomes a token of its own.

use vstd::prelude::*;

verus! {

/// What a lexem is, as the contracts see it.
pub enum LexemView {
    PathSep,
    Plain(Seq<char>),
    Sub(Seq<char>),
}

/// A character that may stand in a placeholder's name.
pub open spec fn is_name_char(c: char) -> bool {
    ('a' <= c && c <= 'z') || ('A' <= c && c <= 'Z') || c == '_'
}

/// [`is_name_char`] as a predicate.
pub open spec fn name_char() -> spec_fn(char) -> bool {
    |c: char| is_name_char(c)
}

/// The characters of a literal run: all but the opening brace.
pub open spec fn literal_char() -> spec_fn(char) -> bool {
    |c: char| c != '{'
}

/// The characters of a path segment: all but the slash.
pub open spec fn segment_char() -> spec_fn(char) -> bool {
    |c: char| c != '/'
}

/// The length of the longest prefix of `s` whose characters all satisfy
/// `keep`.
pub open spec fn span(s: Seq<char>, keep: spec_fn(char) -> bool) -> nat
    decreases s.len(),
{
    if s.len() > 0 && keep(s[0]) {
        1 + span(s.skip(1), keep)
    } else {
        0
    }
}

/// A placeholder at the start of `s`: its name and the number of
/// characters it takes, braces included.
pub open spec fn sub_spec(s: Seq<char>) -> Option<(Seq<char>, nat)> {
    if s.len() > 0 && s[0] == '{' {
        let n = span(s.skip(1), name_char()) as int;
        if n > 0 && n + 1 < s.len() && s[n + 1] == '}' {
            Some((s.subrange(1, n + 1), (n + 2) as nat))
        } else {
            None
        }
    } else {
        None
    }
}

/// The literal run at the start of `s`: the number of characters before
/// the first `{`, or all of `s` where it holds none.
pub open spec fn text_spec(s: Seq<char>) -> nat {
    span(s, literal_char())
}

/// The first lexem of a non-empty `s`, with the number of characters it
/// takes: a placeholder where `s` starts with `{`, else a literal run.
pub open spec fn first_lexem(s: Seq<char>) -> Option<(LexemView, nat)> {
    if s.len() > 0 && s[0] == '{' {
        match sub_spec(s) {
            Some((name, n)) => Some((LexemView::Sub(name), n)),
            None => None,
        }
    } else {
        Some((LexemView::Plain(s.take(text_spec(s) as int)), text_spec(s)))
    }
}

/// The lexems of `s`, or `None` where `s` is no pattern: where a `{` is
/// not followed by a name and a `}`.
pub open spec fn lex(s: Seq<char>) -> Option<Seq<LexemView>>
    decreases s.len(),
{
    if s.len() == 0 {
        Some(Seq::empty())
    } else {
        match first_lexem(s) {
            Some((l, n)) => if 0 < n <= s.len() {
                match lex(s.skip(n as int)) {
                    Some(rest) => Some(seq![l] + rest),
                    None => None,
                }
            } else {
                None
            },
            None => None,
        }
    }
}

/// Literal text cut at its slashes: each slash becomes a separator, each
/// run between two of them a literal lexem.
pub open spec fn split_text(t: Seq<char>) -> Seq<LexemView>
    decreases t.len(),
{
    if t.len() == 0 {
        Seq::empty()
    } else if t[0] == '/' {
        seq![LexemView::PathSep] + split_text(t.skip(1))
    } else {
        let n = span(t, segment_char());
        if 0 < n <= t.len() {
            seq![LexemView::Plain(t.take(n as int))] + split_text(t.skip(n as int))
        } else {
            Seq::empty()
        }
    }
}

/// What one lexem becomes when separators are told apart.
pub open spec fn split_lexem(l: LexemView) -> Seq<LexemView> {
    match l {
        LexemView::Plain(t) => split_text(t),
        other => seq![other],
    }
}

/// [`split_lexem`] on each lexem of `ls`, in order.
pub open spec fn split_all(ls: Seq<LexemView>) -> Seq<LexemView>
    decreases ls.len(),
{
    if ls.len() == 0 {
        Seq::empty()
    } else {
        split_all(ls.drop_last()) + split_lexem(ls.last())
    }
}

/// The compiled form of a pattern: its lexems, with the separators told
/// apart; `None` where the pattern is malformed.
pub open spec fn compile_spec(s: Seq<char>) -> Option<Seq<LexemView>> {
    match lex(s) {
        Some(ls) => Some(split_all(ls)),
        None => None,
    }
}

/// The text that a lexem was read from.
pub open spec fn source_of(l: LexemView) -> Seq<char> {
    match l {
        LexemView::PathSep => seq!['/'],
        LexemView::Plain(t) => t,
        LexemView::Sub(name) => seq!['{'] + name + seq!['}'],
    }
}

/// The text that a sequence of lexems was read from.
pub open spec fn source(ls: Seq<LexemView>) -> Seq<char>
    decreases ls.len(),
{
    if ls.len() == 0 {
        Seq::empty()
    } else {
        source(ls.drop_last()) + source_of(ls.last())
    }
}

/// `span` is the one length up to which all characters are kept and at
/// which the next one, if any, is not.
pub proof fn lemma_span_is(s: Seq<char>, keep: spec_fn(char) -> bool, n: nat)
    requires
        n <= s.len(),
        forall|k: int| 0 <= k < n ==> keep(#[trigger] s[k]),
        n == s.len() || !keep(s[n as int]),
    ensures
        span(s, keep) == n,
    decreases n,
{
    if n > 0 {
        let t = s.skip(1);
        assert forall|k: int| 0 <= k < n - 1 implies keep(#[trigger] t[k]) by {
            assert(t[k] == s[k + 1]);
        }
        if n < s.len() {
            assert(t[n - 1] == s[n as int]);
        }
        lemma_span_is(t, keep, (n - 1) as nat);
    }
}

/// What `span` says of the characters: the converse of [`lemma_span_is`].
pub proof fn lemma_span_holds(s: Seq<char>, keep: spec_fn(char) -> bool)
    ensures
        span(s, keep) <= s.len(),
        forall|k: int| 0 <= k < span(s, keep) ==> keep(#[trigger] s[k]),
        span(s, keep) == s.len() || !keep(s[span(s, keep) as int]),
    decreases s.len(),
{
    if s.len() > 0 && keep(s[0]) {
        let t = s.skip(1);
        lemma_span_holds(t, keep);
        assert forall|k: int| 0 <= k < span(s, keep) implies keep(#[trigger] s[k]) by {
            if k > 0 {
                assert(t[k - 1] == s[k]);
            }
        }
        if span(s, keep) < s.len() {
            assert(t[span(t, keep) as int] == s[span(s, keep) as int]);
        }
    }
}

} // verus!
