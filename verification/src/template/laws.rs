//! What holds of compiling and rendering, whatever the pattern.

use vstd::prelude::*;

use crate::template::grammar::{
    compile_spec, first_lexem, is_name_char, lemma_span_holds, lemma_span_is, lex, literal_char,
    name_char, segment_char, source, source_of, span, split_all, split_lexem, split_text,
    LexemView,
};
use crate::template::render::{
    expand, first_missing, missing_name, piece, render_spec, Substitutions,
};

verus! {

/// Every placeholder of `ls` has a value in `m`.
pub open spec fn names_covered(ls: Seq<LexemView>, m: Substitutions) -> bool {
    forall|i: int|
        0 <= i < ls.len() ==> match #[trigger] ls[i] {
            LexemView::Sub(name) => m.contains_key(name),
            _ => true,
        }
}

/// The substitutions that give each name the placeholder it came from.
pub open spec fn placeholders() -> Substitutions {
    Map::new(|name: Seq<char>| true, |name: Seq<char>| seq!['{'] + name + seq!['}'])
}

/// The source of two sequences of lexems, one after the other.
pub proof fn lemma_source_concat(a: Seq<LexemView>, b: Seq<LexemView>)
    ensures
        source(a + b) == source(a) + source(b),
    decreases b.len(),
{
    if b.len() == 0 {
        assert(a + b =~= a);
        assert(source(a) + source(b) =~= source(a));
    } else {
        assert((a + b).drop_last() =~= a + b.drop_last());
        assert((a + b).last() == b.last());
        lemma_source_concat(a, b.drop_last());
        assert(source(a + b) =~= source(a) + source(b));
    }
}

/// The source of a single lexem.
pub proof fn lemma_source_one(l: LexemView)
    ensures
        source(seq![l]) == source_of(l),
{
    assert(seq![l].drop_last() =~= Seq::<LexemView>::empty());
    assert(source(Seq::<LexemView>::empty()) =~= Seq::<char>::empty());
    assert(seq![l].last() == l);
    assert(source(seq![l]) =~= source_of(l));
}

/// The lexems of a pattern spell the pattern.
pub proof fn lemma_lex_source(s: Seq<char>)
    requires
        lex(s).is_some(),
    ensures
        source(lex(s).unwrap()) == s,
    decreases s.len(),
{
    if s.len() > 0 {
        let (l, n) = first_lexem(s).unwrap();
        let rest = lex(s.skip(n as int)).unwrap();
        lemma_lex_source(s.skip(n as int));
        lemma_source_concat(seq![l], rest);
        lemma_source_one(l);
        if s[0] == '{' {
            assert(source_of(l) =~= s.take(n as int));
        }
        assert(s.take(n as int) + s.skip(n as int) =~= s);
    }
}

/// Literal text that is cut at its slashes still spells the same text.
pub proof fn lemma_split_text_source(t: Seq<char>)
    ensures
        source(split_text(t)) == t,
    decreases t.len(),
{
    if t.len() == 0 {
    } else if t[0] == '/' {
        lemma_split_text_source(t.skip(1));
        lemma_source_concat(seq![LexemView::PathSep], split_text(t.skip(1)));
        lemma_source_one(LexemView::PathSep);
        assert(seq!['/'] + t.skip(1) =~= t);
    } else {
        let n = span(t, segment_char());
        lemma_span_holds(t, segment_char());
        let l = LexemView::Plain(t.take(n as int));
        lemma_split_text_source(t.skip(n as int));
        lemma_source_concat(seq![l], split_text(t.skip(n as int)));
        lemma_source_one(l);
        assert(t.take(n as int) + t.skip(n as int) =~= t);
    }
}

/// Telling the separators apart changes nothing of what the lexems spell.
pub proof fn lemma_split_source(ls: Seq<LexemView>)
    ensures
        source(split_all(ls)) == source(ls),
    decreases ls.len(),
{
    if ls.len() > 0 {
        lemma_split_source(ls.drop_last());
        lemma_source_concat(split_all(ls.drop_last()), split_lexem(ls.last()));
        match ls.last() {
            LexemView::Plain(t) => lemma_split_text_source(t),
            other => lemma_source_one(other),
        }
    }
}

/// Where every placeholder has a value, none is missing.
pub proof fn lemma_covered_none_missing(ls: Seq<LexemView>, m: Substitutions)
    requires
        names_covered(ls, m),
    ensures
        first_missing(ls, m).is_none(),
    decreases ls.len(),
{
    if ls.len() > 0 {
        assert forall|i: int| 0 <= i < ls.drop_last().len() implies match #[trigger] ls.drop_last()[i] {
            LexemView::Sub(name) => m.contains_key(name),
            _ => true,
        } by {
            assert(ls.drop_last()[i] == ls[i]);
        }
        lemma_covered_none_missing(ls.drop_last(), m);
        assert(ls.last() == ls[ls.len() - 1]);
    }
}

/// Rendered against [`placeholders`], lexems spell their source.
pub proof fn lemma_expand_placeholders(ls: Seq<LexemView>)
    ensures
        expand(ls, placeholders()) == source(ls),
    decreases ls.len(),
{
    if ls.len() > 0 {
        lemma_expand_placeholders(ls.drop_last());
    }
}

/// Compiling and rendering round-trip: the lexems of a pattern spell the
/// pattern, in its order; where every placeholder has a value, the
/// rendering succeeds and is made of the literal text as it stands and of
/// the value of each placeholder in its place; and where each placeholder
/// is given its own spelling as its value, the rendering is the pattern.
pub proof fn law_render_round_trip(pattern: Seq<char>, m: Substitutions)
    requires
        compile_spec(pattern).is_some(),
        names_covered(compile_spec(pattern).unwrap(), m),
    ensures
        source(compile_spec(pattern).unwrap()) == pattern,
        render_spec(compile_spec(pattern).unwrap(), m) == Ok::<Seq<char>, Seq<char>>(
            expand(compile_spec(pattern).unwrap(), m),
        ),
        render_spec(compile_spec(pattern).unwrap(), placeholders()) == Ok::<
            Seq<char>,
            Seq<char>,
        >(pattern),
{
    let ls = compile_spec(pattern).unwrap();
    lemma_lex_source(pattern);
    lemma_split_source(lex(pattern).unwrap());
    lemma_covered_none_missing(ls, m);
    assert(names_covered(ls, placeholders()));
    lemma_covered_none_missing(ls, placeholders());
    lemma_expand_placeholders(ls);
}

/// In a pattern every opening brace is followed, somewhere, by a closing
/// one.
#[verifier::rlimit(50)]
pub proof fn lemma_lex_braces_close(s: Seq<char>, i: int)
    requires
        lex(s).is_some(),
        0 <= i < s.len(),
        s[i] == '{',
    ensures
        exists|j: int| i < j < s.len() && s[j] == '}',
    decreases s.len(),
{
    let (l, n) = first_lexem(s).unwrap();
    let rest = s.skip(n as int);
    if s[0] == '{' {
        lemma_span_holds(s.skip(1), name_char());
        if i == 0 {
            assert(s[n - 1] == '}');
        } else if i < n {
            if i < n - 1 {
                assert(s.skip(1)[i - 1] == s[i]);
            }
            assert(false);
        } else {
            assert(rest[i - n] == s[i]);
            lemma_lex_braces_close(rest, i - n);
            let j = choose|j: int| i - n < j < rest.len() && rest[j] == '}';
            assert(s[j + n] == rest[j]);
        }
    } else {
        lemma_span_holds(s, literal_char());
        if i < n {
            assert(false);
        } else {
            assert(rest[i - n] == s[i]);
            lemma_lex_braces_close(rest, i - n);
            let j = choose|j: int| i - n < j < rest.len() && rest[j] == '}';
            assert(s[j + n] == rest[j]);
        }
    }
}

/// A pattern with an opening brace that nothing closes does not compile.
pub proof fn law_unterminated_brace(pattern: Seq<char>, i: int)
    requires
        0 <= i < pattern.len(),
        pattern[i] == '{',
        forall|j: int| i < j < pattern.len() ==> pattern[j] != '}',
    ensures
        compile_spec(pattern).is_none(),
{
    if lex(pattern).is_some() {
        lemma_lex_braces_close(pattern, i);
    }
}

/// What [`first_missing`] finds is the name of a placeholder of `ls`
/// without a value; and it finds one where there is one.
pub proof fn lemma_first_missing(ls: Seq<LexemView>, m: Substitutions)
    ensures
        match first_missing(ls, m) {
            Some(name) => exists|i: int|
                0 <= i < ls.len() && #[trigger] ls[i] == LexemView::Sub(name) && !m.contains_key(
                    name,
                ),
            None => names_covered(ls, m),
        },
    decreases ls.len(),
{
    if ls.len() > 0 {
        let front = ls.drop_last();
        lemma_first_missing(front, m);
        match first_missing(front, m) {
            Some(name) => {
                let i = choose|i: int|
                    0 <= i < front.len() && #[trigger] front[i] == LexemView::Sub(name)
                        && !m.contains_key(name);
                assert(ls[i] == front[i]);
            },
            None => {
                match missing_name(ls.last(), m) {
                    Some(name) => {
                        assert(ls[ls.len() - 1] == LexemView::Sub(name));
                    },
                    None => {
                        assert forall|i: int| 0 <= i < ls.len() implies match #[trigger] ls[i] {
                            LexemView::Sub(name) => m.contains_key(name),
                            _ => true,
                        } by {
                            if i < front.len() {
                                assert(front[i] == ls[i]);
                            }
                        }
                    },
                }
            },
        }
    }
}

/// Rendering against substitutions that lack exactly one of the names
/// that the template needs fails, and names that key.
pub proof fn law_missing_key(ls: Seq<LexemView>, m: Substitutions, key: Seq<char>)
    requires
        exists|i: int| 0 <= i < ls.len() && #[trigger] ls[i] == LexemView::Sub(key),
        !m.contains_key(key),
        forall|i: int|
            0 <= i < ls.len() ==> match #[trigger] ls[i] {
                LexemView::Sub(name) => name == key || m.contains_key(name),
                _ => true,
            },
    ensures
        render_spec(ls, m) == Err::<Seq<char>, Seq<char>>(key),
{
    lemma_first_missing(ls, m);
    match first_missing(ls, m) {
        Some(name) => {
            let i = choose|i: int|
                0 <= i < ls.len() && #[trigger] ls[i] == LexemView::Sub(name) && !m.contains_key(
                    name,
                );
            assert(match ls[i] {
                LexemView::Sub(name) => name == key || m.contains_key(name),
                _ => true,
            });
        },
        None => {
            let i = choose|i: int| 0 <= i < ls.len() && #[trigger] ls[i] == LexemView::Sub(key);
            assert(match ls[i] {
                LexemView::Sub(name) => m.contains_key(name),
                _ => true,
            });
        },
    }
}

/// A lexem as the lexer gives it: a literal is not empty and holds no
/// opening brace, a name is not empty and made of name characters, and
/// no separator is told apart yet.
pub open spec fn is_lexed(l: LexemView) -> bool {
    match l {
        LexemView::PathSep => false,
        LexemView::Plain(t) => t.len() > 0 && forall|k: int|
            0 <= k < t.len() ==> #[trigger] t[k] != '{',
        LexemView::Sub(name) => name.len() > 0 && forall|k: int|
            0 <= k < name.len() ==> is_name_char(#[trigger] name[k]),
    }
}

/// Lexems as the lexer gives them: each is as [`is_lexed`] says, and no
/// literal follows a literal.
pub open spec fn all_lexed(ls: Seq<LexemView>) -> bool {
    &&& forall|i: int| 0 <= i < ls.len() ==> is_lexed(#[trigger] ls[i])
    &&& forall|i: int|
        0 <= i < ls.len() - 1 ==> !((#[trigger] ls[i]) is Plain && ls[i + 1] is Plain)
}

/// The source of lexems starts with the source of the first.
pub proof fn lemma_source_front(ls: Seq<LexemView>)
    requires
        ls.len() > 0,
    ensures
        source(ls) == source_of(ls[0]) + source(ls.skip(1)),
{
    assert(seq![ls[0]] + ls.skip(1) =~= ls);
    lemma_source_concat(seq![ls[0]], ls.skip(1));
    lemma_source_one(ls[0]);
}

/// Lexing what lexems spell gives the lexems back.
#[verifier::rlimit(50)]
pub proof fn lemma_lex_of_source(ls: Seq<LexemView>)
    requires
        all_lexed(ls),
    ensures
        lex(source(ls)) == Some(ls),
    decreases ls.len(),
{
    if ls.len() == 0 {
        assert(ls =~= Seq::empty());
    } else {
        let l = ls[0];
        let rest = ls.skip(1);
        let s = source(ls);
        let tail = source(rest);
        lemma_source_front(ls);
        assert(is_lexed(l));
        assert forall|i: int| 0 <= i < rest.len() implies is_lexed(#[trigger] rest[i]) by {
            assert(rest[i] == ls[i + 1]);
        }
        assert forall|i: int| 0 <= i < rest.len() - 1 implies !((#[trigger] rest[i]) is Plain
            && rest[i + 1] is Plain) by {
            assert(rest[i] == ls[i + 1]);
            assert(rest[i + 1] == ls[i + 2]);
        }
        lemma_lex_of_source(rest);
        if rest.len() > 0 {
            lemma_source_front(rest);
            assert(rest[0] == ls[1]);
            assert(is_lexed(rest[0]));
        }
        match l {
            LexemView::PathSep => {},
            LexemView::Plain(t) => {
                let n = t.len();
                assert forall|k: int| 0 <= k < n implies (literal_char())(#[trigger] s[k]) by {
                    assert(s[k] == t[k]);
                }
                if rest.len() > 0 {
                    assert(!(ls[0] is Plain && ls[1] is Plain));
                    assert(rest[0] is Sub);
                    assert(tail[0] == '{');
                    assert(s[n as int] == tail[0]);
                } else {
                    assert(tail =~= Seq::empty());
                }
                lemma_span_is(s, literal_char(), n);
                assert(s[0] == t[0]);
                assert(s.take(n as int) =~= t);
                assert(s.skip(n as int) =~= tail);
                assert(seq![l] + rest =~= ls);
            },
            LexemView::Sub(name) => {
                let n = name.len() as int;
                let inner = s.skip(1);
                assert(s[0] == '{');
                assert forall|k: int| 0 <= k < n implies (name_char())(#[trigger] inner[k]) by {
                    assert(inner[k] == name[k]);
                }
                assert(inner[n] == '}');
                lemma_span_is(inner, name_char(), n as nat);
                assert(s[n + 1] == '}');
                assert(s.subrange(1, n + 1) =~= name);
                assert(s.skip(n + 2) =~= tail);
                assert(seq![l] + rest =~= ls);
            },
        }
    }
}

/// Literal text that is cut at its slashes holds no placeholder, and is
/// still rendered as the text.
pub proof fn lemma_split_text_expand(t: Seq<char>, m: Substitutions)
    ensures
        names_covered(split_text(t), m),
        expand(split_text(t), m) == t,
    decreases t.len(),
{
    if t.len() == 0 {
    } else if t[0] == '/' {
        let rest = split_text(t.skip(1));
        lemma_split_text_expand(t.skip(1), m);
        lemma_expand_concat(seq![LexemView::PathSep], rest, m);
        lemma_expand_one(LexemView::PathSep, m);
        assert(seq!['/'] + t.skip(1) =~= t);
        lemma_covered_concat(seq![LexemView::PathSep], rest, m);
    } else {
        let n = span(t, segment_char());
        lemma_span_holds(t, segment_char());
        let l = LexemView::Plain(t.take(n as int));
        let rest = split_text(t.skip(n as int));
        lemma_split_text_expand(t.skip(n as int), m);
        lemma_expand_concat(seq![l], rest, m);
        lemma_expand_one(l, m);
        assert(t.take(n as int) + t.skip(n as int) =~= t);
        lemma_covered_concat(seq![l], rest, m);
    }
}

/// The rendering of two sequences of lexems, one after the other.
pub proof fn lemma_expand_concat(a: Seq<LexemView>, b: Seq<LexemView>, m: Substitutions)
    ensures
        expand(a + b, m) == expand(a, m) + expand(b, m),
    decreases b.len(),
{
    if b.len() == 0 {
        assert(a + b =~= a);
        assert(expand(a, m) + expand(b, m) =~= expand(a, m));
    } else {
        assert((a + b).drop_last() =~= a + b.drop_last());
        assert((a + b).last() == b.last());
        lemma_expand_concat(a, b.drop_last(), m);
        assert(expand(a + b, m) =~= expand(a, m) + expand(b, m));
    }
}

/// The rendering of a single lexem.
pub proof fn lemma_expand_one(l: LexemView, m: Substitutions)
    ensures
        expand(seq![l], m) == piece(l, m),
{
    assert(seq![l].drop_last() =~= Seq::<LexemView>::empty());
    assert(expand(Seq::<LexemView>::empty(), m) =~= Seq::<char>::empty());
    assert(seq![l].last() == l);
    assert(expand(seq![l], m) =~= piece(l, m));
}

/// Two sequences of lexems whose placeholders have values, one after the
/// other.
pub proof fn lemma_covered_concat(a: Seq<LexemView>, b: Seq<LexemView>, m: Substitutions)
    requires
        names_covered(a, m),
        names_covered(b, m),
    ensures
        names_covered(a + b, m),
{
    assert forall|i: int| 0 <= i < (a + b).len() implies match #[trigger] (a + b)[i] {
        LexemView::Sub(name) => m.contains_key(name),
        _ => true,
    } by {
        if i < a.len() {
            assert((a + b)[i] == a[i]);
        } else {
            assert((a + b)[i] == b[i - a.len()]);
        }
    }
}

/// Telling the separators apart changes neither which placeholders have
/// values nor the rendering.
pub proof fn lemma_split_expand(ls: Seq<LexemView>, m: Substitutions)
    requires
        names_covered(ls, m),
    ensures
        names_covered(split_all(ls), m),
        expand(split_all(ls), m) == expand(ls, m),
    decreases ls.len(),
{
    if ls.len() > 0 {
        let front = ls.drop_last();
        assert forall|i: int| 0 <= i < front.len() implies match #[trigger] front[i] {
            LexemView::Sub(name) => m.contains_key(name),
            _ => true,
        } by {
            assert(front[i] == ls[i]);
        }
        lemma_split_expand(front, m);
        lemma_expand_concat(split_all(front), split_lexem(ls.last()), m);
        assert(ls.last() == ls[ls.len() - 1]);
        match ls.last() {
            LexemView::Plain(t) => {
                lemma_split_text_expand(t, m);
            },
            other => {
                lemma_expand_one(other, m);
                assert(seq![other][0] == other);
            },
        }
        lemma_covered_concat(split_all(front), split_lexem(ls.last()), m);
    }
}

/// A pattern that lexems spell compiles, and where each of their
/// placeholders has a value, its rendering is the rendering of the
/// lexems.
pub proof fn law_spelled_pattern_renders(ls: Seq<LexemView>, m: Substitutions)
    requires
        all_lexed(ls),
        names_covered(ls, m),
    ensures
        compile_spec(source(ls)) == Some(split_all(ls)),
        render_spec(split_all(ls), m) == Ok::<Seq<char>, Seq<char>>(expand(ls, m)),
{
    lemma_lex_of_source(ls);
    lemma_split_expand(ls, m);
    lemma_covered_none_missing(split_all(ls), m);
}

/// The source of lexems with one more behind them.
pub proof fn lemma_source_push(ls: Seq<LexemView>, l: LexemView)
    ensures
        source(ls.push(l)) == source(ls) + source_of(l),
{
    assert(ls.push(l).drop_last() =~= ls);
    assert(ls.push(l).last() == l);
}

/// The rendering of lexems with one more behind them.
pub proof fn lemma_expand_push(ls: Seq<LexemView>, l: LexemView, m: Substitutions)
    ensures
        expand(ls.push(l), m) == expand(ls, m) + piece(l, m),
{
    assert(ls.push(l).drop_last() =~= ls);
    assert(ls.push(l).last() == l);
}

/// Lexems as the lexer gives them, with one more behind them that is
/// as the lexer gives it, and no literal behind a literal.
pub proof fn lemma_all_lexed_push(ls: Seq<LexemView>, l: LexemView)
    requires
        all_lexed(ls),
        is_lexed(l),
        ls.len() > 0 ==> !(ls.last() is Plain && l is Plain),
    ensures
        all_lexed(ls.push(l)),
{
    let more = ls.push(l);
    assert forall|i: int| 0 <= i < more.len() implies is_lexed(#[trigger] more[i]) by {
        if i < ls.len() {
            assert(more[i] == ls[i]);
        }
    }
    assert forall|i: int| 0 <= i < more.len() - 1 implies !((#[trigger] more[i]) is Plain
        && more[i + 1] is Plain) by {
        assert(more[i] == ls[i]);
        if i + 1 < ls.len() {
            assert(more[i + 1] == ls[i + 1]);
        }
    }
}

/// Lexems whose placeholders have values, with one more behind them
/// that is no placeholder or has a value.
pub proof fn lemma_covered_push(ls: Seq<LexemView>, l: LexemView, m: Substitutions)
    requires
        names_covered(ls, m),
        match l {
            LexemView::Sub(name) => m.contains_key(name),
            _ => true,
        },
    ensures
        names_covered(ls.push(l), m),
{
    let more = ls.push(l);
    assert forall|i: int| 0 <= i < more.len() implies match #[trigger] more[i] {
        LexemView::Sub(name) => m.contains_key(name),
        _ => true,
    } by {
        if i < ls.len() {
            assert(more[i] == ls[i]);
        }
    }
}

} // verus!
