//! The lexer: from the text of a pattern to its lexems.

use vstd::prelude::*;

use crate::error::{CrateError, ErrorKind};
use crate::template::grammar::{
    first_lexem, lemma_span_is, lex, literal_char, name_char, segment_char, span, split_all,
    split_text, sub_spec, text_spec, LexemView,
};
use crate::template::{lemma_views_push, views, Lexem};
use crate::text::{chars_of, text_of};

verus! {

/// A class of characters that a scan runs over.
#[derive(Clone, Copy, Debug, PartialEq, Eq)]
pub enum CharClass {
    /// The characters of a placeholder's name.
    Name,
    /// The characters of literal text.
    Literal,
    /// The characters of a path segment.
    Segment,
}

impl CharClass {
    /// The class as a predicate on characters.
    pub open spec fn pred(self) -> spec_fn(char) -> bool {
        match self {
            CharClass::Name => name_char(),
            CharClass::Literal => literal_char(),
            CharClass::Segment => segment_char(),
        }
    }

    /// Whether `c` belongs to the class.
    pub fn keeps(self, c: char) -> (b: bool)
        ensures
            b == (self.pred())(c),
    {
        match self {
            CharClass::Name => ('a' <= c && c <= 'z') || ('A' <= c && c <= 'Z') || c == '_',
            CharClass::Literal => c != '{',
            CharClass::Segment => c != '/',
        }
    }
}

/// The end of the longest run of characters of `class` that starts at `at`.
pub fn scan(chars: &Vec<char>, at: usize, class: CharClass) -> (end: usize)
    requires
        at <= chars.len(),
    ensures
        at <= end <= chars.len(),
        end - at == span(chars@.skip(at as int), class.pred()),
{
    let mut end: usize = at;
    while end < chars.len() && class.keeps(chars[end])
        invariant
            at <= end <= chars.len(),
            forall|k: int| at <= k < end ==> (class.pred())(#[trigger] chars@[k]),
        decreases chars.len() - end,
    {
        end += 1;
    }
    proof {
        let rest = chars@.skip(at as int);
        assert forall|k: int| 0 <= k < end - at implies (class.pred())(#[trigger] rest[k]) by {
            assert(rest[k] == chars@[at + k]);
        }
        lemma_span_is(rest, class.pred(), (end - at) as nat);
    }
    end
}

/// A placeholder that starts at `at`: the index just behind its closing
/// brace.
pub fn sub_at(chars: &Vec<char>, at: usize) -> (r: Option<usize>)
    requires
        at <= chars.len(),
    ensures
        match sub_spec(chars@.skip(at as int)) {
            Some((name, n)) => r == Some((at + n) as usize) && at + n <= chars.len()
                && name == chars@.subrange(at + 1, at + n - 1),
            None => r.is_none(),
        },
{
    let ghost rest = chars@.skip(at as int);
    if at < chars.len() && chars[at] == '{' {
        let end = scan(chars, at + 1, CharClass::Name);
        proof {
            assert(rest.skip(1) =~= chars@.skip(at + 1));
        }
        if end > at + 1 && end < chars.len() && chars[end] == '}' {
            proof {
                assert(rest.subrange(1, end - at) =~= chars@.subrange(at + 1, end as int));
            }
            Some(end + 1)
        } else {
            None
        }
    } else {
        None
    }
}

/// Reads one placeholder, `{name}`, at the start of `i`, and returns what
/// follows it together with the lexem.
pub fn sub<'a>(i: &'a str) -> (r: Result<(&'a str, Lexem), CrateError>)
    ensures
        match sub_spec(i@) {
            Some((name, n)) => r matches Ok((rest, l)) && rest@ == i@.skip(n as int) && l@
                == LexemView::Sub(name),
            None => r matches Err(e) && e.kind_spec() == ErrorKind::InvalidPattern && e.detail()
                == i@,
        },
{
    let chars = chars_of(i);
    assert(chars@.skip(0) =~= chars@);
    match sub_at(&chars, 0) {
        Some(end) => {
            let name = text_of(&chars, 1, end - 1);
            let rest = i.substring_char(end, chars.len());
            assert(rest@ =~= i@.skip(end as int));
            Ok((rest, Lexem::Sub { name }))
        },
        None => Err(CrateError::invalid_pattern(i)),
    }
}

/// Reads the literal text at the start of `i`, up to the first `{`, and
/// returns what follows it together with the lexem. The text may be empty.
pub fn text<'a>(i: &'a str) -> (r: Result<(&'a str, Lexem), CrateError>)
    ensures
        r matches Ok((rest, l)) && rest@ == i@.skip(text_spec(i@) as int) && l@
            == LexemView::Plain(i@.take(text_spec(i@) as int)),
{
    let chars = chars_of(i);
    assert(chars@.skip(0) =~= chars@);
    let end = scan(&chars, 0, CharClass::Literal);
    let run = i.substring_char(0, end);
    let rest = i.substring_char(end, chars.len());
    assert(rest@ =~= i@.skip(end as int));
    assert(run@ =~= i@.take(end as int));
    Ok((rest, Lexem::Plain { text: run.to_owned() }))
}

/// One step of [`lex`]: the lexems of `s` are the first lexem followed by
/// the lexems of the rest.
proof fn lemma_lex_step(s: Seq<char>, at: int, l: LexemView, n: nat)
    requires
        0 <= at < s.len(),
        first_lexem(s.skip(at)) == Some((l, n)),
        0 < n,
        at + n <= s.len(),
    ensures
        lex(s.skip(at)) == match lex(s.skip(at + n)) {
            Some(rest) => Some(seq![l] + rest),
            None => None,
        },
{
    assert(s.skip(at).skip(n as int) =~= s.skip(at + n));
}

/// Reads a whole pattern: placeholders and the literal text between them.
/// What is returned beside the lexems is what was left unread, which is
/// empty.
#[verifier::rlimit(50)]
pub fn template<'a>(i: &'a str) -> (r: Result<(&'a str, Vec<Lexem>), CrateError>)
    ensures
        match lex(i@) {
            Some(ls) => r matches Ok((rest, v)) && rest@.len() == 0 && views(v@) == ls,
            None => r matches Err(e) && e.kind_spec() == ErrorKind::InvalidPattern && e.detail()
                == i@,
        },
{
    let chars = chars_of(i);
    let mut v: Vec<Lexem> = Vec::new();
    let mut at: usize = 0;
    assert(chars@.skip(0) =~= chars@);
    assert(views(v@) =~= Seq::empty());
    while at < chars.len()
        invariant
            at <= chars.len(),
            chars@ == i@,
            lex(i@) == match lex(chars@.skip(at as int)) {
                Some(rest) => Some(views(v@) + rest),
                None => None,
            },
        decreases chars.len() - at,
    {
        let ghost before = views(v@);
        let ghost tail = chars@.skip(at as int);
        if chars[at] == '{' {
            match sub_at(&chars, at) {
                Some(end) => {
                    let name = text_of(&chars, at + 1, end - 1);
                    let l = Lexem::Sub { name };
                    proof {
                        lemma_lex_step(chars@, at as int, l@, (end - at) as nat);
                        lemma_views_push(v@, l);
                        if lex(chars@.skip(end as int)) is Some {
                            let rest = lex(chars@.skip(end as int))->0;
                            assert(before.push(l@) + rest =~= before + (seq![l@] + rest));
                        }
                    }
                    v.push(l);
                    at = end;
                },
                None => {
                    return Err(CrateError::invalid_pattern(i));
                },
            }
        } else {
            let end = scan(&chars, at, CharClass::Literal);
            let run = text_of(&chars, at, end);
            let l = Lexem::Plain { text: run };
            proof {
                assert(tail[0] == chars@[at as int]);
                assert(tail.take(end - at) =~= chars@.subrange(at as int, end as int));
                lemma_lex_step(chars@, at as int, l@, (end - at) as nat);
                lemma_views_push(v@, l);
                if lex(chars@.skip(end as int)) is Some {
                    let rest = lex(chars@.skip(end as int))->0;
                    assert(before.push(l@) + rest =~= before + (seq![l@] + rest));
                }
            }
            v.push(l);
            at = end;
        }
    }
    let rest = i.substring_char(at, at);
    proof {
        assert(chars@.skip(at as int).len() == 0);
        assert(views(v@) + Seq::<LexemView>::empty() =~= views(v@));
    }
    Ok((rest, v))
}

/// The lexems of the pattern `s`, or the error that says that `s` is no
/// pattern.
pub fn parse_template(s: &str) -> (r: Result<Vec<Lexem>, CrateError>)
    ensures
        match lex(s@) {
            Some(ls) => r matches Ok(v) && views(v@) == ls,
            None => r matches Err(e) && e.kind_spec() == ErrorKind::InvalidPattern && e.detail()
                == s@,
        },
{
    match template(s) {
        Ok((_, v)) => Ok(v),
        Err(e) => Err(e),
    }
}

/// Appends to `out` the lexems that the literal text `t` is cut into at
/// its slashes.
#[verifier::rlimit(50)]
pub fn push_split(out: &mut Vec<Lexem>, t: &str)
    ensures
        views(final(out)@) == views(old(out)@) + split_text(t@),
{
    let chars = chars_of(t);
    let mut at: usize = 0;
    assert(chars@.skip(0) =~= chars@);
    while at < chars.len()
        invariant
            at <= chars.len(),
            chars@ == t@,
            views(out@) + split_text(chars@.skip(at as int)) == views(old(out)@) + split_text(
                t@,
            ),
        decreases chars.len() - at,
    {
        let ghost before = views(out@);
        let ghost tail = chars@.skip(at as int);
        assert(tail[0] == chars@[at as int]);
        if chars[at] == '/' {
            let l = Lexem::PathSep;
            proof {
                assert(tail.skip(1) =~= chars@.skip(at + 1));
                lemma_views_push(out@, l);
                let rest = split_text(chars@.skip(at + 1));
                assert(before.push(l@) + rest =~= before + (seq![l@] + rest));
            }
            out.push(l);
            at += 1;
        } else {
            let end = scan(&chars, at, CharClass::Segment);
            let run = text_of(&chars, at, end);
            let l = Lexem::Plain { text: run };
            proof {
                assert(tail.take(end - at) =~= chars@.subrange(at as int, end as int));
                assert(tail.skip(end - at) =~= chars@.skip(end as int));
                lemma_views_push(out@, l);
                let rest = split_text(chars@.skip(end as int));
                assert(before.push(l@) + rest =~= before + (seq![l@] + rest));
            }
            out.push(l);
            at = end;
        }
    }
    proof {
        assert(views(out@) + Seq::<LexemView>::empty() =~= views(out@));
    }
}

/// Tells the separators apart: each slash in literal text becomes a
/// lexem of its own, and the text around it is cut there.
pub fn split_separators(lexems: &Vec<Lexem>) -> (out: Vec<Lexem>)
    ensures
        views(out@) == split_all(views(lexems@)),
{
    let mut out: Vec<Lexem> = Vec::new();
    let mut i: usize = 0;
    assert(views(out@) =~= Seq::empty());
    assert(views(lexems@).take(0) =~= Seq::empty());
    while i < lexems.len()
        invariant
            i <= lexems.len(),
            views(out@) == split_all(views(lexems@).take(i as int)),
        decreases lexems.len() - i,
    {
        let ghost before = views(out@);
        proof {
            let upto = views(lexems@).take(i + 1);
            assert(upto.drop_last() =~= views(lexems@).take(i as int));
            assert(upto.last() == lexems@[i as int]@);
        }
        match &lexems[i] {
            Lexem::Plain { text } => {
                push_split(&mut out, text.as_str());
            },
            other => {
                let l = other.duplicate();
                proof {
                    lemma_views_push(out@, l);
                    assert(before.push(l@) =~= before + seq![l@]);
                }
                out.push(l);
            },
        }
        i += 1;
    }
    assert(views(lexems@).take(lexems.len() as int) =~= views(lexems@));
    out
}

} // verus!
