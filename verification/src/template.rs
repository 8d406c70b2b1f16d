//! Path templates: a pattern is compiled once into lexems and rendered
//! many times against different substitutions.

use vstd::prelude::*;

pub mod grammar;
pub mod laws;
pub mod parser;
pub mod render;

use crate::template::grammar::LexemView;

verus! {

/// One token of a compiled pattern.
#[derive(Clone, Debug, PartialEq, Eq)]
pub enum Lexem {
    /// The boundary between two segments of a path.
    PathSep,
    /// Literal text, written out as it stands.
    Plain { text: String },
    /// A placeholder, replaced by the value that its name stands for.
    Sub { name: String },
}

impl View for Lexem {
    type V = LexemView;

    open spec fn view(&self) -> LexemView {
        match self {
            Lexem::PathSep => LexemView::PathSep,
            Lexem::Plain { text } => LexemView::Plain(text@),
            Lexem::Sub { name } => LexemView::Sub(name@),
        }
    }
}

impl Lexem {
    /// The placeholder of the given name.
    pub fn sub(n: &str) -> (l: Self)
        ensures
            l@ == LexemView::Sub(n@),
    {
        Lexem::Sub { name: n.to_owned() }
    }

    /// The given text as a literal.
    pub fn plain(t: &str) -> (l: Self)
        ensures
            l@ == LexemView::Plain(t@),
    {
        Lexem::Plain { text: t.to_owned() }
    }

    /// A copy of this lexem, equal to it in the contracts too.
    pub fn duplicate(&self) -> (l: Self)
        ensures
            l@ == self@,
    {
        match self {
            Lexem::PathSep => Lexem::PathSep,
            Lexem::Plain { text } => Lexem::Plain { text: text.clone() },
            Lexem::Sub { name } => Lexem::Sub { name: name.clone() },
        }
    }
}

/// The lexems of `v`, each by its view.
pub open spec fn views(v: Seq<Lexem>) -> Seq<LexemView> {
    Seq::new(v.len(), |i: int| v[i]@)
}

/// Pushing a lexem pushes its view.
pub proof fn lemma_views_push(v: Seq<Lexem>, l: Lexem)
    ensures
        views(v.push(l)) == views(v).push(l@),
{
    assert(views(v.push(l)) =~= views(v).push(l@));
}

/// A compiled pattern: its lexems, in the order of the pattern.
#[derive(Debug, Default, PartialEq, Eq)]
pub struct Template {
    pub lexems: Vec<Lexem>,
}

impl View for Template {
    type V = Seq<LexemView>;

    open spec fn view(&self) -> Seq<LexemView> {
        views(self.lexems@)
    }
}

} // verus!
