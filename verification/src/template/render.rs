//! Rendering: a compiled pattern and a set of substitutions give a text.

use vstd::hash_map::StringHashMap;
use vstd::prelude::*;
use vstd::string::StringExecFns;

use crate::error::{CrateError, ErrorKind};
use crate::template::grammar::{compile_spec, LexemView};
use crate::template::parser::{parse_template, split_separators};
use crate::template::{Lexem, Template};

verus! {

/// The values that the names stand for.
pub type Substitutions = Map<Seq<char>, Seq<char>>;

/// What one lexem is rendered as: a separator as a slash, a literal as
/// its text, a placeholder as the value of its name.
pub open spec fn piece(l: LexemView, m: Substitutions) -> Seq<char> {
    match l {
        LexemView::PathSep => seq!['/'],
        LexemView::Plain(t) => t,
        LexemView::Sub(name) => m[name],
    }
}

/// The pieces of all lexems, one after the other.
pub open spec fn expand(ls: Seq<LexemView>, m: Substitutions) -> Seq<char>
    decreases ls.len(),
{
    if ls.len() == 0 {
        Seq::empty()
    } else {
        expand(ls.drop_last(), m) + piece(ls.last(), m)
    }
}

/// The name of a placeholder that has no value in `m`.
pub open spec fn missing_name(l: LexemView, m: Substitutions) -> Option<Seq<char>> {
    match l {
        LexemView::Sub(name) => if m.contains_key(name) {
            None
        } else {
            Some(name)
        },
        _ => None,
    }
}

/// The name of the first placeholder of `ls` that has no value in `m`.
pub open spec fn first_missing(ls: Seq<LexemView>, m: Substitutions) -> Option<Seq<char>>
    decreases ls.len(),
{
    if ls.len() == 0 {
        None
    } else {
        match first_missing(ls.drop_last(), m) {
            Some(name) => Some(name),
            None => missing_name(ls.last(), m),
        }
    }
}

/// The rendering of `ls` against `m`: the text, or the name of the first
/// placeholder without a value.
pub open spec fn render_spec(ls: Seq<LexemView>, m: Substitutions) -> Result<
    Seq<char>,
    Seq<char>,
> {
    match first_missing(ls, m) {
        Some(name) => Err(name),
        None => Ok(expand(ls, m)),
    }
}

/// The substitutions that a list of pairs stands for: each name has the
/// value of the last pair that holds it.
pub open spec fn substitutions_of(pairs: Seq<(&str, &str)>) -> Substitutions
    decreases pairs.len(),
{
    if pairs.len() == 0 {
        Map::empty()
    } else {
        substitutions_of(pairs.drop_last()).insert(pairs.last().0@, pairs.last().1@)
    }
}

/// The map with each value taken as a sequence of characters.
pub open spec fn text_map(m: Map<Seq<char>, String>) -> Substitutions {
    Map::new(|k: Seq<char>| m.contains_key(k), |k: Seq<char>| m[k]@)
}

impl Template {
    /// Compiles a pattern.
    ///
    /// A malformed pattern gives `InvalidPattern` with the pattern as its
    /// text.
    pub fn try_from(value: &str) -> (r: Result<Template, CrateError>)
        ensures
            match compile_spec(value@) {
                Some(ls) => r matches Ok(t) && t@ == ls,
                None => r matches Err(e) && e.kind_spec() == ErrorKind::InvalidPattern
                    && e.detail() == value@,
            },
    {
        match parse_template(value) {
            Ok(raw) => Ok(Template { lexems: split_separators(&raw) }),
            Err(e) => Err(e),
        }
    }

    /// Renders the template against a map from names to values.
    ///
    /// Nothing is returned of a rendering that fails: the first
    /// placeholder whose name the map lacks gives `MissingTemplateKey`
    /// with that name.
    pub fn render_map(&self, map: &StringHashMap<String>) -> (r: Result<String, CrateError>)
        ensures
            match render_spec(self@, text_map(map@)) {
                Ok(s) => r matches Ok(out) && out@ == s,
                Err(name) => r matches Err(e) && e.kind_spec() == ErrorKind::MissingTemplateKey
                    && e.detail() == name,
            },
    {
        let ghost m = text_map(map@);
        let mut result = String::new();
        let mut i: usize = 0;
        assert(self@.take(0) =~= Seq::empty());
        while i < self.lexems.len()
            invariant
                i <= self.lexems.len(),
                m == text_map(map@),
                first_missing(self@.take(i as int), m).is_none(),
                result@ == expand(self@.take(i as int), m),
            decreases self.lexems.len() - i,
        {
            proof {
                let upto = self@.take(i + 1);
                assert(upto.drop_last() =~= self@.take(i as int));
                assert(upto.last() == self.lexems@[i as int]@);
            }
            match &self.lexems[i] {
                Lexem::PathSep => result.append("/"),
                Lexem::Plain { text } => result.append(text.as_str()),
                Lexem::Sub { name } => {
                    match map.get(name.as_str()) {
                        Some(value) => result.append(value.as_str()),
                        None => {
                            proof {
                                lemma_first_missing_prefix(self@, m, i + 1);
                            }
                            return Err(CrateError::missing_template_key(name.as_str()));
                        },
                    }
                },
            }
            proof {
                reveal_strlit("/");
                assert("/"@ =~= seq!['/']);
            }
            i += 1;
        }
        assert(self@.take(self.lexems.len() as int) =~= self@);
        Ok(result)
    }

    /// Renders the template against a list of pairs of a name and its
    /// value. Where a name occurs twice, its last value counts.
    pub fn render(&self, it: &[(&str, &str)]) -> (r: Result<String, CrateError>)
        ensures
            match render_spec(self@, substitutions_of(it@)) {
                Ok(s) => r matches Ok(out) && out@ == s,
                Err(name) => r matches Err(e) && e.kind_spec() == ErrorKind::MissingTemplateKey
                    && e.detail() == name,
            },
    {
        let mut map: StringHashMap<String> = StringHashMap::new();
        let mut i: usize = 0;
        assert(it@.take(0) =~= Seq::empty());
        assert(text_map(map@) =~= Map::empty());
        while i < it.len()
            invariant
                i <= it.len(),
                text_map(map@) == substitutions_of(it@.take(i as int)),
            decreases it.len() - i,
        {
            let (k, v) = it[i];
            proof {
                let upto = it@.take(i + 1);
                assert(upto.drop_last() =~= it@.take(i as int));
                assert(upto.last() == it@[i as int]);
            }
            let ghost before = map@;
            let key = k.to_owned();
            let value = v.to_owned();
            map.insert(key, value);
            assert(text_map(map@) =~= text_map(before).insert(k@, v@));
            i += 1;
        }
        assert(it@.take(it.len() as int) =~= it@);
        self.render_map(&map)
    }
}

/// A placeholder without a value in a prefix of `ls` is one in `ls`, and
/// the first of them is the same.
pub proof fn lemma_first_missing_prefix(ls: Seq<LexemView>, m: Substitutions, n: int)
    requires
        0 <= n <= ls.len(),
        first_missing(ls.take(n), m).is_some(),
    ensures
        first_missing(ls, m) == first_missing(ls.take(n), m),
    decreases ls.len() - n,
{
    if n < ls.len() {
        let upto = ls.take(n + 1);
        assert(upto.drop_last() =~= ls.take(n));
        lemma_first_missing_prefix(ls, m, n + 1);
    } else {
        assert(ls.take(n) =~= ls);
    }
}

/// One more pair gives its name its value, whatever the name had before.
pub proof fn lemma_substitutions_push(pairs: Seq<(&str, &str)>, name: &str, value: &str)
    ensures
        substitutions_of(pairs.push((name, value))) == substitutions_of(pairs).insert(
            name@,
            value@,
        ),
{
    let more = pairs.push((name, value));
    assert(more.drop_last() =~= pairs);
    assert(more.last() == (name, value));
}

} // verus!
