//! The cache of work already done: a table from a key to a text, in
//! which the first value written for a key stays.
//!
//! The table lives in memory. Whoever runs the pipeline loads its rows
//! before a run and stores them after it.

use vstd::prelude::*;
use vstd::string::StringExecFns;

use crate::text::same_text;

verus! {

/// The name of the file that the rows are kept in between two runs.
pub const CACHE_DB: &'static str = ".cache.db";

/// The key of the table for `key` in the namespace `slug`: the two, with
/// a colon between them.
pub open spec fn composite_key(slug: Seq<char>, key: Seq<char>) -> Seq<char> {
    slug + seq![':'] + key
}

/// The table after `value` is written for `key`: unchanged where the key
/// has a value, else with the value for the key.
pub open spec fn inserted(
    table: Map<Seq<char>, Seq<char>>,
    key: Seq<char>,
    value: Seq<char>,
) -> Map<Seq<char>, Seq<char>> {
    if table.contains_key(key) {
        table
    } else {
        table.insert(key, value)
    }
}

/// The table that rows make when they are written one after the other.
pub open spec fn table_of(rows: Seq<(String, String)>) -> Map<Seq<char>, Seq<char>>
    decreases rows.len(),
{
    if rows.len() == 0 {
        Map::empty()
    } else {
        inserted(table_of(rows.drop_last()), rows.last().0@, rows.last().1@)
    }
}

/// The key of the table for `key` in the namespace `slug`.
pub fn cache_key(slug: &str, key: &str) -> (r: String)
    ensures
        r@ == composite_key(slug@, key@),
{
    proof {
        reveal_strlit(":");
        assert(":"@ =~= seq![':']);
    }
    String::from_str(slug).concat(":").concat(key)
}

/// The cache: the rows of the table, in the order in which they were
/// written.
#[derive(Debug)]
pub struct Cache {
    rows: Vec<(String, String)>,
}

impl View for Cache {
    type V = Map<Seq<char>, Seq<char>>;

    closed spec fn view(&self) -> Map<Seq<char>, Seq<char>> {
        table_of(self.rows@)
    }
}

/// A key that no row has is not in the table.
proof fn lemma_absent(rows: Seq<(String, String)>, key: Seq<char>)
    requires
        forall|j: int| 0 <= j < rows.len() ==> (#[trigger] rows[j]).0@ != key,
    ensures
        !table_of(rows).contains_key(key),
    decreases rows.len(),
{
    if rows.len() > 0 {
        let front = rows.drop_last();
        assert forall|j: int| 0 <= j < front.len() implies (#[trigger] front[j]).0@ != key by {
            assert(front[j] == rows[j]);
        }
        lemma_absent(front, key);
        assert(rows[rows.len() - 1].0@ != key);
    }
}

/// The key of a row is in the table, with the value of the first row
/// that has the key.
proof fn lemma_found(rows: Seq<(String, String)>, at: int)
    requires
        0 <= at < rows.len(),
        forall|j: int| 0 <= j < at ==> (#[trigger] rows[j]).0@ != rows[at].0@,
    ensures
        table_of(rows).contains_key(rows[at].0@),
        table_of(rows)[rows[at].0@] == rows[at].1@,
    decreases rows.len(),
{
    let front = rows.drop_last();
    let key = rows[at].0@;
    if at == rows.len() - 1 {
        assert forall|j: int| 0 <= j < front.len() implies (#[trigger] front[j]).0@ != key by {
            assert(front[j] == rows[j]);
        }
        lemma_absent(front, key);
    } else {
        assert(front[at] == rows[at]);
        assert forall|j: int| 0 <= j < at implies (#[trigger] front[j]).0@ != front[at].0@ by {
            assert(front[j] == rows[j]);
        }
        lemma_found(front, at);
    }
}

/// Without a row of the key `rows[at].0`, and without what is left for
/// that key, the table is the table without the key.
#[verifier::rlimit(50)]
proof fn lemma_table_remove(rows: Seq<(String, String)>, at: int)
    requires
        0 <= at < rows.len(),
    ensures
        table_of(rows.remove(at)).remove(rows[at].0@) == table_of(rows).remove(rows[at].0@),
    decreases rows.len(),
{
    let k = rows[at].0@;
    let front = rows.drop_last();
    let last = rows.last();
    if at == rows.len() - 1 {
        assert(rows.remove(at) =~= front);
        assert(table_of(rows).remove(k) =~= table_of(front).remove(k));
    } else {
        let rest = rows.remove(at);
        assert(rest.drop_last() =~= front.remove(at));
        assert(rest.last() == last);
        assert(front[at] == rows[at]);
        lemma_table_remove(front, at);
        let a = table_of(front.remove(at));
        let b = table_of(front);
        let x = inserted(a, last.0@, last.1@).remove(k);
        let y = inserted(b, last.0@, last.1@).remove(k);
        assert forall|j: Seq<char>|
            #![trigger x.dom().contains(j)]
            #![trigger y.dom().contains(j)]
            (x.dom().contains(j) <==> y.dom().contains(j)) && (x.dom().contains(j) ==> x[j]
                == y[j]) by {
            if j != k {
                assert(a.contains_key(j) <==> a.remove(k).contains_key(j));
                assert(b.contains_key(j) <==> b.remove(k).contains_key(j));
                if a.contains_key(j) {
                    assert(a[j] == a.remove(k)[j]);
                    assert(b[j] == b.remove(k)[j]);
                }
                let lk = last.0@;
                if lk != k {
                    assert(a.contains_key(lk) <==> a.remove(k).contains_key(lk));
                    assert(b.contains_key(lk) <==> b.remove(k).contains_key(lk));
                }
            }
        }
        assert(x =~= y);
    }
}

impl Cache {
    /// The empty cache.
    pub fn new() -> (r: Self)
        ensures
            r@ == Map::<Seq<char>, Seq<char>>::empty(),
    {
        Cache { rows: Vec::new() }
    }

    /// The cache that holds the given rows, each a key of the table and
    /// its value. Where two rows have the same key, the first counts.
    pub fn from_rows(rows: Vec<(String, String)>) -> (r: Self)
        ensures
            r@ == table_of(rows@),
    {
        Cache { rows }
    }

    /// The rows of the table, in the order in which they were written.
    pub fn rows(&self) -> (r: &Vec<(String, String)>)
        ensures
            table_of(r@) == self@,
    {
        &self.rows
    }

    /// The index of the first row of `key`, where there is one.
    fn find(&self, key: &str) -> (r: Option<usize>)
        ensures
            match r {
                Some(i) => i < self.rows.len() && self.rows@[i as int].0@ == key@
                    && self@.contains_key(key@) && self@[key@] == self.rows@[i as int].1@,
                None => !self@.contains_key(key@),
            },
    {
        let mut i: usize = 0;
        while i < self.rows.len()
            invariant
                i <= self.rows.len(),
                forall|k: int| 0 <= k < i ==> (#[trigger] self.rows@[k]).0@ != key@,
            decreases self.rows.len() - i,
        {
            if same_text(self.rows[i].0.as_str(), key) {
                proof {
                    lemma_found(self.rows@, i as int);
                }
                return Some(i);
            }
            i += 1;
        }
        proof {
            lemma_absent(self.rows@, key@);
        }
        None
    }

    /// Writes `value` for the key `key` of the table, unless the key has
    /// a value.
    fn put(&mut self, key: &str, value: &str)
        ensures
            final(self)@ == inserted(old(self)@, key@, value@),
    {
        let row = (key.to_owned(), value.to_owned());
        proof {
            let more = self.rows@.push(row);
            assert(more.drop_last() =~= self.rows@);
            assert(more.last() == row);
        }
        self.rows.push(row);
    }

    /// Records `value` for `key` in the namespace `slug`. Where the key
    /// has a value already, nothing changes: the first value stays.
    pub fn insert(&mut self, slug: &str, key: &str, value: &str)
        ensures
            final(self)@ == inserted(old(self)@, composite_key(slug@, key@), value@),
    {
        let k = cache_key(slug, key);
        if self.find(k.as_str()).is_none() {
            self.put(k.as_str(), value);
        }
    }

    /// The value of `key` in the namespace `slug`, or `None` where the
    /// key has none.
    pub fn select(&self, slug: &str, key: &str) -> (r: Option<String>)
        ensures
            match r {
                Some(value) => self@.contains_key(composite_key(slug@, key@)) && value@
                    == self@[composite_key(slug@, key@)],
                None => !self@.contains_key(composite_key(slug@, key@)),
            },
    {
        let k = cache_key(slug, key);
        match self.find(k.as_str()) {
            Some(i) => Some(self.rows[i].1.clone()),
            None => None,
        }
    }

    /// Forgets the value of `key` in the namespace `slug`.
    pub fn delete(&mut self, slug: &str, key: &str)
        ensures
            final(self)@ == old(self)@.remove(composite_key(slug@, key@)),
    {
        let k = cache_key(slug, key);
        loop
            invariant
                k@ == composite_key(slug@, key@),
                self@.remove(k@) == old(self)@.remove(k@),
            ensures
                self@ == old(self)@.remove(k@),
            decreases self.rows.len(),
        {
            match self.find(k.as_str()) {
                Some(i) => {
                    proof {
                        lemma_table_remove(self.rows@, i as int);
                    }
                    self.rows.remove(i);
                },
                None => {
                    assert(self@.remove(k@) =~= self@);
                    break;
                },
            }
        }
    }
}

/// Writing twice for one key is writing once: the key has one value, the
/// first that was written for it, and a second write changes nothing,
/// whatever its value.
pub proof fn law_insert_idempotent(
    table: Map<Seq<char>, Seq<char>>,
    key: Seq<char>,
    value: Seq<char>,
    other: Seq<char>,
)
    ensures
        inserted(table, key, value).contains_key(key),
        !table.contains_key(key) ==> inserted(table, key, value)[key] == value,
        table.contains_key(key) ==> inserted(table, key, value)[key] == table[key],
        inserted(inserted(table, key, value), key, value) == inserted(table, key, value),
        inserted(inserted(table, key, value), key, other) == inserted(table, key, value),
{
}

/// Where no namespace holds a colon, two keys of the table are the same
/// only for the same namespace and the same key.
pub proof fn law_composite_key_injective(
    slug: Seq<char>,
    key: Seq<char>,
    other_slug: Seq<char>,
    other_key: Seq<char>,
)
    requires
        !slug.contains(':'),
        !other_slug.contains(':'),
        composite_key(slug, key) == composite_key(other_slug, other_key),
    ensures
        slug == other_slug,
        key == other_key,
{
    let c = composite_key(slug, key);
    let d = composite_key(other_slug, other_key);
    assert(c[slug.len() as int] == ':');
    assert(d[other_slug.len() as int] == ':');
    if slug.len() < other_slug.len() {
        assert(d[slug.len() as int] == other_slug[slug.len() as int]);
        assert(other_slug.contains(':'));
    }
    if other_slug.len() < slug.len() {
        assert(c[other_slug.len() as int] == slug[other_slug.len() as int]);
        assert(slug.contains(':'));
    }
    assert(slug =~= c.take(slug.len() as int));
    assert(other_slug =~= d.take(other_slug.len() as int));
    assert(key =~= c.skip(slug.len() as int + 1));
    assert(other_key =~= d.skip(other_slug.len() as int + 1));
}

/// A key for which nothing was written has no value: the empty table
/// holds none, and writing for one key of one namespace gives no value
/// to another.
pub proof fn law_never_inserted_is_absent(
    table: Map<Seq<char>, Seq<char>>,
    slug: Seq<char>,
    key: Seq<char>,
    value: Seq<char>,
    other_slug: Seq<char>,
    other_key: Seq<char>,
)
    requires
        !slug.contains(':'),
        !other_slug.contains(':'),
        slug != other_slug || key != other_key,
        !table.contains_key(composite_key(other_slug, other_key)),
    ensures
        !Map::<Seq<char>, Seq<char>>::empty().contains_key(
            composite_key(other_slug, other_key),
        ),
        !inserted(table, composite_key(slug, key), value).contains_key(
            composite_key(other_slug, other_key),
        ),
{
    if composite_key(slug, key) == composite_key(other_slug, other_key) {
        law_composite_key_injective(slug, key, other_slug, other_key);
    }
}

} // verus!
