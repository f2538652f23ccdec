//! Query helpers: search patterns, paging and `WHERE` clause assembly.

use vstd::prelude::*;
use crate::text::{
    append_chars, chars_of, join, join_chars, push_str, render_u64, replace_all, decimal, string_of, trim,
    trim_chars, trim_end, trim_start, is_ws,
};

verus! {

/// A `LIKE` metacharacter.
pub open spec fn is_like_meta(c: char) -> bool {
    c == '%' || c == '_' || c == '\\'
}

/// Every LIKE metacharacter preceded by a backslash.
pub open spec fn escape_like(s: Seq<char>) -> Seq<char>
    decreases s.len(),
{
    if s.len() == 0 {
        s
    } else if is_like_meta(s.last()) {
        escape_like(s.drop_last()) + seq!['\\', s.last()]
    } else {
        escape_like(s.drop_last()).push(s.last())
    }
}

/// `%term%` for a `LIKE` search, with LIKE metacharacters escaped.
pub open spec fn like_pattern_spec(q: Seq<char>) -> Seq<char> {
    seq!['%'] + trim(escape_like(q)) + seq!['%']
}

pub fn like_pattern(q: &str) -> (r: String)
    ensures
        r@ == like_pattern_spec(q@),
{
    let v = chars_of(q);
    let mut esc: Vec<char> = Vec::new();
    let mut k: usize = 0;
    while k < v.len()
        invariant
            k <= v@.len(),
            esc@ == escape_like(v@.subrange(0, k as int)),
        decreases v@.len() - k,
    {
        let c = v[k];
        assert(v@.subrange(0, k + 1).drop_last() =~= v@.subrange(0, k as int));
        let ghost before = esc@;
        if c == '%' || c == '_' || c == '\\' {
            esc.push('\\');
            esc.push(c);
            assert(esc@ =~= before + seq!['\\', c]);
        } else {
            esc.push(c);
        }
        k += 1;
    }
    assert(v@.subrange(0, v@.len() as int) =~= v@);
    let t = trim_chars(esc.as_slice());
    let mut out: Vec<char> = Vec::new();
    out.push('%');
    append_chars(&mut out, t.as_slice());
    out.push('%');
    assert(out@ =~= seq!['%'] + t@ + seq!['%']);
    string_of(out.as_slice())
}

/// Every LIKE metacharacter of `p` stands behind a backslash that escapes it, reading escape
/// pairs from the end.
pub open spec fn metas_escaped(p: Seq<char>) -> bool
    decreases p.len(),
{
    if p.len() == 0 {
        true
    } else if is_like_meta(p.last()) {
        p.len() >= 2 && p[p.len() - 2] == '\\' && metas_escaped(p.subrange(0, p.len() - 2))
    } else {
        metas_escaped(p.drop_last())
    }
}

/// The text an escaped pattern matches literally: each escape pair read as the character it
/// escapes.
pub open spec fn unescape_like(p: Seq<char>) -> Seq<char>
    decreases p.len(),
{
    if p.len() == 0 {
        p
    } else if is_like_meta(p.last()) && p.len() >= 2 {
        unescape_like(p.subrange(0, p.len() - 2)).push(p.last())
    } else {
        unescape_like(p.drop_last()).push(p.last())
    }
}

proof fn lemma_escape_reads_back(s: Seq<char>)
    ensures
        metas_escaped(escape_like(s)),
        unescape_like(escape_like(s)) == s,
    decreases s.len(),
{
    if s.len() > 0 {
        lemma_escape_reads_back(s.drop_last());
        let e = escape_like(s);
        let p = escape_like(s.drop_last());
        if is_like_meta(s.last()) {
            assert(e.subrange(0, e.len() - 2) =~= p);
            assert(e[e.len() - 2] == '\\');
            assert(e.last() == s.last());
        } else {
            assert(e.drop_last() =~= p);
        }
        assert(s.drop_last().push(s.last()) =~= s);
    }
}

proof fn lemma_escape_concat(a: Seq<char>, b: Seq<char>)
    ensures
        escape_like(a + b) == escape_like(a) + escape_like(b),
    decreases b.len(),
{
    if b.len() == 0 {
        assert(a + b =~= a);
        assert(escape_like(a) + escape_like(b) =~= escape_like(a));
    } else {
        assert((a + b).drop_last() =~= a + b.drop_last());
        assert((a + b).last() == b.last());
        lemma_escape_concat(a, b.drop_last());
        if is_like_meta(b.last()) {
            assert(escape_like(a) + escape_like(b) =~= escape_like(a) + escape_like(b.drop_last()) + seq!['\\', b.last()]);
        } else {
            assert(escape_like(a) + escape_like(b) =~= (escape_like(a) + escape_like(b.drop_last())).push(b.last()));
        }
    }
}

proof fn lemma_escape_trim_end(q: Seq<char>)
    ensures
        trim_end(escape_like(q)) == escape_like(trim_end(q)),
    decreases q.len(),
{
    if q.len() > 0 {
        let c = q.last();
        if is_ws(c) {
            assert(!is_like_meta(c));
            assert(escape_like(q).last() == c);
            assert(escape_like(q).drop_last() =~= escape_like(q.drop_last()));
            lemma_escape_trim_end(q.drop_last());
        } else {
            assert(escape_like(q).last() == c);
        }
    }
}

proof fn lemma_escape_trim_start(q: Seq<char>)
    ensures
        trim_start(escape_like(q)) == escape_like(trim_start(q)),
    decreases q.len(),
{
    if q.len() > 0 {
        let c = q[0];
        let rest = q.drop_first();
        assert(q =~= seq![c] + rest);
        lemma_escape_concat(seq![c], rest);
        assert(seq![c].drop_last() =~= Seq::<char>::empty());
        assert(seq![c].last() == c);
        assert(escape_like(Seq::<char>::empty()) =~= Seq::<char>::empty());
        if is_ws(c) {
            assert(!is_like_meta(c));
            assert(escape_like(seq![c]) =~= seq![c]);
            let e = escape_like(q);
            assert(e =~= seq![c] + escape_like(rest));
            assert(e[0] == c);
            assert(e.drop_first() =~= escape_like(rest));
            lemma_escape_trim_start(rest);
        } else {
            let e = escape_like(q);
            if is_like_meta(c) {
                assert(escape_like(seq![c]) =~= seq!['\\', c]);
                assert(e[0] == '\\');
            } else {
                assert(escape_like(seq![c]) =~= seq![c]);
                assert(e[0] == c);
            }
            assert(!is_ws(e[0]));
        }
    }
}

proof fn lemma_trim_end_shape(s: Seq<char>)
    ensures
        trim_end(s).len() <= s.len(),
        trim_end(s) =~= s.subrange(0, trim_end(s).len() as int),
        trim_end(s).len() > 0 ==> !is_ws(trim_end(s).last()),
    decreases s.len(),
{
    if s.len() > 0 && is_ws(s.last()) {
        lemma_trim_end_shape(s.drop_last());
    }
}

proof fn lemma_trim_start_shape(s: Seq<char>)
    ensures
        trim_start(s).len() > 0 ==> !is_ws(trim_start(s)[0]),
    decreases s.len(),
{
    if s.len() > 0 && is_ws(s[0]) {
        lemma_trim_start_shape(s.drop_first());
    }
}

proof fn lemma_trim_idempotent(q: Seq<char>)
    ensures
        trim(trim(q)) == trim(q),
{
    let u = trim_start(q);
    let v = trim_end(u);
    lemma_trim_start_shape(q);
    lemma_trim_end_shape(u);
    if v.len() > 0 {
        assert(v[0] == u[0]);
        assert(trim_start(v) == v);
        assert(trim_end(v) == v);
    }
}

/// A search term is matched literally after trimming: the pattern is the trimmed term with each
/// LIKE metacharacter escaped, between `%`s, so no metacharacter of the term acts as one, and
/// reading the escapes back gives the trimmed term. A term and its trimmed form search alike.
pub proof fn like_pattern_is_literal(q: Seq<char>)
    ensures
        like_pattern_spec(q) == seq!['%'] + escape_like(trim(q)) + seq!['%'],
        metas_escaped(escape_like(trim(q))),
        unescape_like(escape_like(trim(q))) == trim(q),
        like_pattern_spec(trim(q)) == like_pattern_spec(q),
{
    lemma_escape_trim_start(q);
    lemma_escape_trim_end(trim_start(q));
    assert(trim(escape_like(q)) == escape_like(trim(q)));
    lemma_escape_reads_back(trim(q));
    lemma_escape_trim_start(trim(q));
    lemma_escape_trim_end(trim_start(trim(q)));
    lemma_trim_idempotent(q);
}

/// Paging parameters clamped to sane bounds: a limit in `1..=10000` (default 100) and a
/// non-negative offset (default 0).
pub open spec fn page_spec(limit: Option<i64>, offset: Option<i64>) -> (i64, i64) {
    let l = match limit {
        Some(l) => l,
        None => 100,
    };
    let o = match offset {
        Some(o) => o,
        None => 0,
    };
    (if l < 1 {
        1
    } else if l > 10_000 {
        10_000
    } else {
        l
    }, if o < 0 {
        0
    } else {
        o
    })
}

pub fn page(limit: Option<i64>, offset: Option<i64>) -> (r: (i64, i64))
    ensures
        r == page_spec(limit, offset),
        1 <= r.0 <= 10_000,
        0 <= r.1,
{
    let l = match limit {
        Some(l) => l,
        None => 100,
    };
    let o = match offset {
        Some(o) => o,
        None => 0,
    };
    let l = if l < 1 {
        1
    } else if l > 10_000 {
        10_000
    } else {
        l
    };
    (l, if o < 0 {
        0
    } else {
        o
    })
}

/// A positional SQL parameter.
#[derive(Debug, Clone, PartialEq, Eq)]
pub enum SqlValue {
    Integer(i64),
    Text(String),
}

/// Accumulates `WHERE` clauses and their positional parameters for a list endpoint.
#[derive(Debug, Default)]
pub struct Filters {
    clauses: Vec<String>,
    params: Vec<SqlValue>,
}

impl Filters {
    /// The clauses added so far, in order.
    pub closed spec fn clause_list(&self) -> Seq<Seq<char>> {
        self.clauses@.map_values(|c: String| c@)
    }

    /// The parameters bound so far, in order.
    pub closed spec fn param_list(&self) -> Seq<SqlValue> {
        self.params@
    }

    pub fn new() -> (f: Self)
        ensures
            f.clause_list() == Seq::<Seq<char>>::empty(),
            f.param_list() == Seq::<SqlValue>::empty(),
    {
        let f = Filters { clauses: Vec::new(), params: Vec::new() };
        assert(f.clause_list() =~= Seq::<Seq<char>>::empty());
        f
    }

    /// A clause with one `?` placeholder, bound to `value`: the placeholder becomes `?N`, `N`
    /// the parameter's 1-based position.
    pub fn bind(&mut self, clause: &str, value: SqlValue)
        requires
            old(self).param_list().len() < usize::MAX,
        ensures
            final(self).param_list() == old(self).param_list().push(value),
            final(self).clause_list() == old(self).clause_list().push(
                replace_all(clause@, seq!['?'], seq!['?'] + decimal(final(self).param_list().len())),
            ),
    {
        self.params.push(value);
        let n = self.params.len();
        let mut placeholder: Vec<char> = Vec::new();
        placeholder.push('?');
        let d = render_u64(n as u64);
        append_chars(&mut placeholder, d.as_slice());
        let q: Vec<char> = vec!['?'];
        let c = chars_of(clause);
        let replaced = crate::text::replace_chars(c.as_slice(), q.as_slice(), placeholder.as_slice());
        let ghost before = self.clauses@;
        self.clauses.push(string_of(replaced.as_slice()));
        proof {
            assert(q@ =~= seq!['?']);
            assert(placeholder@ =~= seq!['?'] + decimal(n as nat));
            assert(self.clauses@.map_values(|c: String| c@) =~= before.map_values(|c: String| c@).push(
                replaced@,
            ));
        }
    }

    /// A clause with no parameters.
    pub fn clause(&mut self, clause: &str)
        ensures
            final(self).param_list() == old(self).param_list(),
            final(self).clause_list() == old(self).clause_list().push(clause@),
    {
        let ghost before = self.clauses@;
        let c = chars_of(clause);
        self.clauses.push(string_of(c.as_slice()));
        assert(self.clauses@.map_values(|c: String| c@) =~= before.map_values(|c: String| c@).push(clause@));
    }

    /// `WHERE a AND b …`, or nothing when no clause was added.
    pub fn where_sql(&self) -> (r: String)
        ensures
            self.clause_list().len() == 0 ==> r@ == Seq::<char>::empty(),
            self.clause_list().len() > 0 ==> r@ == "WHERE "@ + join(self.clause_list(), " AND "@),
    {
        if self.clauses.len() == 0 {
            return String::new();
        }
        let mut parts: Vec<Vec<char>> = Vec::new();
        let mut k: usize = 0;
        while k < self.clauses.len()
            invariant
                k <= self.clauses@.len(),
                parts@.len() == k,
                forall|j: int| 0 <= j < k ==> (#[trigger] parts@[j])@ == self.clauses@[j]@,
            decreases self.clauses@.len() - k,
        {
            let piece = chars_of(self.clauses[k].as_str());
            parts.push(piece);
            k += 1;
        }
        assert(parts@.map_values(|v: Vec<char>| v@) =~= self.clause_list());
        let j = join_chars(&parts, " AND ");
        let mut out: Vec<char> = Vec::new();
        push_str(&mut out, "WHERE ");
        append_chars(&mut out, j.as_slice());
        string_of(out.as_slice())
    }

    /// The bound parameters, in placeholder order.
    pub fn params(&self) -> (r: &Vec<SqlValue>)
        ensures
            r@ == self.param_list(),
    {
        &self.params
    }
}

} // verus!
