//! Compare a freshly built database with a previous one by item name. The legacy DDO Tools
//! database is the yardstick: the aim is ≥ 95% of its item names present here after
//! normalisation, not counting items excluded on purpose.

use vstd::prelude::*;
use crate::xml::item_buffs::{key_index_from, pair_views, upsert, upsert_exec};
use crate::text::{
    compare_chars, lemma_less_irreflexive, lemma_less_transitive, seq_less, views, Order, is_ws, trim_start, ascii_lower, ascii_lower_char, chars_of, ends_with, ends_with_str, is_digit, slice_chars,
    starts_with, string_of, strip_prefix, strip_prefix_str, trim, trim_chars, trim_end, trim_end_chars,
};

verus! {

#[derive(Debug, Default, Clone, PartialEq, Eq)]
pub struct DiffReport {
    pub matched: usize,
    pub only_new: Vec<String>,
    /// Legacy names with no counterpart, after removing the ones the new build excluded on purpose.
    pub only_legacy: Vec<String>,
    /// Legacy names the new build lists in `excluded_items`.
    pub excluded_by_design: Vec<String>,
}

pub open spec fn is_ascii_alnum(c: char) -> bool {
    ('0' <= c && c <= '9') || ('a' <= c && c <= 'z') || ('A' <= c && c <= 'Z')
}

/// The ASCII letters and digits of `s`, lower-cased, in order.
pub open spec fn alnum_lower(s: Seq<char>) -> Seq<char>
    decreases s.len(),
{
    if s.len() == 0 {
        s
    } else if is_ascii_alnum(s.last()) {
        alnum_lower(s.drop_last()).push(ascii_lower(s.last()))
    } else {
        alnum_lower(s.drop_last())
    }
}

/// The index of the last `c` in `s`.
pub open spec fn rfind_char(s: Seq<char>, c: char) -> Option<int>
    decreases s.len(),
{
    if s.len() == 0 {
        None
    } else if s.last() == c {
        Some(s.len() - 1)
    } else {
        rfind_char(s.drop_last(), c)
    }
}

/// `str::trim_end_matches` for one character.
pub open spec fn trim_end_char(s: Seq<char>, c: char) -> Seq<char>
    decreases s.len(),
{
    if s.len() > 0 && s.last() == c {
        trim_end_char(s.drop_last(), c)
    } else {
        s
    }
}

/// A non-empty run of ASCII digits.
pub open spec fn is_number(n: Seq<char>) -> bool {
    n.len() > 0 && forall|i: int| 0 <= i < n.len() ==> is_digit(#[trigger] n[i])
}

/// The text inside a trailing parenthesis names a level: `level 12`, `Level 12` or `ML 12`.
pub open spec fn is_level_label(inner: Seq<char>) -> bool {
    match strip_prefix(inner, "level "@) {
        Some(n) => is_number(n),
        None => match strip_prefix(inner, "Level "@) {
            Some(n) => is_number(n),
            None => match strip_prefix(inner, "ML "@) {
                Some(n) => is_number(n),
                None => false,
            },
        },
    }
}

/// `name` with a trailing `(Level 12)` removed, and the whitespace before it.
pub open spec fn strip_level_suffix_spec(name: Seq<char>) -> Seq<char> {
    match rfind_char(name, '(') {
        None => name,
        Some(open) => {
            let inner = trim(trim_end_char(name.subrange(open + 1, name.len() as int), ')'));
            if ends_with(name, ")"@) && is_level_label(inner) {
                trim_end(name.subrange(0, open))
            } else {
                name
            }
        },
    }
}

/// The key two item names share when they name the same item.
pub open spec fn normalize_name_spec(name: Seq<char>) -> Seq<char> {
    alnum_lower(strip_level_suffix_spec(trim(name)))
}

fn rfind_char_exec(s: &[char], c: char) -> (r: Option<usize>)
    ensures
        match r {
            Some(i) => rfind_char(s@, c) == Some(i as int),
            None => rfind_char(s@, c) is None,
        },
{
    let mut k = s.len();
    assert(s@.subrange(0, k as int) =~= s@);
    while k > 0
        invariant
            k <= s@.len(),
            rfind_char(s@, c) == rfind_char(s@.subrange(0, k as int), c),
        decreases k,
    {
        if s[k - 1] == c {
            return Some(k - 1);
        }
        assert(s@.subrange(0, k as int).drop_last() =~= s@.subrange(0, k - 1));
        k -= 1;
    }
    None
}

fn trim_end_char_exec(s: &[char], c: char) -> (r: Vec<char>)
    ensures
        r@ == trim_end_char(s@, c),
{
    let mut k = s.len();
    assert(s@.subrange(0, k as int) =~= s@);
    while k > 0 && s[k - 1] == c
        invariant
            k <= s@.len(),
            trim_end_char(s@, c) == trim_end_char(s@.subrange(0, k as int), c),
        decreases k,
    {
        assert(s@.subrange(0, k as int).drop_last() =~= s@.subrange(0, k - 1));
        k -= 1;
    }
    slice_chars(s, 0, k)
}

fn number(n: &[char]) -> (r: bool)
    ensures
        r == is_number(n@),
{
    if n.len() == 0 {
        return false;
    }
    let mut k: usize = 0;
    while k < n.len()
        invariant
            k <= n@.len(),
            forall|i: int| 0 <= i < k ==> is_digit(#[trigger] n@[i]),
        decreases n@.len() - k,
    {
        if !('0' <= n[k] && n[k] <= '9') {
            return false;
        }
        k += 1;
    }
    true
}

fn level_label(inner: &[char]) -> (r: bool)
    ensures
        r == is_level_label(inner@),
{
    match strip_prefix_str(inner, "level ") {
        Some(n) => number(n.as_slice()),
        None => match strip_prefix_str(inner, "Level ") {
            Some(n) => number(n.as_slice()),
            None => match strip_prefix_str(inner, "ML ") {
                Some(n) => number(n.as_slice()),
                None => false,
            },
        },
    }
}

/// `name` without a trailing level label such as `(Level 12)`.
pub fn strip_level_suffix(name: &[char]) -> (r: Vec<char>)
    ensures
        r@ == strip_level_suffix_spec(name@),
{
    match rfind_char_exec(name, '(') {
        None => slice_chars(name, 0, name.len()),
        Some(open) => {
            proof {
                lemma_rfind_in_bounds(name@, '(');
            }
            assert(open < name.len());
            let tail = slice_chars(name, open + 1, name.len());
            let stripped = trim_end_char_exec(tail.as_slice(), ')');
            let inner = trim_chars(stripped.as_slice());
            if ends_with_str(name, ")") && level_label(inner.as_slice()) {
                let head = slice_chars(name, 0, open);
                trim_end_chars(head.as_slice())
            } else {
                slice_chars(name, 0, name.len())
            }
        },
    }
}

proof fn lemma_rfind_in_bounds(s: Seq<char>, c: char)
    ensures
        rfind_char(s, c) matches Some(i) ==> 0 <= i < s.len(),
    decreases s.len(),
{
    if s.len() > 0 && s.last() != c {
        lemma_rfind_in_bounds(s.drop_last(), c);
    }
}

/// Lower-case alphanumerics only, with a trailing "(Level 12)" removed: upstream files one item
/// per level for randomly-levelled loot, where the wiki (and so the legacy database) had one page.
pub fn normalize_name(name: &str) -> (r: String)
    ensures
        r@ == normalize_name_spec(name@),
{
    let v = chars_of(name);
    let t = trim_chars(v.as_slice());
    let base = strip_level_suffix(t.as_slice());
    let mut out: Vec<char> = Vec::new();
    let mut k: usize = 0;
    while k < base.len()
        invariant
            k <= base@.len(),
            out@ == alnum_lower(base@.subrange(0, k as int)),
        decreases base@.len() - k,
    {
        let c = base[k];
        assert(base@.subrange(0, k + 1).drop_last() =~= base@.subrange(0, k as int));
        if ('0' <= c && c <= '9') || ('a' <= c && c <= 'z') || ('A' <= c && c <= 'Z') {
            out.push(ascii_lower_char(c));
        }
        k += 1;
    }
    assert(base@.subrange(0, base@.len() as int) =~= base@);
    string_of(out.as_slice())
}

// ---------------------------------------------------------------------------------------------
// Laws of the name key
// ---------------------------------------------------------------------------------------------

/// A lower-case ASCII letter or a digit.
pub open spec fn is_key_char(c: char) -> bool {
    ('0' <= c && c <= '9') || ('a' <= c && c <= 'z')
}

proof fn lemma_alnum_lower_keys(s: Seq<char>)
    ensures
        forall|i: int| 0 <= i < alnum_lower(s).len() ==> is_key_char(#[trigger] alnum_lower(s)[i]),
    decreases s.len(),
{
    if s.len() > 0 {
        lemma_alnum_lower_keys(s.drop_last());
        let c = s.last();
        if is_ascii_alnum(c) {
            if 'A' <= c && c <= 'Z' {
                assert(ascii_lower(c) == ((c as u32) + 32) as char);
                assert('a' <= ascii_lower(c) && ascii_lower(c) <= 'z');
            }
            assert(is_key_char(ascii_lower(c)));
            let p = alnum_lower(s.drop_last());
            assert(alnum_lower(s) == p.push(ascii_lower(c)));
            assert forall|i: int| 0 <= i < alnum_lower(s).len() implies is_key_char(#[trigger] alnum_lower(s)[i]) by {
                if i < p.len() {
                    assert(alnum_lower(s)[i] == p[i]);
                }
            }
        }
    }
}

proof fn lemma_alnum_lower_of_keys(s: Seq<char>)
    requires
        forall|i: int| 0 <= i < s.len() ==> is_key_char(#[trigger] s[i]),
    ensures
        alnum_lower(s) == s,
    decreases s.len(),
{
    if s.len() > 0 {
        lemma_alnum_lower_of_keys(s.drop_last());
        assert(s.drop_last().push(s.last()) =~= s);
    }
}

proof fn lemma_trim_start_without_ws(s: Seq<char>)
    requires
        forall|i: int| 0 <= i < s.len() ==> !is_ws(#[trigger] s[i]),
    ensures
        trim_start(s) == s,
{
    if s.len() > 0 {
        assert(!is_ws(s[0]));
    }
}

proof fn lemma_trim_end_without_ws(s: Seq<char>)
    requires
        forall|i: int| 0 <= i < s.len() ==> !is_ws(#[trigger] s[i]),
    ensures
        trim_end(s) == s,
{
    if s.len() > 0 {
        assert(!is_ws(s[s.len() - 1]));
    }
}

proof fn lemma_rfind_absent(s: Seq<char>, c: char)
    requires
        forall|i: int| 0 <= i < s.len() ==> #[trigger] s[i] != c,
    ensures
        rfind_char(s, c) is None,
    decreases s.len(),
{
    if s.len() > 0 {
        assert(s.last() == s[s.len() - 1]);
        lemma_rfind_absent(s.drop_last(), c);
    }
}

/// A name's key is its own key: keys are lower-case letters and digits only.
pub proof fn normalize_name_idempotent(name: Seq<char>)
    ensures
        forall|i: int| 0 <= i < normalize_name_spec(name).len() ==> is_key_char(#[trigger] normalize_name_spec(name)[i]),
        normalize_name_spec(normalize_name_spec(name)) == normalize_name_spec(name),
{
    let k = normalize_name_spec(name);
    lemma_alnum_lower_keys(strip_level_suffix_spec(trim(name)));
    assert forall|i: int| 0 <= i < k.len() implies !is_ws(#[trigger] k[i]) by {
        assert(is_key_char(k[i]));
    }
    lemma_trim_start_without_ws(k);
    lemma_trim_end_without_ws(k);
    assert(trim(k) == k);
    assert forall|i: int| 0 <= i < k.len() implies #[trigger] k[i] != '(' by {
        assert(is_key_char(k[i]));
    }
    lemma_rfind_absent(k, '(');
    assert(strip_level_suffix_spec(k) == k);
    lemma_alnum_lower_of_keys(k);
}

proof fn lemma_trim_start_concat(a: Seq<char>, b: Seq<char>)
    ensures
        trim_start(a + b) == if trim_start(a).len() > 0 {
            trim_start(a) + b
        } else {
            trim_start(b)
        },
    decreases a.len(),
{
    if a.len() == 0 {
        assert(a + b =~= b);
    } else if is_ws(a[0]) {
        assert((a + b).drop_first() =~= a.drop_first() + b);
        assert((a + b)[0] == a[0]);
        lemma_trim_start_concat(a.drop_first(), b);
    } else {
        assert((a + b)[0] == a[0]);
    }
}

proof fn lemma_trim_end_ws_suffix(a: Seq<char>)
    ensures
        trim_end(a.push(' ')) == trim_end(a),
{
    assert(a.push(' ').drop_last() =~= a);
}

proof fn lemma_alnum_lower_trim_end(s: Seq<char>)
    ensures
        alnum_lower(trim_end(s)) == alnum_lower(s),
    decreases s.len(),
{
    if s.len() > 0 && is_ws(s.last()) {
        lemma_alnum_lower_trim_end(s.drop_last());
    }
}

proof fn lemma_rfind_concat(a: Seq<char>, b: Seq<char>, c: char)
    ensures
        rfind_char(a + b, c) == match rfind_char(b, c) {
            Some(j) => Some(a.len() + j),
            None => rfind_char(a, c),
        },
    decreases b.len(),
{
    if b.len() == 0 {
        assert(a + b =~= a);
    } else {
        assert((a + b).drop_last() =~= a + b.drop_last());
        assert((a + b).last() == b.last());
        lemma_rfind_concat(a, b.drop_last(), c);
    }
}

/// One of the words a level label starts with.
pub open spec fn is_level_word(w: Seq<char>) -> bool {
    w == "level "@ || w == "Level "@ || w == "ML "@
}

proof fn lemma_label(w: Seq<char>, digits: Seq<char>)
    requires
        is_level_word(w),
        is_number(digits),
    ensures
        is_level_label(trim(trim_end_char(w + digits + ")"@, ')'))),
        forall|i: int| 0 <= i < (w + digits + ")"@).len() ==> #[trigger] (w + digits + ")"@)[i] != '(',
{
    reveal_strlit("level ");
    reveal_strlit("Level ");
    reveal_strlit("ML ");
    reveal_strlit(")");
    let x = w + digits;
    assert((x + ")"@).drop_last() =~= x);
    assert(x.last() == digits.last());
    assert(is_digit(digits[digits.len() - 1]));
    assert(x.last() != ')');
    assert(trim_end_char(x, ')') == x);
    assert((x + ")"@).last() == ')');
    assert(trim_end_char(x + ")"@, ')') == trim_end_char(x, ')'));
    assert(!is_ws(x[0]));
    assert(trim_start(x) == x);
    assert(!is_ws(x.last()));
    assert(trim(x) == x);
    assert(x.subrange(w.len() as int, x.len() as int) =~= digits);
    assert(x.subrange(0, w.len() as int) =~= w);
    if w == "level "@ {
        assert(strip_prefix(x, "level "@) == Some(digits));
    } else if w == "Level "@ {
        assert(x[0] != "level "@[0]);
        assert(!starts_with(x, "level "@));
        assert(strip_prefix(x, "Level "@) == Some(digits));
    } else {
        assert(x[0] != "level "@[0]);
        assert(x[0] != "Level "@[0]);
        assert(!starts_with(x, "level "@));
        assert(!starts_with(x, "Level "@));
        assert(strip_prefix(x, "ML "@) == Some(digits));
    }
    assert forall|i: int| 0 <= i < (x + ")"@).len() implies #[trigger] (x + ")"@)[i] != '(' by {
        if i < w.len() {
            assert((x + ")"@)[i] == w[i]);
        } else if i < x.len() {
            assert((x + ")"@)[i] == digits[i - w.len()]);
            assert(is_digit(digits[i - w.len()]));
        }
    }
}

/// Level variants share a key: a name and the same name with a level label appended
/// (` (Level 12)`, ` (level 12)`, ` (ML 12)`) normalise alike, when the name does not already
/// end in a level label.
pub proof fn level_suffix_shares_key(name: Seq<char>, word: Seq<char>, digits: Seq<char>)
    requires
        is_level_word(word),
        is_number(digits),
        strip_level_suffix_spec(trim(name)) == trim(name),
    ensures
        normalize_name_spec(name + " ("@ + word + digits + ")"@) == normalize_name_spec(name),
{
    reveal_strlit(" (");
    reveal_strlit(")");
    let b = seq!['('] + word + digits + ")"@;
    let full = name + " ("@ + word + digits + ")"@;
    assert(full =~= name + (seq![' '] + b));
    lemma_label(word, digits);
    let tail = word + digits + ")"@;
    assert(b =~= seq!['('] + tail);
    assert forall|i: int| 0 <= i < tail.len() implies #[trigger] tail[i] != '(' by {}
    lemma_rfind_absent(tail, '(');
    lemma_rfind_concat(seq!['('], tail, '(');
    assert(rfind_char(seq!['('], '(') == Some(0int)) by {
        assert(seq!['('].last() == '(');
    }
    assert(rfind_char(b, '(') == Some(0int));
    lemma_trim_start_concat(name, seq![' '] + b);
    let t0 = trim_start(name);
    assert(b.last() == ')');
    assert(!is_ws(b.last()));
    if t0.len() > 0 {
        let t = t0 + (seq![' '] + b);
        assert(trim_start(full) == t);
        assert(t.last() == ')');
        assert(trim(full) == t);
        assert(t =~= t0.push(' ') + b);
        lemma_rfind_concat(t0.push(' '), b, '(');
        let open = t0.len() as int + 1;
        assert(rfind_char(t, '(') == Some(open));
        assert(t.subrange(open + 1, t.len() as int) =~= tail);
        assert(ends_with(t, ")"@)) by {
            assert(t.subrange(t.len() - 1, t.len() as int) =~= ")"@);
        }
        assert(t.subrange(0, open) =~= t0.push(' '));
        lemma_trim_end_ws_suffix(t0);
        assert(strip_level_suffix_spec(t) == trim_end(t0));
        lemma_alnum_lower_trim_end(t0);
        lemma_alnum_lower_trim_end(t0);
        assert(trim(name) == trim_end(t0));
    } else {
        assert(trim_start(seq![' '] + b) == b) by {
            assert(!is_ws(b[0]));
            assert(trim_start(b) == b);
            assert((seq![' '] + b).drop_first() =~= b);
            assert((seq![' '] + b)[0] == ' ');
            assert(b[0] == '(');
        }
        assert(trim(full) == b);
        assert(b.subrange(1, b.len() as int) =~= tail);
        assert(ends_with(b, ")"@)) by {
            assert(b.subrange(b.len() - 1, b.len() as int) =~= ")"@);
        }
        assert(b.subrange(0, 0) =~= Seq::<char>::empty());
        assert(strip_level_suffix_spec(b) == Seq::<char>::empty());
        assert(trim(name) == trim_end(t0));
        assert(t0 =~= Seq::<char>::empty());
    }
}

proof fn lemma_alnum_lower_concat(a: Seq<char>, b: Seq<char>)
    ensures
        alnum_lower(a + b) == alnum_lower(a) + alnum_lower(b),
    decreases b.len(),
{
    if b.len() == 0 {
        assert(a + b =~= a);
        assert(alnum_lower(a) + alnum_lower(b) =~= alnum_lower(a));
    } else {
        assert((a + b).drop_last() =~= a + b.drop_last());
        assert((a + b).last() == b.last());
        lemma_alnum_lower_concat(a, b.drop_last());
        if is_ascii_alnum(b.last()) {
            assert(alnum_lower(a) + alnum_lower(b) =~= (alnum_lower(a) + alnum_lower(b.drop_last())).push(
                ascii_lower(b.last()),
            ));
        }
    }
}

proof fn lemma_alnum_lower_trim_start(s: Seq<char>)
    ensures
        alnum_lower(trim_start(s)) == alnum_lower(s),
    decreases s.len(),
{
    if s.len() > 0 && is_ws(s[0]) {
        assert(s =~= seq![s[0]] + s.drop_first());
        lemma_alnum_lower_concat(seq![s[0]], s.drop_first());
        assert(seq![s[0]].drop_last() =~= Seq::<char>::empty());
        assert(seq![s[0]].last() == s[0]);
        assert(!is_ascii_alnum(s[0]));
        assert(alnum_lower(Seq::<char>::empty()) =~= Seq::<char>::empty());
        assert(alnum_lower(seq![s[0]]) =~= Seq::<char>::empty());
        assert(Seq::<char>::empty() + alnum_lower(s.drop_first()) =~= alnum_lower(s.drop_first()));
        lemma_alnum_lower_trim_start(s.drop_first());
    }
}

/// Any other trailing parenthesis stays part of the name: when the text in it (holding no
/// parenthesis itself) is not a level label, nothing is stripped, and the key is the letters and
/// digits of the name and of that text, lower-cased.
pub proof fn other_suffix_is_kept(name: Seq<char>, inner: Seq<char>)
    requires
        forall|i: int| 0 <= i < inner.len() ==> #[trigger] inner[i] != '(' && inner[i] != ')',
        !is_level_label(trim(inner)),
    ensures
        strip_level_suffix_spec(trim(name + " ("@ + inner + ")"@)) == trim(name + " ("@ + inner + ")"@),
        normalize_name_spec(name + " ("@ + inner + ")"@) == alnum_lower(name) + alnum_lower(inner),
{
    reveal_strlit(" (");
    reveal_strlit(")");
    let tail = inner + ")"@;
    let b = seq!['('] + tail;
    let full = name + " ("@ + inner + ")"@;
    assert(full =~= name + (seq![' '] + b));
    assert(tail.drop_last() =~= inner);
    assert(tail.last() == ')');
    assert(trim_end_char(inner, ')') == inner) by {
        if inner.len() > 0 {
            assert(inner.last() == inner[inner.len() - 1]);
        }
    }
    assert(trim_end_char(tail, ')') == inner);
    assert forall|i: int| 0 <= i < tail.len() implies #[trigger] tail[i] != '(' by {
        if i < inner.len() {
            assert(tail[i] == inner[i]);
        }
    }
    lemma_rfind_absent(tail, '(');
    lemma_rfind_concat(seq!['('], tail, '(');
    assert(rfind_char(seq!['('], '(') == Some(0int)) by {
        assert(seq!['('].last() == '(');
    }
    assert(rfind_char(b, '(') == Some(0int));
    lemma_trim_start_concat(name, seq![' '] + b);
    let t0 = trim_start(name);
    assert(b.last() == ')');
    assert(!is_ws(b.last()));
    if t0.len() > 0 {
        let t = t0 + (seq![' '] + b);
        assert(trim_start(full) == t);
        assert(t.last() == ')');
        assert(trim(full) == t);
        assert(t =~= t0.push(' ') + b);
        lemma_rfind_concat(t0.push(' '), b, '(');
        let open = t0.len() as int + 1;
        assert(rfind_char(t, '(') == Some(open));
        assert(t.subrange(open + 1, t.len() as int) =~= tail);
        assert(strip_level_suffix_spec(t) == t);
    } else {
        assert(trim_start(seq![' '] + b) == b) by {
            assert(!is_ws(b[0]));
            assert(trim_start(b) == b);
            assert((seq![' '] + b).drop_first() =~= b);
            assert((seq![' '] + b)[0] == ' ');
            assert(b[0] == '(');
        }
        assert(trim(full) == b);
        assert(b.subrange(1, b.len() as int) =~= tail);
        assert(strip_level_suffix_spec(b) == b);
    }
    lemma_alnum_lower_trim_end(trim_start(full));
    lemma_alnum_lower_trim_start(full);
    assert(full =~= name + (" ("@ + (inner + ")"@)));
    lemma_alnum_lower_concat(name, " ("@ + (inner + ")"@));
    lemma_alnum_lower_concat(" ("@, inner + ")"@);
    lemma_alnum_lower_concat(inner, ")"@);
    assert(" ("@.drop_last() =~= seq![' ']);
    assert(" ("@.last() == '(');
    assert(seq![' '].drop_last() =~= Seq::<char>::empty());
    assert(seq![' '].last() == ' ');
    assert(alnum_lower(Seq::<char>::empty()) =~= Seq::<char>::empty());
    assert(alnum_lower(seq![' ']) =~= Seq::<char>::empty());
    assert(alnum_lower(" ("@) =~= Seq::<char>::empty());
    assert(")"@.drop_last() =~= Seq::<char>::empty());
    assert(alnum_lower(")"@) =~= Seq::<char>::empty());
    assert(alnum_lower(inner) + Seq::<char>::empty() =~= alnum_lower(inner));
    assert(Seq::<char>::empty() + alnum_lower(inner) =~= alnum_lower(inner));
}

// ---------------------------------------------------------------------------------------------
// Comparing two databases' item names
// ---------------------------------------------------------------------------------------------

/// The names by key, as a map filled in order: a later name with a key replaces the earlier one.
pub open spec fn keyed(names: Seq<Seq<char>>) -> Seq<(Seq<char>, Seq<char>)>
    decreases names.len(),
{
    if names.len() == 0 {
        Seq::empty()
    } else {
        upsert(keyed(names.drop_last()), normalize_name_spec(names.last()), names.last())
    }
}

/// The map has the key.
pub open spec fn has_key(kv: Seq<(Seq<char>, Seq<char>)>, k: Seq<char>) -> bool {
    key_index_from(kv, k, 0) is Some
}

/// Which legacy names land in a list: `0` matched, `1` only legacy, `2` excluded by design.
pub open spec fn legacy_class(new: Seq<(Seq<char>, Seq<char>)>, excluded: Seq<(Seq<char>, Seq<char>)>, k: Seq<char>) -> int {
    if has_key(new, k) {
        0
    } else if has_key(excluded, k) {
        2
    } else {
        1
    }
}

/// The names of the legacy map in class `c`, in map order.
pub open spec fn legacy_names(
    legacy: Seq<(Seq<char>, Seq<char>)>,
    new: Seq<(Seq<char>, Seq<char>)>,
    excluded: Seq<(Seq<char>, Seq<char>)>,
    c: int,
) -> Seq<Seq<char>>
    decreases legacy.len(),
{
    if legacy.len() == 0 {
        Seq::empty()
    } else {
        let r = legacy_names(legacy.drop_last(), new, excluded, c);
        if legacy_class(new, excluded, legacy.last().0) == c {
            r.push(legacy.last().1)
        } else {
            r
        }
    }
}

/// The names of the new map whose key the legacy map lacks, in map order.
pub open spec fn new_only_names(new: Seq<(Seq<char>, Seq<char>)>, legacy: Seq<(Seq<char>, Seq<char>)>) -> Seq<
    Seq<char>,
>
    decreases new.len(),
{
    if new.len() == 0 {
        Seq::empty()
    } else {
        let r = new_only_names(new.drop_last(), legacy);
        if !has_key(legacy, new.last().0) {
            r.push(new.last().1)
        } else {
            r
        }
    }
}

/// In `str` order.
pub open spec fn sorted_names(s: Seq<Seq<char>>) -> bool {
    forall|i: int, j: int| 0 <= i < j < s.len() ==> !seq_less(#[trigger] s[j], #[trigger] s[i])
}

fn has_key_exec(kv: &Vec<(String, String)>, k: &[char]) -> (r: bool)
    ensures
        r == has_key(pair_views(kv@), k@),
{
    let ghost o = pair_views(kv@);
    let mut i: usize = 0;
    while i < kv.len()
        invariant
            i <= kv@.len(),
            o == pair_views(kv@),
            key_index_from(o, k@, 0) == key_index_from(o, k@, i as int),
        decreases kv@.len() - i,
    {
        let c = chars_of(kv[i].0.as_str());
        assert(o[i as int].0 == kv@[i as int].0@);
        if crate::text::chars_eq(c.as_slice(), k) {
            return true;
        }
        i += 1;
    }
    false
}

fn keyed_exec(names: &Vec<String>) -> (r: Vec<(String, String)>)
    ensures
        pair_views(r@) == keyed(views(names@)),
{
    let mut out: Vec<(String, String)> = Vec::new();
    let ghost ns = views(names@);
    let mut k: usize = 0;
    assert(ns.subrange(0, 0) =~= Seq::<Seq<char>>::empty());
    assert(pair_views(out@) =~= Seq::<(Seq<char>, Seq<char>)>::empty());
    while k < names.len()
        invariant
            k <= names@.len(),
            ns == views(names@),
            pair_views(out@) == keyed(ns.subrange(0, k as int)),
        decreases names@.len() - k,
    {
        assert(ns.subrange(0, k + 1).drop_last() =~= ns.subrange(0, k as int));
        assert(ns.subrange(0, k + 1).last() == names@[k as int]@);
        let key = normalize_name(names[k].as_str());
        upsert_exec(&mut out, key, names[k].clone());
        k += 1;
    }
    assert(ns.subrange(0, names@.len() as int) =~= ns);
    out
}

/// The names in `str` order.
pub fn sort_names(names: Vec<String>) -> (r: Vec<String>)
    ensures
        sorted_names(views(r@)),
        views(r@).to_multiset() == views(names@).to_multiset(),
{
    let mut out: Vec<String> = Vec::new();
    let mut rest = names;
    let ghost all = views(rest@);
    let n = rest.len();
    let mut k: usize = 0;
    assert(views(out@) =~= Seq::<Seq<char>>::empty());
    assert(all.subrange(0, 0) =~= Seq::<Seq<char>>::empty());
    while rest.len() > 0
        invariant
            k + rest@.len() == all.len(),
            n == all.len(),
            views(rest@) == all.subrange(k as int, all.len() as int),
            sorted_names(views(out@)),
            views(out@).to_multiset() == all.subrange(0, k as int).to_multiset(),
        decreases rest@.len(),
    {
        let ghost r0 = rest@;
        let e = rest.remove(0);
        let ghost ev = e@;
        assert(e == r0[0]);
        assert(views(r0)[0] == all.subrange(k as int, all.len() as int)[0]);
        assert(ev == all[k as int]);
        let ghost o = views(out@);
        let ec = chars_of(e.as_str());
        let mut p: usize = 0;
        let mut found = false;
        while p < out.len() && !found
            invariant
                p <= out@.len(),
                o == views(out@),
                ec@ == ev,
                forall|i: int| 0 <= i < p ==> !seq_less(ev, #[trigger] o[i]),
                found ==> p < o.len() && seq_less(ev, o[p as int]),
            decreases out@.len() - p + if found { 0int } else { 1int },
        {
            let oc = chars_of(out[p].as_str());
            assert(o[p as int] == out@[p as int]@);
            match compare_chars(ec.as_slice(), oc.as_slice()) {
                Order::Less => {
                    found = true;
                },
                _ => {
                    p += 1;
                },
            }
        }
        out.insert(p, e);
        proof {
            let t = views(out@);
            assert(t =~= o.insert(p as int, ev));
            vstd::seq_lib::to_multiset_insert(o, p as int, ev);
            assert(all.subrange(0, k + 1) =~= all.subrange(0, k as int).push(ev));
            vstd::seq_lib::to_multiset_build(all.subrange(0, k as int), ev);
            assert forall|i: int, j: int| 0 <= i < j < t.len() implies !seq_less(#[trigger] t[j], #[trigger] t[i]) by {
                if j < p {
                    assert(t[i] == o[i] && t[j] == o[j]);
                } else if j == p {
                    assert(t[i] == o[i]);
                } else if i < p {
                    assert(t[i] == o[i] && t[j] == o[j - 1]);
                } else if i == p {
                    assert(t[j] == o[j - 1]);
                    assert(seq_less(ev, o[p as int]));
                    if seq_less(o[j - 1], ev) {
                        lemma_less_transitive(o[j - 1], ev, o[p as int]);
                        if j - 1 > p {
                            assert(!seq_less(o[j - 1], o[p as int]));
                        } else {
                            lemma_less_irreflexive(o[p as int]);
                        }
                    }
                } else {
                    assert(t[i] == o[i - 1] && t[j] == o[j - 1]);
                }
            }
        }
        assert(rest@ =~= r0.subrange(1, r0.len() as int));
        assert(views(rest@) =~= views(r0).subrange(1, r0.len() as int));
        k += 1;
        assert(views(rest@) =~= all.subrange(k as int, all.len() as int));
    }
    assert(all.subrange(0, k as int) =~= all);
    out
}

/// Every legacy entry lands in exactly one of the three lists.
pub proof fn lemma_legacy_partition(
    legacy: Seq<(Seq<char>, Seq<char>)>,
    new: Seq<(Seq<char>, Seq<char>)>,
    excluded: Seq<(Seq<char>, Seq<char>)>,
)
    ensures
        legacy_names(legacy, new, excluded, 0).len() + legacy_names(legacy, new, excluded, 1).len()
            + legacy_names(legacy, new, excluded, 2).len() == legacy.len(),
    decreases legacy.len(),
{
    if legacy.len() > 0 {
        lemma_legacy_partition(legacy.drop_last(), new, excluded);
    }
}

/// The keys a key-name list holds.
pub open spec fn key_set(kv: Seq<(Seq<char>, Seq<char>)>) -> Set<Seq<char>>
    decreases kv.len(),
{
    if kv.len() == 0 {
        Set::empty()
    } else {
        key_set(kv.drop_last()).insert(kv.last().0)
    }
}

/// No key occurs twice: the list is a map.
pub open spec fn unique_keys(kv: Seq<(Seq<char>, Seq<char>)>) -> bool {
    forall|i: int, j: int| 0 <= i < j < kv.len() ==> (#[trigger] kv[i]).0 != (#[trigger] kv[j]).0
}

/// How many entries have a key that satisfies `p`.
pub open spec fn count_where(kv: Seq<(Seq<char>, Seq<char>)>, p: spec_fn(Seq<char>) -> bool) -> nat
    decreases kv.len(),
{
    if kv.len() == 0 {
        0
    } else {
        count_where(kv.drop_last(), p) + if p(kv.last().0) {
            1nat
        } else {
            0nat
        }
    }
}

proof fn lemma_key_index(out: Seq<(Seq<char>, Seq<char>)>, key: Seq<char>, i: int)
    requires
        0 <= i,
    ensures
        key_index_from(out, key, i) matches Some(j) ==> i <= j < out.len() && out[j].0 == key,
        key_index_from(out, key, i) is None ==> forall|j: int| i <= j < out.len() ==> (#[trigger] out[j]).0 != key,
    decreases out.len() - i,
{
    if i < out.len() && out[i].0 != key {
        lemma_key_index(out, key, i + 1);
    }
}

proof fn lemma_key_set_members(kv: Seq<(Seq<char>, Seq<char>)>, k: Seq<char>)
    ensures
        key_set(kv).finite(),
        key_set(kv).contains(k) <==> exists|j: int| 0 <= j < kv.len() && (#[trigger] kv[j]).0 == k,
    decreases kv.len(),
{
    if kv.len() > 0 {
        lemma_key_set_members(kv.drop_last(), k);
        if key_set(kv.drop_last()).contains(k) {
            let j = choose|j: int| 0 <= j < kv.drop_last().len() && (#[trigger] kv.drop_last()[j]).0 == k;
            assert(kv[j] == kv.drop_last()[j]);
        }
        if exists|j: int| 0 <= j < kv.len() && (#[trigger] kv[j]).0 == k {
            let j = choose|j: int| 0 <= j < kv.len() && (#[trigger] kv[j]).0 == k;
            if j < kv.len() - 1 {
                assert(kv.drop_last()[j] == kv[j]);
            }
        }
    }
}

proof fn lemma_keyed_unique(names: Seq<Seq<char>>)
    ensures
        unique_keys(keyed(names)),
    decreases names.len(),
{
    if names.len() > 0 {
        lemma_keyed_unique(names.drop_last());
        let kv = keyed(names.drop_last());
        let key = normalize_name_spec(names.last());
        lemma_key_index(kv, key, 0);
        let t = keyed(names);
        match key_index_from(kv, key, 0) {
            Some(i) => {
                assert forall|a: int, b: int| 0 <= a < b < t.len() implies (#[trigger] t[a]).0 != (#[trigger] t[b]).0 by {
                    assert(t[a].0 == kv[a].0 && t[b].0 == kv[b].0);
                }
            },
            None => {
                assert forall|a: int, b: int| 0 <= a < b < t.len() implies (#[trigger] t[a]).0 != (#[trigger] t[b]).0 by {
                    assert(t[a] == kv[a]);
                    if b < kv.len() {
                        assert(t[b] == kv[b]);
                    }
                }
            },
        }
    }
}

proof fn lemma_count_where(kv: Seq<(Seq<char>, Seq<char>)>, p: spec_fn(Seq<char>) -> bool)
    requires
        unique_keys(kv),
    ensures
        key_set(kv).finite(),
        count_where(kv, p) == key_set(kv).filter(p).len(),
    decreases kv.len(),
{
    lemma_key_set_members(kv, Seq::empty());
    if kv.len() == 0 {
        assert(key_set(kv).filter(p) =~= Set::empty());
    } else {
        let rest = kv.drop_last();
        let k = kv.last().0;
        assert forall|i: int, j: int| 0 <= i < j < rest.len() implies (#[trigger] rest[i]).0 != (#[trigger] rest[j]).0 by {
            assert(rest[i] == kv[i] && rest[j] == kv[j]);
        }
        lemma_count_where(rest, p);
        lemma_key_set_members(rest, k);
        if key_set(rest).contains(k) {
            let j = choose|j: int| 0 <= j < rest.len() && (#[trigger] rest[j]).0 == k;
            assert(rest[j] == kv[j]);
            assert(kv[j].0 != kv[kv.len() - 1].0);
        }
        assert(!key_set(rest).filter(p).contains(k));
        if p(k) {
            assert(key_set(kv).filter(p) =~= key_set(rest).filter(p).insert(k));
        } else {
            assert(key_set(kv).filter(p) =~= key_set(rest).filter(p));
        }
    }
}

proof fn lemma_legacy_count(
    legacy: Seq<(Seq<char>, Seq<char>)>,
    new: Seq<(Seq<char>, Seq<char>)>,
    excluded: Seq<(Seq<char>, Seq<char>)>,
    c: int,
)
    ensures
        legacy_names(legacy, new, excluded, c).len() == count_where(legacy, |k: Seq<char>| legacy_class(new, excluded, k) == c),
    decreases legacy.len(),
{
    if legacy.len() > 0 {
        lemma_legacy_count(legacy.drop_last(), new, excluded, c);
    }
}

proof fn lemma_new_only_count(new: Seq<(Seq<char>, Seq<char>)>, legacy: Seq<(Seq<char>, Seq<char>)>)
    ensures
        new_only_names(new, legacy).len() == count_where(new, |k: Seq<char>| !has_key(legacy, k)),
    decreases new.len(),
{
    if new.len() > 0 {
        lemma_new_only_count(new.drop_last(), legacy);
    }
}

/// The comparison in terms of key sets. With L, N and E the keys of the legacy, new and
/// excluded names (each name list keyed into a map, one entry per key): the matched legacy
/// names are as many as the keys of L that N has; those only in the legacy database as many as
/// the keys of L in neither N nor E; those excluded by design as many as the keys of L that E
/// has and N lacks; the new names as many as the keys of N that L lacks; and the three legacy
/// classes together are as many as L's keys.
pub proof fn comparison_by_key_sets(new: Seq<Seq<char>>, legacy: Seq<Seq<char>>, excluded: Seq<Seq<char>>)
    ensures
        ({
            let n = keyed(new);
            let l = keyed(legacy);
            let e = keyed(excluded);
            &&& unique_keys(n) && unique_keys(l) && unique_keys(e)
            &&& legacy_names(l, n, e, 0).len() == key_set(l).filter(|k: Seq<char>| has_key(n, k)).len()
            &&& legacy_names(l, n, e, 1).len() == key_set(l).filter(
                |k: Seq<char>| !has_key(n, k) && !has_key(e, k),
            ).len()
            &&& legacy_names(l, n, e, 2).len() == key_set(l).filter(
                |k: Seq<char>| !has_key(n, k) && has_key(e, k),
            ).len()
            &&& new_only_names(n, l).len() == key_set(n).filter(|k: Seq<char>| !has_key(l, k)).len()
            &&& l.len() == key_set(l).len()
        }),
{
    let n = keyed(new);
    let l = keyed(legacy);
    let e = keyed(excluded);
    lemma_keyed_unique(new);
    lemma_keyed_unique(legacy);
    lemma_keyed_unique(excluded);
    let c0 = |k: Seq<char>| legacy_class(n, e, k) == 0;
    let c1 = |k: Seq<char>| legacy_class(n, e, k) == 1;
    let c2 = |k: Seq<char>| legacy_class(n, e, k) == 2;
    lemma_legacy_count(l, n, e, 0);
    lemma_legacy_count(l, n, e, 1);
    lemma_legacy_count(l, n, e, 2);
    lemma_count_where(l, c0);
    lemma_count_where(l, c1);
    lemma_count_where(l, c2);
    assert(key_set(l).filter(c0) =~= key_set(l).filter(|k: Seq<char>| has_key(n, k)));
    assert(key_set(l).filter(c1) =~= key_set(l).filter(|k: Seq<char>| !has_key(n, k) && !has_key(e, k)));
    assert(key_set(l).filter(c2) =~= key_set(l).filter(|k: Seq<char>| !has_key(n, k) && has_key(e, k)));
    lemma_new_only_count(n, l);
    lemma_count_where(n, |k: Seq<char>| !has_key(l, k));
    let all = |k: Seq<char>| true;
    lemma_count_where(l, all);
    lemma_count_all(l);
    assert(key_set(l).filter(all) =~= key_set(l));
}

proof fn lemma_count_all(kv: Seq<(Seq<char>, Seq<char>)>)
    ensures
        count_where(kv, |k: Seq<char>| true) == kv.len(),
    decreases kv.len(),
{
    if kv.len() > 0 {
        lemma_count_all(kv.drop_last());
    }
}

/// Compare the item names of a fresh build with a legacy database's, by key: legacy names whose
/// key the build has are matched; the others are excluded by design when the build's excluded
/// names have their key, missing otherwise; build names whose key the legacy database lacks are
/// new. Each list is in `str` order.
pub fn compare_names(new: &Vec<String>, legacy: &Vec<String>, excluded: &Vec<String>) -> (r: DiffReport)
    ensures
        ({
            let n = keyed(views(new@));
            let l = keyed(views(legacy@));
            let e = keyed(views(excluded@));
            &&& r.matched == legacy_names(l, n, e, 0).len()
            &&& sorted_names(views(r.only_legacy@))
            &&& views(r.only_legacy@).to_multiset() == legacy_names(l, n, e, 1).to_multiset()
            &&& sorted_names(views(r.excluded_by_design@))
            &&& views(r.excluded_by_design@).to_multiset() == legacy_names(l, n, e, 2).to_multiset()
            &&& sorted_names(views(r.only_new@))
            &&& views(r.only_new@).to_multiset() == new_only_names(n, l).to_multiset()
            &&& r.matched + r.only_legacy@.len() + r.excluded_by_design@.len() == l.len()
        }),
{
    let nk = keyed_exec(new);
    let lk = keyed_exec(legacy);
    let ek = keyed_exec(excluded);
    let ghost n = pair_views(nk@);
    let ghost l = pair_views(lk@);
    let ghost e = pair_views(ek@);
    let mut matched: usize = 0;
    let mut only_legacy: Vec<String> = Vec::new();
    let mut by_design: Vec<String> = Vec::new();
    let mut i: usize = 0;
    assert(l.subrange(0, 0) =~= Seq::<(Seq<char>, Seq<char>)>::empty());
    assert(views(only_legacy@) =~= Seq::<Seq<char>>::empty());
    assert(views(by_design@) =~= Seq::<Seq<char>>::empty());
    while i < lk.len()
        invariant
            i <= lk@.len(),
            n == pair_views(nk@),
            l == pair_views(lk@),
            e == pair_views(ek@),
            matched == legacy_names(l.subrange(0, i as int), n, e, 0).len(),
            matched <= i,
            views(only_legacy@) == legacy_names(l.subrange(0, i as int), n, e, 1),
            views(by_design@) == legacy_names(l.subrange(0, i as int), n, e, 2),
        decreases lk@.len() - i,
    {
        let ghost pre = l.subrange(0, i as int);
        assert(l.subrange(0, i + 1).drop_last() =~= pre);
        assert(l.subrange(0, i + 1).last() == l[i as int]);
        assert(l[i as int] == (lk@[i as int].0@, lk@[i as int].1@));
        let key = chars_of(lk[i].0.as_str());
        if has_key_exec(&nk, key.as_slice()) {
            matched += 1;
        } else if has_key_exec(&ek, key.as_slice()) {
            let ghost before = views(by_design@);
            by_design.push(lk[i].1.clone());
            assert(views(by_design@) =~= before.push(l[i as int].1));
        } else {
            let ghost before = views(only_legacy@);
            only_legacy.push(lk[i].1.clone());
            assert(views(only_legacy@) =~= before.push(l[i as int].1));
        }
        i += 1;
    }
    assert(l.subrange(0, l.len() as int) =~= l);
    let mut only_new: Vec<String> = Vec::new();
    let mut j: usize = 0;
    assert(n.subrange(0, 0) =~= Seq::<(Seq<char>, Seq<char>)>::empty());
    assert(views(only_new@) =~= Seq::<Seq<char>>::empty());
    while j < nk.len()
        invariant
            j <= nk@.len(),
            n == pair_views(nk@),
            l == pair_views(lk@),
            views(only_new@) == new_only_names(n.subrange(0, j as int), l),
        decreases nk@.len() - j,
    {
        assert(n.subrange(0, j + 1).drop_last() =~= n.subrange(0, j as int));
        assert(n.subrange(0, j + 1).last() == n[j as int]);
        assert(n[j as int] == (nk@[j as int].0@, nk@[j as int].1@));
        let key = chars_of(nk[j].0.as_str());
        if !has_key_exec(&lk, key.as_slice()) {
            let ghost before = views(only_new@);
            only_new.push(nk[j].1.clone());
            assert(views(only_new@) =~= before.push(n[j as int].1));
        }
        j += 1;
    }
    assert(n.subrange(0, n.len() as int) =~= n);
    let only_legacy = sort_names(only_legacy);
    let excluded_by_design = sort_names(by_design);
    proof {
        lemma_legacy_partition(l, n, e);
        vstd::seq_lib::to_multiset_len(views(only_legacy@));
        vstd::seq_lib::to_multiset_len(legacy_names(l, n, e, 1));
        vstd::seq_lib::to_multiset_len(views(excluded_by_design@));
        vstd::seq_lib::to_multiset_len(legacy_names(l, n, e, 2));
    }
    DiffReport { matched, only_new: sort_names(only_new), only_legacy, excluded_by_design }
}

} // verus!
