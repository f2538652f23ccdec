//! Strong ETags from the dataset version and the request, so a CDN or browser can revalidate
//! with `If-None-Match` and get a 304 without the database being touched.

use vstd::prelude::*;
use crate::text::{chars_of, chars_eq, eq_str, string_of, trim, trim_chars};

verus! {

pub open spec fn hex_digit(d: nat) -> char
    recommends
        d < 16,
{
    if d < 10 {
        (d + ('0' as u32)) as char
    } else {
        ((d - 10) + ('a' as u32)) as char
    }
}

/// The lowest `k` hex digits of `n`, most significant first, zero-padded.
pub open spec fn hex_digits(n: nat, k: nat) -> Seq<char>
    decreases k,
{
    if k == 0 {
        Seq::empty()
    } else {
        hex_digits(n / 16, (k - 1) as nat).push(hex_digit(n % 16))
    }
}

/// `format!("\"{:016x}\"", hash)`.
pub open spec fn etag_spec(hash: u64) -> Seq<char> {
    seq!['"'] + hex_digits(hash as nat, 16) + seq!['"']
}

fn hex_char(d: u64) -> (c: char)
    requires
        d < 16,
    ensures
        c == hex_digit(d as nat),
{
    if d < 10 {
        ((d as u8) + 48) as char
    } else {
        ((d as u8) - 10 + 97) as char
    }
}

fn hex_into(out: &mut Vec<char>, n: u64, k: usize)
    requires
        k <= 16,
    ensures
        final(out)@ == old(out)@ + hex_digits(n as nat, k as nat),
    decreases k,
{
    if k > 0 {
        hex_into(out, n / 16, k - 1);
        out.push(hex_char(n % 16));
    }
}

/// The strong ETag for a request whose identity hashes to `hash`.
pub fn etag_value(hash: u64) -> (r: String)
    ensures
        r@ == etag_spec(hash),
{
    let mut out: Vec<char> = Vec::new();
    out.push('"');
    hex_into(&mut out, hash, 16);
    out.push('"');
    assert(out@ =~= seq!['"'] + hex_digits(hash as nat, 16) + seq!['"']);
    string_of(out.as_slice())
}

/// `str::split(',')`: the pieces between commas, in order (one piece when there is none).
pub open spec fn split_commas(s: Seq<char>) -> Seq<Seq<char>>
    decreases s.len(),
{
    if s.len() == 0 {
        seq![Seq::empty()]
    } else {
        let rest = split_commas(s.drop_last());
        if s.last() == ',' {
            rest.push(Seq::empty())
        } else {
            rest.update(rest.len() - 1, rest.last().push(s.last()))
        }
    }
}

proof fn lemma_split_nonempty(s: Seq<char>)
    ensures
        split_commas(s).len() >= 1,
    decreases s.len(),
{
    if s.len() > 0 {
        lemma_split_nonempty(s.drop_last());
    }
}

/// An `If-None-Match` header matches `tag` when one of its comma-separated candidates, trimmed,
/// is the tag or `*`.
pub open spec fn if_none_match_spec(header: Seq<char>, tag: Seq<char>) -> bool {
    exists|i: int|
        0 <= i < split_commas(header).len() && (trim(#[trigger] split_commas(header)[i]) == tag || trim(
            split_commas(header)[i],
        ) == "*"@)
}

fn candidate_matches(piece: &[char], tag: &[char]) -> (r: bool)
    ensures
        r == (trim(piece@) == tag@ || trim(piece@) == "*"@),
{
    let t = trim_chars(piece);
    chars_eq(t.as_slice(), tag) || eq_str(t.as_slice(), "*")
}

/// Whether a request's `If-None-Match` header names this tag.
pub fn if_none_match(header: &str, tag: &str) -> (r: bool)
    ensures
        r == if_none_match_spec(header@, tag@),
{
    let h = chars_of(header);
    let t = chars_of(tag);
    let mut pieces: Vec<Vec<char>> = Vec::new();
    let mut cur: Vec<char> = Vec::new();
    let mut k: usize = 0;
    while k < h.len()
        invariant
            k <= h@.len(),
            pieces@.map_values(|v: Vec<char>| v@).push(cur@) == split_commas(h@.subrange(0, k as int)),
        decreases h@.len() - k,
    {
        assert(h@.subrange(0, k + 1).drop_last() =~= h@.subrange(0, k as int));
        let ghost prev = split_commas(h@.subrange(0, k as int));
        proof {
            lemma_split_nonempty(h@.subrange(0, k as int));
        }
        if h[k] == ',' {
            let ghost pv = pieces@;
            let done = cur;
            pieces.push(done);
            cur = Vec::new();
            assert(pieces@.map_values(|v: Vec<char>| v@) =~= pv.map_values(|v: Vec<char>| v@).push(done@));
            assert(pieces@.map_values(|v: Vec<char>| v@).push(cur@) =~= prev.push(Seq::empty()));
        } else {
            cur.push(h[k]);
            assert(pieces@.map_values(|v: Vec<char>| v@).push(cur@) =~= prev.update(
                prev.len() - 1,
                prev.last().push(h@[k as int]),
            ));
        }
        k += 1;
    }
    assert(h@.subrange(0, h@.len() as int) =~= h@);
    let ghost all = split_commas(h@);
    let mut i: usize = 0;
    while i < pieces.len()
        invariant
            i <= pieces@.len(),
            h@ == header@,
            t@ == tag@,
            all == split_commas(h@),
            pieces@.map_values(|v: Vec<char>| v@).push(cur@) == all,
            forall|j: int| 0 <= j < i ==> !(trim(#[trigger] all[j]) == t@ || trim(all[j]) == "*"@),
        decreases pieces@.len() - i,
    {
        if candidate_matches(pieces[i].as_slice(), t.as_slice()) {
            assert(all[i as int] == pieces@[i as int]@);
            assert(h@ == header@ && t@ == tag@);
            assert(trim(split_commas(header@)[i as int]) == tag@ || trim(split_commas(header@)[i as int]) == "*"@);
            return true;
        }
        assert(all[i as int] == pieces@[i as int]@);
        i += 1;
    }
    assert(all[pieces@.len() as int] == cur@);
    if candidate_matches(cur.as_slice(), t.as_slice()) {
        let ghost last = pieces@.len() as int;
        assert(trim(split_commas(header@)[last]) == tag@ || trim(split_commas(header@)[last]) == "*"@);
        return true;
    }
    assert forall|j: int| 0 <= j < all.len() implies !(trim(#[trigger] all[j]) == t@ || trim(all[j]) == "*"@) by {
        if j == pieces@.len() {
        }
    }
    false
}

proof fn lemma_split_no_comma(s: Seq<char>)
    requires
        forall|i: int| 0 <= i < s.len() ==> #[trigger] s[i] != ',',
    ensures
        split_commas(s) == seq![s],
    decreases s.len(),
{
    if s.len() > 0 {
        lemma_split_no_comma(s.drop_last());
        assert(s.last() == s[s.len() - 1]);
        assert(s.last() != ',');
        let rest = split_commas(s.drop_last());
        assert(rest.len() == 1 && rest.last() == s.drop_last());
        assert(split_commas(s) == rest.update(rest.len() - 1, rest.last().push(s.last())));
        assert(s.drop_last().push(s.last()) =~= s);
        assert(seq![s.drop_last()].update(0, s) =~= seq![s]);
    } else {
        assert(s =~= Seq::<char>::empty());
    }
}

/// A client that presents the tag it was given gets a match: an entity tag's own header
/// matches it, as does `*`.
pub proof fn etag_revalidates(hash: u64, tag: Seq<char>)
    ensures
        if_none_match_spec(etag_spec(hash), etag_spec(hash)),
        if_none_match_spec("*"@, tag),
{
    reveal_strlit("*");
    let e = etag_spec(hash);
    assert forall|i: int| 0 <= i < e.len() implies #[trigger] e[i] != ',' by {
        if 0 < i < e.len() - 1 {
            lemma_hex_digits_no_comma(hash as nat, 16, i - 1);
            assert(e[i] == hex_digits(hash as nat, 16)[i - 1]);
        }
    }
    lemma_split_no_comma(e);
    assert(e[0] == '"');
    assert(e[e.len() - 1] == '"');
    assert(crate::text::trim_start(e) == e);
    assert(crate::text::trim_end(e) == e);
    assert(split_commas(e)[0] == e);
    let star = "*"@;
    assert forall|i: int| 0 <= i < star.len() implies #[trigger] star[i] != ',' by {}
    lemma_split_no_comma(star);
    assert(split_commas(star)[0] == star);
    assert(crate::text::trim_start(star) == star);
    assert(crate::text::trim_end(star) == star);
}

proof fn lemma_hex_digits_no_comma(n: nat, k: nat, i: int)
    requires
        0 <= i < hex_digits(n, k).len(),
    ensures
        hex_digits(n, k)[i] != ',',
    decreases k,
{
    if k > 0 {
        let h = hex_digits(n / 16, (k - 1) as nat);
        if i < h.len() {
            lemma_hex_digits_no_comma(n / 16, (k - 1) as nat, i);
        } else {
            let d = n % 16;
            if d < 10 {
                assert(hex_digit(d) == (d + ('0' as u32)) as char);
            }
        }
    }
}

/// What the ETag layer does with a request. Every response it lets out carries the tag: the 304
/// it answers itself and whatever the handler answers, success or error.
#[derive(Debug, Clone, Copy, PartialEq, Eq)]
pub enum Revalidation {
    /// The client holds the current representation: answer 304 with the tag, without running
    /// the handler.
    NotModified,
    /// Run the handler and send its response, with the tag.
    Forward,
}

/// A request whose `If-None-Match` header (absent, or not text, as `None`) names `tag` is
/// answered 304; any other goes on to the handler.
pub fn revalidate(header: Option<&str>, tag: &str) -> (r: Revalidation)
    ensures
        (r == Revalidation::NotModified) == (header matches Some(h) && if_none_match_spec(h@, tag@)),
{
    match header {
        Some(h) => {
            if if_none_match(h, tag) {
                Revalidation::NotModified
            } else {
                Revalidation::Forward
            }
        },
        None => Revalidation::Forward,
    }
}

} // verus!
