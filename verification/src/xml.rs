//! DDOBuilderV2's element grammar. Upstream files are read into child sequences (one value per
//! child element, in document order) and folded here into records whose fields mirror upstream's
//! element names; only Rust-keyword clashes (`Type` → `kind`) are renamed.

pub mod augments;
pub mod classes;
pub mod effect;
pub mod feats;
pub mod item_buffs;
pub mod items;
pub mod patrons;
pub mod quests;
pub mod races;
pub mod requirements;
pub mod set_bonuses;
pub mod spells;
pub mod trees;

use vstd::prelude::*;
use crate::text::{chars_of, parse_i64, parse_i64_spec, split_whitespace, string_of, words};

verus! {

/// An element that carries no content, used as a presence flag (`<IsRaid/>`).
#[derive(Debug, Clone, Copy, PartialEq, Eq, Default)]
pub struct Empty {}

/// The last value `f` picks out of `cs`.
pub open spec fn last_pick<T, R>(cs: Seq<T>, f: spec_fn(T) -> Option<R>) -> Option<R>
    decreases cs.len(),
{
    if cs.len() == 0 {
        None
    } else {
        match f(cs.last()) {
            Some(r) => Some(r),
            None => last_pick(cs.drop_last(), f),
        }
    }
}

/// Every value `f` picks out of `cs`, in order.
pub open spec fn all_picks<T, R>(cs: Seq<T>, f: spec_fn(T) -> Option<R>) -> Seq<R>
    decreases cs.len(),
{
    if cs.len() == 0 {
        Seq::empty()
    } else {
        match f(cs.last()) {
            Some(r) => all_picks(cs.drop_last(), f).push(r),
            None => all_picks(cs.drop_last(), f),
        }
    }
}

/// A whitespace-separated list of numbers as written: `<Levels size="2">6 21</Levels>`.
#[derive(Debug, Clone, PartialEq, Eq, Default)]
pub struct Vector {
    pub text: String,
}

/// The integers of a list of words, or the first word that is not one.
pub open spec fn ints_of(ws: Seq<Seq<char>>) -> Result<Seq<i64>, Seq<char>>
    decreases ws.len(),
{
    if ws.len() == 0 {
        Ok(Seq::empty())
    } else {
        match ints_of(ws.drop_last()) {
            Err(w) => Err(w),
            Ok(vs) => match parse_i64_spec(ws.last()) {
                Some(v) => Ok(vs.push(v as i64)),
                None => Err(ws.last()),
            },
        }
    }
}

/// A failing word in a prefix is the failure of the whole list.
proof fn lemma_ints_err_extends(ws: Seq<Seq<char>>, k: int)
    requires
        0 <= k <= ws.len(),
        ints_of(ws.subrange(0, k)) is Err,
    ensures
        ints_of(ws) == ints_of(ws.subrange(0, k)),
    decreases ws.len() - k,
{
    if k < ws.len() {
        assert(ws.subrange(0, k + 1).drop_last() =~= ws.subrange(0, k));
        lemma_ints_err_extends(ws, k + 1);
    } else {
        assert(ws.subrange(0, k) =~= ws);
    }
}

impl Vector {
    /// The list as integers; an error names the first word that is not one.
    pub fn integers(&self) -> (r: Result<Vec<i64>, String>)
        ensures
            match r {
                Ok(v) => ints_of(words(self.text@)) == Ok::<Seq<i64>, Seq<char>>(v@),
                Err(w) => ints_of(words(self.text@)) == Err::<Seq<i64>, Seq<char>>(w@),
            },
    {
        let c = chars_of(self.text.as_str());
        let ws = split_whitespace(c.as_slice());
        let ghost wv = ws@.map_values(|v: Vec<char>| v@);
        let mut out: Vec<i64> = Vec::new();
        let mut k: usize = 0;
        assert(wv.subrange(0, 0) =~= Seq::<Seq<char>>::empty());
        while k < ws.len()
            invariant
                k <= ws@.len(),
                wv == ws@.map_values(|v: Vec<char>| v@),
                wv == words(self.text@),
                ints_of(wv.subrange(0, k as int)) == Ok::<Seq<i64>, Seq<char>>(out@),
            decreases ws@.len() - k,
        {
            assert(wv.subrange(0, k + 1).drop_last() =~= wv.subrange(0, k as int));
            assert(wv.subrange(0, k + 1).last() == ws@[k as int]@);
            match parse_i64(ws[k].as_slice()) {
                Some(v) => out.push(v),
                None => {
                    let w = string_of(ws[k].as_slice());
                    proof {
                        assert(ints_of(wv.subrange(0, k + 1)) == Err::<Seq<i64>, Seq<char>>(ws@[k as int]@));
                        lemma_ints_err_extends(wv, k + 1);
                        assert(ints_of(wv) == Err::<Seq<i64>, Seq<char>>(w@));
                    }
                    return Err(w);
                },
            }
            k += 1;
        }
        assert(wv.subrange(0, ws@.len() as int) =~= wv);
        Ok(out)
    }
}

} // verus!
