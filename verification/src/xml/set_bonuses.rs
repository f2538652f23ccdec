//! `SetBonuses.xml` (gear sets) and `FiligreeSets/*.xml` (a `<SetBonus>` plus its `<Filigree>`
//! children). Both roots hold the same `<SetBonus>` shape, so one reader handles either.
//!
//! `N` is the type of the numbers in the effects' vectors.

use vstd::prelude::*;
use crate::xml::effect::Effect;
use crate::xml::Empty;

verus! {

#[derive(Debug, Clone, PartialEq)]
pub struct SetBonus<N> {
    /// Upstream calls the set's name `Type`.
    pub name: String,
    pub icon: Option<String>,
    pub ignore_for_parse: Option<Empty>,
    pub additional_description: Option<String>,
    pub tiers: Vec<SetTier<N>>,
}

#[derive(Debug, Clone, PartialEq)]
pub struct SetTier<N> {
    pub equipped_count: i64,
    pub description: Option<String>,
    pub effects: Vec<Effect<N>>,
}

#[derive(Debug, Clone, PartialEq)]
pub struct Filigree<N> {
    pub name: String,
    pub description: Option<String>,
    pub icon: Option<String>,
    pub menu: Option<String>,
    pub set_bonus: Vec<String>,
    pub effects: Vec<Effect<N>>,
}

/// A root child of a set file, in document order.
#[derive(Debug, Clone, PartialEq)]
pub enum SetEntry<N> {
    SetBonus(SetBonus<N>),
    Filigree(Filigree<N>),
}

#[derive(Debug, Clone, PartialEq)]
pub struct SetFile<N> {
    pub sets: Vec<SetBonus<N>>,
    pub filigrees: Vec<Filigree<N>>,
}

pub open spec fn entry_set<N>() -> spec_fn(SetEntry<N>) -> Option<SetBonus<N>> {
    |e: SetEntry<N>| match e { SetEntry::SetBonus(s) => Some(s), _ => None }
}
pub open spec fn entry_filigree<N>() -> spec_fn(SetEntry<N>) -> Option<Filigree<N>> {
    |e: SetEntry<N>| match e { SetEntry::Filigree(f) => Some(f), _ => None }
}

impl<N> SetFile<N> {
    /// Split a set file's root children into its sets and its filigrees, each in order.
    pub fn from_entries(entries: Vec<SetEntry<N>>) -> (r: SetFile<N>)
        ensures
            r.sets@ == crate::xml::all_picks(entries@, entry_set::<N>()),
            r.filigrees@ == crate::xml::all_picks(entries@, entry_filigree::<N>()),
    {
        let mut out = SetFile { sets: Vec::new(), filigrees: Vec::new() };
        let mut es = entries;
        let ghost orig = es@;
        let n = es.len();
        let mut k: usize = 0;
        assert(orig.subrange(0, 0) =~= Seq::<SetEntry<N>>::empty());
        assert(out.sets@ =~= Seq::<SetBonus<N>>::empty());
        assert(out.filigrees@ =~= Seq::<Filigree<N>>::empty());
        while es.len() > 0
            invariant
                k + es@.len() == orig.len(),
                n == orig.len(),
                es@ == orig.subrange(k as int, orig.len() as int),
                out.sets@ == crate::xml::all_picks(orig.subrange(0, k as int), entry_set::<N>()),
                out.filigrees@ == crate::xml::all_picks(orig.subrange(0, k as int), entry_filigree::<N>()),
            decreases es@.len(),
        {
            let e = es.remove(0);
            let ghost pre = orig.subrange(0, k as int);
            assert(e == orig[k as int]);
            assert(orig.subrange(0, k + 1) =~= pre.push(e));
            proof {
                crate::xml::items::lemma_picks_push(pre, e, entry_set::<N>());
                crate::xml::items::lemma_picks_push(pre, e, entry_filigree::<N>());
            }
            match e {
                SetEntry::SetBonus(s) => out.sets.push(s),
                SetEntry::Filigree(f) => out.filigrees.push(f),
            }
            k += 1;
            assert(es@ =~= orig.subrange(k as int, orig.len() as int));
        }
        assert(orig.subrange(0, orig.len() as int) =~= orig);
        out
    }
}

/// A clickie of `ItemClickies.xml`: a spell-like effect items carry, keyed by name.
#[derive(Debug, Clone, PartialEq)]
pub struct Clickie<N> {
    pub name: String,
    pub description: Option<String>,
    pub icon: Option<String>,
    pub school: Option<String>,
    pub effects: Vec<Effect<N>>,
}

} // verus!
