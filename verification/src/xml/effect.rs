//! `<Effect>`: the modifier grammar every family shares. Read as an order-independent child
//! sequence because `<Type>` and `<Item>` repeat and upstream interleaves freely.
//!
//! `N` is the type of the numbers in `<Amount>` and `<Dice>` vectors (`<Amount size="4">3.5 4.0
//! 4.5 4.5</Amount>`), which the reader parses.

use vstd::prelude::*;
use crate::text::{chars_of, eq_str, opt_string, trim, trim_str, views};
use crate::xml::{all_picks, last_pick};
use crate::xml::items::lemma_picks_push;
use crate::xml::requirements::Requirements;

verus! {

#[derive(Debug, Clone, PartialEq)]
pub struct Effect<N> {
    /// One or more `<Type>`; the first is the primary.
    pub types: Vec<String>,
    pub bonus: Option<String>,
    pub amount_type: Option<String>,
    /// `<Amount size="n">a b c</Amount>` as numbers. Empty when absent.
    pub amounts: Vec<N>,
    pub items: Vec<String>,
    pub value: Option<String>,
    pub dice: Option<EffectDice<N>>,
    pub damage: Option<String>,
    pub percent: bool,
    pub rank: Option<i64>,
    pub cap: Option<String>,
    pub stack_source: Option<String>,
    pub display_name: Option<String>,
    pub apply_as_item_effect: bool,
    pub is_item_specific: bool,
    pub rare: bool,
    pub update_automatic_effects: bool,
    pub requirements: Option<Requirements>,
}

#[derive(Debug, Clone, PartialEq)]
pub struct EffectDice<N> {
    pub number: Vec<N>,
    pub sides: Vec<N>,
    pub bonus: Vec<N>,
    pub damage: Option<String>,
}

/// A `<Dice>` element as written: each vector optional.
#[derive(Debug, Clone, PartialEq)]
pub struct RawDice<N> {
    pub number: Option<Vec<N>>,
    pub sides: Option<Vec<N>>,
    pub bonus: Option<Vec<N>>,
    pub damage: Option<String>,
}

/// Every element an `<Effect>` may contain.
#[derive(Debug, Clone, PartialEq)]
pub enum EffectChild<N> {
    Type(String),
    Bonus(String),
    AType(String),
    Amount(Vec<N>),
    Item(String),
    Value(String),
    Dice(RawDice<N>),
    Damage(String),
    Percent,
    Rank(i64),
    Cap(String),
    StackSource(String),
    DisplayName(String),
    ApplyAsItemEffect,
    IsItemSpecific,
    Rare,
    UpdateAutomaticEffects,
    Requirements(Requirements),
}

/// Why an `<Effect>` was rejected.
#[derive(Debug, Clone, PartialEq, Eq)]
pub enum EffectError {
    /// An `<Effect>` without a `<Type>`.
    Untyped,
}

/// The trimmed text of the text-valued children, by position: Type, Bonus, AType, Item, Value,
/// Damage, Cap, StackSource, DisplayName.
pub open spec fn text_slot<N>(c: EffectChild<N>) -> Option<(int, Seq<char>)> {
    match c {
        EffectChild::Type(v) => Some((0, trim(v@))),
        EffectChild::Bonus(v) => Some((1, trim(v@))),
        EffectChild::AType(v) => Some((2, trim(v@))),
        EffectChild::Item(v) => Some((3, trim(v@))),
        EffectChild::Value(v) => Some((4, trim(v@))),
        EffectChild::Damage(v) => Some((5, trim(v@))),
        EffectChild::Cap(v) => Some((6, trim(v@))),
        EffectChild::StackSource(v) => Some((7, trim(v@))),
        EffectChild::DisplayName(v) => Some((8, trim(v@))),
        _ => None,
    }
}

pub open spec fn pick_text<N>(slot: int) -> spec_fn(EffectChild<N>) -> Option<Seq<char>> {
    |c: EffectChild<N>| match text_slot(c) {
        Some((s, t)) => if s == slot { Some(t) } else { None },
        None => None,
    }
}

/// The presence flags, by position: Percent, ApplyAsItemEffect, IsItemSpecific, Rare,
/// UpdateAutomaticEffects.
pub open spec fn pick_flag<N>(slot: int) -> spec_fn(EffectChild<N>) -> Option<()> {
    |c: EffectChild<N>| match c {
        EffectChild::Percent => if slot == 0 { Some(()) } else { None },
        EffectChild::ApplyAsItemEffect => if slot == 1 { Some(()) } else { None },
        EffectChild::IsItemSpecific => if slot == 2 { Some(()) } else { None },
        EffectChild::Rare => if slot == 3 { Some(()) } else { None },
        EffectChild::UpdateAutomaticEffects => if slot == 4 { Some(()) } else { None },
        _ => None,
    }
}

pub open spec fn pick_amount<N>() -> spec_fn(EffectChild<N>) -> Option<Vec<N>> {
    |c: EffectChild<N>| match c { EffectChild::Amount(v) => Some(v), _ => None }
}
pub open spec fn pick_dice<N>() -> spec_fn(EffectChild<N>) -> Option<RawDice<N>> {
    |c: EffectChild<N>| match c { EffectChild::Dice(v) => Some(v), _ => None }
}
pub open spec fn pick_rank<N>() -> spec_fn(EffectChild<N>) -> Option<i64> {
    |c: EffectChild<N>| match c { EffectChild::Rank(v) => Some(v), _ => None }
}
pub open spec fn pick_requirements<N>() -> spec_fn(EffectChild<N>) -> Option<Requirements> {
    |c: EffectChild<N>| match c { EffectChild::Requirements(v) => Some(v), _ => None }
}

pub open spec fn opt_vec<N>(v: Option<Vec<N>>) -> Seq<N> {
    match v {
        Some(v) => v@,
        None => Seq::empty(),
    }
}

/// The dice a raw `<Dice>` element means: absent vectors empty, damage trimmed.
pub open spec fn dice_folds<N>(raw: RawDice<N>, d: EffectDice<N>) -> bool {
    &&& d.number@ == opt_vec(raw.number)
    &&& d.sides@ == opt_vec(raw.sides)
    &&& d.bonus@ == opt_vec(raw.bonus)
    &&& opt_string(d.damage) == match raw.damage { Some(t) => Some(trim(t@)), None => None }
}

/// The effect the children fold into: repeated `<Type>` and `<Item>` collect in order (trimmed),
/// other single-valued children take the last element of their kind, flags are set by presence.
pub open spec fn effect_folds<N>(cs: Seq<EffectChild<N>>, e: Effect<N>) -> bool {
    &&& views(e.types@) == all_picks(cs, pick_text::<N>(0))
    &&& opt_string(e.bonus) == last_pick(cs, pick_text::<N>(1))
    &&& opt_string(e.amount_type) == last_pick(cs, pick_text::<N>(2))
    &&& views(e.items@) == all_picks(cs, pick_text::<N>(3))
    &&& opt_string(e.value) == last_pick(cs, pick_text::<N>(4))
    &&& opt_string(e.damage) == last_pick(cs, pick_text::<N>(5))
    &&& opt_string(e.cap) == last_pick(cs, pick_text::<N>(6))
    &&& opt_string(e.stack_source) == last_pick(cs, pick_text::<N>(7))
    &&& opt_string(e.display_name) == last_pick(cs, pick_text::<N>(8))
    &&& e.amounts@ == opt_vec(last_pick(cs, pick_amount::<N>()))
    &&& match last_pick(cs, pick_dice::<N>()) {
        Some(raw) => e.dice matches Some(d) && dice_folds(raw, d),
        None => e.dice is None,
    }
    &&& e.rank == last_pick(cs, pick_rank::<N>())
    &&& e.requirements == last_pick(cs, pick_requirements::<N>())
    &&& e.percent == last_pick(cs, pick_flag::<N>(0)) is Some
    &&& e.apply_as_item_effect == last_pick(cs, pick_flag::<N>(1)) is Some
    &&& e.is_item_specific == last_pick(cs, pick_flag::<N>(2)) is Some
    &&& e.rare == last_pick(cs, pick_flag::<N>(3)) is Some
    &&& e.update_automatic_effects == last_pick(cs, pick_flag::<N>(4)) is Some
}

fn fold_dice<N>(raw: RawDice<N>) -> (d: EffectDice<N>)
    ensures
        dice_folds(raw, d),
{
    let ghost r = raw;
    let number = match raw.number { Some(v) => v, None => Vec::new() };
    let sides = match raw.sides { Some(v) => v, None => Vec::new() };
    let bonus = match raw.bonus { Some(v) => v, None => Vec::new() };
    let damage = match raw.damage { Some(t) => Some(trim_str(t.as_str())), None => None };
    let d = EffectDice { number, sides, bonus, damage };
    proof {
        if r.number is None { assert(d.number@ =~= Seq::<N>::empty()); }
        if r.sides is None { assert(d.sides@ =~= Seq::<N>::empty()); }
        if r.bonus is None { assert(d.bonus@ =~= Seq::<N>::empty()); }
    }
    d
}

fn push_trimmed(v: &mut Vec<String>, t: String)
    ensures
        views(final(v)@) == views(old(v)@).push(trim(t@)),
{
    let ghost before = views(v@);
    v.push(trim_str(t.as_str()));
    assert(views(v@) =~= before.push(trim(t@)));
}

impl<N> Effect<N> {
    /// `AType` Simple, exactly one `<Type>` and exactly one amount: the shape of an effect whose
    /// value can be a plain number.
    pub open spec fn simple_shape(self) -> bool {
        &&& self.amount_type matches Some(a) && a@ == "Simple"@
        &&& self.types@.len() == 1
        &&& self.amounts@.len() == 1
    }

    /// Whether this effect has the plain-number shape; whether its one amount is integral is the
    /// reader's part.
    pub fn has_simple_shape(&self) -> (r: bool)
        ensures
            r == self.simple_shape(),
    {
        let simple = match &self.amount_type {
            Some(a) => {
                let v = chars_of(a.as_str());
                eq_str(v.as_slice(), "Simple")
            },
            None => false,
        };
        simple && self.types.len() == 1 && self.amounts.len() == 1
    }

    /// Fold an `<Effect>`'s children. Rejected when there is no `<Type>`.
    pub fn from_children(children: Vec<EffectChild<N>>) -> (r: Result<Effect<N>, EffectError>)
        ensures
            r is Ok <==> all_picks(children@, pick_text::<N>(0)).len() > 0,
            r matches Ok(e) ==> effect_folds(children@, e) && e.types@.len() > 0,
    {
        let mut e = Effect {
            types: Vec::new(),
            bonus: None,
            amount_type: None,
            amounts: Vec::new(),
            items: Vec::new(),
            value: None,
            dice: None,
            damage: None,
            percent: false,
            rank: None,
            cap: None,
            stack_source: None,
            display_name: None,
            apply_as_item_effect: false,
            is_item_specific: false,
            rare: false,
            update_automatic_effects: false,
            requirements: None,
        };
        let mut cs = children;
        let ghost orig = cs@;
        let n = cs.len();
        let mut k: usize = 0;
        assert(views(e.types@) =~= Seq::<Seq<char>>::empty());
        assert(views(e.items@) =~= Seq::<Seq<char>>::empty());
        assert(e.amounts@ =~= Seq::<N>::empty());
        assert(orig.subrange(0, 0) =~= Seq::<EffectChild<N>>::empty());
        while cs.len() > 0
            invariant
                k + cs@.len() == orig.len(),
                n == orig.len(),
                cs@ == orig.subrange(k as int, orig.len() as int),
                effect_folds(orig.subrange(0, k as int), e),
            decreases cs@.len(),
        {
            let child = cs.remove(0);
            let ghost pre = orig.subrange(0, k as int);
            assert(child == orig[k as int]);
            assert(orig.subrange(0, k + 1) =~= pre.push(child));
            proof {
                lemma_picks_push(pre, child, pick_text::<N>(0));
                lemma_picks_push(pre, child, pick_text::<N>(1));
                lemma_picks_push(pre, child, pick_text::<N>(2));
                lemma_picks_push(pre, child, pick_text::<N>(3));
                lemma_picks_push(pre, child, pick_text::<N>(4));
                lemma_picks_push(pre, child, pick_text::<N>(5));
                lemma_picks_push(pre, child, pick_text::<N>(6));
                lemma_picks_push(pre, child, pick_text::<N>(7));
                lemma_picks_push(pre, child, pick_text::<N>(8));
                lemma_picks_push(pre, child, pick_amount::<N>());
                lemma_picks_push(pre, child, pick_dice::<N>());
                lemma_picks_push(pre, child, pick_rank::<N>());
                lemma_picks_push(pre, child, pick_requirements::<N>());
                lemma_picks_push(pre, child, pick_flag::<N>(0));
                lemma_picks_push(pre, child, pick_flag::<N>(1));
                lemma_picks_push(pre, child, pick_flag::<N>(2));
                lemma_picks_push(pre, child, pick_flag::<N>(3));
                lemma_picks_push(pre, child, pick_flag::<N>(4));
            }
            match child {
                EffectChild::Type(v) => push_trimmed(&mut e.types, v),
                EffectChild::Bonus(v) => e.bonus = Some(trim_str(v.as_str())),
                EffectChild::AType(v) => e.amount_type = Some(trim_str(v.as_str())),
                EffectChild::Amount(v) => e.amounts = v,
                EffectChild::Item(v) => push_trimmed(&mut e.items, v),
                EffectChild::Value(v) => e.value = Some(trim_str(v.as_str())),
                EffectChild::Dice(d) => e.dice = Some(fold_dice(d)),
                EffectChild::Damage(v) => e.damage = Some(trim_str(v.as_str())),
                EffectChild::Percent => e.percent = true,
                EffectChild::Rank(v) => e.rank = Some(v),
                EffectChild::Cap(v) => e.cap = Some(trim_str(v.as_str())),
                EffectChild::StackSource(v) => e.stack_source = Some(trim_str(v.as_str())),
                EffectChild::DisplayName(v) => e.display_name = Some(trim_str(v.as_str())),
                EffectChild::ApplyAsItemEffect => e.apply_as_item_effect = true,
                EffectChild::IsItemSpecific => e.is_item_specific = true,
                EffectChild::Rare => e.rare = true,
                EffectChild::UpdateAutomaticEffects => e.update_automatic_effects = true,
                EffectChild::Requirements(r) => e.requirements = Some(r),
            }
            k += 1;
            assert(cs@ =~= orig.subrange(k as int, orig.len() as int));
        }
        assert(orig.subrange(0, orig.len() as int) =~= orig);
        if e.types.len() == 0 {
            return Err(EffectError::Untyped);
        }
        Ok(e)
    }
}

} // verus!
