//! `Augments/*.xml`: one `<Augments>` root per crafting family, `<Augment>` children read as an
//! order-independent sequence (`<EffectDescription>` interleaves with `<Effect>`).
//!
//! `F` is the type of the fractional numbers of `<Levels>` and `<LevelValue>`, which the reader
//! parses; `N` that of the effects' vectors.

use vstd::prelude::*;
use crate::text::{chars_of, find, find_exec, opt_string, slice_chars, string_of, trim, trim_str, views};
use crate::xml::effect::Effect;
use crate::xml::feats::or_empty;
use crate::xml::items::lemma_picks_push;
use crate::xml::{all_picks, last_pick};

verus! {

/// The crafting family a file belongs to: its name up to the first `.Augments`.
pub open spec fn family_spec(file_name: Seq<char>) -> Seq<char> {
    match find(file_name, ".Augments"@) {
        Some(i) => file_name.subrange(0, i),
        None => file_name,
    }
}

/// The family of an augment file, from its file name (`Cannith.Augments.xml` → `Cannith`).
pub fn family(file_name: &str) -> (r: String)
    ensures
        r@ == family_spec(file_name@),
{
    let c = chars_of(file_name);
    let pat = chars_of(".Augments");
    match find_exec(c.as_slice(), pat.as_slice()) {
        Some(i) => {
            proof {
                crate::text::lemma_find_from_bounds(c@, pat@, 0);
            }
            string_of(slice_chars(c.as_slice(), 0, i).as_slice())
        },
        None => string_of(c.as_slice()),
    }
}

#[derive(Debug, Clone, PartialEq)]
pub struct Augment<F, N> {
    pub name: String,
    pub description: Option<String>,
    /// `<EffectDescription>` elements, in order.
    pub effect_descriptions: Vec<String>,
    pub min_level: Option<i64>,
    /// `<Type>`: every slot type this augment fits.
    pub slot_types: Vec<String>,
    pub icon: Option<String>,
    pub effects: Vec<Effect<N>>,
    pub choose_level: bool,
    pub levels: Vec<F>,
    pub level_values: Vec<F>,
    pub level_values2: Vec<F>,
    pub dual_values: bool,
    pub enter_value: bool,
    pub suppress_set_bonus: bool,
    pub set_bonus: Vec<String>,
    pub add_augment: Vec<String>,
    pub grant_augment: Option<String>,
    pub grant_conditional_augment: Option<String>,
    pub weapon_class: Option<String>,
}

/// Every element an `<Augment>` may contain.
#[derive(Debug, Clone, PartialEq)]
pub enum AugmentChild<F, N> {
    Name(String),
    Description(String),
    EffectDescription(String),
    MinLevel(i64),
    Type(String),
    Icon(String),
    Effect(Effect<N>),
    ChooseLevel,
    Levels(Vec<F>),
    LevelValue(Vec<F>),
    LevelValue2(Vec<F>),
    DualValues,
    EnterValue,
    SuppressSetBonus,
    SetBonus(String),
    AddAugment(String),
    GrantAugment(String),
    GrantConditionalAugment(String),
    WeaponClass(String),
}

/// Why an `<Augment>` was rejected.
#[derive(Debug, Clone, PartialEq, Eq)]
pub enum AugmentError {
    /// An `<Augment>` without a `<Name>`, or with a blank one.
    Unnamed,
}

/// By position (trimmed): Name, Description, EffectDescription, Type, Icon, SetBonus,
/// AddAugment, GrantAugment, GrantConditionalAugment, WeaponClass.
pub open spec fn augment_text<F, N>(slot: int) -> spec_fn(AugmentChild<F, N>) -> Option<Seq<char>> {
    |c: AugmentChild<F, N>| match c {
        AugmentChild::Name(v) => if slot == 0 { Some(trim(v@)) } else { None },
        AugmentChild::Description(v) => if slot == 1 { Some(trim(v@)) } else { None },
        AugmentChild::EffectDescription(v) => if slot == 2 { Some(trim(v@)) } else { None },
        AugmentChild::Type(v) => if slot == 3 { Some(trim(v@)) } else { None },
        AugmentChild::Icon(v) => if slot == 4 { Some(trim(v@)) } else { None },
        AugmentChild::SetBonus(v) => if slot == 5 { Some(trim(v@)) } else { None },
        AugmentChild::AddAugment(v) => if slot == 6 { Some(trim(v@)) } else { None },
        AugmentChild::GrantAugment(v) => if slot == 7 { Some(trim(v@)) } else { None },
        AugmentChild::GrantConditionalAugment(v) => if slot == 8 { Some(trim(v@)) } else { None },
        AugmentChild::WeaponClass(v) => if slot == 9 { Some(trim(v@)) } else { None },
        _ => None,
    }
}

/// By position: Levels, LevelValue, LevelValue2.
pub open spec fn augment_numbers<F, N>(slot: int) -> spec_fn(AugmentChild<F, N>) -> Option<Vec<F>> {
    |c: AugmentChild<F, N>| match c {
        AugmentChild::Levels(v) => if slot == 0 { Some(v) } else { None },
        AugmentChild::LevelValue(v) => if slot == 1 { Some(v) } else { None },
        AugmentChild::LevelValue2(v) => if slot == 2 { Some(v) } else { None },
        _ => None,
    }
}

/// By position: ChooseLevel, DualValues, EnterValue, SuppressSetBonus.
pub open spec fn augment_flag<F, N>(slot: int) -> spec_fn(AugmentChild<F, N>) -> Option<()> {
    |c: AugmentChild<F, N>| match c {
        AugmentChild::ChooseLevel => if slot == 0 { Some(()) } else { None },
        AugmentChild::DualValues => if slot == 1 { Some(()) } else { None },
        AugmentChild::EnterValue => if slot == 2 { Some(()) } else { None },
        AugmentChild::SuppressSetBonus => if slot == 3 { Some(()) } else { None },
        _ => None,
    }
}

pub open spec fn augment_min_level<F, N>() -> spec_fn(AugmentChild<F, N>) -> Option<i64> {
    |c: AugmentChild<F, N>| match c { AugmentChild::MinLevel(v) => Some(v), _ => None }
}
pub open spec fn augment_effect<F, N>() -> spec_fn(AugmentChild<F, N>) -> Option<Effect<N>> {
    |c: AugmentChild<F, N>| match c { AugmentChild::Effect(v) => Some(v), _ => None }
}

pub open spec fn numbers_or_empty<F>(v: Option<Vec<F>>) -> Seq<F> {
    match v {
        Some(v) => v@,
        None => Seq::empty(),
    }
}

/// The augment the children fold into: descriptions, types, effects, set bonuses and added
/// augments in order, other children the last of their kind, text trimmed.
pub open spec fn augment_folds<F, N>(cs: Seq<AugmentChild<F, N>>, a: Augment<F, N>) -> bool {
    &&& a.name@ == or_empty(last_pick(cs, augment_text::<F, N>(0)))
    &&& opt_string(a.description) == last_pick(cs, augment_text::<F, N>(1))
    &&& views(a.effect_descriptions@) == all_picks(cs, augment_text::<F, N>(2))
    &&& views(a.slot_types@) == all_picks(cs, augment_text::<F, N>(3))
    &&& opt_string(a.icon) == last_pick(cs, augment_text::<F, N>(4))
    &&& views(a.set_bonus@) == all_picks(cs, augment_text::<F, N>(5))
    &&& views(a.add_augment@) == all_picks(cs, augment_text::<F, N>(6))
    &&& opt_string(a.grant_augment) == last_pick(cs, augment_text::<F, N>(7))
    &&& opt_string(a.grant_conditional_augment) == last_pick(cs, augment_text::<F, N>(8))
    &&& opt_string(a.weapon_class) == last_pick(cs, augment_text::<F, N>(9))
    &&& a.min_level == last_pick(cs, augment_min_level::<F, N>())
    &&& a.effects@ == all_picks(cs, augment_effect::<F, N>())
    &&& a.levels@ == numbers_or_empty(last_pick(cs, augment_numbers::<F, N>(0)))
    &&& a.level_values@ == numbers_or_empty(last_pick(cs, augment_numbers::<F, N>(1)))
    &&& a.level_values2@ == numbers_or_empty(last_pick(cs, augment_numbers::<F, N>(2)))
    &&& a.choose_level == last_pick(cs, augment_flag::<F, N>(0)) is Some
    &&& a.dual_values == last_pick(cs, augment_flag::<F, N>(1)) is Some
    &&& a.enter_value == last_pick(cs, augment_flag::<F, N>(2)) is Some
    &&& a.suppress_set_bonus == last_pick(cs, augment_flag::<F, N>(3)) is Some
}

fn push_trimmed(v: &mut Vec<String>, t: String)
    ensures
        views(final(v)@) == views(old(v)@).push(trim(t@)),
{
    let ghost before = views(v@);
    v.push(trim_str(t.as_str()));
    assert(views(v@) =~= before.push(trim(t@)));
}

impl<F, N> Augment<F, N> {
    /// Fold an `<Augment>`'s children. Rejected when the name is missing or blank.
    pub fn from_children(children: Vec<AugmentChild<F, N>>) -> (r: Result<Augment<F, N>, AugmentError>)
        ensures
            r is Ok <==> or_empty(last_pick(children@, augment_text::<F, N>(0))).len() > 0,
            r matches Ok(a) ==> augment_folds(children@, a),
    {
        let mut a = Augment {
            name: String::new(),
            description: None,
            effect_descriptions: Vec::new(),
            min_level: None,
            slot_types: Vec::new(),
            icon: None,
            effects: Vec::new(),
            choose_level: false,
            levels: Vec::new(),
            level_values: Vec::new(),
            level_values2: Vec::new(),
            dual_values: false,
            enter_value: false,
            suppress_set_bonus: false,
            set_bonus: Vec::new(),
            add_augment: Vec::new(),
            grant_augment: None,
            grant_conditional_augment: None,
            weapon_class: None,
        };
        let mut cs = children;
        let ghost orig = cs@;
        let n = cs.len();
        let mut k: usize = 0;
        assert(orig.subrange(0, 0) =~= Seq::<AugmentChild<F, N>>::empty());
        assert(views(a.effect_descriptions@) =~= Seq::<Seq<char>>::empty());
        assert(views(a.slot_types@) =~= Seq::<Seq<char>>::empty());
        assert(views(a.set_bonus@) =~= Seq::<Seq<char>>::empty());
        assert(views(a.add_augment@) =~= Seq::<Seq<char>>::empty());
        assert(a.effects@ =~= Seq::<Effect<N>>::empty());
        assert(a.levels@ =~= Seq::<F>::empty());
        assert(a.level_values@ =~= Seq::<F>::empty());
        assert(a.level_values2@ =~= Seq::<F>::empty());
        assert(a.name@ =~= Seq::<char>::empty());
        while cs.len() > 0
            invariant
                k + cs@.len() == orig.len(),
                n == orig.len(),
                cs@ == orig.subrange(k as int, orig.len() as int),
                augment_folds(orig.subrange(0, k as int), a),
            decreases cs@.len(),
        {
            let child = cs.remove(0);
            let ghost pre = orig.subrange(0, k as int);
            assert(child == orig[k as int]);
            assert(orig.subrange(0, k + 1) =~= pre.push(child));
            proof {
                lemma_picks_push(pre, child, augment_text::<F, N>(0));
                lemma_picks_push(pre, child, augment_text::<F, N>(1));
                lemma_picks_push(pre, child, augment_text::<F, N>(2));
                lemma_picks_push(pre, child, augment_text::<F, N>(3));
                lemma_picks_push(pre, child, augment_text::<F, N>(4));
                lemma_picks_push(pre, child, augment_text::<F, N>(5));
                lemma_picks_push(pre, child, augment_text::<F, N>(6));
                lemma_picks_push(pre, child, augment_text::<F, N>(7));
                lemma_picks_push(pre, child, augment_text::<F, N>(8));
                lemma_picks_push(pre, child, augment_text::<F, N>(9));
                lemma_picks_push(pre, child, augment_numbers::<F, N>(0));
                lemma_picks_push(pre, child, augment_numbers::<F, N>(1));
                lemma_picks_push(pre, child, augment_numbers::<F, N>(2));
                lemma_picks_push(pre, child, augment_flag::<F, N>(0));
                lemma_picks_push(pre, child, augment_flag::<F, N>(1));
                lemma_picks_push(pre, child, augment_flag::<F, N>(2));
                lemma_picks_push(pre, child, augment_flag::<F, N>(3));
                lemma_picks_push(pre, child, augment_min_level::<F, N>());
                lemma_picks_push(pre, child, augment_effect::<F, N>());
            }
            match child {
                AugmentChild::Name(v) => a.name = trim_str(v.as_str()),
                AugmentChild::Description(v) => a.description = Some(trim_str(v.as_str())),
                AugmentChild::EffectDescription(v) => push_trimmed(&mut a.effect_descriptions, v),
                AugmentChild::MinLevel(v) => a.min_level = Some(v),
                AugmentChild::Type(v) => push_trimmed(&mut a.slot_types, v),
                AugmentChild::Icon(v) => a.icon = Some(trim_str(v.as_str())),
                AugmentChild::Effect(e) => a.effects.push(e),
                AugmentChild::ChooseLevel => a.choose_level = true,
                AugmentChild::Levels(v) => a.levels = v,
                AugmentChild::LevelValue(v) => a.level_values = v,
                AugmentChild::LevelValue2(v) => a.level_values2 = v,
                AugmentChild::DualValues => a.dual_values = true,
                AugmentChild::EnterValue => a.enter_value = true,
                AugmentChild::SuppressSetBonus => a.suppress_set_bonus = true,
                AugmentChild::SetBonus(v) => push_trimmed(&mut a.set_bonus, v),
                AugmentChild::AddAugment(v) => push_trimmed(&mut a.add_augment, v),
                AugmentChild::GrantAugment(v) => a.grant_augment = Some(trim_str(v.as_str())),
                AugmentChild::GrantConditionalAugment(v) => a.grant_conditional_augment = Some(trim_str(v.as_str())),
                AugmentChild::WeaponClass(v) => a.weapon_class = Some(trim_str(v.as_str())),
            }
            k += 1;
            assert(cs@ =~= orig.subrange(k as int, orig.len() as int));
        }
        assert(orig.subrange(0, orig.len() as int) =~= orig);
        if a.name.as_str().is_empty() {
            return Err(AugmentError::Unnamed);
        }
        Ok(a)
    }
}

} // verus!
