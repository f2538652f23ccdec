//! `Spells.xml`: every castable spell with its schools, metamagic flags, damage dice and DCs.
//!
//! `N` is the type of the numbers in the effects' vectors (see [`Effect`]).

use vstd::prelude::*;
use crate::text::{opt_string, owned, trim, trim_str, views};
use crate::xml::effect::Effect;
use crate::xml::feats::{or_empty, Stance};
use crate::xml::items::lemma_picks_push;
use crate::xml::{all_picks, last_pick, Empty, Vector};

verus! {

#[derive(Debug, Clone, Copy, PartialEq, Eq)]
pub struct DiceSpec {
    pub number: Option<i64>,
    pub sides: Option<i64>,
    pub bonus: Option<i64>,
}

#[derive(Debug, Clone, Copy, PartialEq, Eq, Default)]
pub struct SpellDice {
    pub base_dice: Option<DiceSpec>,
    pub per_caster_levels: Option<i64>,
    pub bonus_dice: Option<DiceSpec>,
}

#[derive(Debug, Clone, PartialEq, Eq, Default)]
pub struct SpellDamage {
    /// `<SpellDice>`; all parts absent when the element is.
    pub dice: SpellDice,
    pub damage: Option<String>,
    pub spell_power: Option<String>,
}

impl SpellDamage {
    /// The base dice, when the damage has them.
    pub fn base_dice(&self) -> (r: Option<&DiceSpec>)
        ensures
            match r {
                Some(d) => self.dice.base_dice == Some(*d),
                None => self.dice.base_dice is None,
            },
    {
        match &self.dice.base_dice {
            Some(d) => Some(d),
            None => None,
        }
    }
}

#[derive(Debug, Clone, PartialEq, Eq)]
pub struct SpellDc {
    pub dc_type: Option<String>,
    pub dc_versus: Option<String>,
    pub schools: Vec<String>,
    pub casting_stat_mod_flag: Option<Empty>,
    pub amount: Option<Vector>,
    pub mod_abilities: Vec<String>,
}

impl SpellDc {
    /// Whether the DC adds the caster's casting stat modifier (`<CastingStatMod/>`).
    pub fn casting_stat_mod(&self) -> (r: bool)
        ensures
            r == self.casting_stat_mod_flag is Some,
    {
        self.casting_stat_mod_flag.is_some()
    }
}

#[derive(Debug, Clone, PartialEq)]
pub struct Spell<N> {
    pub name: String,
    pub description: Option<String>,
    pub icon: Option<String>,
    pub schools: Vec<String>,
    pub max_caster_level: Option<i64>,
    pub cost: Option<i64>,
    /// Metamagic flag elements present: Quicken, Enlarge, Maximize, Empower, Embolden, Intensify,
    /// Heighten, Extend, Accelerate, EmpowerHealing, Primer.
    pub metamagics: Vec<String>,
    pub effects: Vec<Effect<N>>,
    pub stances: Vec<Stance>,
    pub damage: Vec<SpellDamage>,
    pub dcs: Vec<SpellDc>,
}

/// Every element a `<Spell>` may contain.
#[derive(Debug, Clone, PartialEq)]
pub enum SpellChild<N> {
    Name(String),
    Description(String),
    Icon(String),
    School(String),
    MaxCasterLevel(i64),
    Cost(i64),
    Quicken,
    Enlarge,
    Maximize,
    Empower,
    Embolden,
    Intensify,
    Heighten,
    Extend,
    Accelerate,
    EmpowerHealing,
    Primer,
    Effect(Effect<N>),
    Stance(Stance),
    SpellDamage(SpellDamage),
    SpellDc(SpellDc),
}

/// Why a `<Spell>` was rejected.
#[derive(Debug, Clone, PartialEq, Eq)]
pub enum SpellError {
    /// A `<Spell>` without a `<Name>`, or with a blank one.
    Unnamed,
}

/// The trimmed text of the text-valued children, by position: Name, Description, Icon, School.
pub open spec fn spell_text<N>(slot: int) -> spec_fn(SpellChild<N>) -> Option<Seq<char>> {
    |c: SpellChild<N>| match c {
        SpellChild::Name(v) => if slot == 0 { Some(trim(v@)) } else { None },
        SpellChild::Description(v) => if slot == 1 { Some(trim(v@)) } else { None },
        SpellChild::Icon(v) => if slot == 2 { Some(trim(v@)) } else { None },
        SpellChild::School(v) => if slot == 3 { Some(trim(v@)) } else { None },
        _ => None,
    }
}

/// A metamagic flag as the name of its element.
pub open spec fn spell_metamagic<N>() -> spec_fn(SpellChild<N>) -> Option<Seq<char>> {
    |c: SpellChild<N>| match c {
        SpellChild::Quicken => Some("Quicken"@),
        SpellChild::Enlarge => Some("Enlarge"@),
        SpellChild::Maximize => Some("Maximize"@),
        SpellChild::Empower => Some("Empower"@),
        SpellChild::Embolden => Some("Embolden"@),
        SpellChild::Intensify => Some("Intensify"@),
        SpellChild::Heighten => Some("Heighten"@),
        SpellChild::Extend => Some("Extend"@),
        SpellChild::Accelerate => Some("Accelerate"@),
        SpellChild::EmpowerHealing => Some("EmpowerHealing"@),
        SpellChild::Primer => Some("Primer"@),
        _ => None,
    }
}

pub open spec fn spell_max_caster_level<N>() -> spec_fn(SpellChild<N>) -> Option<i64> {
    |c: SpellChild<N>| match c { SpellChild::MaxCasterLevel(v) => Some(v), _ => None }
}
pub open spec fn spell_cost<N>() -> spec_fn(SpellChild<N>) -> Option<i64> {
    |c: SpellChild<N>| match c { SpellChild::Cost(v) => Some(v), _ => None }
}
pub open spec fn spell_effect<N>() -> spec_fn(SpellChild<N>) -> Option<Effect<N>> {
    |c: SpellChild<N>| match c { SpellChild::Effect(v) => Some(v), _ => None }
}
pub open spec fn spell_stance<N>() -> spec_fn(SpellChild<N>) -> Option<Stance> {
    |c: SpellChild<N>| match c { SpellChild::Stance(v) => Some(v), _ => None }
}
pub open spec fn spell_damage<N>() -> spec_fn(SpellChild<N>) -> Option<SpellDamage> {
    |c: SpellChild<N>| match c { SpellChild::SpellDamage(v) => Some(v), _ => None }
}
pub open spec fn spell_dc<N>() -> spec_fn(SpellChild<N>) -> Option<SpellDc> {
    |c: SpellChild<N>| match c { SpellChild::SpellDc(v) => Some(v), _ => None }
}

/// The spell the children fold into: schools, metamagic flags, effects, stances, damage and DCs
/// collect in order; other children take the last element of their kind; text trimmed.
pub open spec fn spell_folds<N>(cs: Seq<SpellChild<N>>, s: Spell<N>) -> bool {
    &&& s.name@ == or_empty(last_pick(cs, spell_text::<N>(0)))
    &&& opt_string(s.description) == last_pick(cs, spell_text::<N>(1))
    &&& opt_string(s.icon) == last_pick(cs, spell_text::<N>(2))
    &&& views(s.schools@) == all_picks(cs, spell_text::<N>(3))
    &&& s.max_caster_level == last_pick(cs, spell_max_caster_level::<N>())
    &&& s.cost == last_pick(cs, spell_cost::<N>())
    &&& views(s.metamagics@) == all_picks(cs, spell_metamagic::<N>())
    &&& s.effects@ == all_picks(cs, spell_effect::<N>())
    &&& s.stances@ == all_picks(cs, spell_stance::<N>())
    &&& s.damage@ == all_picks(cs, spell_damage::<N>())
    &&& s.dcs@ == all_picks(cs, spell_dc::<N>())
}

fn push_name(v: &mut Vec<String>, name: &str)
    ensures
        views(final(v)@) == views(old(v)@).push(name@),
{
    let ghost before = views(v@);
    v.push(owned(name));
    assert(views(v@) =~= before.push(name@));
}

fn push_trimmed(v: &mut Vec<String>, t: String)
    ensures
        views(final(v)@) == views(old(v)@).push(trim(t@)),
{
    let ghost before = views(v@);
    v.push(trim_str(t.as_str()));
    assert(views(v@) =~= before.push(trim(t@)));
}

impl<N> Spell<N> {
    /// Fold a `<Spell>`'s children. Rejected when the name is missing or blank.
    pub fn from_children(children: Vec<SpellChild<N>>) -> (r: Result<Spell<N>, SpellError>)
        ensures
            r is Ok <==> or_empty(last_pick(children@, spell_text::<N>(0))).len() > 0,
            r matches Ok(s) ==> spell_folds(children@, s),
    {
        let mut s = Spell {
            name: String::new(),
            description: None,
            icon: None,
            schools: Vec::new(),
            max_caster_level: None,
            cost: None,
            metamagics: Vec::new(),
            effects: Vec::new(),
            stances: Vec::new(),
            damage: Vec::new(),
            dcs: Vec::new(),
        };
        let mut cs = children;
        let ghost orig = cs@;
        let n = cs.len();
        let mut k: usize = 0;
        assert(orig.subrange(0, 0) =~= Seq::<SpellChild<N>>::empty());
        assert(views(s.schools@) =~= Seq::<Seq<char>>::empty());
        assert(views(s.metamagics@) =~= Seq::<Seq<char>>::empty());
        assert(s.effects@ =~= Seq::<Effect<N>>::empty());
        assert(s.stances@ =~= Seq::<Stance>::empty());
        assert(s.damage@ =~= Seq::<SpellDamage>::empty());
        assert(s.dcs@ =~= Seq::<SpellDc>::empty());
        assert(s.name@ =~= Seq::<char>::empty());
        while cs.len() > 0
            invariant
                k + cs@.len() == orig.len(),
                n == orig.len(),
                cs@ == orig.subrange(k as int, orig.len() as int),
                spell_folds(orig.subrange(0, k as int), s),
            decreases cs@.len(),
        {
            let child = cs.remove(0);
            let ghost pre = orig.subrange(0, k as int);
            assert(child == orig[k as int]);
            assert(orig.subrange(0, k + 1) =~= pre.push(child));
            proof {
                lemma_picks_push(pre, child, spell_text::<N>(0));
                lemma_picks_push(pre, child, spell_text::<N>(1));
                lemma_picks_push(pre, child, spell_text::<N>(2));
                lemma_picks_push(pre, child, spell_text::<N>(3));
                lemma_picks_push(pre, child, spell_metamagic::<N>());
                lemma_picks_push(pre, child, spell_max_caster_level::<N>());
                lemma_picks_push(pre, child, spell_cost::<N>());
                lemma_picks_push(pre, child, spell_effect::<N>());
                lemma_picks_push(pre, child, spell_stance::<N>());
                lemma_picks_push(pre, child, spell_damage::<N>());
                lemma_picks_push(pre, child, spell_dc::<N>());
            }
            match child {
                SpellChild::Name(v) => s.name = trim_str(v.as_str()),
                SpellChild::Description(v) => s.description = Some(trim_str(v.as_str())),
                SpellChild::Icon(v) => s.icon = Some(trim_str(v.as_str())),
                SpellChild::School(v) => push_trimmed(&mut s.schools, v),
                SpellChild::MaxCasterLevel(v) => s.max_caster_level = Some(v),
                SpellChild::Cost(v) => s.cost = Some(v),
                SpellChild::Quicken => push_name(&mut s.metamagics, "Quicken"),
                SpellChild::Enlarge => push_name(&mut s.metamagics, "Enlarge"),
                SpellChild::Maximize => push_name(&mut s.metamagics, "Maximize"),
                SpellChild::Empower => push_name(&mut s.metamagics, "Empower"),
                SpellChild::Embolden => push_name(&mut s.metamagics, "Embolden"),
                SpellChild::Intensify => push_name(&mut s.metamagics, "Intensify"),
                SpellChild::Heighten => push_name(&mut s.metamagics, "Heighten"),
                SpellChild::Extend => push_name(&mut s.metamagics, "Extend"),
                SpellChild::Accelerate => push_name(&mut s.metamagics, "Accelerate"),
                SpellChild::EmpowerHealing => push_name(&mut s.metamagics, "EmpowerHealing"),
                SpellChild::Primer => push_name(&mut s.metamagics, "Primer"),
                SpellChild::Effect(v) => s.effects.push(v),
                SpellChild::Stance(v) => s.stances.push(v),
                SpellChild::SpellDamage(v) => s.damage.push(v),
                SpellChild::SpellDc(v) => s.dcs.push(v),
            }
            k += 1;
            assert(cs@ =~= orig.subrange(k as int, orig.len() as int));
        }
        assert(orig.subrange(0, orig.len() as int) =~= orig);
        if s.name.as_str().is_empty() {
            return Err(SpellError::Unnamed);
        }
        Ok(s)
    }
}

} // verus!
