//! `Races/*.race.xml`: one `<Race>` per file, with its racial feats nested.
//!
//! `N` is the type of the numbers in the nested feats' effect vectors.

use vstd::prelude::*;
use crate::text::{
    chars_of, opt_string, owned, parse_i64, parse_i64_spec, slice_chars, string_of, trim, trim_chars, trim_str,
    views, words,
};
use crate::xml::classes::FeatSlot;
use crate::xml::feats::{or_empty, Feat};
use crate::xml::items::{lemma_all_picks_concat, lemma_picks_push};
use crate::xml::{all_picks, ints_of, last_pick, Vector};

verus! {

#[derive(Debug, Clone, PartialEq)]
pub struct Race<N> {
    pub name: String,
    pub short_name: Option<String>,
    pub description: Option<String>,
    pub starting_world: Option<String>,
    pub build_points: Vec<i64>,
    /// `(ability, modifier)` in document order, from `<Strength>+2</Strength>` and friends.
    pub ability_modifiers: Vec<(String, i64)>,
    pub granted_feats: Vec<String>,
    pub feats: Vec<Feat<N>>,
    pub iconic_class: Option<String>,
    pub feat_slots: Vec<FeatSlot>,
    pub is_construct: bool,
    pub no_past_life: bool,
    pub auto_buy_skills: Vec<String>,
    pub skill_points: Option<i64>,
}

/// Every element a `<Race>` may contain.
#[derive(Debug, Clone, PartialEq)]
pub enum RaceChild<N> {
    Name(String),
    ShortName(String),
    Description(String),
    StartingWorld(String),
    BuildPoints(Vector),
    Strength(String),
    Dexterity(String),
    Constitution(String),
    Intelligence(String),
    Wisdom(String),
    Charisma(String),
    GrantedFeat(String),
    Feat(Feat<N>),
    IconicClass(String),
    FeatSlot(FeatSlot),
    IsConstruct,
    NoPastLife,
    AutoBuySkill(String),
    SkillPoints(i64),
}

/// Why a `<Race>` was rejected.
#[derive(Debug, Clone, PartialEq, Eq)]
pub enum RaceError {
    /// `<BuildPoints>` holding a word that is not an integer.
    BadBuildPoints(String),
    /// An ability modifier that is not an integer: `(ability, text)`.
    BadModifier(String, String),
    /// A `<Race>` without a `<Name>`, or with a blank one.
    Unnamed,
}

/// `s` without its leading `+` signs.
pub open spec fn strip_pluses(s: Seq<char>) -> Seq<char>
    decreases s.len(),
{
    if s.len() > 0 && s[0] == '+' {
        strip_pluses(s.drop_first())
    } else {
        s
    }
}

/// A modifier as written (`+2`, `-2`): trimmed, leading `+` signs dropped, then an integer.
pub open spec fn signed_spec(v: Seq<char>) -> Option<i64> {
    match parse_i64_spec(strip_pluses(trim(v))) {
        Some(n) => Some(n as i64),
        None => None,
    }
}

/// A modifier's value.
pub fn signed(v: &str) -> (r: Option<i64>)
    ensures
        r == signed_spec(v@),
{
    let c = chars_of(v);
    let t = trim_chars(c.as_slice());
    let mut k: usize = 0;
    assert(t@.skip(0) =~= t@);
    while k < t.len() && t[k] == '+'
        invariant
            k <= t@.len(),
            strip_pluses(t@) == strip_pluses(t@.skip(k as int)),
        decreases t@.len() - k,
    {
        assert(t@.skip(k as int)[0] == t@[k as int]);
        assert(t@.skip(k as int).drop_first() =~= t@.skip(k + 1));
        k += 1;
    }
    proof {
        if k < t@.len() {
            assert(t@.skip(k as int)[0] == t@[k as int]);
        }
        assert(strip_pluses(t@.skip(k as int)) == t@.skip(k as int));
    }
    let rest = slice_chars(t.as_slice(), k, t.len());
    assert(rest@ =~= t@.skip(k as int));
    parse_i64(rest.as_slice())
}

/// The trimmed text of the text-valued children, by position: Name, ShortName, Description,
/// StartingWorld, GrantedFeat, IconicClass, AutoBuySkill.
pub open spec fn race_text<N>(slot: int) -> spec_fn(RaceChild<N>) -> Option<Seq<char>> {
    |c: RaceChild<N>| match c {
        RaceChild::Name(v) => if slot == 0 { Some(trim(v@)) } else { None },
        RaceChild::ShortName(v) => if slot == 1 { Some(trim(v@)) } else { None },
        RaceChild::Description(v) => if slot == 2 { Some(trim(v@)) } else { None },
        RaceChild::StartingWorld(v) => if slot == 3 { Some(trim(v@)) } else { None },
        RaceChild::GrantedFeat(v) => if slot == 4 { Some(trim(v@)) } else { None },
        RaceChild::IconicClass(v) => if slot == 5 { Some(trim(v@)) } else { None },
        RaceChild::AutoBuySkill(v) => if slot == 6 { Some(trim(v@)) } else { None },
        _ => None,
    }
}

/// An ability modifier child as `(ability, text)`.
pub open spec fn race_ability_text<N>(c: RaceChild<N>) -> Option<(Seq<char>, Seq<char>)> {
    match c {
        RaceChild::Strength(v) => Some(("Strength"@, v@)),
        RaceChild::Dexterity(v) => Some(("Dexterity"@, v@)),
        RaceChild::Constitution(v) => Some(("Constitution"@, v@)),
        RaceChild::Intelligence(v) => Some(("Intelligence"@, v@)),
        RaceChild::Wisdom(v) => Some(("Wisdom"@, v@)),
        RaceChild::Charisma(v) => Some(("Charisma"@, v@)),
        _ => None,
    }
}

/// The modifiers that read, as `(ability, value)`.
pub open spec fn race_modifier<N>() -> spec_fn(RaceChild<N>) -> Option<(Seq<char>, i64)> {
    |c: RaceChild<N>| match race_ability_text(c) {
        Some((a, v)) => match signed_spec(v) {
            Some(n) => Some((a, n)),
            None => None,
        },
        None => None,
    }
}

/// The children that do not read, as the error each gives: `(0, word, _)` for build points,
/// `(1, ability, text)` for a modifier.
pub open spec fn race_error<N>() -> spec_fn(RaceChild<N>) -> Option<(int, Seq<char>, Seq<char>)> {
    |c: RaceChild<N>| match c {
        RaceChild::BuildPoints(v) => match ints_of(words(v.text@)) {
            Err(w) => Some((0, w, Seq::empty())),
            Ok(_) => None,
        },
        _ => match race_ability_text(c) {
            Some((a, v)) => if signed_spec(v) is None {
                Some((1, a, v))
            } else {
                None
            },
            None => None,
        },
    }
}

/// The build points that read.
pub open spec fn race_build_points<N>() -> spec_fn(RaceChild<N>) -> Option<Seq<i64>> {
    |c: RaceChild<N>| match c {
        RaceChild::BuildPoints(v) => match ints_of(words(v.text@)) {
            Ok(p) => Some(p),
            Err(_) => None,
        },
        _ => None,
    }
}

pub open spec fn race_feat<N>() -> spec_fn(RaceChild<N>) -> Option<Feat<N>> {
    |c: RaceChild<N>| match c { RaceChild::Feat(v) => Some(v), _ => None }
}
pub open spec fn race_feat_slot<N>() -> spec_fn(RaceChild<N>) -> Option<FeatSlot> {
    |c: RaceChild<N>| match c { RaceChild::FeatSlot(v) => Some(v), _ => None }
}
pub open spec fn race_flag<N>(slot: int) -> spec_fn(RaceChild<N>) -> Option<()> {
    |c: RaceChild<N>| match c {
        RaceChild::IsConstruct => if slot == 0 { Some(()) } else { None },
        RaceChild::NoPastLife => if slot == 1 { Some(()) } else { None },
        _ => None,
    }
}
pub open spec fn race_skill_points<N>() -> spec_fn(RaceChild<N>) -> Option<i64> {
    |c: RaceChild<N>| match c { RaceChild::SkillPoints(v) => Some(v), _ => None }
}

pub open spec fn modifier_views(v: Seq<(String, i64)>) -> Seq<(Seq<char>, i64)> {
    v.map_values(|m: (String, i64)| (m.0@, m.1))
}

/// The race the children fold into (when none of them is an error): repeated children collect
/// in order, other children take the last element of their kind, text trimmed.
pub open spec fn race_folds<N>(cs: Seq<RaceChild<N>>, r: Race<N>) -> bool {
    &&& r.name@ == or_empty(last_pick(cs, race_text::<N>(0)))
    &&& opt_string(r.short_name) == last_pick(cs, race_text::<N>(1))
    &&& opt_string(r.description) == last_pick(cs, race_text::<N>(2))
    &&& opt_string(r.starting_world) == last_pick(cs, race_text::<N>(3))
    &&& r.build_points@ == match last_pick(cs, race_build_points::<N>()) {
        Some(p) => p,
        None => Seq::empty(),
    }
    &&& modifier_views(r.ability_modifiers@) == all_picks(cs, race_modifier::<N>())
    &&& views(r.granted_feats@) == all_picks(cs, race_text::<N>(4))
    &&& r.feats@ == all_picks(cs, race_feat::<N>())
    &&& opt_string(r.iconic_class) == last_pick(cs, race_text::<N>(5))
    &&& r.feat_slots@ == all_picks(cs, race_feat_slot::<N>())
    &&& r.is_construct == last_pick(cs, race_flag::<N>(0)) is Some
    &&& r.no_past_life == last_pick(cs, race_flag::<N>(1)) is Some
    &&& views(r.auto_buy_skills@) == all_picks(cs, race_text::<N>(6))
    &&& r.skill_points == last_pick(cs, race_skill_points::<N>())
}

/// The error model of a [`RaceError`] other than `Unnamed`.
pub open spec fn race_error_model(e: RaceError) -> (int, Seq<char>, Seq<char>) {
    match e {
        RaceError::BadBuildPoints(w) => (0, w@, Seq::empty()),
        RaceError::BadModifier(a, v) => (1, a@, v@),
        RaceError::Unnamed => (2, Seq::empty(), Seq::empty()),
    }
}

fn push_trimmed(v: &mut Vec<String>, t: String)
    ensures
        views(final(v)@) == views(old(v)@).push(trim(t@)),
{
    let ghost before = views(v@);
    v.push(trim_str(t.as_str()));
    assert(views(v@) =~= before.push(trim(t@)));
}

/// Record a modifier, or the error it gives.
fn push_modifier(mods: &mut Vec<(String, i64)>, ability: &str, v: String) -> (r: Result<(), RaceError>)
    ensures
        match signed_spec(v@) {
            Some(n) => r is Ok && modifier_views(final(mods)@) == modifier_views(old(mods)@).push((ability@, n)),
            None => r matches Err(e) && race_error_model(e) == (1int, ability@, v@),
        },
{
    match signed(v.as_str()) {
        Some(n) => {
            let ghost before = modifier_views(mods@);
            mods.push((owned(ability), n));
            assert(modifier_views(mods@) =~= before.push((ability@, n)));
            Ok(())
        },
        None => Err(RaceError::BadModifier(owned(ability), v)),
    }
}

impl<N> Race<N> {
    /// Fold a `<Race>`'s children. Rejected at the first child that does not read (build points
    /// or a modifier that is not an integer), then when the name is missing or blank.
    pub fn from_children(children: Vec<RaceChild<N>>) -> (r: Result<Race<N>, RaceError>)
        ensures
            all_picks(children@, race_error::<N>()).len() > 0 ==> (r matches Err(e) && race_error_model(e)
                == all_picks(children@, race_error::<N>())[0]),
            all_picks(children@, race_error::<N>()).len() == 0 ==> {
                &&& r is Ok <==> or_empty(last_pick(children@, race_text::<N>(0))).len() > 0
                &&& r matches Ok(race) ==> race_folds(children@, race)
                &&& r is Err ==> r == Err::<Race<N>, RaceError>(RaceError::Unnamed)
            },
    {
        let mut r = Race {
            name: String::new(),
            short_name: None,
            description: None,
            starting_world: None,
            build_points: Vec::new(),
            ability_modifiers: Vec::new(),
            granted_feats: Vec::new(),
            feats: Vec::new(),
            iconic_class: None,
            feat_slots: Vec::new(),
            is_construct: false,
            no_past_life: false,
            auto_buy_skills: Vec::new(),
            skill_points: None,
        };
        let mut cs = children;
        let ghost orig = cs@;
        let n = cs.len();
        let mut k: usize = 0;
        assert(orig.subrange(0, 0) =~= Seq::<RaceChild<N>>::empty());
        assert(views(r.granted_feats@) =~= Seq::<Seq<char>>::empty());
        assert(views(r.auto_buy_skills@) =~= Seq::<Seq<char>>::empty());
        assert(modifier_views(r.ability_modifiers@) =~= Seq::<(Seq<char>, i64)>::empty());
        assert(r.build_points@ =~= Seq::<i64>::empty());
        assert(r.feats@ =~= Seq::<Feat<N>>::empty());
        assert(r.feat_slots@ =~= Seq::<FeatSlot>::empty());
        assert(r.name@ =~= Seq::<char>::empty());
        while cs.len() > 0
            invariant
                k + cs@.len() == orig.len(),
                n == orig.len(),
                orig == children@,
                cs@ == orig.subrange(k as int, orig.len() as int),
                race_folds(orig.subrange(0, k as int), r),
                all_picks(orig.subrange(0, k as int), race_error::<N>()).len() == 0,
            decreases cs@.len(),
        {
            let child = cs.remove(0);
            let ghost pre = orig.subrange(0, k as int);
            assert(child == orig[k as int]);
            assert(orig.subrange(0, k + 1) =~= pre.push(child));
            proof {
                lemma_picks_push(pre, child, race_text::<N>(0));
                lemma_picks_push(pre, child, race_text::<N>(1));
                lemma_picks_push(pre, child, race_text::<N>(2));
                lemma_picks_push(pre, child, race_text::<N>(3));
                lemma_picks_push(pre, child, race_text::<N>(4));
                lemma_picks_push(pre, child, race_text::<N>(5));
                lemma_picks_push(pre, child, race_text::<N>(6));
                lemma_picks_push(pre, child, race_build_points::<N>());
                lemma_picks_push(pre, child, race_modifier::<N>());
                lemma_picks_push(pre, child, race_error::<N>());
                lemma_picks_push(pre, child, race_feat::<N>());
                lemma_picks_push(pre, child, race_feat_slot::<N>());
                lemma_picks_push(pre, child, race_flag::<N>(0));
                lemma_picks_push(pre, child, race_flag::<N>(1));
                lemma_picks_push(pre, child, race_skill_points::<N>());
                lemma_all_picks_concat(orig.subrange(0, k + 1), orig.subrange(k + 1, orig.len() as int), race_error::<N>());
                assert(orig.subrange(0, k + 1) + orig.subrange(k + 1, orig.len() as int) =~= orig);
            }
            let step = match child {
                RaceChild::Name(v) => { r.name = trim_str(v.as_str()); Ok(()) },
                RaceChild::ShortName(v) => { r.short_name = Some(trim_str(v.as_str())); Ok(()) },
                RaceChild::Description(v) => { r.description = Some(trim_str(v.as_str())); Ok(()) },
                RaceChild::StartingWorld(v) => { r.starting_world = Some(trim_str(v.as_str())); Ok(()) },
                RaceChild::BuildPoints(v) => match v.integers() {
                    Ok(p) => { r.build_points = p; Ok(()) },
                    Err(w) => Err(RaceError::BadBuildPoints(w)),
                },
                RaceChild::Strength(v) => push_modifier(&mut r.ability_modifiers, "Strength", v),
                RaceChild::Dexterity(v) => push_modifier(&mut r.ability_modifiers, "Dexterity", v),
                RaceChild::Constitution(v) => push_modifier(&mut r.ability_modifiers, "Constitution", v),
                RaceChild::Intelligence(v) => push_modifier(&mut r.ability_modifiers, "Intelligence", v),
                RaceChild::Wisdom(v) => push_modifier(&mut r.ability_modifiers, "Wisdom", v),
                RaceChild::Charisma(v) => push_modifier(&mut r.ability_modifiers, "Charisma", v),
                RaceChild::GrantedFeat(v) => { push_trimmed(&mut r.granted_feats, v); Ok(()) },
                RaceChild::Feat(v) => { r.feats.push(v); Ok(()) },
                RaceChild::IconicClass(v) => { r.iconic_class = Some(trim_str(v.as_str())); Ok(()) },
                RaceChild::FeatSlot(v) => { r.feat_slots.push(v); Ok(()) },
                RaceChild::IsConstruct => { r.is_construct = true; Ok(()) },
                RaceChild::NoPastLife => { r.no_past_life = true; Ok(()) },
                RaceChild::AutoBuySkill(v) => { push_trimmed(&mut r.auto_buy_skills, v); Ok(()) },
                RaceChild::SkillPoints(v) => { r.skill_points = Some(v); Ok(()) },
            };
            match step {
                Ok(()) => {},
                Err(e) => return Err(e),
            }
            k += 1;
            assert(cs@ =~= orig.subrange(k as int, orig.len() as int));
        }
        assert(orig.subrange(0, orig.len() as int) =~= orig);
        if r.name.as_str().is_empty() {
            return Err(RaceError::Unnamed);
        }
        Ok(r)
    }
}

} // verus!
