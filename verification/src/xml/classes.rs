//! `Classes/*.class.xml`: one `<Class>` per file with its class feats, spell list, spell slots
//! per level, feat slots and automatic feats nested.
//!
//! `F` is the type of the fractional numbers of `<SpellPointsPerLevel>` and `<BAB>`, which the
//! reader parses; `N` that of the nested feats' effect vectors.

use vstd::prelude::*;
use crate::text::{opt_string, string_of, trim, trim_str, views, words};
use crate::xml::feats::{or_empty, Feat};
use crate::xml::items::lemma_picks_push;
use crate::xml::{all_picks, ints_of, last_pick, Empty, Vector};

verus! {

#[derive(Debug, Clone, PartialEq, Eq)]
pub struct ClassSpell {
    pub name: String,
    pub level: i64,
    pub cost: Option<i64>,
    pub max_caster_level: Option<i64>,
}

/// A feat slot a class or race grants at a level.
#[derive(Debug, Clone, PartialEq, Eq)]
pub struct FeatSlot {
    pub level: i64,
    pub feat_type: String,
    pub auto_populate: Option<Empty>,
    pub singular: Option<Empty>,
    pub update_list: Vec<String>,
}

#[derive(Debug, Clone, PartialEq, Eq)]
pub struct AutomaticFeats {
    pub level: i64,
    pub feats: Vec<String>,
}

#[derive(Debug, Clone, PartialEq)]
pub struct Class<F, N> {
    pub name: String,
    pub base_class: Option<String>,
    pub not_heroic: bool,
    pub description: Option<String>,
    pub small_icon: Option<String>,
    pub large_icon: Option<String>,
    pub skill_points: Option<i64>,
    pub hit_points: Option<i64>,
    pub alignments: Vec<String>,
    pub fortitude: Option<String>,
    pub reflex: Option<String>,
    pub will: Option<String>,
    pub spell_points_per_level: Vec<F>,
    pub bab: Vec<F>,
    pub casting_stats: Vec<String>,
    pub class_specific_feat_types: Vec<String>,
    pub class_skills: Vec<String>,
    pub auto_buy_skills: Vec<String>,
    /// Class level → slots per spell level (index 0 = spell level 1), by ascending class level.
    pub spell_slots: Vec<(u8, Vec<i64>)>,
    pub class_spells: Vec<ClassSpell>,
    pub feat_slots: Vec<FeatSlot>,
    pub automatic_feats: Vec<AutomaticFeats>,
    pub feats: Vec<Feat<N>>,
}

/// Every element a `<Class>` may contain. `<Level1>` to `<Level20>` are `Level` with their
/// number.
#[derive(Debug, Clone, PartialEq)]
pub enum ClassChild<F, N> {
    Name(String),
    BaseClass(String),
    NotHeroic,
    Description(String),
    SmallIcon(String),
    LargeIcon(String),
    SkillPoints(i64),
    HitPoints(i64),
    Alignment(String),
    Fortitude(String),
    Reflex(String),
    Will(String),
    SpellPointsPerLevel(Vec<F>),
    Bab(Vec<F>),
    CastingStat(String),
    ClassSpecificFeatType(String),
    ClassSkill(String),
    AutoBuySkill(String),
    Level(u8, Vector),
    ClassSpell(ClassSpell),
    FeatSlot(FeatSlot),
    AutomaticFeats(AutomaticFeats),
    Feat(Feat<N>),
}

/// Why a `<Class>` was rejected.
#[derive(Debug, Clone, PartialEq, Eq)]
pub enum ClassError {
    /// A `<LevelN>` list holding a word that is not an integer.
    BadSlots { level: u8, word: String },
    /// A `<Class>` without a `<Name>`, or with a blank one.
    Unnamed,
}

/// The trimmed text of the text-valued children, by position: Name, BaseClass, Description,
/// SmallIcon, LargeIcon, Alignment, Fortitude, Reflex, Will, CastingStat, ClassSpecificFeatType,
/// ClassSkill, AutoBuySkill.
pub open spec fn class_text<F, N>(slot: int) -> spec_fn(ClassChild<F, N>) -> Option<Seq<char>> {
    |c: ClassChild<F, N>| match c {
        ClassChild::Name(v) => if slot == 0 { Some(trim(v@)) } else { None },
        ClassChild::BaseClass(v) => if slot == 1 { Some(trim(v@)) } else { None },
        ClassChild::Description(v) => if slot == 2 { Some(trim(v@)) } else { None },
        ClassChild::SmallIcon(v) => if slot == 3 { Some(trim(v@)) } else { None },
        ClassChild::LargeIcon(v) => if slot == 4 { Some(trim(v@)) } else { None },
        ClassChild::Alignment(v) => if slot == 5 { Some(trim(v@)) } else { None },
        ClassChild::Fortitude(v) => if slot == 6 { Some(trim(v@)) } else { None },
        ClassChild::Reflex(v) => if slot == 7 { Some(trim(v@)) } else { None },
        ClassChild::Will(v) => if slot == 8 { Some(trim(v@)) } else { None },
        ClassChild::CastingStat(v) => if slot == 9 { Some(trim(v@)) } else { None },
        ClassChild::ClassSpecificFeatType(v) => if slot == 10 { Some(trim(v@)) } else { None },
        ClassChild::ClassSkill(v) => if slot == 11 { Some(trim(v@)) } else { None },
        ClassChild::AutoBuySkill(v) => if slot == 12 { Some(trim(v@)) } else { None },
        _ => None,
    }
}

/// The integer-valued children, by position: SkillPoints, HitPoints.
pub open spec fn class_int<F, N>(slot: int) -> spec_fn(ClassChild<F, N>) -> Option<i64> {
    |c: ClassChild<F, N>| match c {
        ClassChild::SkillPoints(v) => if slot == 0 { Some(v) } else { None },
        ClassChild::HitPoints(v) => if slot == 1 { Some(v) } else { None },
        _ => None,
    }
}

/// The fractional vectors, by position: SpellPointsPerLevel, BAB.
pub open spec fn class_numbers<F, N>(slot: int) -> spec_fn(ClassChild<F, N>) -> Option<Vec<F>> {
    |c: ClassChild<F, N>| match c {
        ClassChild::SpellPointsPerLevel(v) => if slot == 0 { Some(v) } else { None },
        ClassChild::Bab(v) => if slot == 1 { Some(v) } else { None },
        _ => None,
    }
}

pub open spec fn class_not_heroic<F, N>() -> spec_fn(ClassChild<F, N>) -> Option<()> {
    |c: ClassChild<F, N>| match c { ClassChild::NotHeroic => Some(()), _ => None }
}
pub open spec fn class_spell<F, N>() -> spec_fn(ClassChild<F, N>) -> Option<ClassSpell> {
    |c: ClassChild<F, N>| match c { ClassChild::ClassSpell(v) => Some(v), _ => None }
}
pub open spec fn class_feat_slot<F, N>() -> spec_fn(ClassChild<F, N>) -> Option<FeatSlot> {
    |c: ClassChild<F, N>| match c { ClassChild::FeatSlot(v) => Some(v), _ => None }
}
pub open spec fn class_automatic<F, N>() -> spec_fn(ClassChild<F, N>) -> Option<AutomaticFeats> {
    |c: ClassChild<F, N>| match c { ClassChild::AutomaticFeats(v) => Some(v), _ => None }
}
pub open spec fn class_feat<F, N>() -> spec_fn(ClassChild<F, N>) -> Option<Feat<N>> {
    |c: ClassChild<F, N>| match c { ClassChild::Feat(v) => Some(v), _ => None }
}

/// The slot lists, read, of every `<LevelN>`, with their level.
pub open spec fn class_slots<F, N>() -> spec_fn(ClassChild<F, N>) -> Option<(u8, Result<Seq<i64>, Seq<char>>)> {
    |c: ClassChild<F, N>| match c { ClassChild::Level(l, v) => Some((l, ints_of(words(v.text@)))), _ => None }
}

/// The slot list of `<LevelN>` for level `l`.
pub open spec fn class_level<F, N>(l: u8) -> spec_fn(ClassChild<F, N>) -> Option<Seq<i64>> {
    |c: ClassChild<F, N>| match c {
        ClassChild::Level(n, v) => if n == l {
            match ints_of(words(v.text@)) {
                Ok(s) => Some(s),
                Err(_) => None,
            }
        } else {
            None
        },
        _ => None,
    }
}

/// The first `<LevelN>` whose list does not read, as its level and offending word.
pub open spec fn first_bad_slots(ls: Seq<(u8, Result<Seq<i64>, Seq<char>>)>) -> Option<(u8, Seq<char>)>
    decreases ls.len(),
{
    if ls.len() == 0 {
        None
    } else {
        match first_bad_slots(ls.drop_last()) {
            Some(e) => Some(e),
            None => match ls.last().1 {
                Err(w) => Some((ls.last().0, w)),
                Ok(_) => None,
            },
        }
    }
}

/// The spell slots as a map from class level: each level once, ascending, each with the list of
/// the last `<LevelN>` of that level.
pub open spec fn slots_fold<F, N>(cs: Seq<ClassChild<F, N>>, s: Seq<(u8, Vec<i64>)>) -> bool {
    &&& forall|i: int, j: int| 0 <= i < j < s.len() ==> (#[trigger] s[i]).0 < (#[trigger] s[j]).0
    &&& forall|i: int| 0 <= i < s.len() ==> last_pick(cs, class_level::<F, N>((#[trigger] s[i]).0)) == Some(s[i].1@)
    &&& forall|l: u8| #[trigger] last_pick(cs, class_level::<F, N>(l)) is Some ==> exists|i: int|
        0 <= i < s.len() && s[i].0 == l
}

/// The class the children fold into: repeated children collect in order, other children take the
/// last element of their kind, text trimmed, `NotHeroic` set by presence.
pub open spec fn class_folds<F, N>(cs: Seq<ClassChild<F, N>>, c: Class<F, N>) -> bool {
    &&& c.name@ == or_empty(last_pick(cs, class_text::<F, N>(0)))
    &&& opt_string(c.base_class) == last_pick(cs, class_text::<F, N>(1))
    &&& opt_string(c.description) == last_pick(cs, class_text::<F, N>(2))
    &&& opt_string(c.small_icon) == last_pick(cs, class_text::<F, N>(3))
    &&& opt_string(c.large_icon) == last_pick(cs, class_text::<F, N>(4))
    &&& views(c.alignments@) == all_picks(cs, class_text::<F, N>(5))
    &&& opt_string(c.fortitude) == last_pick(cs, class_text::<F, N>(6))
    &&& opt_string(c.reflex) == last_pick(cs, class_text::<F, N>(7))
    &&& opt_string(c.will) == last_pick(cs, class_text::<F, N>(8))
    &&& views(c.casting_stats@) == all_picks(cs, class_text::<F, N>(9))
    &&& views(c.class_specific_feat_types@) == all_picks(cs, class_text::<F, N>(10))
    &&& views(c.class_skills@) == all_picks(cs, class_text::<F, N>(11))
    &&& views(c.auto_buy_skills@) == all_picks(cs, class_text::<F, N>(12))
    &&& c.skill_points == last_pick(cs, class_int::<F, N>(0))
    &&& c.hit_points == last_pick(cs, class_int::<F, N>(1))
    &&& c.spell_points_per_level@ == match last_pick(cs, class_numbers::<F, N>(0)) {
        Some(v) => v@,
        None => Seq::empty(),
    }
    &&& c.bab@ == match last_pick(cs, class_numbers::<F, N>(1)) {
        Some(v) => v@,
        None => Seq::empty(),
    }
    &&& c.not_heroic == last_pick(cs, class_not_heroic::<F, N>()) is Some
    &&& slots_fold(cs, c.spell_slots@)
    &&& c.class_spells@ == all_picks(cs, class_spell::<F, N>())
    &&& c.feat_slots@ == all_picks(cs, class_feat_slot::<F, N>())
    &&& c.automatic_feats@ == all_picks(cs, class_automatic::<F, N>())
    &&& c.feats@ == all_picks(cs, class_feat::<F, N>())
}

fn push_trimmed(v: &mut Vec<String>, t: String)
    ensures
        views(final(v)@) == views(old(v)@).push(trim(t@)),
{
    let ghost before = views(v@);
    v.push(trim_str(t.as_str()));
    assert(views(v@) =~= before.push(trim(t@)));
}

/// Set level `l`'s slots, keeping the list sorted by level.
fn set_slots<F, N>(
    slots: &mut Vec<(u8, Vec<i64>)>,
    l: u8,
    v: Vec<i64>,
    Ghost(pre): Ghost<Seq<ClassChild<F, N>>>,
    Ghost(child): Ghost<ClassChild<F, N>>,
)
    requires
        slots_fold(pre, old(slots)@),
        class_level::<F, N>(l)(child) == Some(v@),
        forall|m: u8| m != l ==> (#[trigger] class_level::<F, N>(m))(child) is None,
    ensures
        slots_fold(pre.push(child), final(slots)@),
{
    let ghost s = slots@;
    let ghost cs = pre.push(child);
    proof {
        assert forall|m: u8| true implies #[trigger] last_pick(cs, class_level::<F, N>(m)) == match class_level::<
            F,
            N,
        >(m)(child) {
            Some(r) => Some(r),
            None => last_pick(pre, class_level::<F, N>(m)),
        } by {
            lemma_picks_push(pre, child, class_level::<F, N>(m));
        }
    }
    let mut p: usize = 0;
    while p < slots.len() && slots[p].0 < l
        invariant
            s == slots@,
            p <= s.len(),
            forall|i: int| 0 <= i < p ==> (#[trigger] s[i]).0 < l,
        decreases s.len() - p,
    {
        p += 1;
    }
    if p < slots.len() && slots[p].0 == l {
        slots.set(p, (l, v));
        let ghost t = slots@;
        assert forall|i: int| 0 <= i < t.len() implies last_pick(cs, class_level::<F, N>((#[trigger] t[i]).0))
            == Some(t[i].1@) by {
            if i != p {
                assert(t[i] == s[i]);
                assert(s[i].0 != l);
            }
        }
        assert forall|m: u8| #[trigger] last_pick(cs, class_level::<F, N>(m)) is Some implies exists|i: int|
            0 <= i < t.len() && t[i].0 == m by {
            if m == l {
                assert(t[p as int].0 == m);
            } else {
                let i = choose|i: int| 0 <= i < s.len() && s[i].0 == m;
                assert(t[i].0 == m);
            }
        }
    } else {
        slots.insert(p, (l, v));
        let ghost t = slots@;
        assert forall|i: int, j: int| 0 <= i < j < t.len() implies (#[trigger] t[i]).0 < (#[trigger] t[j]).0 by {
            if j < p {
                assert(t[i] == s[i] && t[j] == s[j]);
            } else if j == p {
                assert(t[i] == s[i]);
            } else if i < p {
                assert(t[i] == s[i] && t[j] == s[j - 1]);
                assert(s[p as int].0 > l);
            } else if i == p {
                assert(t[j] == s[j - 1]);
                if j - 1 > p {
                    assert(s[p as int].0 < s[j - 1].0);
                }
            } else {
                assert(t[i] == s[i - 1] && t[j] == s[j - 1]);
            }
        }
        assert forall|i: int| 0 <= i < t.len() implies last_pick(cs, class_level::<F, N>((#[trigger] t[i]).0))
            == Some(t[i].1@) by {
            if i < p {
                assert(t[i] == s[i]);
                assert(s[i].0 != l);
            } else if i > p {
                assert(t[i] == s[i - 1]);
                assert(s[p as int].0 > l);
                if i - 1 > p {
                    assert(s[p as int].0 < s[i - 1].0);
                }
                assert(s[i - 1].0 != l);
            }
        }
        assert forall|m: u8| #[trigger] last_pick(cs, class_level::<F, N>(m)) is Some implies exists|i: int|
            0 <= i < t.len() && t[i].0 == m by {
            if m == l {
                assert(t[p as int].0 == m);
            } else {
                let i = choose|i: int| 0 <= i < s.len() && s[i].0 == m;
                if i < p {
                    assert(t[i].0 == m);
                } else {
                    assert(t[i + 1].0 == m);
                }
            }
        }
    }
}

impl<F, N> Class<F, N> {
    /// Fold a `<Class>`'s children. Rejected at the first `<LevelN>` whose list does not read,
    /// then when the name is missing or blank.
    pub fn from_children(children: Vec<ClassChild<F, N>>) -> (r: Result<Class<F, N>, ClassError>)
        ensures
            match first_bad_slots(all_picks(children@, class_slots::<F, N>())) {
                Some((l, w)) => r matches Err(ClassError::BadSlots { level, word }) && level == l && word@ == w,
                None => {
                    &&& r is Ok <==> or_empty(last_pick(children@, class_text::<F, N>(0))).len() > 0
                    &&& r matches Ok(c) ==> class_folds(children@, c)
                    &&& r is Err ==> r == Err::<Class<F, N>, ClassError>(ClassError::Unnamed)
                },
            },
    {
        let mut c = Class {
            name: String::new(),
            base_class: None,
            not_heroic: false,
            description: None,
            small_icon: None,
            large_icon: None,
            skill_points: None,
            hit_points: None,
            alignments: Vec::new(),
            fortitude: None,
            reflex: None,
            will: None,
            spell_points_per_level: Vec::new(),
            bab: Vec::new(),
            casting_stats: Vec::new(),
            class_specific_feat_types: Vec::new(),
            class_skills: Vec::new(),
            auto_buy_skills: Vec::new(),
            spell_slots: Vec::new(),
            class_spells: Vec::new(),
            feat_slots: Vec::new(),
            automatic_feats: Vec::new(),
            feats: Vec::new(),
        };
        let mut cs = children;
        let ghost orig = cs@;
        let n = cs.len();
        let mut k: usize = 0;
        assert(orig.subrange(0, 0) =~= Seq::<ClassChild<F, N>>::empty());
        assert(views(c.alignments@) =~= Seq::<Seq<char>>::empty());
        assert(views(c.casting_stats@) =~= Seq::<Seq<char>>::empty());
        assert(views(c.class_specific_feat_types@) =~= Seq::<Seq<char>>::empty());
        assert(views(c.class_skills@) =~= Seq::<Seq<char>>::empty());
        assert(views(c.auto_buy_skills@) =~= Seq::<Seq<char>>::empty());
        assert(c.spell_points_per_level@ =~= Seq::<F>::empty());
        assert(c.bab@ =~= Seq::<F>::empty());
        assert(c.class_spells@ =~= Seq::<ClassSpell>::empty());
        assert(c.feat_slots@ =~= Seq::<FeatSlot>::empty());
        assert(c.automatic_feats@ =~= Seq::<AutomaticFeats>::empty());
        assert(c.feats@ =~= Seq::<Feat<N>>::empty());
        assert(c.name@ =~= Seq::<char>::empty());
        while cs.len() > 0
            invariant
                k + cs@.len() == orig.len(),
                n == orig.len(),
                orig == children@,
                cs@ == orig.subrange(k as int, orig.len() as int),
                class_folds(orig.subrange(0, k as int), c),
                first_bad_slots(all_picks(orig.subrange(0, k as int), class_slots::<F, N>())) is None,
            decreases cs@.len(),
        {
            let child = cs.remove(0);
            let ghost pre = orig.subrange(0, k as int);
            assert(child == orig[k as int]);
            assert(orig.subrange(0, k + 1) =~= pre.push(child));
            proof {
                lemma_picks_push(pre, child, class_text::<F, N>(0));
                lemma_picks_push(pre, child, class_text::<F, N>(1));
                lemma_picks_push(pre, child, class_text::<F, N>(2));
                lemma_picks_push(pre, child, class_text::<F, N>(3));
                lemma_picks_push(pre, child, class_text::<F, N>(4));
                lemma_picks_push(pre, child, class_text::<F, N>(5));
                lemma_picks_push(pre, child, class_text::<F, N>(6));
                lemma_picks_push(pre, child, class_text::<F, N>(7));
                lemma_picks_push(pre, child, class_text::<F, N>(8));
                lemma_picks_push(pre, child, class_text::<F, N>(9));
                lemma_picks_push(pre, child, class_text::<F, N>(10));
                lemma_picks_push(pre, child, class_text::<F, N>(11));
                lemma_picks_push(pre, child, class_text::<F, N>(12));
                lemma_picks_push(pre, child, class_int::<F, N>(0));
                lemma_picks_push(pre, child, class_int::<F, N>(1));
                lemma_picks_push(pre, child, class_numbers::<F, N>(0));
                lemma_picks_push(pre, child, class_numbers::<F, N>(1));
                lemma_picks_push(pre, child, class_not_heroic::<F, N>());
                lemma_picks_push(pre, child, class_spell::<F, N>());
                lemma_picks_push(pre, child, class_feat_slot::<F, N>());
                lemma_picks_push(pre, child, class_automatic::<F, N>());
                lemma_picks_push(pre, child, class_feat::<F, N>());
                lemma_picks_push(pre, child, class_slots::<F, N>());
            }
            let ghost ls = all_picks(pre.push(child), class_slots::<F, N>());
            match child {
                ClassChild::Level(l, v) => {
                    match v.integers() {
                        Ok(ints) => {
                            assert(ls.drop_last() =~= all_picks(pre, class_slots::<F, N>()));
                            assert forall|m: u8| m != l implies (#[trigger] class_level::<F, N>(m))(child) is None by {}
                            set_slots::<F, N>(&mut c.spell_slots, l, ints, Ghost(pre), Ghost(child));
                            proof {
                                assert forall|m: u8| true implies #[trigger] last_pick(pre.push(child), class_level::<F, N>(m)) == match class_level::<
                                    F,
                                    N,
                                >(m)(child) {
                                    Some(r) => Some(r),
                                    None => last_pick(pre, class_level::<F, N>(m)),
                                } by {
                                    lemma_picks_push(pre, child, class_level::<F, N>(m));
                                }
                            }
                        },
                        Err(w) => {
                            proof {
                                assert(ls.drop_last() =~= all_picks(pre, class_slots::<F, N>()));
                                assert(first_bad_slots(ls) == Some((l, w@)));
                                assert(all_picks(orig.subrange(0, k + 1), class_slots::<F, N>()) == ls);
                                lemma_first_bad_in_prefix(orig, k as int + 1);
                            }
                            return Err(ClassError::BadSlots { level: l, word: w });
                        },
                    }
                },
                _ => {
                    proof {
                        assert forall|m: u8| true implies #[trigger] last_pick(pre.push(child), class_level::<F, N>(m)) == last_pick(
                            pre,
                            class_level::<F, N>(m),
                        ) by {
                            lemma_picks_push(pre, child, class_level::<F, N>(m));
                        }
                    }
                    match child {
                        ClassChild::Name(v) => c.name = trim_str(v.as_str()),
                        ClassChild::BaseClass(v) => c.base_class = Some(trim_str(v.as_str())),
                        ClassChild::NotHeroic => c.not_heroic = true,
                        ClassChild::Description(v) => c.description = Some(trim_str(v.as_str())),
                        ClassChild::SmallIcon(v) => c.small_icon = Some(trim_str(v.as_str())),
                        ClassChild::LargeIcon(v) => c.large_icon = Some(trim_str(v.as_str())),
                        ClassChild::SkillPoints(v) => c.skill_points = Some(v),
                        ClassChild::HitPoints(v) => c.hit_points = Some(v),
                        ClassChild::Alignment(v) => push_trimmed(&mut c.alignments, v),
                        ClassChild::Fortitude(v) => c.fortitude = Some(trim_str(v.as_str())),
                        ClassChild::Reflex(v) => c.reflex = Some(trim_str(v.as_str())),
                        ClassChild::Will(v) => c.will = Some(trim_str(v.as_str())),
                        ClassChild::SpellPointsPerLevel(v) => c.spell_points_per_level = v,
                        ClassChild::Bab(v) => c.bab = v,
                        ClassChild::CastingStat(v) => push_trimmed(&mut c.casting_stats, v),
                        ClassChild::ClassSpecificFeatType(v) => push_trimmed(&mut c.class_specific_feat_types, v),
                        ClassChild::ClassSkill(v) => push_trimmed(&mut c.class_skills, v),
                        ClassChild::AutoBuySkill(v) => push_trimmed(&mut c.auto_buy_skills, v),
                        ClassChild::Level(_, _) => {},
                        ClassChild::ClassSpell(v) => c.class_spells.push(v),
                        ClassChild::FeatSlot(v) => c.feat_slots.push(v),
                        ClassChild::AutomaticFeats(v) => c.automatic_feats.push(v),
                        ClassChild::Feat(v) => c.feats.push(v),
                    }
                },
            }
            k += 1;
            assert(cs@ =~= orig.subrange(k as int, orig.len() as int));
        }
        assert(orig.subrange(0, orig.len() as int) =~= orig);
        if c.name.as_str().is_empty() {
            return Err(ClassError::Unnamed);
        }
        Ok(c)
    }
}

/// A bad slot list among the first `k` children is the first of all the children.
proof fn lemma_first_bad_in_prefix<F, N>(cs: Seq<ClassChild<F, N>>, k: int)
    requires
        0 <= k <= cs.len(),
        first_bad_slots(all_picks(cs.subrange(0, k), class_slots::<F, N>())) is Some,
    ensures
        first_bad_slots(all_picks(cs, class_slots::<F, N>())) == first_bad_slots(
            all_picks(cs.subrange(0, k), class_slots::<F, N>()),
        ),
    decreases cs.len() - k,
{
    if k < cs.len() {
        assert(cs.subrange(0, k + 1) =~= cs.subrange(0, k).push(cs[k]));
        lemma_picks_push(cs.subrange(0, k), cs[k], class_slots::<F, N>());
        let a = all_picks(cs.subrange(0, k), class_slots::<F, N>());
        let b = all_picks(cs.subrange(0, k + 1), class_slots::<F, N>());
        if b.len() > a.len() {
            assert(b.drop_last() =~= a);
        }
        lemma_first_bad_in_prefix(cs, k + 1);
    } else {
        assert(cs.subrange(0, k) =~= cs);
    }
}

} // verus!
