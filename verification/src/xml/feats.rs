//! `<Feat>`: from `Feats.xml`, and nested inside class and race files. Read as an
//! order-independent child sequence.
//!
//! `N` is the type of the numbers in the effects' vectors (see [`Effect`]).

use vstd::prelude::*;
use crate::text::{opt_string, trim, trim_str, views};
use crate::xml::effect::Effect;
use crate::xml::items::lemma_picks_push;
use crate::xml::requirements::{
    group, group_spec, group_views, req_views, GroupView, RawGroup, Requirement, RequirementGroup,
    RequirementGroupKind, Requirements,
};
use crate::xml::{all_picks, last_pick, Empty, Vector};

verus! {

/// A stance the ability toggles or applies automatically.
#[derive(Debug, Clone, PartialEq)]
pub struct Stance {
    pub name: String,
    pub icon: Option<String>,
    pub description: Option<String>,
    pub group: Option<String>,
    pub auto_controlled: Option<Empty>,
    pub requirements: Option<Requirements>,
    pub incompatible: Vec<String>,
}

/// A saving-throw DC the ability imposes.
#[derive(Debug, Clone, PartialEq)]
pub struct Dc {
    pub name: Option<String>,
    pub description: Option<String>,
    pub icon: Option<String>,
    pub dc_type: Option<String>,
    pub dc_versus: Option<String>,
    pub mod_ability: Vec<String>,
    pub amount: Option<Vector>,
    pub tactical: Option<String>,
    pub other: Option<String>,
    pub skill: Option<String>,
    pub class_level: Option<String>,
    pub base_class_level: Option<String>,
}

#[derive(Debug, Clone, PartialEq)]
pub struct Attack {
    pub name: Option<String>,
    pub description: Option<String>,
    pub icon: Option<String>,
}

#[derive(Debug, Clone, PartialEq)]
pub struct SubItem {
    pub name: String,
    pub icon: Option<String>,
    pub description: Option<String>,
}

/// Groups the feat joins only while its requirements hold.
#[derive(Debug, Clone, PartialEq)]
pub struct ConditionalGroup {
    pub groups: Vec<String>,
    pub requirements: Option<Requirements>,
}

/// When a feat is granted without being trained. Shaped like `<Requirements>` plus an
/// `<IgnoreRequirements/>` flag.
#[derive(Debug, Clone, PartialEq)]
pub struct AutomaticAcquisition {
    pub requirements: Requirements,
    pub ignore_requirements: bool,
}

/// A child of `<AutomaticAcquisition>`, in document order.
#[derive(Debug, Clone, PartialEq)]
pub enum AutoChild {
    Requirement(Requirement),
    RequiresOneOf(RawGroup),
    RequiresNoneOf(RawGroup),
    IgnoreRequirements,
}

pub open spec fn pick_loose() -> spec_fn(AutoChild) -> Option<Requirement> {
    |c: AutoChild| match c { AutoChild::Requirement(r) => Some(r), _ => None }
}

/// The blocks, as the groups they build.
pub open spec fn pick_block() -> spec_fn(AutoChild) -> Option<GroupView> {
    |c: AutoChild| match c {
        AutoChild::RequiresOneOf(g) => Some(group_spec(RequirementGroupKind::OneOf, g)),
        AutoChild::RequiresNoneOf(g) => Some(group_spec(RequirementGroupKind::NoneOf, g)),
        _ => None,
    }
}

pub open spec fn pick_ignore() -> spec_fn(AutoChild) -> Option<()> {
    |c: AutoChild| match c { AutoChild::IgnoreRequirements => Some(()), _ => None }
}

/// The groups an `<AutomaticAcquisition>` holds: one `All` group of its loose requirements (as
/// written), if any, first; then its blocks in order.
pub open spec fn auto_groups(cs: Seq<AutoChild>) -> Seq<GroupView> {
    let loose = all_picks(cs, pick_loose());
    let blocks = all_picks(cs, pick_block());
    if loose.len() > 0 {
        seq![(RequirementGroupKind::All, None::<Seq<char>>, req_views(loose))] + blocks
    } else {
        blocks
    }
}

impl AutomaticAcquisition {
    /// Fold the children of an `<AutomaticAcquisition>`.
    pub fn from_children(children: Vec<AutoChild>) -> (r: AutomaticAcquisition)
        ensures
            r.requirements@ == auto_groups(children@),
            r.ignore_requirements == last_pick(children@, pick_ignore()) is Some,
    {
        let mut groups: Vec<RequirementGroup> = Vec::new();
        let mut loose: Vec<Requirement> = Vec::new();
        let mut ignore = false;
        let mut cs = children;
        let ghost orig = cs@;
        let n = cs.len();
        let mut k: usize = 0;
        assert(orig.subrange(0, 0) =~= Seq::<AutoChild>::empty());
        assert(group_views(groups@) =~= Seq::<GroupView>::empty());
        while cs.len() > 0
            invariant
                k + cs@.len() == orig.len(),
                n == orig.len(),
                cs@ == orig.subrange(k as int, orig.len() as int),
                loose@ == all_picks(orig.subrange(0, k as int), pick_loose()),
                group_views(groups@) == all_picks(orig.subrange(0, k as int), pick_block()),
                ignore == last_pick(orig.subrange(0, k as int), pick_ignore()) is Some,
            decreases cs@.len(),
        {
            let child = cs.remove(0);
            let ghost pre = orig.subrange(0, k as int);
            assert(child == orig[k as int]);
            assert(orig.subrange(0, k + 1) =~= pre.push(child));
            proof {
                lemma_picks_push(pre, child, pick_loose());
                lemma_picks_push(pre, child, pick_block());
                lemma_picks_push(pre, child, pick_ignore());
            }
            let ghost before = group_views(groups@);
            match child {
                AutoChild::Requirement(r) => loose.push(r),
                AutoChild::RequiresOneOf(g) => {
                    let g = RequirementGroup::from_raw(RequirementGroupKind::OneOf, g);
                    groups.push(g);
                    assert(group_views(groups@) =~= before.push(g@));
                },
                AutoChild::RequiresNoneOf(g) => {
                    let g = RequirementGroup::from_raw(RequirementGroupKind::NoneOf, g);
                    groups.push(g);
                    assert(group_views(groups@) =~= before.push(g@));
                },
                AutoChild::IgnoreRequirements => ignore = true,
            }
            k += 1;
            assert(cs@ =~= orig.subrange(k as int, orig.len() as int));
        }
        assert(orig.subrange(0, orig.len() as int) =~= orig);
        if loose.len() > 0 {
            let ghost before = group_views(groups@);
            let g = RequirementGroup::all(loose);
            groups.insert(0, g);
            assert(group_views(groups@) =~= seq![g@] + before);
        }
        AutomaticAcquisition { requirements: Requirements { groups }, ignore_requirements: ignore }
    }
}

#[derive(Debug, Clone, PartialEq)]
pub struct Feat<N> {
    pub name: String,
    pub description: Option<String>,
    pub acquire: Option<String>,
    pub icon: Option<String>,
    pub max_times_acquire: Option<i64>,
    pub sphere: Option<String>,
    pub groups: Vec<String>,
    pub requirements: Option<Requirements>,
    pub effects: Vec<Effect<N>>,
    pub stances: Vec<Stance>,
    pub dcs: Vec<Dc>,
    pub conditional_groups: Vec<ConditionalGroup>,
    pub automatic_acquisition: Option<AutomaticAcquisition>,
    pub attack: Option<Attack>,
    pub sub_items: Vec<SubItem>,
}

/// Every element a `<Feat>` may contain.
#[derive(Debug, Clone, PartialEq)]
pub enum FeatChild<N> {
    Name(String),
    Description(String),
    Acquire(String),
    Icon(String),
    MaxTimesAcquire(i64),
    Sphere(String),
    Group(String),
    Requirements(Requirements),
    Effect(Effect<N>),
    Stance(Stance),
    Dc(Dc),
    ConditionalGroup(ConditionalGroup),
    AutomaticAcquisition(AutomaticAcquisition),
    Attack(Attack),
    SubItem(SubItem),
}

/// Why a `<Feat>` was rejected.
#[derive(Debug, Clone, PartialEq, Eq)]
pub enum FeatError {
    /// A `<Feat>` without a `<Name>`, or with a blank one.
    Unnamed,
}

/// The trimmed text of the text-valued children, by position: Name, Description, Acquire, Icon,
/// Sphere, Group.
pub open spec fn feat_text<N>(slot: int) -> spec_fn(FeatChild<N>) -> Option<Seq<char>> {
    |c: FeatChild<N>| match c {
        FeatChild::Name(v) => if slot == 0 { Some(trim(v@)) } else { None },
        FeatChild::Description(v) => if slot == 1 { Some(trim(v@)) } else { None },
        FeatChild::Acquire(v) => if slot == 2 { Some(trim(v@)) } else { None },
        FeatChild::Icon(v) => if slot == 3 { Some(trim(v@)) } else { None },
        FeatChild::Sphere(v) => if slot == 4 { Some(trim(v@)) } else { None },
        FeatChild::Group(v) => if slot == 5 { Some(trim(v@)) } else { None },
        _ => None,
    }
}

pub open spec fn feat_max<N>() -> spec_fn(FeatChild<N>) -> Option<i64> {
    |c: FeatChild<N>| match c { FeatChild::MaxTimesAcquire(v) => Some(v), _ => None }
}
pub open spec fn feat_requirements<N>() -> spec_fn(FeatChild<N>) -> Option<Requirements> {
    |c: FeatChild<N>| match c { FeatChild::Requirements(v) => Some(v), _ => None }
}
pub open spec fn feat_effect<N>() -> spec_fn(FeatChild<N>) -> Option<Effect<N>> {
    |c: FeatChild<N>| match c { FeatChild::Effect(v) => Some(v), _ => None }
}
pub open spec fn feat_stance<N>() -> spec_fn(FeatChild<N>) -> Option<Stance> {
    |c: FeatChild<N>| match c { FeatChild::Stance(v) => Some(v), _ => None }
}
pub open spec fn feat_dc<N>() -> spec_fn(FeatChild<N>) -> Option<Dc> {
    |c: FeatChild<N>| match c { FeatChild::Dc(v) => Some(v), _ => None }
}
pub open spec fn feat_conditional<N>() -> spec_fn(FeatChild<N>) -> Option<ConditionalGroup> {
    |c: FeatChild<N>| match c { FeatChild::ConditionalGroup(v) => Some(v), _ => None }
}
pub open spec fn feat_auto<N>() -> spec_fn(FeatChild<N>) -> Option<AutomaticAcquisition> {
    |c: FeatChild<N>| match c { FeatChild::AutomaticAcquisition(v) => Some(v), _ => None }
}
pub open spec fn feat_attack<N>() -> spec_fn(FeatChild<N>) -> Option<Attack> {
    |c: FeatChild<N>| match c { FeatChild::Attack(v) => Some(v), _ => None }
}
pub open spec fn feat_sub_item<N>() -> spec_fn(FeatChild<N>) -> Option<SubItem> {
    |c: FeatChild<N>| match c { FeatChild::SubItem(v) => Some(v), _ => None }
}

/// The text a last pick gives, or the empty string.
pub open spec fn or_empty(o: Option<Seq<char>>) -> Seq<char> {
    match o {
        Some(s) => s,
        None => Seq::empty(),
    }
}

/// The feat the children fold into: repeated `<Group>`, `<Effect>`, `<Stance>`, `<DC>`,
/// `<ConditionalGroup>` and `<SubItem>` collect in order, other children take the last element
/// of their kind, text trimmed.
pub open spec fn feat_folds<N>(cs: Seq<FeatChild<N>>, f: Feat<N>) -> bool {
    &&& f.name@ == or_empty(last_pick(cs, feat_text::<N>(0)))
    &&& opt_string(f.description) == last_pick(cs, feat_text::<N>(1))
    &&& opt_string(f.acquire) == last_pick(cs, feat_text::<N>(2))
    &&& opt_string(f.icon) == last_pick(cs, feat_text::<N>(3))
    &&& opt_string(f.sphere) == last_pick(cs, feat_text::<N>(4))
    &&& views(f.groups@) == all_picks(cs, feat_text::<N>(5))
    &&& f.max_times_acquire == last_pick(cs, feat_max::<N>())
    &&& f.requirements == last_pick(cs, feat_requirements::<N>())
    &&& f.effects@ == all_picks(cs, feat_effect::<N>())
    &&& f.stances@ == all_picks(cs, feat_stance::<N>())
    &&& f.dcs@ == all_picks(cs, feat_dc::<N>())
    &&& f.conditional_groups@ == all_picks(cs, feat_conditional::<N>())
    &&& f.automatic_acquisition == last_pick(cs, feat_auto::<N>())
    &&& f.attack == last_pick(cs, feat_attack::<N>())
    &&& f.sub_items@ == all_picks(cs, feat_sub_item::<N>())
}

fn push_trimmed(v: &mut Vec<String>, t: String)
    ensures
        views(final(v)@) == views(old(v)@).push(trim(t@)),
{
    let ghost before = views(v@);
    v.push(trim_str(t.as_str()));
    assert(views(v@) =~= before.push(trim(t@)));
}

impl<N> Feat<N> {
    /// Fold a `<Feat>`'s children. Rejected when the name is missing or blank.
    pub fn from_children(children: Vec<FeatChild<N>>) -> (r: Result<Feat<N>, FeatError>)
        ensures
            r is Ok <==> or_empty(last_pick(children@, feat_text::<N>(0))).len() > 0,
            r matches Ok(f) ==> feat_folds(children@, f),
    {
        let mut f = Feat {
            name: String::new(),
            description: None,
            acquire: None,
            icon: None,
            max_times_acquire: None,
            sphere: None,
            groups: Vec::new(),
            requirements: None,
            effects: Vec::new(),
            stances: Vec::new(),
            dcs: Vec::new(),
            conditional_groups: Vec::new(),
            automatic_acquisition: None,
            attack: None,
            sub_items: Vec::new(),
        };
        let mut cs = children;
        let ghost orig = cs@;
        let n = cs.len();
        let mut k: usize = 0;
        assert(orig.subrange(0, 0) =~= Seq::<FeatChild<N>>::empty());
        assert(views(f.groups@) =~= Seq::<Seq<char>>::empty());
        assert(f.effects@ =~= Seq::<Effect<N>>::empty());
        assert(f.stances@ =~= Seq::<Stance>::empty());
        assert(f.dcs@ =~= Seq::<Dc>::empty());
        assert(f.conditional_groups@ =~= Seq::<ConditionalGroup>::empty());
        assert(f.sub_items@ =~= Seq::<SubItem>::empty());
        assert(f.name@ =~= Seq::<char>::empty());
        while cs.len() > 0
            invariant
                k + cs@.len() == orig.len(),
                n == orig.len(),
                cs@ == orig.subrange(k as int, orig.len() as int),
                feat_folds(orig.subrange(0, k as int), f),
            decreases cs@.len(),
        {
            let child = cs.remove(0);
            let ghost pre = orig.subrange(0, k as int);
            assert(child == orig[k as int]);
            assert(orig.subrange(0, k + 1) =~= pre.push(child));
            proof {
                lemma_picks_push(pre, child, feat_text::<N>(0));
                lemma_picks_push(pre, child, feat_text::<N>(1));
                lemma_picks_push(pre, child, feat_text::<N>(2));
                lemma_picks_push(pre, child, feat_text::<N>(3));
                lemma_picks_push(pre, child, feat_text::<N>(4));
                lemma_picks_push(pre, child, feat_text::<N>(5));
                lemma_picks_push(pre, child, feat_max::<N>());
                lemma_picks_push(pre, child, feat_requirements::<N>());
                lemma_picks_push(pre, child, feat_effect::<N>());
                lemma_picks_push(pre, child, feat_stance::<N>());
                lemma_picks_push(pre, child, feat_dc::<N>());
                lemma_picks_push(pre, child, feat_conditional::<N>());
                lemma_picks_push(pre, child, feat_auto::<N>());
                lemma_picks_push(pre, child, feat_attack::<N>());
                lemma_picks_push(pre, child, feat_sub_item::<N>());
            }
            match child {
                FeatChild::Name(v) => f.name = trim_str(v.as_str()),
                FeatChild::Description(v) => f.description = Some(trim_str(v.as_str())),
                FeatChild::Acquire(v) => f.acquire = Some(trim_str(v.as_str())),
                FeatChild::Icon(v) => f.icon = Some(trim_str(v.as_str())),
                FeatChild::MaxTimesAcquire(v) => f.max_times_acquire = Some(v),
                FeatChild::Sphere(v) => f.sphere = Some(trim_str(v.as_str())),
                FeatChild::Group(v) => push_trimmed(&mut f.groups, v),
                FeatChild::Requirements(v) => f.requirements = Some(v),
                FeatChild::Effect(v) => f.effects.push(v),
                FeatChild::Stance(v) => f.stances.push(v),
                FeatChild::Dc(v) => f.dcs.push(v),
                FeatChild::ConditionalGroup(v) => f.conditional_groups.push(v),
                FeatChild::AutomaticAcquisition(v) => f.automatic_acquisition = Some(v),
                FeatChild::Attack(v) => f.attack = Some(v),
                FeatChild::SubItem(v) => f.sub_items.push(v),
            }
            k += 1;
            assert(cs@ =~= orig.subrange(k as int, orig.len() as int));
        }
        assert(orig.subrange(0, orig.len() as int) =~= orig);
        if f.name.as_str().is_empty() {
            return Err(FeatError::Unnamed);
        }
        Ok(f)
    }
}

} // verus!
