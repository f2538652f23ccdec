//! `EnhancementTrees/*.xml`: one `<EnhancementTree>` per file with its items, each item optionally
//! a selector over several `<EnhancementSelection>` choices.
//!
//! `F` is the type of the fractional numbers of `<CostPerRank>`, which the reader parses; `N`
//! that of the effects' vectors.

use vstd::prelude::*;
use crate::model::TreeKind;
use crate::text::{opt_string, owned, trim, trim_str, views};
use crate::xml::effect::Effect;
use crate::xml::feats::{or_empty, Attack, Dc, Stance};
use crate::xml::items::lemma_picks_push;
use crate::xml::requirements::Requirements;
use crate::xml::{all_picks, last_pick};

verus! {

#[derive(Debug, Clone, PartialEq)]
pub struct Tree<F, N> {
    pub name: String,
    pub version: Option<i64>,
    pub icon: Option<String>,
    pub background: Option<String>,
    pub requirements: Option<Requirements>,
    pub is_racial: bool,
    pub is_destiny: bool,
    pub is_universal: bool,
    pub is_reaper: bool,
    pub is_legacy: bool,
    pub items: Vec<TreeItem<F, N>>,
}

#[derive(Debug, Clone, PartialEq)]
pub struct TreeItem<F, N> {
    pub name: String,
    pub internal_name: String,
    pub description: Option<String>,
    pub icon: Option<String>,
    pub x: Option<i64>,
    pub y: Option<i64>,
    pub cost_per_rank: Vec<F>,
    pub ranks: Option<i64>,
    pub min_spent: Option<i64>,
    pub requirements: Option<Requirements>,
    pub effects: Vec<Effect<N>>,
    pub is_clickie: bool,
    pub is_tier5: bool,
    /// `ArrowUp`, `ArrowRight`, `ArrowLeft`, `LongArrowUp`, `ExtraLongArrowUp`, in document order.
    pub arrows: Vec<String>,
    pub selector: Option<Selector<F, N>>,
    pub stances: Vec<Stance>,
    pub dcs: Vec<Dc>,
    pub attack: Option<Attack>,
}

#[derive(Debug, Clone, PartialEq)]
pub struct Selector<F, N> {
    pub exclusions: Vec<String>,
    pub selections: Vec<Selection<F, N>>,
}

#[derive(Debug, Clone, PartialEq)]
pub struct Selection<F, N> {
    pub name: String,
    pub description: Option<String>,
    pub icon: Option<String>,
    pub cost_per_rank: Vec<F>,
    pub ranks: Option<i64>,
    pub min_spent: Option<i64>,
    pub requirements: Option<Requirements>,
    pub effects: Vec<Effect<N>>,
    pub is_clickie: bool,
    pub stances: Vec<Stance>,
    pub dcs: Vec<Dc>,
    pub attack: Option<Attack>,
}

/// Every element an `<EnhancementTree>` may contain.
#[derive(Debug, Clone, PartialEq)]
pub enum TreeChild<F, N> {
    Name(String),
    Version(i64),
    Icon(String),
    Background(String),
    Requirements(Requirements),
    IsRacialTree,
    IsEpicDestiny,
    IsUniversalTree,
    IsReaperTree,
    Legacy,
    EnhancementTreeItem(TreeItem<F, N>),
}

/// Every element an `<EnhancementTreeItem>` may contain.
#[derive(Debug, Clone, PartialEq)]
pub enum TreeItemChild<F, N> {
    Name(String),
    InternalName(String),
    Description(String),
    Icon(String),
    XPosition(i64),
    YPosition(i64),
    CostPerRank(Vec<F>),
    Ranks(i64),
    MinSpent(i64),
    Requirements(Requirements),
    Effect(Effect<N>),
    Clickie,
    Tier5,
    ArrowUp,
    ArrowRight,
    ArrowLeft,
    LongArrowUp,
    ExtraLongArrowUp,
    Selector(Selector<F, N>),
    Stance(Stance),
    Dc(Dc),
    Attack(Attack),
}

/// Every element a `<Selector>` may contain.
#[derive(Debug, Clone, PartialEq)]
pub enum SelectorChild<F, N> {
    Exclusions(String),
    EnhancementSelection(Selection<F, N>),
}

/// Every element an `<EnhancementSelection>` may contain.
#[derive(Debug, Clone, PartialEq)]
pub enum SelectionChild<F, N> {
    Name(String),
    Description(String),
    Icon(String),
    CostPerRank(Vec<F>),
    Ranks(i64),
    MinSpent(i64),
    Requirements(Requirements),
    Effect(Effect<N>),
    Clickie,
    Stance(Stance),
    Dc(Dc),
    Attack(Attack),
}

/// Why a tree element was rejected: it has no name (an item also no internal name), or a blank
/// one.
#[derive(Debug, Clone, PartialEq, Eq)]
pub enum TreeError {
    UnnamedTree,
    UnnamedItem,
    UnnamedSelection,
}

// --- <EnhancementTree> ------------------------------------------------------------------------

/// By position: Name, Icon, Background (trimmed).
pub open spec fn tree_text<F, N>(slot: int) -> spec_fn(TreeChild<F, N>) -> Option<Seq<char>> {
    |c: TreeChild<F, N>| match c {
        TreeChild::Name(v) => if slot == 0 { Some(trim(v@)) } else { None },
        TreeChild::Icon(v) => if slot == 1 { Some(trim(v@)) } else { None },
        TreeChild::Background(v) => if slot == 2 { Some(trim(v@)) } else { None },
        _ => None,
    }
}

/// By position: IsRacialTree, IsEpicDestiny, IsUniversalTree, IsReaperTree, Legacy.
pub open spec fn tree_flag<F, N>(slot: int) -> spec_fn(TreeChild<F, N>) -> Option<()> {
    |c: TreeChild<F, N>| match c {
        TreeChild::IsRacialTree => if slot == 0 { Some(()) } else { None },
        TreeChild::IsEpicDestiny => if slot == 1 { Some(()) } else { None },
        TreeChild::IsUniversalTree => if slot == 2 { Some(()) } else { None },
        TreeChild::IsReaperTree => if slot == 3 { Some(()) } else { None },
        TreeChild::Legacy => if slot == 4 { Some(()) } else { None },
        _ => None,
    }
}

pub open spec fn tree_version<F, N>() -> spec_fn(TreeChild<F, N>) -> Option<i64> {
    |c: TreeChild<F, N>| match c { TreeChild::Version(v) => Some(v), _ => None }
}
pub open spec fn tree_requirements<F, N>() -> spec_fn(TreeChild<F, N>) -> Option<Requirements> {
    |c: TreeChild<F, N>| match c { TreeChild::Requirements(v) => Some(v), _ => None }
}
pub open spec fn tree_item<F, N>() -> spec_fn(TreeChild<F, N>) -> Option<TreeItem<F, N>> {
    |c: TreeChild<F, N>| match c { TreeChild::EnhancementTreeItem(v) => Some(v), _ => None }
}

/// The tree the children fold into: items in order, other children the last of their kind.
pub open spec fn tree_folds<F, N>(cs: Seq<TreeChild<F, N>>, t: Tree<F, N>) -> bool {
    &&& t.name@ == or_empty(last_pick(cs, tree_text::<F, N>(0)))
    &&& opt_string(t.icon) == last_pick(cs, tree_text::<F, N>(1))
    &&& opt_string(t.background) == last_pick(cs, tree_text::<F, N>(2))
    &&& t.version == last_pick(cs, tree_version::<F, N>())
    &&& t.requirements == last_pick(cs, tree_requirements::<F, N>())
    &&& t.is_racial == last_pick(cs, tree_flag::<F, N>(0)) is Some
    &&& t.is_destiny == last_pick(cs, tree_flag::<F, N>(1)) is Some
    &&& t.is_universal == last_pick(cs, tree_flag::<F, N>(2)) is Some
    &&& t.is_reaper == last_pick(cs, tree_flag::<F, N>(3)) is Some
    &&& t.is_legacy == last_pick(cs, tree_flag::<F, N>(4)) is Some
    &&& t.items@ == all_picks(cs, tree_item::<F, N>())
}

impl<F, N> Tree<F, N> {
    /// The tree's kind by its flags; a tree flagged as none of racial, destiny, reaper or
    /// universal is a class tree, and the first flag in that order decides.
    pub fn kind(&self) -> (r: TreeKind)
        ensures
            self.is_racial ==> r is Racial,
            !self.is_racial && self.is_destiny ==> r is Destiny,
            !self.is_racial && !self.is_destiny && self.is_reaper ==> r is Reaper,
            !self.is_racial && !self.is_destiny && !self.is_reaper && self.is_universal ==> r is Universal,
            !self.is_racial && !self.is_destiny && !self.is_reaper && !self.is_universal ==> r is Class,
    {
        if self.is_racial {
            TreeKind::Racial
        } else if self.is_destiny {
            TreeKind::Destiny
        } else if self.is_reaper {
            TreeKind::Reaper
        } else if self.is_universal {
            TreeKind::Universal
        } else {
            TreeKind::Class
        }
    }

    /// Fold an `<EnhancementTree>`'s children. Rejected when the name is missing or blank.
    pub fn from_children(children: Vec<TreeChild<F, N>>) -> (r: Result<Tree<F, N>, TreeError>)
        ensures
            r is Ok <==> or_empty(last_pick(children@, tree_text::<F, N>(0))).len() > 0,
            r matches Ok(t) ==> tree_folds(children@, t),
            r is Err ==> r == Err::<Tree<F, N>, TreeError>(TreeError::UnnamedTree),
    {
        let mut t = Tree {
            name: String::new(),
            version: None,
            icon: None,
            background: None,
            requirements: None,
            is_racial: false,
            is_destiny: false,
            is_universal: false,
            is_reaper: false,
            is_legacy: false,
            items: Vec::new(),
        };
        let mut cs = children;
        let ghost orig = cs@;
        let n = cs.len();
        let mut k: usize = 0;
        assert(orig.subrange(0, 0) =~= Seq::<TreeChild<F, N>>::empty());
        assert(t.items@ =~= Seq::<TreeItem<F, N>>::empty());
        assert(t.name@ =~= Seq::<char>::empty());
        while cs.len() > 0
            invariant
                k + cs@.len() == orig.len(),
                n == orig.len(),
                cs@ == orig.subrange(k as int, orig.len() as int),
                tree_folds(orig.subrange(0, k as int), t),
            decreases cs@.len(),
        {
            let child = cs.remove(0);
            let ghost pre = orig.subrange(0, k as int);
            assert(child == orig[k as int]);
            assert(orig.subrange(0, k + 1) =~= pre.push(child));
            proof {
                lemma_picks_push(pre, child, tree_text::<F, N>(0));
                lemma_picks_push(pre, child, tree_text::<F, N>(1));
                lemma_picks_push(pre, child, tree_text::<F, N>(2));
                lemma_picks_push(pre, child, tree_version::<F, N>());
                lemma_picks_push(pre, child, tree_requirements::<F, N>());
                lemma_picks_push(pre, child, tree_flag::<F, N>(0));
                lemma_picks_push(pre, child, tree_flag::<F, N>(1));
                lemma_picks_push(pre, child, tree_flag::<F, N>(2));
                lemma_picks_push(pre, child, tree_flag::<F, N>(3));
                lemma_picks_push(pre, child, tree_flag::<F, N>(4));
                lemma_picks_push(pre, child, tree_item::<F, N>());
            }
            match child {
                TreeChild::Name(v) => t.name = trim_str(v.as_str()),
                TreeChild::Version(v) => t.version = Some(v),
                TreeChild::Icon(v) => t.icon = Some(trim_str(v.as_str())),
                TreeChild::Background(v) => t.background = Some(trim_str(v.as_str())),
                TreeChild::Requirements(v) => t.requirements = Some(v),
                TreeChild::IsRacialTree => t.is_racial = true,
                TreeChild::IsEpicDestiny => t.is_destiny = true,
                TreeChild::IsUniversalTree => t.is_universal = true,
                TreeChild::IsReaperTree => t.is_reaper = true,
                TreeChild::Legacy => t.is_legacy = true,
                TreeChild::EnhancementTreeItem(v) => t.items.push(v),
            }
            k += 1;
            assert(cs@ =~= orig.subrange(k as int, orig.len() as int));
        }
        assert(orig.subrange(0, orig.len() as int) =~= orig);
        if t.name.as_str().is_empty() {
            return Err(TreeError::UnnamedTree);
        }
        Ok(t)
    }
}

// --- <EnhancementTreeItem> --------------------------------------------------------------------

/// By position: Name, InternalName, Description, Icon (trimmed).
pub open spec fn item_text<F, N>(slot: int) -> spec_fn(TreeItemChild<F, N>) -> Option<Seq<char>> {
    |c: TreeItemChild<F, N>| match c {
        TreeItemChild::Name(v) => if slot == 0 { Some(trim(v@)) } else { None },
        TreeItemChild::InternalName(v) => if slot == 1 { Some(trim(v@)) } else { None },
        TreeItemChild::Description(v) => if slot == 2 { Some(trim(v@)) } else { None },
        TreeItemChild::Icon(v) => if slot == 3 { Some(trim(v@)) } else { None },
        _ => None,
    }
}

/// By position: XPosition, YPosition, Ranks, MinSpent.
pub open spec fn item_int<F, N>(slot: int) -> spec_fn(TreeItemChild<F, N>) -> Option<i64> {
    |c: TreeItemChild<F, N>| match c {
        TreeItemChild::XPosition(v) => if slot == 0 { Some(v) } else { None },
        TreeItemChild::YPosition(v) => if slot == 1 { Some(v) } else { None },
        TreeItemChild::Ranks(v) => if slot == 2 { Some(v) } else { None },
        TreeItemChild::MinSpent(v) => if slot == 3 { Some(v) } else { None },
        _ => None,
    }
}

/// By position: Clickie, Tier5.
pub open spec fn item_flag<F, N>(slot: int) -> spec_fn(TreeItemChild<F, N>) -> Option<()> {
    |c: TreeItemChild<F, N>| match c {
        TreeItemChild::Clickie => if slot == 0 { Some(()) } else { None },
        TreeItemChild::Tier5 => if slot == 1 { Some(()) } else { None },
        _ => None,
    }
}

/// An arrow as the name of its element.
pub open spec fn item_arrow<F, N>() -> spec_fn(TreeItemChild<F, N>) -> Option<Seq<char>> {
    |c: TreeItemChild<F, N>| match c {
        TreeItemChild::ArrowUp => Some("ArrowUp"@),
        TreeItemChild::ArrowRight => Some("ArrowRight"@),
        TreeItemChild::ArrowLeft => Some("ArrowLeft"@),
        TreeItemChild::LongArrowUp => Some("LongArrowUp"@),
        TreeItemChild::ExtraLongArrowUp => Some("ExtraLongArrowUp"@),
        _ => None,
    }
}

pub open spec fn item_cost<F, N>() -> spec_fn(TreeItemChild<F, N>) -> Option<Vec<F>> {
    |c: TreeItemChild<F, N>| match c { TreeItemChild::CostPerRank(v) => Some(v), _ => None }
}
pub open spec fn item_requirements<F, N>() -> spec_fn(TreeItemChild<F, N>) -> Option<Requirements> {
    |c: TreeItemChild<F, N>| match c { TreeItemChild::Requirements(v) => Some(v), _ => None }
}
pub open spec fn item_effect<F, N>() -> spec_fn(TreeItemChild<F, N>) -> Option<Effect<N>> {
    |c: TreeItemChild<F, N>| match c { TreeItemChild::Effect(v) => Some(v), _ => None }
}
pub open spec fn item_selector<F, N>() -> spec_fn(TreeItemChild<F, N>) -> Option<Selector<F, N>> {
    |c: TreeItemChild<F, N>| match c { TreeItemChild::Selector(v) => Some(v), _ => None }
}
pub open spec fn item_stance<F, N>() -> spec_fn(TreeItemChild<F, N>) -> Option<Stance> {
    |c: TreeItemChild<F, N>| match c { TreeItemChild::Stance(v) => Some(v), _ => None }
}
pub open spec fn item_dc<F, N>() -> spec_fn(TreeItemChild<F, N>) -> Option<Dc> {
    |c: TreeItemChild<F, N>| match c { TreeItemChild::Dc(v) => Some(v), _ => None }
}
pub open spec fn item_attack<F, N>() -> spec_fn(TreeItemChild<F, N>) -> Option<Attack> {
    |c: TreeItemChild<F, N>| match c { TreeItemChild::Attack(v) => Some(v), _ => None }
}

/// The tree item the children fold into: effects, arrows, stances and DCs in order, other
/// children the last of their kind, text trimmed.
pub open spec fn tree_item_folds<F, N>(cs: Seq<TreeItemChild<F, N>>, i: TreeItem<F, N>) -> bool {
    &&& i.name@ == or_empty(last_pick(cs, item_text::<F, N>(0)))
    &&& i.internal_name@ == or_empty(last_pick(cs, item_text::<F, N>(1)))
    &&& opt_string(i.description) == last_pick(cs, item_text::<F, N>(2))
    &&& opt_string(i.icon) == last_pick(cs, item_text::<F, N>(3))
    &&& i.x == last_pick(cs, item_int::<F, N>(0))
    &&& i.y == last_pick(cs, item_int::<F, N>(1))
    &&& i.ranks == last_pick(cs, item_int::<F, N>(2))
    &&& i.min_spent == last_pick(cs, item_int::<F, N>(3))
    &&& i.cost_per_rank@ == match last_pick(cs, item_cost::<F, N>()) {
        Some(v) => v@,
        None => Seq::empty(),
    }
    &&& i.requirements == last_pick(cs, item_requirements::<F, N>())
    &&& i.effects@ == all_picks(cs, item_effect::<F, N>())
    &&& i.is_clickie == last_pick(cs, item_flag::<F, N>(0)) is Some
    &&& i.is_tier5 == last_pick(cs, item_flag::<F, N>(1)) is Some
    &&& views(i.arrows@) == all_picks(cs, item_arrow::<F, N>())
    &&& i.selector == last_pick(cs, item_selector::<F, N>())
    &&& i.stances@ == all_picks(cs, item_stance::<F, N>())
    &&& i.dcs@ == all_picks(cs, item_dc::<F, N>())
    &&& i.attack == last_pick(cs, item_attack::<F, N>())
}

fn push_name(v: &mut Vec<String>, name: &str)
    ensures
        views(final(v)@) == views(old(v)@).push(name@),
{
    let ghost before = views(v@);
    v.push(owned(name));
    assert(views(v@) =~= before.push(name@));
}

impl<F, N> TreeItem<F, N> {
    /// Fold an `<EnhancementTreeItem>`'s children. Rejected when the name or the internal name
    /// is missing or blank.
    pub fn from_children(children: Vec<TreeItemChild<F, N>>) -> (r: Result<TreeItem<F, N>, TreeError>)
        ensures
            r is Ok <==> or_empty(last_pick(children@, item_text::<F, N>(0))).len() > 0 && or_empty(
                last_pick(children@, item_text::<F, N>(1)),
            ).len() > 0,
            r matches Ok(i) ==> tree_item_folds(children@, i),
            r is Err ==> r == Err::<TreeItem<F, N>, TreeError>(TreeError::UnnamedItem),
    {
        let mut i = TreeItem {
            name: String::new(),
            internal_name: String::new(),
            description: None,
            icon: None,
            x: None,
            y: None,
            cost_per_rank: Vec::new(),
            ranks: None,
            min_spent: None,
            requirements: None,
            effects: Vec::new(),
            is_clickie: false,
            is_tier5: false,
            arrows: Vec::new(),
            selector: None,
            stances: Vec::new(),
            dcs: Vec::new(),
            attack: None,
        };
        let mut cs = children;
        let ghost orig = cs@;
        let n = cs.len();
        let mut k: usize = 0;
        assert(orig.subrange(0, 0) =~= Seq::<TreeItemChild<F, N>>::empty());
        assert(i.cost_per_rank@ =~= Seq::<F>::empty());
        assert(i.effects@ =~= Seq::<Effect<N>>::empty());
        assert(views(i.arrows@) =~= Seq::<Seq<char>>::empty());
        assert(i.stances@ =~= Seq::<Stance>::empty());
        assert(i.dcs@ =~= Seq::<Dc>::empty());
        assert(i.name@ =~= Seq::<char>::empty());
        assert(i.internal_name@ =~= Seq::<char>::empty());
        while cs.len() > 0
            invariant
                k + cs@.len() == orig.len(),
                n == orig.len(),
                cs@ == orig.subrange(k as int, orig.len() as int),
                tree_item_folds(orig.subrange(0, k as int), i),
            decreases cs@.len(),
        {
            let child = cs.remove(0);
            let ghost pre = orig.subrange(0, k as int);
            assert(child == orig[k as int]);
            assert(orig.subrange(0, k + 1) =~= pre.push(child));
            proof {
                lemma_picks_push(pre, child, item_text::<F, N>(0));
                lemma_picks_push(pre, child, item_text::<F, N>(1));
                lemma_picks_push(pre, child, item_text::<F, N>(2));
                lemma_picks_push(pre, child, item_text::<F, N>(3));
                lemma_picks_push(pre, child, item_int::<F, N>(0));
                lemma_picks_push(pre, child, item_int::<F, N>(1));
                lemma_picks_push(pre, child, item_int::<F, N>(2));
                lemma_picks_push(pre, child, item_int::<F, N>(3));
                lemma_picks_push(pre, child, item_cost::<F, N>());
                lemma_picks_push(pre, child, item_requirements::<F, N>());
                lemma_picks_push(pre, child, item_effect::<F, N>());
                lemma_picks_push(pre, child, item_flag::<F, N>(0));
                lemma_picks_push(pre, child, item_flag::<F, N>(1));
                lemma_picks_push(pre, child, item_arrow::<F, N>());
                lemma_picks_push(pre, child, item_selector::<F, N>());
                lemma_picks_push(pre, child, item_stance::<F, N>());
                lemma_picks_push(pre, child, item_dc::<F, N>());
                lemma_picks_push(pre, child, item_attack::<F, N>());
            }
            match child {
                TreeItemChild::Name(v) => i.name = trim_str(v.as_str()),
                TreeItemChild::InternalName(v) => i.internal_name = trim_str(v.as_str()),
                TreeItemChild::Description(v) => i.description = Some(trim_str(v.as_str())),
                TreeItemChild::Icon(v) => i.icon = Some(trim_str(v.as_str())),
                TreeItemChild::XPosition(v) => i.x = Some(v),
                TreeItemChild::YPosition(v) => i.y = Some(v),
                TreeItemChild::CostPerRank(v) => i.cost_per_rank = v,
                TreeItemChild::Ranks(v) => i.ranks = Some(v),
                TreeItemChild::MinSpent(v) => i.min_spent = Some(v),
                TreeItemChild::Requirements(v) => i.requirements = Some(v),
                TreeItemChild::Effect(v) => i.effects.push(v),
                TreeItemChild::Clickie => i.is_clickie = true,
                TreeItemChild::Tier5 => i.is_tier5 = true,
                TreeItemChild::ArrowUp => push_name(&mut i.arrows, "ArrowUp"),
                TreeItemChild::ArrowRight => push_name(&mut i.arrows, "ArrowRight"),
                TreeItemChild::ArrowLeft => push_name(&mut i.arrows, "ArrowLeft"),
                TreeItemChild::LongArrowUp => push_name(&mut i.arrows, "LongArrowUp"),
                TreeItemChild::ExtraLongArrowUp => push_name(&mut i.arrows, "ExtraLongArrowUp"),
                TreeItemChild::Selector(v) => i.selector = Some(v),
                TreeItemChild::Stance(v) => i.stances.push(v),
                TreeItemChild::Dc(v) => i.dcs.push(v),
                TreeItemChild::Attack(v) => i.attack = Some(v),
            }
            k += 1;
            assert(cs@ =~= orig.subrange(k as int, orig.len() as int));
        }
        assert(orig.subrange(0, orig.len() as int) =~= orig);
        if i.name.as_str().is_empty() || i.internal_name.as_str().is_empty() {
            return Err(TreeError::UnnamedItem);
        }
        Ok(i)
    }
}

// --- <Selector> -------------------------------------------------------------------------------

pub open spec fn selector_exclusion<F, N>() -> spec_fn(SelectorChild<F, N>) -> Option<Seq<char>> {
    |c: SelectorChild<F, N>| match c { SelectorChild::Exclusions(v) => Some(trim(v@)), _ => None }
}
pub open spec fn selector_selection<F, N>() -> spec_fn(SelectorChild<F, N>) -> Option<Selection<F, N>> {
    |c: SelectorChild<F, N>| match c { SelectorChild::EnhancementSelection(v) => Some(v), _ => None }
}

impl<F, N> Selector<F, N> {
    /// Fold a `<Selector>`'s children: exclusions (trimmed) and selections, each in order.
    pub fn from_children(children: Vec<SelectorChild<F, N>>) -> (r: Selector<F, N>)
        ensures
            views(r.exclusions@) == all_picks(children@, selector_exclusion::<F, N>()),
            r.selections@ == all_picks(children@, selector_selection::<F, N>()),
    {
        let mut s = Selector { exclusions: Vec::new(), selections: Vec::new() };
        let mut cs = children;
        let ghost orig = cs@;
        let n = cs.len();
        let mut k: usize = 0;
        assert(orig.subrange(0, 0) =~= Seq::<SelectorChild<F, N>>::empty());
        assert(views(s.exclusions@) =~= Seq::<Seq<char>>::empty());
        assert(s.selections@ =~= Seq::<Selection<F, N>>::empty());
        while cs.len() > 0
            invariant
                k + cs@.len() == orig.len(),
                n == orig.len(),
                cs@ == orig.subrange(k as int, orig.len() as int),
                views(s.exclusions@) == all_picks(orig.subrange(0, k as int), selector_exclusion::<F, N>()),
                s.selections@ == all_picks(orig.subrange(0, k as int), selector_selection::<F, N>()),
            decreases cs@.len(),
        {
            let child = cs.remove(0);
            let ghost pre = orig.subrange(0, k as int);
            assert(child == orig[k as int]);
            assert(orig.subrange(0, k + 1) =~= pre.push(child));
            proof {
                lemma_picks_push(pre, child, selector_exclusion::<F, N>());
                lemma_picks_push(pre, child, selector_selection::<F, N>());
            }
            match child {
                SelectorChild::Exclusions(v) => {
                    let ghost before = views(s.exclusions@);
                    s.exclusions.push(trim_str(v.as_str()));
                    assert(views(s.exclusions@) =~= before.push(trim(v@)));
                },
                SelectorChild::EnhancementSelection(v) => s.selections.push(v),
            }
            k += 1;
            assert(cs@ =~= orig.subrange(k as int, orig.len() as int));
        }
        assert(orig.subrange(0, orig.len() as int) =~= orig);
        s
    }
}

// --- <EnhancementSelection> -------------------------------------------------------------------

/// By position: Name, Description, Icon (trimmed).
pub open spec fn selection_text<F, N>(slot: int) -> spec_fn(SelectionChild<F, N>) -> Option<Seq<char>> {
    |c: SelectionChild<F, N>| match c {
        SelectionChild::Name(v) => if slot == 0 { Some(trim(v@)) } else { None },
        SelectionChild::Description(v) => if slot == 1 { Some(trim(v@)) } else { None },
        SelectionChild::Icon(v) => if slot == 2 { Some(trim(v@)) } else { None },
        _ => None,
    }
}

/// By position: Ranks, MinSpent.
pub open spec fn selection_int<F, N>(slot: int) -> spec_fn(SelectionChild<F, N>) -> Option<i64> {
    |c: SelectionChild<F, N>| match c {
        SelectionChild::Ranks(v) => if slot == 0 { Some(v) } else { None },
        SelectionChild::MinSpent(v) => if slot == 1 { Some(v) } else { None },
        _ => None,
    }
}

pub open spec fn selection_cost<F, N>() -> spec_fn(SelectionChild<F, N>) -> Option<Vec<F>> {
    |c: SelectionChild<F, N>| match c { SelectionChild::CostPerRank(v) => Some(v), _ => None }
}
pub open spec fn selection_requirements<F, N>() -> spec_fn(SelectionChild<F, N>) -> Option<Requirements> {
    |c: SelectionChild<F, N>| match c { SelectionChild::Requirements(v) => Some(v), _ => None }
}
pub open spec fn selection_effect<F, N>() -> spec_fn(SelectionChild<F, N>) -> Option<Effect<N>> {
    |c: SelectionChild<F, N>| match c { SelectionChild::Effect(v) => Some(v), _ => None }
}
pub open spec fn selection_clickie<F, N>() -> spec_fn(SelectionChild<F, N>) -> Option<()> {
    |c: SelectionChild<F, N>| match c { SelectionChild::Clickie => Some(()), _ => None }
}
pub open spec fn selection_stance<F, N>() -> spec_fn(SelectionChild<F, N>) -> Option<Stance> {
    |c: SelectionChild<F, N>| match c { SelectionChild::Stance(v) => Some(v), _ => None }
}
pub open spec fn selection_dc<F, N>() -> spec_fn(SelectionChild<F, N>) -> Option<Dc> {
    |c: SelectionChild<F, N>| match c { SelectionChild::Dc(v) => Some(v), _ => None }
}
pub open spec fn selection_attack<F, N>() -> spec_fn(SelectionChild<F, N>) -> Option<Attack> {
    |c: SelectionChild<F, N>| match c { SelectionChild::Attack(v) => Some(v), _ => None }
}

/// The selection the children fold into: effects, stances and DCs in order, other children the
/// last of their kind, text trimmed.
pub open spec fn selection_folds<F, N>(cs: Seq<SelectionChild<F, N>>, s: Selection<F, N>) -> bool {
    &&& s.name@ == or_empty(last_pick(cs, selection_text::<F, N>(0)))
    &&& opt_string(s.description) == last_pick(cs, selection_text::<F, N>(1))
    &&& opt_string(s.icon) == last_pick(cs, selection_text::<F, N>(2))
    &&& s.ranks == last_pick(cs, selection_int::<F, N>(0))
    &&& s.min_spent == last_pick(cs, selection_int::<F, N>(1))
    &&& s.cost_per_rank@ == match last_pick(cs, selection_cost::<F, N>()) {
        Some(v) => v@,
        None => Seq::empty(),
    }
    &&& s.requirements == last_pick(cs, selection_requirements::<F, N>())
    &&& s.effects@ == all_picks(cs, selection_effect::<F, N>())
    &&& s.is_clickie == last_pick(cs, selection_clickie::<F, N>()) is Some
    &&& s.stances@ == all_picks(cs, selection_stance::<F, N>())
    &&& s.dcs@ == all_picks(cs, selection_dc::<F, N>())
    &&& s.attack == last_pick(cs, selection_attack::<F, N>())
}

impl<F, N> Selection<F, N> {
    /// Fold an `<EnhancementSelection>`'s children. Rejected when the name is missing or blank.
    pub fn from_children(children: Vec<SelectionChild<F, N>>) -> (r: Result<Selection<F, N>, TreeError>)
        ensures
            r is Ok <==> or_empty(last_pick(children@, selection_text::<F, N>(0))).len() > 0,
            r matches Ok(s) ==> selection_folds(children@, s),
            r is Err ==> r == Err::<Selection<F, N>, TreeError>(TreeError::UnnamedSelection),
    {
        let mut s = Selection {
            name: String::new(),
            description: None,
            icon: None,
            cost_per_rank: Vec::new(),
            ranks: None,
            min_spent: None,
            requirements: None,
            effects: Vec::new(),
            is_clickie: false,
            stances: Vec::new(),
            dcs: Vec::new(),
            attack: None,
        };
        let mut cs = children;
        let ghost orig = cs@;
        let n = cs.len();
        let mut k: usize = 0;
        assert(orig.subrange(0, 0) =~= Seq::<SelectionChild<F, N>>::empty());
        assert(s.cost_per_rank@ =~= Seq::<F>::empty());
        assert(s.effects@ =~= Seq::<Effect<N>>::empty());
        assert(s.stances@ =~= Seq::<Stance>::empty());
        assert(s.dcs@ =~= Seq::<Dc>::empty());
        assert(s.name@ =~= Seq::<char>::empty());
        while cs.len() > 0
            invariant
                k + cs@.len() == orig.len(),
                n == orig.len(),
                cs@ == orig.subrange(k as int, orig.len() as int),
                selection_folds(orig.subrange(0, k as int), s),
            decreases cs@.len(),
        {
            let child = cs.remove(0);
            let ghost pre = orig.subrange(0, k as int);
            assert(child == orig[k as int]);
            assert(orig.subrange(0, k + 1) =~= pre.push(child));
            proof {
                lemma_picks_push(pre, child, selection_text::<F, N>(0));
                lemma_picks_push(pre, child, selection_text::<F, N>(1));
                lemma_picks_push(pre, child, selection_text::<F, N>(2));
                lemma_picks_push(pre, child, selection_int::<F, N>(0));
                lemma_picks_push(pre, child, selection_int::<F, N>(1));
                lemma_picks_push(pre, child, selection_cost::<F, N>());
                lemma_picks_push(pre, child, selection_requirements::<F, N>());
                lemma_picks_push(pre, child, selection_effect::<F, N>());
                lemma_picks_push(pre, child, selection_clickie::<F, N>());
                lemma_picks_push(pre, child, selection_stance::<F, N>());
                lemma_picks_push(pre, child, selection_dc::<F, N>());
                lemma_picks_push(pre, child, selection_attack::<F, N>());
            }
            match child {
                SelectionChild::Name(v) => s.name = trim_str(v.as_str()),
                SelectionChild::Description(v) => s.description = Some(trim_str(v.as_str())),
                SelectionChild::Icon(v) => s.icon = Some(trim_str(v.as_str())),
                SelectionChild::CostPerRank(v) => s.cost_per_rank = v,
                SelectionChild::Ranks(v) => s.ranks = Some(v),
                SelectionChild::MinSpent(v) => s.min_spent = Some(v),
                SelectionChild::Requirements(v) => s.requirements = Some(v),
                SelectionChild::Effect(v) => s.effects.push(v),
                SelectionChild::Clickie => s.is_clickie = true,
                SelectionChild::Stance(v) => s.stances.push(v),
                SelectionChild::Dc(v) => s.dcs.push(v),
                SelectionChild::Attack(v) => s.attack = Some(v),
            }
            k += 1;
            assert(cs@ =~= orig.subrange(k as int, orig.len() as int));
        }
        assert(orig.subrange(0, orig.len() as int) =~= orig);
        if s.name.as_str().is_empty() {
            return Err(TreeError::UnnamedSelection);
        }
        Ok(s)
    }
}

} // verus!
