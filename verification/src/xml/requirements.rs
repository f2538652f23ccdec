//! `<Requirements>`: the condition grammar every family shares. Children are `<Requirement>`
//! (all must hold), `<RequiresOneOf>` and `<RequiresNoneOf>` blocks, in any order and any number.
//! Consecutive top-level `<Requirement>` elements fold into one `All` group.

use vstd::prelude::*;
use crate::text::{chars_of, opt_string, string_of, trim, trim_chars, trim_str, views};

verus! {

#[derive(Debug, Clone, Copy, PartialEq, Eq)]
pub enum RequirementGroupKind {
    All,
    OneOf,
    NoneOf,
}

impl RequirementGroupKind {
    /// The `requirements.group_kind` column value.
    pub fn as_str(self) -> (r: &'static str)
        ensures
            self is All ==> r@ == "all"@,
            self is OneOf ==> r@ == "one_of"@,
            self is NoneOf ==> r@ == "none_of"@,
    {
        proof {
            reveal_strlit("all");
            reveal_strlit("one_of");
            reveal_strlit("none_of");
        }
        match self {
            RequirementGroupKind::All => "all",
            RequirementGroupKind::OneOf => "one_of",
            RequirementGroupKind::NoneOf => "none_of",
        }
    }
}

#[derive(Debug, Clone, PartialEq, Eq)]
pub struct Requirement {
    /// `<Type>`.
    pub kind: String,
    /// `<Item>` elements, in order.
    pub items: Vec<String>,
    /// `<Value>`.
    pub value: Option<String>,
}

/// `(kind, items, value)`.
pub type RequirementView = (Seq<char>, Seq<Seq<char>>, Option<Seq<char>>);

impl View for Requirement {
    type V = RequirementView;

    open spec fn view(&self) -> RequirementView {
        (self.kind@, views(self.items@), opt_string(self.value))
    }
}

#[derive(Debug, Clone, PartialEq, Eq)]
pub struct RequirementGroup {
    pub kind: RequirementGroupKind,
    pub display_description: Option<String>,
    pub requirements: Vec<Requirement>,
}

/// `(kind, display description, requirements)`.
pub type GroupView = (RequirementGroupKind, Option<Seq<char>>, Seq<RequirementView>);

pub open spec fn req_views(rs: Seq<Requirement>) -> Seq<RequirementView> {
    rs.map_values(|r: Requirement| r@)
}

impl View for RequirementGroup {
    type V = GroupView;

    open spec fn view(&self) -> GroupView {
        (self.kind, opt_string(self.display_description), req_views(self.requirements@))
    }
}

#[derive(Debug, Clone, PartialEq, Eq, Default)]
pub struct Requirements {
    pub groups: Vec<RequirementGroup>,
}

pub open spec fn group_views(gs: Seq<RequirementGroup>) -> Seq<GroupView> {
    gs.map_values(|g: RequirementGroup| g@)
}

impl View for Requirements {
    type V = Seq<GroupView>;

    open spec fn view(&self) -> Seq<GroupView> {
        group_views(self.groups@)
    }
}

/// A `<RequiresOneOf>` / `<RequiresNoneOf>` block as written.
#[derive(Debug, Clone, PartialEq, Eq)]
pub struct RawGroup {
    pub display_description: Option<String>,
    pub requirements: Vec<Requirement>,
}

/// A child of `<Requirements>`, in document order.
#[derive(Debug, Clone, PartialEq, Eq)]
pub enum RawChild {
    Requirement(Requirement),
    RequiresOneOf(RawGroup),
    RequiresNoneOf(RawGroup),
}

/// A requirement with its type trimmed.
pub open spec fn trimmed(r: RequirementView) -> RequirementView {
    (trim(r.0), r.1, r.2)
}

pub open spec fn trimmed_all(rs: Seq<RequirementView>) -> Seq<RequirementView> {
    rs.map_values(|r: RequirementView| trimmed(r))
}

/// What [`group`] builds from a raw block.
pub open spec fn group_spec(kind: RequirementGroupKind, raw: RawGroup) -> GroupView {
    (
        kind,
        match raw.display_description {
            Some(d) => Some(trim(d@)),
            None => None,
        },
        trimmed_all(req_views(raw.requirements@)),
    )
}

fn trim_requirement(r: Requirement) -> (out: Requirement)
    ensures
        out@ == trimmed(r@),
{
    let kind = trim_str(r.kind.as_str());
    Requirement { kind, items: r.items, value: r.value }
}

fn trim_requirements(rs: Vec<Requirement>) -> (out: Vec<Requirement>)
    ensures
        req_views(out@) == trimmed_all(req_views(rs@)),
{
    let mut out: Vec<Requirement> = Vec::new();
    let mut rs = rs;
    let ghost orig = rs@;
    let n = rs.len();
    let mut k: usize = 0;
    while rs.len() > 0
        invariant
            k + rs@.len() == orig.len(),
            n == orig.len(),
            rs@ == orig.subrange(k as int, orig.len() as int),
            out@.len() == k,
            forall|j: int| 0 <= j < k ==> (#[trigger] out@[j])@ == trimmed(orig[j]@),
        decreases rs@.len(),
    {
        let r = rs.remove(0);
        assert(r == orig[k as int]);
        out.push(trim_requirement(r));
        k += 1;
        assert(rs@ =~= orig.subrange(k as int, orig.len() as int));
    }
    assert(req_views(out@) =~= trimmed_all(req_views(orig)));
    out
}

/// Build a group from a raw block, trimming requirement types and the description.
pub fn group(kind: RequirementGroupKind, raw: RawGroup) -> (g: RequirementGroup)
    ensures
        g@ == group_spec(kind, raw),
{
    let display_description = match &raw.display_description {
        Some(d) => Some(trim_str(d.as_str())),
        None => None,
    };
    let requirements = trim_requirements(raw.requirements);
    RequirementGroup { kind, display_description, requirements }
}

impl RequirementGroup {
    /// Build a group from a raw block, trimming requirement types.
    pub fn from_raw(kind: RequirementGroupKind, raw: RawGroup) -> (g: RequirementGroup)
        ensures
            g@ == group_spec(kind, raw),
    {
        group(kind, raw)
    }

    /// An `All` group of loose `<Requirement>` elements.
    pub fn all(requirements: Vec<Requirement>) -> (g: RequirementGroup)
        ensures
            g@ == (RequirementGroupKind::All, None::<Seq<char>>, req_views(requirements@)),
    {
        RequirementGroup { kind: RequirementGroupKind::All, display_description: None, requirements }
    }
}

/// One child folded into the groups read so far: a loose requirement joins a trailing `All`
/// group or opens one; a block becomes its own group.
pub open spec fn fold_step(groups: Seq<GroupView>, c: RawChild) -> Seq<GroupView> {
    match c {
        RawChild::Requirement(r) => {
            let t = trimmed(r@);
            if groups.len() > 0 && groups.last().0 is All {
                groups.update(groups.len() - 1, (groups.last().0, groups.last().1, groups.last().2.push(t)))
            } else {
                groups.push((RequirementGroupKind::All, None, seq![t]))
            }
        },
        RawChild::RequiresOneOf(g) => groups.push(group_spec(RequirementGroupKind::OneOf, g)),
        RawChild::RequiresNoneOf(g) => groups.push(group_spec(RequirementGroupKind::NoneOf, g)),
    }
}

/// The groups the children fold into, in document order.
pub open spec fn fold_groups(cs: Seq<RawChild>) -> Seq<GroupView>
    decreases cs.len(),
{
    if cs.len() == 0 {
        Seq::empty()
    } else {
        fold_step(fold_groups(cs.drop_last()), cs.last())
    }
}

/// Some requirement in some group has an empty type.
pub open spec fn has_untyped(groups: Seq<GroupView>) -> bool {
    exists|i: int, j: int|
        0 <= i < groups.len() && 0 <= j < groups[i].2.len() && (#[trigger] groups[i].2[j]).0.len() == 0
}

/// Why a `<Requirements>` block was rejected.
#[derive(Debug, Clone, PartialEq, Eq)]
pub enum RequirementsError {
    /// A `<Requirement>` without a `<Type>`.
    Untyped,
}

impl Requirements {
    /// Fold the children of a `<Requirements>` element into groups. Rejected when a requirement
    /// has no type.
    pub fn from_children(children: Vec<RawChild>) -> (r: Result<Requirements, RequirementsError>)
        ensures
            r is Ok <==> !has_untyped(fold_groups(children@)),
            r matches Ok(reqs) ==> reqs@ == fold_groups(children@),
    {
        let mut groups: Vec<RequirementGroup> = Vec::new();
        let mut cs = children;
        let ghost orig = cs@;
        let n = cs.len();
        let mut k: usize = 0;
        while cs.len() > 0
            invariant
                k + cs@.len() == orig.len(),
                n == orig.len(),
                cs@ == orig.subrange(k as int, orig.len() as int),
                group_views(groups@) == fold_groups(orig.subrange(0, k as int)),
            decreases cs@.len(),
        {
            let child = cs.remove(0);
            assert(child == orig[k as int]);
            assert(orig.subrange(0, k + 1).drop_last() =~= orig.subrange(0, k as int));
            let ghost before = group_views(groups@);
            match child {
                RawChild::Requirement(r) => {
                    let t = trim_requirement(r);
                    let n = groups.len();
                    if n > 0 && matches!(groups[n - 1].kind, RequirementGroupKind::All) {
                        let mut g = groups.pop().unwrap();
                        let ghost gv = g@;
                        g.requirements.push(t);
                        assert(req_views(g.requirements@) =~= gv.2.push(t@));
                        groups.push(g);
                        assert(group_views(groups@) =~= before.update(
                            before.len() - 1,
                            (before.last().0, before.last().1, before.last().2.push(t@)),
                        ));
                    } else {
                        let mut rs: Vec<Requirement> = Vec::new();
                        rs.push(t);
                        let g = RequirementGroup::all(rs);
                        assert(req_views(rs@) =~= seq![t@]);
                        groups.push(g);
                        assert(group_views(groups@) =~= before.push(g@));
                    }
                },
                RawChild::RequiresOneOf(raw) => {
                    let g = group(RequirementGroupKind::OneOf, raw);
                    groups.push(g);
                    assert(group_views(groups@) =~= before.push(g@));
                },
                RawChild::RequiresNoneOf(raw) => {
                    let g = group(RequirementGroupKind::NoneOf, raw);
                    groups.push(g);
                    assert(group_views(groups@) =~= before.push(g@));
                },
            }
            k += 1;
            assert(cs@ =~= orig.subrange(k as int, orig.len() as int));
        }
        assert(orig.subrange(0, orig.len() as int) =~= orig);
        let ghost all = group_views(groups@);
        let mut i: usize = 0;
        while i < groups.len()
            invariant
                i <= groups@.len(),
                all == group_views(groups@),
                all == fold_groups(children@),
                forall|a: int, b: int|
                    0 <= a < i && 0 <= b < all[a].2.len() ==> (#[trigger] all[a].2[b]).0.len() != 0,
            decreases groups@.len() - i,
        {
            let mut j: usize = 0;
            while j < groups[i].requirements.len()
                invariant
                    i < groups@.len(),
                    j <= groups@[i as int].requirements@.len(),
                    all == group_views(groups@),
                    all == fold_groups(children@),
                    forall|a: int, b: int|
                        0 <= a < i && 0 <= b < all[a].2.len() ==> (#[trigger] all[a].2[b]).0.len() != 0,
                    forall|b: int| 0 <= b < j ==> (#[trigger] all[i as int].2[b]).0.len() != 0,
                decreases groups@[i as int].requirements@.len() - j,
            {
                assert(all[i as int].2[j as int] == groups@[i as int].requirements@[j as int]@);
                if groups[i].requirements[j].kind.as_str().is_empty() {
                    assert(has_untyped(all));
                    return Err(RequirementsError::Untyped);
                }
                j += 1;
            }
            i += 1;
        }
        Ok(Requirements { groups })
    }

    /// Every positive requirement (`All` and `OneOf` groups), flattened, in order.
    pub fn positive(&self) -> (r: Vec<&Requirement>)
        ensures
            r@.map_values(|q: &Requirement| q@) == positive_spec(self@),
    {
        let mut out: Vec<&Requirement> = Vec::new();
        let mut i: usize = 0;
        while i < self.groups.len()
            invariant
                i <= self.groups@.len(),
                out@.map_values(|q: &Requirement| q@) == positive_spec(group_views(self.groups@.subrange(
                    0,
                    i as int,
                ))),
            decreases self.groups@.len() - i,
        {
            let g = &self.groups[i];
            assert(group_views(self.groups@.subrange(0, i + 1)).drop_last() =~= group_views(
                self.groups@.subrange(0, i as int),
            ));
            let ghost before = out@.map_values(|q: &Requirement| q@);
            if !matches!(g.kind, RequirementGroupKind::NoneOf) {
                let mut j: usize = 0;
                while j < g.requirements.len()
                    invariant
                        j <= g.requirements@.len(),
                        out@.map_values(|q: &Requirement| q@) == before + req_views(
                            g.requirements@.subrange(0, j as int),
                        ),
                    decreases g.requirements@.len() - j,
                {
                    let ghost prev = out@;
                    out.push(&g.requirements[j]);
                    assert(out@ == prev.push(&g.requirements@[j as int]));
                    assert(g.requirements@.subrange(0, j + 1) =~= g.requirements@.subrange(0, j as int).push(
                        g.requirements@[j as int],
                    ));
                    assert(out@.map_values(|q: &Requirement| q@) =~= prev.map_values(|q: &Requirement| q@).push(
                        g.requirements@[j as int]@,
                    ));
                    assert(req_views(g.requirements@.subrange(0, j + 1)) =~= req_views(
                        g.requirements@.subrange(0, j as int),
                    ).push(g.requirements@[j as int]@));
                    assert(out@.map_values(|q: &Requirement| q@) =~= before + req_views(
                        g.requirements@.subrange(0, j + 1),
                    ));
                    j += 1;
                }
                assert(g.requirements@.subrange(0, g.requirements@.len() as int) =~= g.requirements@);
            } else {
                assert(out@.map_values(|q: &Requirement| q@) =~= before);
            }
            i += 1;
        }
        assert(self.groups@.subrange(0, self.groups@.len() as int) =~= self.groups@);
        out
    }
}

/// The requirements of the `All` and `OneOf` groups, in group order.
pub open spec fn positive_spec(groups: Seq<GroupView>) -> Seq<RequirementView>
    decreases groups.len(),
{
    if groups.len() == 0 {
        Seq::empty()
    } else if groups.last().0 is NoneOf {
        positive_spec(groups.drop_last())
    } else {
        positive_spec(groups.drop_last()) + groups.last().2
    }
}

/// The requirements a child contributes: a loose one, or those of a block.
pub open spec fn child_count(c: RawChild) -> nat {
    match c {
        RawChild::Requirement(_) => 1,
        RawChild::RequiresOneOf(g) => g.requirements@.len(),
        RawChild::RequiresNoneOf(g) => g.requirements@.len(),
    }
}

pub open spec fn children_count(cs: Seq<RawChild>) -> nat
    decreases cs.len(),
{
    if cs.len() == 0 {
        0
    } else {
        children_count(cs.drop_last()) + child_count(cs.last())
    }
}

pub open spec fn groups_count(gs: Seq<GroupView>) -> nat
    decreases gs.len(),
{
    if gs.len() == 0 {
        0
    } else {
        groups_count(gs.drop_last()) + gs.last().2.len()
    }
}

/// No group is empty, and no two neighbouring groups are both `All`.
pub open spec fn well_grouped(gs: Seq<GroupView>) -> bool {
    &&& forall|i: int, j: int|
        0 <= i && j == i + 1 && j < gs.len() ==> !((#[trigger] gs[i]).0 is All && (#[trigger] gs[j]).0 is All)
    &&& forall|i: int| 0 <= i < gs.len() && (#[trigger] gs[i]).0 is All ==> gs[i].2.len() > 0
}

proof fn lemma_groups_count_update(gs: Seq<GroupView>, g: GroupView)
    requires
        gs.len() > 0,
    ensures
        groups_count(gs.update(gs.len() - 1, g)) == groups_count(gs) - gs.last().2.len() + g.2.len(),
{
    assert(gs.update(gs.len() - 1, g).drop_last() =~= gs.drop_last());
}

proof fn lemma_grouped_push(gs: Seq<GroupView>, g: GroupView)
    requires
        well_grouped(gs),
        gs.len() > 0 ==> !(gs.last().0 is All && g.0 is All),
        g.0 is All ==> g.2.len() > 0,
    ensures
        well_grouped(gs.push(g)),
{
    let ng = gs.push(g);
    assert forall|i: int, j: int| 0 <= i && j == i + 1 && j < ng.len() implies !((#[trigger] ng[i]).0 is All
        && (#[trigger] ng[j]).0 is All) by {
        assert(ng[i] == gs[i]);
        if j < gs.len() {
            assert(ng[j] == gs[j]);
        }
    }
    assert forall|i: int| 0 <= i < ng.len() && (#[trigger] ng[i]).0 is All implies ng[i].2.len() > 0 by {
        if i < gs.len() {
            assert(ng[i] == gs[i]);
        }
    }
}

proof fn lemma_grouped_update_last(gs: Seq<GroupView>, g: GroupView)
    requires
        well_grouped(gs),
        gs.len() > 0,
        g.0 == gs.last().0,
        g.2.len() > 0,
    ensures
        well_grouped(gs.update(gs.len() - 1, g)),
{
    let ng = gs.update(gs.len() - 1, g);
    assert forall|i: int, j: int| 0 <= i && j == i + 1 && j < ng.len() implies !((#[trigger] ng[i]).0 is All
        && (#[trigger] ng[j]).0 is All) by {
        assert(ng[i] == gs[i]);
        assert(ng[j].0 == gs[j].0);
    }
    assert forall|i: int| 0 <= i < ng.len() && (#[trigger] ng[i]).0 is All implies ng[i].2.len() > 0 by {
        if i < gs.len() - 1 {
            assert(ng[i] == gs[i]);
        }
    }
}

proof fn lemma_fold_count(cs: Seq<RawChild>)
    ensures
        groups_count(fold_groups(cs)) == children_count(cs),
    decreases cs.len(),
{
    if cs.len() > 0 {
        lemma_fold_count(cs.drop_last());
        let gs = fold_groups(cs.drop_last());
        match cs.last() {
            RawChild::Requirement(r) => {
                if gs.len() > 0 && gs.last().0 is All {
                    lemma_groups_count_update(gs, (gs.last().0, gs.last().1, gs.last().2.push(trimmed(r@))));
                } else {
                    assert(gs.push((RequirementGroupKind::All, None, seq![trimmed(r@)])).drop_last() =~= gs);
                }
            },
            RawChild::RequiresOneOf(g) => {
                assert(gs.push(group_spec(RequirementGroupKind::OneOf, g)).drop_last() =~= gs);
            },
            RawChild::RequiresNoneOf(g) => {
                assert(gs.push(group_spec(RequirementGroupKind::NoneOf, g)).drop_last() =~= gs);
            },
        }
    }
}

proof fn lemma_fold_grouped(cs: Seq<RawChild>)
    ensures
        well_grouped(fold_groups(cs)),
    decreases cs.len(),
{
    if cs.len() > 0 {
        lemma_fold_grouped(cs.drop_last());
        let gs = fold_groups(cs.drop_last());
        match cs.last() {
            RawChild::Requirement(r) => {
                if gs.len() > 0 && gs.last().0 is All {
                    lemma_grouped_update_last(gs, (gs.last().0, gs.last().1, gs.last().2.push(trimmed(r@))));
                } else {
                    lemma_grouped_push(gs, (RequirementGroupKind::All, None, seq![trimmed(r@)]));
                }
            },
            RawChild::RequiresOneOf(g) => lemma_grouped_push(gs, group_spec(RequirementGroupKind::OneOf, g)),
            RawChild::RequiresNoneOf(g) => lemma_grouped_push(gs, group_spec(RequirementGroupKind::NoneOf, g)),
        }
    }
}

/// Folding a `<Requirements>` block keeps every requirement, and groups loose requirements as
/// they stand: each run of loose `<Requirement>` elements becomes one `All` group, so no two
/// neighbouring groups are both `All` and none of them is empty.
pub proof fn fold_keeps_requirements(cs: Seq<RawChild>)
    ensures
        groups_count(fold_groups(cs)) == children_count(cs),
        well_grouped(fold_groups(cs)),
{
    lemma_fold_count(cs);
    lemma_fold_grouped(cs);
}

/// The group kinds children read as in document order: each `<RequiresOneOf>` and
/// `<RequiresNoneOf>` its own kind, each maximal run of neighbouring loose `<Requirement>`s one
/// `All`.
pub open spec fn document_kinds(cs: Seq<RawChild>) -> Seq<RequirementGroupKind>
    decreases cs.len(),
{
    if cs.len() == 0 {
        Seq::empty()
    } else {
        let rest = document_kinds(cs.drop_last());
        match cs.last() {
            RawChild::Requirement(_) => if cs.len() >= 2 && cs[cs.len() - 2] is Requirement {
                rest
            } else {
                rest.push(RequirementGroupKind::All)
            },
            RawChild::RequiresOneOf(_) => rest.push(RequirementGroupKind::OneOf),
            RawChild::RequiresNoneOf(_) => rest.push(RequirementGroupKind::NoneOf),
        }
    }
}

pub open spec fn group_kinds(gs: Seq<GroupView>) -> Seq<RequirementGroupKind> {
    gs.map_values(|g: GroupView| g.0)
}

proof fn lemma_fold_kinds(cs: Seq<RawChild>)
    ensures
        group_kinds(fold_groups(cs)) == document_kinds(cs),
        (fold_groups(cs).len() > 0 && fold_groups(cs).last().0 is All) <==> (cs.len() > 0
            && cs.last() is Requirement),
    decreases cs.len(),
{
    if cs.len() > 0 {
        let rest = cs.drop_last();
        lemma_fold_kinds(rest);
        let gs = fold_groups(rest);
        if cs.len() >= 2 {
            assert(cs[cs.len() - 2] == rest.last());
        }
        match cs.last() {
            RawChild::Requirement(r) => {
                let t = trimmed(r@);
                if gs.len() > 0 && gs.last().0 is All {
                    let ng = gs.update(gs.len() - 1, (gs.last().0, gs.last().1, gs.last().2.push(t)));
                    assert(group_kinds(ng) =~= group_kinds(gs));
                } else {
                    let ng = gs.push((RequirementGroupKind::All, None, seq![t]));
                    assert(group_kinds(ng) =~= group_kinds(gs).push(RequirementGroupKind::All));
                }
            },
            RawChild::RequiresOneOf(g) => {
                let ng = gs.push(group_spec(RequirementGroupKind::OneOf, g));
                assert(group_kinds(ng) =~= group_kinds(gs).push(RequirementGroupKind::OneOf));
            },
            RawChild::RequiresNoneOf(g) => {
                let ng = gs.push(group_spec(RequirementGroupKind::NoneOf, g));
                assert(group_kinds(ng) =~= group_kinds(gs).push(RequirementGroupKind::NoneOf));
            },
        }
    }
}

/// The groups follow document order: their kinds are the children's, each block giving its own
/// group and each run of neighbouring loose requirements one `All` group.
pub proof fn groups_follow_document_order(cs: Seq<RawChild>)
    ensures
        group_kinds(fold_groups(cs)) == document_kinds(cs),
{
    lemma_fold_kinds(cs);
}

} // verus!
