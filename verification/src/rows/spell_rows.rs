//! The column values of the spell rows and of the `requirements` rows every owner writes.

use vstd::prelude::*;
use crate::rows::character_rows::{json_opt, json_strings};
use crate::rows::{nonempty, nonempty_spec};
use crate::text::{opt_str, opt_string, views};
use crate::xml::requirements::{GroupView, RequirementGroupKind, Requirements};
use crate::xml::spells::{Spell, SpellDamage, SpellDc};

verus! {

fn opt_as_str(s: &Option<String>) -> (r: Option<&str>)
    ensures
        opt_str(r) == opt_string(*s),
{
    match s {
        Some(t) => Some(t.as_str()),
        None => None,
    }
}

/// The columns of a `spells` row: `(name, description, icon, schools, max caster level, cost,
/// metamagics)`.
#[derive(Debug, Clone, PartialEq, Eq)]
pub struct SpellRow {
    pub name: String,
    pub description: Option<String>,
    pub icon: Option<String>,
    pub schools: Option<String>,
    pub max_caster_level: Option<i64>,
    pub cost: Option<i64>,
    pub metamagics: Option<String>,
}

/// A spell's row: blank text absent, schools and metamagics as JSON.
pub fn spell_row<N>(s: &Spell<N>) -> (r: SpellRow)
    ensures
        r.name == s.name,
        opt_string(r.description) == nonempty_spec(opt_string(s.description)),
        opt_string(r.icon) == nonempty_spec(opt_string(s.icon)),
        opt_string(r.schools) == json_opt(views(s.schools@)),
        r.max_caster_level == s.max_caster_level,
        r.cost == s.cost,
        opt_string(r.metamagics) == json_opt(views(s.metamagics@)),
{
    SpellRow {
        name: s.name.clone(),
        description: nonempty(opt_as_str(&s.description)),
        icon: nonempty(opt_as_str(&s.icon)),
        schools: json_strings(&s.schools),
        max_caster_level: s.max_caster_level,
        cost: s.cost,
        metamagics: json_strings(&s.metamagics),
    }
}

/// The columns of a `spell_damage` row, less the spell and position: the base dice, dice per
/// caster levels, bonus dice, damage type and spell power.
#[derive(Debug, Clone, PartialEq, Eq)]
pub struct SpellDamageRow {
    pub base_number: Option<i64>,
    pub base_sides: Option<i64>,
    pub base_bonus: Option<i64>,
    pub per_caster_levels: Option<i64>,
    pub bonus_number: Option<i64>,
    pub bonus_sides: Option<i64>,
    pub bonus_bonus: Option<i64>,
    pub damage: Option<String>,
    pub spell_power: Option<String>,
}

/// A damage entry's row: absent dice give absent parts; blank text absent.
pub fn spell_damage_row(d: &SpellDamage) -> (r: SpellDamageRow)
    ensures
        (r.base_number, r.base_sides, r.base_bonus) == match d.dice.base_dice {
            Some(b) => (b.number, b.sides, b.bonus),
            None => (None, None, None),
        },
        r.per_caster_levels == d.dice.per_caster_levels,
        (r.bonus_number, r.bonus_sides, r.bonus_bonus) == match d.dice.bonus_dice {
            Some(b) => (b.number, b.sides, b.bonus),
            None => (None, None, None),
        },
        opt_string(r.damage) == nonempty_spec(opt_string(d.damage)),
        opt_string(r.spell_power) == nonempty_spec(opt_string(d.spell_power)),
{
    let base = match d.base_dice() {
        Some(b) => (b.number, b.sides, b.bonus),
        None => (None, None, None),
    };
    let bonus = match &d.dice.bonus_dice {
        Some(b) => (b.number, b.sides, b.bonus),
        None => (None, None, None),
    };
    SpellDamageRow {
        base_number: base.0,
        base_sides: base.1,
        base_bonus: base.2,
        per_caster_levels: d.dice.per_caster_levels,
        bonus_number: bonus.0,
        bonus_sides: bonus.1,
        bonus_bonus: bonus.2,
        damage: nonempty(opt_as_str(&d.damage)),
        spell_power: nonempty(opt_as_str(&d.spell_power)),
    }
}

/// The columns of a `spell_dcs` row, less the spell, position and amount.
#[derive(Debug, Clone, PartialEq, Eq)]
pub struct SpellDcRow {
    pub dc_type: Option<String>,
    pub dc_versus: Option<String>,
    pub schools: Option<String>,
    pub casting_stat_mod: bool,
    pub mod_abilities: Option<String>,
}

/// A DC's row: blank text absent, lists as JSON.
pub fn spell_dc_row(dc: &SpellDc) -> (r: SpellDcRow)
    ensures
        opt_string(r.dc_type) == nonempty_spec(opt_string(dc.dc_type)),
        opt_string(r.dc_versus) == nonempty_spec(opt_string(dc.dc_versus)),
        opt_string(r.schools) == json_opt(views(dc.schools@)),
        r.casting_stat_mod == dc.casting_stat_mod_flag is Some,
        opt_string(r.mod_abilities) == json_opt(views(dc.mod_abilities@)),
{
    SpellDcRow {
        dc_type: nonempty(opt_as_str(&dc.dc_type)),
        dc_versus: nonempty(opt_as_str(&dc.dc_versus)),
        schools: json_strings(&dc.schools),
        casting_stat_mod: dc.casting_stat_mod(),
        mod_abilities: json_strings(&dc.mod_abilities),
    }
}

/// A `requirements` row, less its owner.
#[derive(Debug, Clone, PartialEq, Eq)]
pub struct RequirementRow {
    pub group_kind: RequirementGroupKind,
    pub group_index: usize,
    pub sort_order: usize,
    pub req_type: String,
    pub items: Option<String>,
    pub value: Option<String>,
}

/// The row's columns: `(group kind, group index, sort order, type, items, value)`.
pub type RequirementRowKey = (RequirementGroupKind, int, int, Seq<char>, Option<Seq<char>>, Option<Seq<char>>);

/// The rows of the groups, group by group, each requirement in order.
pub open spec fn requirement_rows_spec(gs: Seq<GroupView>) -> Seq<RequirementRowKey>
    decreases gs.len(),
{
    if gs.len() == 0 {
        Seq::empty()
    } else {
        let i = gs.len() - 1;
        let g = gs.last();
        requirement_rows_spec(gs.drop_last()) + Seq::new(
            g.2.len(),
            |j: int| (g.0, i, j, g.2[j].0, json_opt(g.2[j].1), nonempty_spec(g.2[j].2)),
        )
    }
}

pub open spec fn row_key(r: RequirementRow) -> RequirementRowKey {
    (r.group_kind, r.group_index as int, r.sort_order as int, r.req_type@, opt_string(r.items), opt_string(r.value))
}

/// The `requirements` rows of a block: one per requirement, numbered by group and by position in
/// its group, its items as JSON and a blank value absent.
pub fn requirement_rows(reqs: &Requirements) -> (r: Vec<RequirementRow>)
    ensures
        r@.map_values(|x: RequirementRow| row_key(x)) == requirement_rows_spec(reqs@),
{
    let mut out: Vec<RequirementRow> = Vec::new();
    let ghost gs = reqs@;
    let mut i: usize = 0;
    assert(gs.subrange(0, 0) =~= Seq::<GroupView>::empty());
    assert(out@.map_values(|x: RequirementRow| row_key(x)) =~= Seq::<RequirementRowKey>::empty());
    while i < reqs.groups.len()
        invariant
            i <= gs.len(),
            gs == reqs@,
            gs.len() == reqs.groups@.len(),
            out@.map_values(|x: RequirementRow| row_key(x)) == requirement_rows_spec(gs.subrange(0, i as int)),
        decreases gs.len() - i,
    {
        let g = &reqs.groups[i];
        assert(gs[i as int] == g@);
        let ghost before = out@.map_values(|x: RequirementRow| row_key(x));
        let ghost gv = g@;
        let mut j: usize = 0;
        while j < g.requirements.len()
            invariant
                j <= g.requirements@.len(),
                gv == g@,
                gv.2.len() == g.requirements@.len(),
                out@.map_values(|x: RequirementRow| row_key(x)) == before + Seq::new(
                    j as nat,
                    |t: int| (gv.0, i as int, t, gv.2[t].0, json_opt(gv.2[t].1), nonempty_spec(gv.2[t].2)),
                ),
            decreases g.requirements@.len() - j,
        {
            let q = &g.requirements[j];
            assert(gv.2[j as int] == q@);
            let row = RequirementRow {
                group_kind: g.kind,
                group_index: i,
                sort_order: j,
                req_type: q.kind.clone(),
                items: json_strings(&q.items),
                value: nonempty(opt_as_str(&q.value)),
            };
            let ghost prev = out@.map_values(|x: RequirementRow| row_key(x));
            out.push(row);
            assert(out@.map_values(|x: RequirementRow| row_key(x)) =~= prev.push(row_key(row)));
            assert(before + Seq::new((j + 1) as nat, |t: int| (gv.0, i as int, t, gv.2[t].0, json_opt(gv.2[t].1), nonempty_spec(gv.2[t].2)))
                =~= (before + Seq::new(j as nat, |t: int| (gv.0, i as int, t, gv.2[t].0, json_opt(gv.2[t].1), nonempty_spec(gv.2[t].2)))).push(
                row_key(row),
            ));
            j += 1;
        }
        assert(gs.subrange(0, i + 1).drop_last() =~= gs.subrange(0, i as int));
        assert(gs.subrange(0, i + 1).last() == gv);
        assert(Seq::new(j as nat, |t: int| (gv.0, i as int, t, gv.2[t].0, json_opt(gv.2[t].1), nonempty_spec(gv.2[t].2))) =~= Seq::new(
            gv.2.len(),
            |t: int| (gv.0, i as int, t, gv.2[t].0, json_opt(gv.2[t].1), nonempty_spec(gv.2[t].2)),
        ));
        i += 1;
    }
    assert(gs.subrange(0, gs.len() as int) =~= gs);
    out
}

} // verus!
