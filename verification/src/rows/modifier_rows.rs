//! The text and flag columns of the `modifiers` rows every family writes, and of the `augments`
//! and `filigrees` rows. The numeric vectors (amounts, dice, augment levels) are rendered by the
//! application, which owns the numbers.

use vstd::prelude::*;
use crate::rows::character_rows::{json_opt, json_strings};
use crate::rows::{join_kept, join_lines, nonempty, nonempty_spec};
use crate::text::{opt_str, opt_string, trim, trim_str, views};
use crate::xml::augments::Augment;
use crate::xml::effect::Effect;
use crate::xml::set_bonuses::Filigree;

verus! {

fn opt_as_str(s: &Option<String>) -> (r: Option<&str>)
    ensures
        opt_str(r) == opt_string(*s),
{
    match s {
        Some(t) => Some(t.as_str()),
        None => None,
    }
}

/// The columns of a `modifiers` row that are text or flags.
#[derive(Debug, Clone, PartialEq, Eq)]
pub struct ModifierRow {
    /// The primary `<Type>`, as written.
    pub effect_type: String,
    /// The other `<Type>`s as a JSON array; absent when there are none.
    pub extra_types: Option<String>,
    pub bonus: Option<String>,
    pub amount_type: Option<String>,
    /// The `<Item>`s as a JSON array; absent when there are none.
    pub targets: Option<String>,
    pub value: Option<String>,
    pub dice_damage: Option<String>,
    pub damage: Option<String>,
    pub percent: bool,
    pub rank: Option<i64>,
    pub cap: Option<String>,
    pub stack_source: Option<String>,
    pub display_name: Option<String>,
    pub apply_as_item_effect: bool,
    pub is_item_specific: bool,
    pub is_rare: bool,
}

/// An effect's `modifiers` row: the first type as the effect type, the rest and the targets as
/// JSON, text columns trimmed and blank ones absent, flags as read.
pub fn modifier_row<N>(e: &Effect<N>) -> (r: ModifierRow)
    requires
        e.types@.len() > 0,
    ensures
        r.effect_type@ == e.types@[0]@,
        opt_string(r.extra_types) == json_opt(views(e.types@.drop_first())),
        opt_string(r.bonus) == nonempty_spec(opt_string(e.bonus)),
        opt_string(r.amount_type) == nonempty_spec(opt_string(e.amount_type)),
        opt_string(r.targets) == json_opt(views(e.items@)),
        opt_string(r.value) == nonempty_spec(opt_string(e.value)),
        opt_string(r.dice_damage) == (match e.dice {
            Some(d) => nonempty_spec(opt_string(d.damage)),
            None => None,
        }),
        opt_string(r.damage) == nonempty_spec(opt_string(e.damage)),
        r.percent == e.percent,
        r.rank == e.rank,
        opt_string(r.cap) == nonempty_spec(opt_string(e.cap)),
        opt_string(r.stack_source) == nonempty_spec(opt_string(e.stack_source)),
        opt_string(r.display_name) == nonempty_spec(opt_string(e.display_name)),
        r.apply_as_item_effect == e.apply_as_item_effect,
        r.is_item_specific == e.is_item_specific,
        r.is_rare == e.rare,
{
    let mut extra: Vec<String> = Vec::new();
    let mut i: usize = 1;
    while i < e.types.len()
        invariant
            1 <= i <= e.types@.len(),
            extra@.len() == i - 1,
            forall|k: int| 0 <= k < extra@.len() ==> (#[trigger] extra@[k])@ == e.types@[k + 1]@,
        decreases e.types.len() - i,
    {
        extra.push(e.types[i].clone());
        i = i + 1;
    }
    assert(views(extra@) =~= views(e.types@.drop_first()));
    let dice_damage = match &e.dice {
        Some(d) => nonempty(opt_as_str(&d.damage)),
        None => None,
    };
    ModifierRow {
        effect_type: e.types[0].clone(),
        extra_types: json_strings(&extra),
        bonus: nonempty(opt_as_str(&e.bonus)),
        amount_type: nonempty(opt_as_str(&e.amount_type)),
        targets: json_strings(&e.items),
        value: nonempty(opt_as_str(&e.value)),
        dice_damage,
        damage: nonempty(opt_as_str(&e.damage)),
        percent: e.percent,
        rank: e.rank,
        cap: nonempty(opt_as_str(&e.cap)),
        stack_source: nonempty(opt_as_str(&e.stack_source)),
        display_name: nonempty(opt_as_str(&e.display_name)),
        apply_as_item_effect: e.apply_as_item_effect,
        is_item_specific: e.is_item_specific,
        is_rare: e.rare,
    }
}

/// The columns of an `augments` row that are text or flags.
#[derive(Debug, Clone, PartialEq, Eq)]
pub struct AugmentRow {
    pub name: String,
    pub family: String,
    pub description: Option<String>,
    /// The `<EffectDescription>` paragraphs, one per line.
    pub effect_description: Option<String>,
    pub min_level: Option<i64>,
    pub icon: Option<String>,
    pub choose_level: bool,
    pub dual_values: bool,
    pub enter_value: bool,
    pub suppress_set_bonus: bool,
    pub set_bonus: Option<String>,
    pub adds_augment: Option<String>,
    pub grants_augment: Option<String>,
    pub weapon_class: Option<String>,
}

/// An augment's row in its family: multi-valued text joined by lines with blank parts dropped,
/// single text trimmed and blank absent, flags as read.
pub fn augment_row<F, N>(a: &Augment<F, N>, family: &str) -> (r: AugmentRow)
    ensures
        r.name == a.name,
        r.family@ == family@,
        opt_string(r.description) == nonempty_spec(opt_string(a.description)),
        opt_string(r.effect_description) == join_kept(views(a.effect_descriptions@), "\n"@),
        r.min_level == a.min_level,
        opt_string(r.icon) == nonempty_spec(opt_string(a.icon)),
        r.choose_level == a.choose_level,
        r.dual_values == a.dual_values,
        r.enter_value == a.enter_value,
        r.suppress_set_bonus == a.suppress_set_bonus,
        opt_string(r.set_bonus) == join_kept(views(a.set_bonus@), "\n"@),
        opt_string(r.adds_augment) == join_kept(views(a.add_augment@), "\n"@),
        opt_string(r.grants_augment) == nonempty_spec(opt_string(a.grant_augment)),
        opt_string(r.weapon_class) == nonempty_spec(opt_string(a.weapon_class)),
{
    AugmentRow {
        name: a.name.clone(),
        family: family.to_string(),
        description: nonempty(opt_as_str(&a.description)),
        effect_description: join_lines(a.effect_descriptions.as_slice()),
        min_level: a.min_level,
        icon: nonempty(opt_as_str(&a.icon)),
        choose_level: a.choose_level,
        dual_values: a.dual_values,
        enter_value: a.enter_value,
        suppress_set_bonus: a.suppress_set_bonus,
        set_bonus: join_lines(a.set_bonus.as_slice()),
        adds_augment: join_lines(a.add_augment.as_slice()),
        grants_augment: nonempty(opt_as_str(&a.grant_augment)),
        weapon_class: nonempty(opt_as_str(&a.weapon_class)),
    }
}

/// The columns of a `filigrees` row, with the name of the set it belongs to in place of the
/// set's id.
#[derive(Debug, Clone, PartialEq, Eq)]
pub struct FiligreeRow {
    pub name: String,
    pub description: Option<String>,
    pub icon: Option<String>,
    pub menu: Option<String>,
    /// The first `<SetBonus>` the filigree names, trimmed.
    pub set_name: Option<String>,
}

/// A filigree's row: the name trimmed, blank text absent, its set named by the first
/// `<SetBonus>` child.
pub fn filigree_row<N>(f: &Filigree<N>) -> (r: FiligreeRow)
    ensures
        r.name@ == trim(f.name@),
        opt_string(r.description) == nonempty_spec(opt_string(f.description)),
        opt_string(r.icon) == nonempty_spec(opt_string(f.icon)),
        opt_string(r.menu) == nonempty_spec(opt_string(f.menu)),
        opt_string(r.set_name) == (if f.set_bonus@.len() > 0 {
            Some(trim(f.set_bonus@[0]@))
        } else {
            None
        }),
{
    let set_name = if f.set_bonus.len() > 0 {
        Some(trim_str(f.set_bonus[0].as_str()))
    } else {
        None
    };
    FiligreeRow {
        name: trim_str(f.name.as_str()),
        description: nonempty(opt_as_str(&f.description)),
        icon: nonempty(opt_as_str(&f.icon)),
        menu: nonempty(opt_as_str(&f.menu)),
        set_name,
    }
}

} // verus!
