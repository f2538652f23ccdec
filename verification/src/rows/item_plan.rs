//! What an item writes: its `items` row and, in order, the bonus and effect rows its buffs
//! become. The application inserts them and links the ids.

use vstd::prelude::*;
use crate::map::buff::{describe_spec, error_model, resolve_spec, BuffError, BuffMap, Resolved, ResolvedModel};
use crate::map::material::{normalize, normalize_spec};
use crate::map::{lookup, lookup_exec};
use crate::model::{armor_type_of, ArmorType, BonusType, Stat};
use crate::rows::{bonus_label, bonus_label_spec, nonempty, nonempty_spec, wiki_url, wiki_url_spec};
use crate::text::{chars_of, kept, kept_parts, opt_str, opt_string, string_of, trim, trim_chars, trim_str, views};
use crate::xml::effect::Effect;
use crate::xml::items::{race_required_spec, Buff, Item};
use crate::xml::all_picks;

verus! {

/// The row a resolved buff becomes, sorted by its position among the item's non-enhancement
/// buffs.
#[derive(Debug, Clone, PartialEq, Eq)]
pub enum BuffRow {
    /// A `bonuses` row, found or inserted by `(stat, bonus type, value, value2)`, with the name and
    /// description it is inserted with.
    Bonus {
        stat: Stat,
        bonus_type: Option<BonusType>,
        value: Option<i64>,
        value2: Option<i64>,
        label: String,
        description: Option<String>,
    },
    /// An `effects` row, found or inserted by name, linked with the buff's value and target.
    Effect { name: String, description: Option<String>, value: Option<i64>, target: Option<String> },
}

/// [`BuffRow`] with its text as characters.
pub enum BuffRowView {
    Bonus {
        stat: Stat,
        bonus_type: Option<BonusType>,
        value: Option<i64>,
        value2: Option<i64>,
        label: Seq<char>,
        description: Option<Seq<char>>,
    },
    Effect { name: Seq<char>, description: Option<Seq<char>>, value: Option<i64>, target: Option<Seq<char>> },
}

impl View for BuffRow {
    type V = BuffRowView;

    open spec fn view(&self) -> BuffRowView {
        match self {
            BuffRow::Bonus { stat, bonus_type, value, value2, label, description } => BuffRowView::Bonus {
                stat: *stat,
                bonus_type: *bonus_type,
                value: *value,
                value2: *value2,
                label: label@,
                description: opt_string(*description),
            },
            BuffRow::Effect { name, description, value, target } => BuffRowView::Effect {
                name: name@,
                description: opt_string(*description),
                value: *value,
                target: opt_string(*target),
            },
        }
    }
}

pub open spec fn row_views(v: Seq<BuffRow>) -> Seq<BuffRowView> {
    v.map_values(|r: BuffRow| r@)
}

/// The `items` row, less the ids the application assigns (slot, material) and the placement.
#[derive(Debug, Clone, PartialEq, Eq)]
pub struct ItemPlan {
    pub name: String,
    pub enhancement_bonus: Option<i64>,
    /// The material's name, normalised.
    pub material: Option<String>,
    pub race_required: Option<String>,
    pub icon: Option<String>,
    pub description: Option<String>,
    pub drop_location: Option<String>,
    pub set_bonus: Option<String>,
    pub wiki_url: String,
    /// The rows of the buffs that are not the enhancement bonus, in buff order.
    pub buffs: Vec<BuffRow>,
}

/// The display template of a buff type: its `ItemBuffs.xml` text, or empty.
pub open spec fn template_of(templates: Seq<(String, String)>, kind: Seq<char>) -> Seq<char> {
    match lookup(templates, trim(kind)) {
        Some(t) => t,
        None => Seq::empty(),
    }
}

/// The row a resolved (non-enhancement) buff becomes: a bonus labelled by stat and value and
/// described by the filled template, or an effect described by the raw template; no description
/// when there is no template.
pub open spec fn row_of(
    r: ResolvedModel,
    b: Buff,
    template: Seq<char>,
    aliases: Seq<(String, String)>,
    types: Seq<BonusType>,
) -> BuffRowView {
    match r {
        ResolvedModel::Bonus { stat, bonus_type, value, value2 } => BuffRowView::Bonus {
            stat,
            bonus_type,
            value,
            value2,
            label: bonus_label_spec(stat.name@, value),
            description: if template.len() == 0 {
                None
            } else {
                Some(describe_spec(template, b, aliases, types))
            },
        },
        ResolvedModel::Effect { name, value, target } => BuffRowView::Effect {
            name,
            description: if template.len() == 0 {
                None
            } else {
                Some(template)
            },
            value,
            target,
        },
        ResolvedModel::Enhancement(_) => BuffRowView::Effect {
            name: Seq::empty(),
            description: None,
            value: None,
            target: None,
        },
    }
}

/// The buffs resolved in order: the last enhancement bonus, and the other buffs' rows; or the
/// first buff's error.
pub open spec fn plan_buffs(
    m: BuffMap,
    templates: Seq<(String, String)>,
    bs: Seq<Buff>,
) -> Result<(Option<i64>, Seq<BuffRowView>), (int, Seq<char>)>
    decreases bs.len(),
{
    if bs.len() == 0 {
        Ok((None, Seq::empty()))
    } else {
        match plan_buffs(m, templates, bs.drop_last()) {
            Err(e) => Err(e),
            Ok((enh, rows)) => match resolve_spec(m.data(), m.stats(), m.bonus_types(), bs.last()) {
                Err(e) => Err(e),
                Ok(ResolvedModel::Enhancement(v)) => Ok((Some(v), rows)),
                Ok(other) => Ok(
                    (
                        enh,
                        rows.push(
                            row_of(
                                other,
                                bs.last(),
                                template_of(templates, bs.last().kind@),
                                m.data().bonus_type_aliases@,
                                m.bonus_types(),
                            ),
                        ),
                    ),
                ),
            },
        }
    }
}

/// The text of an optional string, trimmed.
pub open spec fn trimmed_opt(s: Option<String>) -> Option<Seq<char>> {
    match s {
        Some(t) => Some(trim(t@)),
        None => None,
    }
}

/// The plan's columns other than the buffs, as the item gives them.
pub open spec fn plan_columns<F>(item: Item<F>, p: ItemPlan) -> bool {
    &&& p.name@ == trim(item.name@)
    &&& opt_string(p.material) == normalize_spec(opt_string(item.material))
    &&& opt_string(p.race_required) == race_required_spec(item.requirements)
    &&& opt_string(p.icon) == trimmed_opt(item.icon)
    &&& opt_string(p.description) == nonempty_spec(opt_string(item.description))
    &&& opt_string(p.drop_location) == nonempty_spec(opt_string(item.drop_location))
    &&& opt_string(p.set_bonus) == if item.set_bonus@.len() > 0 {
        Some(trim(item.set_bonus@[0]@))
    } else {
        None
    }
    &&& p.wiki_url@ == wiki_url_spec(trim(item.name@))
}

fn trim_opt(s: &Option<String>) -> (r: Option<String>)
    ensures
        opt_string(r) == trimmed_opt(*s),
{
    match s {
        Some(t) => Some(trim_str(t.as_str())),
        None => None,
    }
}

fn opt_as_str(s: &Option<String>) -> (r: Option<&str>)
    ensures
        opt_str(r) == opt_string(*s),
{
    match s {
        Some(t) => Some(t.as_str()),
        None => None,
    }
}

/// A plan's buff row for a resolved buff.
fn row_exec(m: &BuffMap, res: Resolved, b: &Buff, template: &[char]) -> (r: BuffRow)
    requires
        !(res is Enhancement),
    ensures
        r@ == row_of(res@, *b, template@, m.data().bonus_type_aliases@, m.bonus_types()),
{
    match res {
        Resolved::Bonus { stat, bonus_type, value, value2 } => {
            let description = if template.len() == 0 {
                None
            } else {
                let t = string_of(template);
                Some(m.describe(t.as_str(), b))
            };
            let label = bonus_label(stat.name.as_str(), value);
            BuffRow::Bonus { stat, bonus_type, value, value2, label, description }
        },
        Resolved::Effect { name, value, target } => {
            let description = if template.len() == 0 {
                None
            } else {
                Some(string_of(template))
            };
            BuffRow::Effect { name, description, value, target }
        },
        Resolved::Enhancement(_) => BuffRow::Effect { name: String::new(), description: None, value: None, target: None },
    }
}

/// Plan an item's rows: its `items` columns, and its buffs resolved in order into the
/// enhancement bonus (the last one wins) and bonus and effect rows. Rejected at the first buff
/// that does not resolve.
pub fn plan_item<F>(item: &Item<F>, buff_map: &BuffMap, templates: &Vec<(String, String)>) -> (r: Result<
    ItemPlan,
    BuffError,
>)
    ensures
        match plan_buffs(*buff_map, templates@, item.buffs@) {
            Err(e) => r matches Err(x) && error_model(x) == e,
            Ok((enh, rows)) => r matches Ok(p) && plan_columns(*item, p) && p.enhancement_bonus == enh
                && row_views(p.buffs@) == rows,
        },
{
    let mut enhancement_bonus: Option<i64> = None;
    let mut rows: Vec<BuffRow> = Vec::new();
    let mut k: usize = 0;
    let ghost bs = item.buffs@;
    assert(bs.subrange(0, 0) =~= Seq::<Buff>::empty());
    assert(row_views(rows@) =~= Seq::<BuffRowView>::empty());
    while k < item.buffs.len()
        invariant
            k <= bs.len(),
            bs == item.buffs@,
            plan_buffs(*buff_map, templates@, bs.subrange(0, k as int)) == Ok::<
                (Option<i64>, Seq<BuffRowView>),
                (int, Seq<char>),
            >((enhancement_bonus, row_views(rows@))),
        decreases bs.len() - k,
    {
        let b = &item.buffs[k];
        assert(bs.subrange(0, k + 1).drop_last() =~= bs.subrange(0, k as int));
        assert(bs.subrange(0, k + 1).last() == bs[k as int]);
        match buff_map.resolve(b) {
            Err(e) => {
                proof {
                    lemma_plan_err_extends(*buff_map, templates@, bs, k as int + 1);
                }
                return Err(e);
            },
            Ok(Resolved::Enhancement(v)) => {
                enhancement_bonus = Some(v);
            },
            Ok(res) => {
                let kc = chars_of(b.kind.as_str());
                let kt = trim_chars(kc.as_slice());
                let template = match lookup_exec(templates.as_slice(), kt.as_slice()) {
                    Some(t) => t,
                    None => Vec::new(),
                };
                assert(template@ == template_of(templates@, b.kind@));
                let row = row_exec(buff_map, res, b, template.as_slice());
                let ghost before = row_views(rows@);
                rows.push(row);
                assert(row_views(rows@) =~= before.push(row@));
            },
        }
        k += 1;
    }
    assert(bs.subrange(0, bs.len() as int) =~= bs);
    let name = trim_str(item.name.as_str());
    let set_bonus = if item.set_bonus.len() > 0 {
        Some(trim_str(item.set_bonus[0].as_str()))
    } else {
        None
    };
    let url = wiki_url(name.as_str());
    Ok(
        ItemPlan {
            name,
            enhancement_bonus,
            material: normalize(opt_as_str(&item.material)),
            race_required: item.race_required(),
            icon: trim_opt(&item.icon),
            description: nonempty(opt_as_str(&item.description)),
            drop_location: nonempty(opt_as_str(&item.drop_location)),
            set_bonus,
            wiki_url: url,
            buffs: rows,
        },
    )
}

/// A failing buff in a prefix is the failure of the whole list.
proof fn lemma_plan_err_extends(m: BuffMap, templates: Seq<(String, String)>, bs: Seq<Buff>, k: int)
    requires
        0 <= k <= bs.len(),
        plan_buffs(m, templates, bs.subrange(0, k)) is Err,
    ensures
        plan_buffs(m, templates, bs) == plan_buffs(m, templates, bs.subrange(0, k)),
    decreases bs.len() - k,
{
    if k < bs.len() {
        assert(bs.subrange(0, k + 1).drop_last() =~= bs.subrange(0, k));
        lemma_plan_err_extends(m, templates, bs, k + 1);
    } else {
        assert(bs.subrange(0, k) =~= bs);
    }
}

/// An item effect that names a clickie: its trimmed first `<Item>`, or `None` when it has none.
pub open spec fn clickie_pick<N>() -> spec_fn(Effect<N>) -> Option<Option<Seq<char>>> {
    |e: Effect<N>| if e.types@[0]@ == "ItemClickie"@ {
        Some(
            if e.items@.len() > 0 {
                Some(trim(e.items@[0]@))
            } else {
                None
            },
        )
    } else {
        None
    }
}

/// An `ItemClickie` effect without an `<Item>`.
#[derive(Debug, Clone, PartialEq, Eq)]
pub struct ClickieWithoutName;

/// The clickies an item's effects name, in order (`<Effect><Type>ItemClickie</Type><Item>name`).
/// Rejected when one names none.
pub fn clickie_names<N>(effects: &Vec<Effect<N>>) -> (r: Result<Vec<String>, ClickieWithoutName>)
    requires
        forall|i: int| 0 <= i < effects@.len() ==> (#[trigger] effects@[i]).types@.len() > 0,
    ensures
        match r {
            Ok(v) => all_picks(effects@, clickie_pick::<N>()) == v@.map_values(|s: String| Some(s@)),
            Err(_) => exists|i: int|
                0 <= i < all_picks(effects@, clickie_pick::<N>()).len() && (#[trigger] all_picks(
                    effects@,
                    clickie_pick::<N>(),
                )[i]) is None,
        },
{
    let mut out: Vec<String> = Vec::new();
    let ghost es = effects@;
    let mut k: usize = 0;
    assert(es.subrange(0, 0) =~= Seq::<Effect<N>>::empty());
    assert(out@.map_values(|s: String| Some(s@)) =~= Seq::<Option<Seq<char>>>::empty());
    proof {
        reveal_strlit("ItemClickie");
    }
    while k < effects.len()
        invariant
            k <= es.len(),
            es == effects@,
            forall|i: int| 0 <= i < es.len() ==> (#[trigger] es[i]).types@.len() > 0,
            all_picks(es.subrange(0, k as int), clickie_pick::<N>()) == out@.map_values(|s: String| Some(s@)),
        decreases es.len() - k,
    {
        let e = &effects[k];
        let ghost pre = es.subrange(0, k as int);
        assert(es.subrange(0, k + 1) =~= pre.push(es[k as int]));
        proof {
            crate::xml::items::lemma_picks_push(pre, es[k as int], clickie_pick::<N>());
        }
        let t = chars_of(e.types[0].as_str());
        if crate::text::eq_str(t.as_slice(), "ItemClickie") {
            if e.items.len() == 0 {
                proof {
                    let whole = all_picks(es, clickie_pick::<N>());
                    crate::xml::items::lemma_all_picks_concat(es.subrange(0, k + 1), es.subrange(k + 1, es.len() as int), clickie_pick::<N>());
                    assert(es.subrange(0, k + 1) + es.subrange(k + 1, es.len() as int) =~= es);
                    let at = all_picks(es.subrange(0, k + 1), clickie_pick::<N>()).len() - 1;
                    assert(whole[at] is None);
                }
                return Err(ClickieWithoutName);
            }
            let ghost before = out@.map_values(|s: String| Some(s@));
            out.push(trim_str(e.items[0].as_str()));
            assert(out@.map_values(|s: String| Some(s@)) =~= before.push(Some(trim(e.items@[0]@))));
        }
        k += 1;
    }
    assert(es.subrange(0, es.len() as int) =~= es);
    Ok(out)
}

/// The damage-reduction bypasses a weapon lists, as its `item_dr_bypass` rows hold them: each
/// trimmed, in order, without the empty ones and the placeholder `-`.
pub fn dr_bypasses(bypass: &[String]) -> (r: Vec<String>)
    ensures
        views(r@) == kept_parts(views(bypass@), true),
{
    let parts = kept(bypass, true);
    let mut out: Vec<String> = Vec::new();
    let mut k: usize = 0;
    while k < parts.len()
        invariant
            k <= parts@.len(),
            views(out@) == parts@.subrange(0, k as int).map_values(|v: Vec<char>| v@),
        decreases parts@.len() - k,
    {
        let ghost before = views(out@);
        out.push(string_of(parts[k].as_slice()));
        assert(views(out@) =~= before.push(parts@[k as int]@));
        assert(parts@.subrange(0, k + 1).map_values(|v: Vec<char>| v@) =~= parts@.subrange(
            0,
            k as int,
        ).map_values(|v: Vec<char>| v@).push(parts@[k as int]@));
        k += 1;
    }
    assert(parts@.subrange(0, parts@.len() as int) =~= parts@);
    out
}

/// The shield part of an item's armor-stat rows: one `Shield` row for a shield.
pub open spec fn shield_rows(shield: bool) -> Seq<ArmorType> {
    if shield {
        seq![ArmorType::Shield]
    } else {
        Seq::empty()
    }
}

/// The armor types an item writes `item_armor_stats` rows under, in order: `Shield` when its
/// weapon type is a shield, then the type its `<Armor>` names (trimmed). `None` when that names
/// no armor type we know.
pub fn armor_stat_types(shield: bool, armor: Option<&str>) -> (r: Option<Vec<ArmorType>>)
    ensures
        match armor {
            None => r matches Some(v) && v@ == shield_rows(shield),
            Some(a) => match armor_type_of(trim(a@)) {
                Some(t) => r matches Some(v) && v@ == shield_rows(shield).push(t),
                None => r is None,
            },
        },
{
    let mut out: Vec<ArmorType> = Vec::new();
    if shield {
        out.push(ArmorType::Shield);
    }
    assert(out@ =~= shield_rows(shield));
    match armor {
        None => Some(out),
        Some(a) => {
            let t = trim_str(a);
            match ArmorType::parse(t.as_str()) {
                Some(at) => {
                    out.push(at);
                    Some(out)
                },
                None => None,
            }
        },
    }
}

} // verus!
