//! `<Buff>` → the item's enhancement bonus, a typed stat bonus, or a named effect.

use vstd::prelude::*;
use crate::map::bonus_type::{normalize, normalize_spec};
use crate::map::{alias_exec, aliased, first_unknown_stat, lookup, lookup_exec, MappingData};
use crate::model::{find_stat, stat_by_name, BonusType, Stat};
use crate::text::{
    append_chars, chars_eq, chars_of, opt_string, render_i64, decimal_int, replace_all, replace_chars, string_of,
    trim, trim_chars, views,
};
use crate::xml::items::Buff;

verus! {

#[derive(Debug, Clone, PartialEq, Eq)]
pub enum Resolved {
    /// `items.enhancement_bonus`.
    Enhancement(i64),
    /// A `bonuses` row.
    Bonus { stat: Stat, bonus_type: Option<BonusType>, value: Option<i64>, value2: Option<i64> },
    /// An `effects` row.
    Effect { name: String, value: Option<i64>, target: Option<String> },
}

/// [`Resolved`] with its text as characters.
pub enum ResolvedModel {
    Enhancement(i64),
    Bonus { stat: Stat, bonus_type: Option<BonusType>, value: Option<i64>, value2: Option<i64> },
    Effect { name: Seq<char>, value: Option<i64>, target: Option<Seq<char>> },
}

impl View for Resolved {
    type V = ResolvedModel;

    open spec fn view(&self) -> ResolvedModel {
        match self {
            Resolved::Enhancement(v) => ResolvedModel::Enhancement(*v),
            Resolved::Bonus { stat, bonus_type, value, value2 } => ResolvedModel::Bonus {
                stat: *stat,
                bonus_type: *bonus_type,
                value: *value,
                value2: *value2,
            },
            Resolved::Effect { name, value, target } => ResolvedModel::Effect {
                name: name@,
                value: *value,
                target: opt_string(*target),
            },
        }
    }
}

/// Why a buff could not be resolved.
#[derive(Debug, Clone, PartialEq, Eq)]
pub enum BuffError {
    /// An enhancement buff without `Value1`.
    EnhancementWithoutValue(String),
    /// A by-item buff without an `<Item>` naming its stat.
    NeedsItem(String),
    /// The stat name a buff resolves to is not a stat.
    NotAStat(String),
    /// The buff's bonus type is unknown.
    UnknownBonusType(String),
}

/// [`BuffError`] with its text as characters: `(which, text)`, `which` numbering the variants
/// in declaration order.
pub open spec fn error_model(e: BuffError) -> (int, Seq<char>) {
    match e {
        BuffError::EnhancementWithoutValue(k) => (0, k@),
        BuffError::NeedsItem(k) => (1, k@),
        BuffError::NotAStat(s) => (2, s@),
        BuffError::UnknownBonusType(s) => (3, s@),
    }
}

/// A list of strings contains `s`.
pub open spec fn listed(list: Seq<String>, s: Seq<char>) -> bool {
    exists|i: int| 0 <= i < list.len() && (#[trigger] list[i])@ == s
}

/// The trimmed `<Item>`, when present and not blank.
pub open spec fn target_of(b: Buff) -> Option<Seq<char>> {
    match b.item {
        Some(i) => if trim(i@).len() > 0 {
            Some(trim(i@))
        } else {
            None
        },
        None => None,
    }
}

/// What [`BuffMap::resolve`] returns for `b`.
pub open spec fn resolve_spec(
    data: MappingData,
    stats: Seq<Stat>,
    types: Seq<BonusType>,
    b: Buff,
) -> Result<ResolvedModel, (int, Seq<char>)> {
    let kind = trim(b.kind@);
    if listed(data.enhancement@, kind) {
        match b.value1 {
            Some(v) => Ok(ResolvedModel::Enhancement(v)),
            None => Err((0, kind)),
        }
    } else {
        let fixed = lookup(data.fixed@, kind);
        let template = lookup(data.by_item@, kind);
        if fixed is None && template is Some && target_of(b) is None {
            Err((1, kind))
        } else {
            let stat_name: Option<Seq<char>> = if fixed is Some {
                fixed
            } else if template is Some {
                Some(replace_all(template->0, "{item}"@, aliased(data.item_aliases@, target_of(b)->0)))
            } else {
                None
            };
            match stat_name {
                None => Ok(ResolvedModel::Effect { name: kind, value: b.value1, target: target_of(b) }),
                Some(n) => match stat_by_name(stats, n) {
                    None => Err((2, n)),
                    Some(stat) => {
                        let raw = match b.bonus_type {
                            Some(t) => t@,
                            None => Seq::empty(),
                        };
                        match normalize_spec(raw, data.bonus_type_aliases@, types) {
                            Err(t) => Err((3, t)),
                            Ok(bt) => Ok(
                                ResolvedModel::Bonus { stat, bonus_type: bt, value: b.value1, value2: b.value2 },
                            ),
                        }
                    },
                },
            }
        }
    }
}

/// A resolved buff carries the buff's own numbers unchanged: a stat bonus its `Value1` and
/// `Value2`, an effect its `Value1`, an enhancement its `Value1`.
pub proof fn resolved_buffs_keep_their_values(data: MappingData, stats: Seq<Stat>, types: Seq<BonusType>, b: Buff)
    ensures
        resolve_spec(data, stats, types, b) matches Ok(ResolvedModel::Bonus { value, value2, .. }) ==> value
            == b.value1 && value2 == b.value2,
        resolve_spec(data, stats, types, b) matches Ok(ResolvedModel::Effect { value, .. }) ==> value == b.value1,
        resolve_spec(data, stats, types, b) matches Ok(ResolvedModel::Enhancement(v)) ==> b.value1 == Some(v),
{
}

/// Every `fixed` stat names a stat.
pub open spec fn fixed_stats_known(data: MappingData, stats: Seq<Stat>) -> bool {
    forall|i: int| 0 <= i < data.fixed@.len() ==> stat_by_name(stats, (#[trigger] data.fixed@[i]).1@) is Some
}

/// The buff mapping: the mapping tables with the stat and bonus type seeds they name.
pub struct BuffMap {
    data: MappingData,
    stats: Vec<Stat>,
    bonus_types: Vec<BonusType>,
}

/// A `[fixed]` entry naming no stat.
#[derive(Debug, Clone, PartialEq, Eq)]
pub struct UnknownFixedStat {
    pub kind: String,
    pub stat: String,
}

fn listed_exec(list: &Vec<String>, s: &[char]) -> (r: bool)
    ensures
        r == listed(list@, s@),
{
    let mut k: usize = 0;
    while k < list.len()
        invariant
            k <= list@.len(),
            forall|j: int| 0 <= j < k ==> (#[trigger] list@[j])@ != s@,
        decreases list@.len() - k,
    {
        let c = chars_of(list[k].as_str());
        if chars_eq(c.as_slice(), s) {
            return true;
        }
        k += 1;
    }
    false
}

impl BuffMap {
    pub closed spec fn data(&self) -> MappingData {
        self.data
    }

    pub closed spec fn stats(&self) -> Seq<Stat> {
        self.stats@
    }

    pub closed spec fn bonus_types(&self) -> Seq<BonusType> {
        self.bonus_types@
    }

    /// The mapping over these seeds. Rejected when a `[fixed]` entry names no stat.
    pub fn load(data: MappingData, stats: Vec<Stat>, bonus_types: Vec<BonusType>) -> (r: Result<
        BuffMap,
        UnknownFixedStat,
    >)
        ensures
            r is Ok <==> fixed_stats_known(data, stats@),
            r matches Ok(m) ==> m.data() == data && m.stats() == stats@ && m.bonus_types() == bonus_types@,
            r matches Err(e) ==> first_unknown_stat(data.fixed@, stats@, e.kind@, e.stat@),
    {
        let mut k: usize = 0;
        while k < data.fixed.len()
            invariant
                k <= data.fixed@.len(),
                forall|i: int| 0 <= i < k ==> stat_by_name(stats@, (#[trigger] data.fixed@[i]).1@) is Some,
            decreases data.fixed@.len() - k,
        {
            let s = chars_of(data.fixed[k].1.as_str());
            if find_stat(stats.as_slice(), s.as_slice()).is_none() {
                let e = UnknownFixedStat { kind: data.fixed[k].0.clone(), stat: data.fixed[k].1.clone() };
                assert(data.fixed@[k as int].0@ == e.kind@);
                return Err(e);
            }
            k += 1;
        }
        Ok(BuffMap { data, stats, bonus_types })
    }

    /// What this buff is: the enhancement bonus, a bonus to a stat, or a named effect.
    pub fn resolve(&self, buff: &Buff) -> (r: Result<Resolved, BuffError>)
        ensures
            match r {
                Ok(v) => resolve_spec(self.data(), self.stats(), self.bonus_types(), *buff) == Ok::<
                    ResolvedModel,
                    (int, Seq<char>),
                >(v@),
                Err(e) => resolve_spec(self.data(), self.stats(), self.bonus_types(), *buff) == Err::<
                    ResolvedModel,
                    (int, Seq<char>),
                >(error_model(e)),
            },
    {
        let kc = chars_of(buff.kind.as_str());
        let kind = trim_chars(kc.as_slice());
        if listed_exec(&self.data.enhancement, kind.as_slice()) {
            return match buff.value1 {
                Some(v) => Ok(Resolved::Enhancement(v)),
                None => Err(BuffError::EnhancementWithoutValue(string_of(kind.as_slice()))),
            };
        }
        let target: Option<Vec<char>> = match &buff.item {
            Some(i) => {
                let ic = chars_of(i.as_str());
                let t = trim_chars(ic.as_slice());
                if t.len() > 0 {
                    Some(t)
                } else {
                    None
                }
            },
            None => None,
        };
        let fixed = lookup_exec(self.data.fixed.as_slice(), kind.as_slice());
        let stat_name: Option<Vec<char>> = match fixed {
            Some(f) => Some(f),
            None => match lookup_exec(self.data.by_item.as_slice(), kind.as_slice()) {
                Some(template) => {
                    let item = match &target {
                        Some(t) => t,
                        None => return Err(BuffError::NeedsItem(string_of(kind.as_slice()))),
                    };
                    let word = alias_exec(self.data.item_aliases.as_slice(), item.as_slice());
                    let pat = chars_of("{item}");
                    proof {
                        reveal_strlit("{item}");
                    }
                    Some(replace_chars(template.as_slice(), pat.as_slice(), word.as_slice()))
                },
                None => None,
            },
        };
        let stat_name = match stat_name {
            Some(n) => n,
            None => {
                return Ok(
                    Resolved::Effect {
                        name: string_of(kind.as_slice()),
                        value: buff.value1,
                        target: match &target {
                            Some(t) => Some(string_of(t.as_slice())),
                            None => None,
                        },
                    },
                );
            },
        };
        let stat = match find_stat(self.stats.as_slice(), stat_name.as_slice()) {
            Some(s) => s,
            None => return Err(BuffError::NotAStat(string_of(stat_name.as_slice()))),
        };
        let raw: &str = match &buff.bonus_type {
            Some(t) => t.as_str(),
            None => "",
        };
        proof {
            reveal_strlit("");
        }
        match normalize(raw, self.data.bonus_type_aliases.as_slice(), self.bonus_types.as_slice()) {
            Ok(bonus_type) => Ok(Resolved::Bonus { stat, bonus_type, value: buff.value1, value2: buff.value2 }),
            Err(e) => Err(BuffError::UnknownBonusType(e.raw)),
        }
    }
}

pub open spec fn opt_int_text(v: Option<i64>) -> Seq<char> {
    match v {
        Some(v) => decimal_int(v as int),
        None => Seq::empty(),
    }
}

pub open spec fn opt_text(v: Option<String>) -> Seq<char> {
    match v {
        Some(v) => v@,
        None => Seq::empty(),
    }
}

/// The bonus type as displayed: our name when it normalises to one, the trimmed raw text
/// otherwise, nothing when absent.
pub open spec fn bonus_text(raw: Option<String>, aliases: Seq<(String, String)>, types: Seq<BonusType>) -> Seq<char> {
    match raw {
        None => Seq::empty(),
        Some(r) => match normalize_spec(r@, aliases, types) {
            Ok(Some(b)) => b.name@,
            _ => trim(r@),
        },
    }
}

/// What [`BuffMap::describe`] returns: the template with `%v1`, `%v2`, `%i1`, `%i2` and `%b1`
/// replaced, in that order, then trimmed.
pub open spec fn describe_spec(
    template: Seq<char>,
    b: Buff,
    aliases: Seq<(String, String)>,
    types: Seq<BonusType>,
) -> Seq<char> {
    let s1 = replace_all(template, "%v1"@, opt_int_text(b.value1));
    let s2 = replace_all(s1, "%v2"@, opt_int_text(b.value2));
    let s3 = replace_all(s2, "%i1"@, opt_text(b.item));
    let s4 = replace_all(s3, "%i2"@, opt_text(b.item2));
    let s5 = replace_all(s4, "%b1"@, bonus_text(b.bonus_type, aliases, types));
    trim(s5)
}

fn opt_int_chars(v: Option<i64>) -> (r: Vec<char>)
    ensures
        r@ == opt_int_text(v),
{
    match v {
        Some(v) => render_i64(v),
        None => Vec::new(),
    }
}

fn opt_chars(v: &Option<String>) -> (r: Vec<char>)
    ensures
        r@ == opt_text(*v),
{
    match v {
        Some(v) => chars_of(v.as_str()),
        None => Vec::new(),
    }
}

fn replace_lit(s: Vec<char>, pat: &str, with: &[char]) -> (r: Vec<char>)
    requires
        pat@.len() > 0,
    ensures
        r@ == replace_all(s@, pat@, with@),
{
    let p = chars_of(pat);
    replace_chars(s.as_slice(), p.as_slice(), with)
}

impl BuffMap {
    /// Fill an `ItemBuffs.xml` template with this buff's values. Unknown bonus types render as
    /// their raw text rather than failing, since this is display only.
    pub fn describe(&self, template: &str, buff: &Buff) -> (r: String)
        ensures
            r@ == describe_spec(template@, *buff, self.data().bonus_type_aliases@, self.bonus_types()),
    {
        let bonus: Vec<char> = match &buff.bonus_type {
            None => Vec::new(),
            Some(raw) => match normalize(raw.as_str(), self.data.bonus_type_aliases.as_slice(), self.bonus_types.as_slice()) {
                Ok(Some(b)) => chars_of(b.name.as_str()),
                _ => {
                    let c = chars_of(raw.as_str());
                    trim_chars(c.as_slice())
                },
            },
        };
        proof {
            reveal_strlit("%v1");
            reveal_strlit("%v2");
            reveal_strlit("%i1");
            reveal_strlit("%i2");
            reveal_strlit("%b1");
        }
        let t = chars_of(template);
        let v1 = opt_int_chars(buff.value1);
        let s1 = replace_lit(t, "%v1", v1.as_slice());
        let v2 = opt_int_chars(buff.value2);
        let s2 = replace_lit(s1, "%v2", v2.as_slice());
        let i1 = opt_chars(&buff.item);
        let s3 = replace_lit(s2, "%i1", i1.as_slice());
        let i2 = opt_chars(&buff.item2);
        let s4 = replace_lit(s3, "%i2", i2.as_slice());
        let s5 = replace_lit(s4, "%b1", bonus.as_slice());
        let out = trim_chars(s5.as_slice());
        string_of(out.as_slice())
    }
}

} // verus!
