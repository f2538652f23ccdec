//! `<Effect>` → derived `bonuses` rows, and his `<Bonus>` → our bonus type.

use vstd::prelude::*;
use crate::map::bonus_type::UnknownBonusType;
use crate::map::buff::opt_text;
use crate::map::{alias_exec, aliased, first_unknown_stat, lookup, lookup_exec};
use crate::model::{bonus_type_by_name, find_bonus_type, find_stat, stat_by_name, BonusType, Stat};
use crate::text::{
    chars_eq, chars_of, compare_chars, eq_str, lemma_less_total, lemma_less_transitive, replace_all,
    replace_chars, seq_less, string_of, trim, trim_chars, views, Order,
};
use crate::xml::effect::Effect;

verus! {

/// The effect mapping tables: each a list of `(key, value)` pairs with distinct keys.
#[derive(Debug, Clone, Default)]
pub struct EffectMapData {
    /// Effect types whose stat is a fixed name.
    pub fixed: Vec<(String, String)>,
    /// Effect types whose stat name is a template over `<Item>` (`"{item} Spell Power"`).
    pub by_item: Vec<(String, String)>,
    /// The stat of a by-item effect with no `<Item>`, or with `All`.
    pub by_item_default: Vec<(String, String)>,
    /// `<Item>` spellings that differ from the word our stat names use.
    pub item_aliases: Vec<(String, String)>,
    /// `<Bonus>` spellings that are not our canonical name. An empty value means NULL.
    pub bonus_type_aliases: Vec<(String, String)>,
}

/// A bonus row an effect implies.
#[derive(Debug, Clone, PartialEq, Eq)]
pub struct Derived {
    pub stat: Stat,
    pub bonus_type: Option<BonusType>,
    pub value: i64,
}

/// The effect mapping over the stat and bonus type seeds, with the count of each effect type
/// [`EffectMap::derive`] saw that has no mapping.
pub struct EffectMap {
    data: EffectMapData,
    stats: Vec<Stat>,
    bonus_types: Vec<BonusType>,
    /// Kept sorted by type, each type once.
    unmapped: Vec<(String, usize)>,
}

/// A `[fixed]` or `[by_item_default]` entry naming no stat.
#[derive(Debug, Clone, PartialEq, Eq)]
pub struct UnknownEffectStat {
    pub kind: String,
    pub stat: String,
}

/// Every value of `table` names a stat.
pub open spec fn stats_known(table: Seq<(String, String)>, stats: Seq<Stat>) -> bool {
    forall|i: int| 0 <= i < table.len() ==> stat_by_name(stats, (#[trigger] table[i]).1@) is Some
}

/// Each key once, in `str` order.
pub open spec fn sorted_keys(s: Seq<(Seq<char>, usize)>) -> bool {
    forall|i: int, j: int| 0 <= i < j < s.len() ==> seq_less(#[trigger] s[i].0, #[trigger] s[j].0)
}

/// How many keys of the sorted list sort before `k`: where `k` is or goes.
pub open spec fn position(s: Seq<(Seq<char>, usize)>, k: Seq<char>) -> nat
    decreases s.len(),
{
    if s.len() == 0 {
        0
    } else if seq_less(s[0].0, k) {
        1 + position(s.drop_first(), k)
    } else {
        0
    }
}

/// The counts with `k`'s raised by one (saturating), or `k` added with a count of one.
pub open spec fn bump(s: Seq<(Seq<char>, usize)>, k: Seq<char>) -> Seq<(Seq<char>, usize)> {
    let p = position(s, k) as int;
    if p < s.len() && s[p].0 == k {
        s.update(p, (k, if s[p].1 < usize::MAX { (s[p].1 + 1) as usize } else { s[p].1 }))
    } else {
        s.insert(p, (k, 1usize))
    }
}

/// What [`EffectMap::bonus_type`] returns: the trimmed text through the alias table; `None` when
/// that is empty, the bonus type of that name, or an error carrying the trimmed text.
pub open spec fn effect_bonus_type(
    raw: Seq<char>,
    aliases: Seq<(String, String)>,
    types: Seq<BonusType>,
) -> Result<Option<BonusType>, Seq<char>> {
    let t = trim(raw);
    let canonical = aliased(aliases, t);
    if canonical.len() == 0 {
        Ok(None)
    } else {
        match bonus_type_by_name(types, canonical) {
            Some(b) => Ok(Some(b)),
            None => Err(t),
        }
    }
}

/// The targets of an effect: its `<Item>`s, or one empty target when it has none.
pub open spec fn targets_of(items: Seq<Seq<char>>) -> Seq<Seq<char>> {
    if items.len() == 0 {
        seq![Seq::<char>::empty()]
    } else {
        items
    }
}

/// The stat a by-item effect of type `kind` gives `target`: the default stat for no target or
/// `All`, else the template filled with the (aliased) target.
pub open spec fn target_stat(
    data: EffectMapData,
    stats: Seq<Stat>,
    kind: Seq<char>,
    target: Seq<char>,
) -> Option<Stat> {
    if target.len() == 0 || target == "All"@ {
        match lookup(data.by_item_default@, kind) {
            Some(d) => stat_by_name(stats, d),
            None => None,
        }
    } else {
        match lookup(data.by_item@, kind) {
            Some(t) => stat_by_name(stats, replace_all(t, "{item}"@, aliased(data.item_aliases@, target))),
            None => None,
        }
    }
}

/// The stats the targets give, in order, skipping those that give none.
pub open spec fn target_stats(
    data: EffectMapData,
    stats: Seq<Stat>,
    kind: Seq<char>,
    targets: Seq<Seq<char>>,
) -> Seq<Stat>
    decreases targets.len(),
{
    if targets.len() == 0 {
        Seq::empty()
    } else {
        let rest = target_stats(data, stats, kind, targets.drop_last());
        match target_stat(data, stats, kind, targets.last()) {
            Some(s) => rest.push(s),
            None => rest,
        }
    }
}

/// `kind` is in none of the tables.
pub open spec fn unmapped_kind(data: EffectMapData, kind: Seq<char>) -> bool {
    &&& lookup(data.fixed@, kind) is None
    &&& lookup(data.by_item@, kind) is None
    &&& lookup(data.by_item_default@, kind) is None
}

/// The stats of the rows a plain integer effect of type `kind` on `items` implies: its fixed
/// stat, else one per target that names a stat.
pub open spec fn derived_stats(
    data: EffectMapData,
    stats: Seq<Stat>,
    kind: Seq<char>,
    items: Seq<Seq<char>>,
) -> Seq<Stat> {
    match lookup(data.fixed@, kind) {
        Some(name) => match stat_by_name(stats, name) {
            Some(s) => seq![s],
            None => Seq::empty(),
        },
        None => target_stats(data, stats, kind, targets_of(items)),
    }
}

/// The rows are one per stat, in order, each with this bonus type and value.
pub open spec fn rows_are(rows: Seq<Derived>, stats: Seq<Stat>, bonus_type: Option<BonusType>, value: i64) -> bool {
    &&& rows.len() == stats.len()
    &&& forall|i: int|
        0 <= i < rows.len() ==> (#[trigger] rows[i]).stat == stats[i] && rows[i].bonus_type == bonus_type
            && rows[i].value == value
}

proof fn lemma_lookup_member(table: Seq<(String, String)>, key: Seq<char>)
    requires
        lookup(table, key) is Some,
    ensures
        exists|i: int| 0 <= i < table.len() && (#[trigger] table[i]).1@ == lookup(table, key)->0,
    decreases table.len(),
{
    if table[0].0@ != key {
        lemma_lookup_member(table.drop_first(), key);
        let i = choose|i: int| 0 <= i < table.drop_first().len() && (#[trigger] table.drop_first()[i]).1@ == lookup(
            table.drop_first(),
            key,
        )->0;
        assert(table[i + 1] == table.drop_first()[i]);
    } else {
        assert(table[0].1@ == lookup(table, key)->0);
    }
}

/// A type in neither by-item table gives no target a stat.
proof fn lemma_no_target_stats(data: EffectMapData, stats: Seq<Stat>, kind: Seq<char>, targets: Seq<Seq<char>>)
    requires
        lookup(data.by_item@, kind) is None,
        lookup(data.by_item_default@, kind) is None,
    ensures
        target_stats(data, stats, kind, targets).len() == 0,
    decreases targets.len(),
{
    if targets.len() > 0 {
        lemma_no_target_stats(data, stats, kind, targets.drop_last());
    }
}

fn copy_bonus_type(b: &Option<BonusType>) -> (r: Option<BonusType>)
    ensures
        r == *b,
{
    match b {
        Some(b) => Some(BonusType { id: b.id, name: b.name.clone() }),
        None => None,
    }
}

fn copy_stat(s: &Stat) -> (r: Stat)
    ensures
        r == *s,
{
    Stat { id: s.id, name: s.name.clone() }
}

fn targets_exec(items: &Vec<String>) -> (r: Vec<Vec<char>>)
    ensures
        r@.map_values(|v: Vec<char>| v@) == targets_of(views(items@)),
{
    let mut r: Vec<Vec<char>> = Vec::new();
    if items.len() == 0 {
        r.push(Vec::new());
        assert(r@.map_values(|v: Vec<char>| v@) =~= seq![Seq::<char>::empty()]);
        return r;
    }
    let mut k: usize = 0;
    while k < items.len()
        invariant
            k <= items@.len(),
            r@.map_values(|v: Vec<char>| v@) =~= views(items@).subrange(0, k as int),
        decreases items@.len() - k,
    {
        let c = chars_of(items[k].as_str());
        let ghost before = r@.map_values(|v: Vec<char>| v@);
        r.push(c);
        assert(r@.map_values(|v: Vec<char>| v@) =~= before.push(items@[k as int]@));
        assert(views(items@).subrange(0, k + 1) =~= views(items@).subrange(0, k as int).push(items@[k as int]@));
        k += 1;
    }
    r
}

impl EffectMap {
    pub closed spec fn data(&self) -> EffectMapData {
        self.data
    }

    pub closed spec fn stats(&self) -> Seq<Stat> {
        self.stats@
    }

    pub closed spec fn bonus_types(&self) -> Seq<BonusType> {
        self.bonus_types@
    }

    /// The unmapped effect types seen so far, with their counts.
    pub closed spec fn unmapped(&self) -> Seq<(Seq<char>, usize)> {
        self.unmapped@.map_values(|e: (String, usize)| (e.0@, e.1))
    }

    /// The fixed and default stats all name stats, and the unmapped types are sorted.
    pub open spec fn wf(&self) -> bool {
        &&& stats_known(self.data().fixed@, self.stats())
        &&& stats_known(self.data().by_item_default@, self.stats())
        &&& sorted_keys(self.unmapped())
    }

    fn check_stats(table: &Vec<(String, String)>, stats: &Vec<Stat>) -> (r: Result<(), UnknownEffectStat>)
        ensures
            r is Ok <==> stats_known(table@, stats@),
            r matches Err(e) ==> first_unknown_stat(table@, stats@, e.kind@, e.stat@),
    {
        let mut k: usize = 0;
        while k < table.len()
            invariant
                k <= table@.len(),
                forall|i: int| 0 <= i < k ==> stat_by_name(stats@, (#[trigger] table@[i]).1@) is Some,
            decreases table@.len() - k,
        {
            let s = chars_of(table[k].1.as_str());
            if find_stat(stats.as_slice(), s.as_slice()).is_none() {
                let e = UnknownEffectStat { kind: table[k].0.clone(), stat: table[k].1.clone() };
                assert(table@[k as int].0@ == e.kind@);
                return Err(e);
            }
            k += 1;
        }
        Ok(())
    }

    /// The mapping over these seeds, with nothing counted yet. Rejected when a `[fixed]` or
    /// `[by_item_default]` entry names no stat.
    pub fn load(data: EffectMapData, stats: Vec<Stat>, bonus_types: Vec<BonusType>) -> (r: Result<
        EffectMap,
        UnknownEffectStat,
    >)
        ensures
            r is Ok <==> stats_known(data.fixed@, stats@) && stats_known(data.by_item_default@, stats@),
            r matches Err(e) ==> if stats_known(data.fixed@, stats@) {
                first_unknown_stat(data.by_item_default@, stats@, e.kind@, e.stat@)
            } else {
                first_unknown_stat(data.fixed@, stats@, e.kind@, e.stat@)
            },
            r matches Ok(m) ==> {
                &&& m.wf()
                &&& m.data() == data
                &&& m.stats() == stats@
                &&& m.bonus_types() == bonus_types@
                &&& m.unmapped().len() == 0
            },
    {
        match Self::check_stats(&data.fixed, &stats) {
            Ok(()) => {},
            Err(e) => return Err(e),
        }
        match Self::check_stats(&data.by_item_default, &stats) {
            Ok(()) => {},
            Err(e) => return Err(e),
        }
        let m = EffectMap { data, stats, bonus_types, unmapped: Vec::new() };
        assert(m.unmapped() =~= Seq::<(Seq<char>, usize)>::empty());
        Ok(m)
    }

    /// His `<Bonus>` text as one of our bonus types. Unknown spellings are an error so they get
    /// added to the bonus types or the alias table; empty and "Not Set" are `None`.
    pub fn bonus_type(&self, raw: &str) -> (r: Result<Option<BonusType>, UnknownBonusType>)
        ensures
            match r {
                Ok(b) => effect_bonus_type(raw@, self.data().bonus_type_aliases@, self.bonus_types()) == Ok::<
                    Option<BonusType>,
                    Seq<char>,
                >(b),
                Err(e) => effect_bonus_type(raw@, self.data().bonus_type_aliases@, self.bonus_types()) == Err::<
                    Option<BonusType>,
                    Seq<char>,
                >(e.raw@),
            },
    {
        let c = chars_of(raw);
        let t = trim_chars(c.as_slice());
        let canonical = alias_exec(self.data.bonus_type_aliases.as_slice(), t.as_slice());
        if canonical.len() == 0 {
            return Ok(None);
        }
        match find_bonus_type(self.bonus_types.as_slice(), canonical.as_slice()) {
            Some(b) => Ok(Some(b)),
            None => Err(UnknownBonusType { raw: string_of(t.as_slice()) }),
        }
    }

    /// Count one more sighting of the unmapped type `kind`.
    fn count_unmapped(&mut self, kind: &[char])
        requires
            old(self).wf(),
        ensures
            final(self).wf(),
            final(self).data() == old(self).data(),
            final(self).stats() == old(self).stats(),
            final(self).bonus_types() == old(self).bonus_types(),
            final(self).unmapped() == bump(old(self).unmapped(), kind@),
    {
        let ghost m = self.unmapped();
        let mut p: usize = 0;
        let mut found = false;
        assert(m.skip(0) =~= m);
        while !found && p < self.unmapped.len()
            invariant
                m == self.unmapped(),
                p <= m.len(),
                found ==> p < m.len() && !seq_less(m[p as int].0, kind@),
                position(m, kind@) == p + position(m.skip(p as int), kind@),
                forall|i: int| 0 <= i < p ==> seq_less(#[trigger] m[i].0, kind@),
            decreases m.len() - p + if found { 0int } else { 1int },
        {
            let key = chars_of(self.unmapped[p].0.as_str());
            assert(m.skip(p as int)[0] == m[p as int]);
            match compare_chars(key.as_slice(), kind) {
                Order::Less => {
                    assert(m.skip(p as int).drop_first() =~= m.skip(p + 1));
                    p += 1;
                },
                _ => {
                    found = true;
                },
            }
        }
        proof {
            if p < m.len() {
                assert(m.skip(p as int)[0] == m[p as int]);
            }
            assert(position(m, kind@) == p);
        }
        let same = if p < self.unmapped.len() {
            let key = chars_of(self.unmapped[p].0.as_str());
            chars_eq(key.as_slice(), kind)
        } else {
            false
        };
        if same {
            let c = self.unmapped[p].1;
            let name = self.unmapped[p].0.clone();
            self.unmapped.set(p, (name, c.saturating_add(1)));
            assert(self.unmapped() =~= bump(m, kind@));
        } else {
            self.unmapped.insert(p, (string_of(kind), 1));
            proof {
                if p < m.len() {
                    lemma_less_total(m[p as int].0, kind@);
                }
                assert forall|j: int| p <= j < m.len() implies seq_less(kind@, #[trigger] m[j].0) by {
                    if j > p {
                        lemma_less_transitive(kind@, m[p as int].0, m[j].0);
                    }
                }
                let t = self.unmapped();
                assert(t =~= m.insert(p as int, (kind@, 1usize)));
                assert forall|i: int, j: int| 0 <= i < j < t.len() implies seq_less(
                    #[trigger] t[i].0,
                    #[trigger] t[j].0,
                ) by {
                    if j < p {
                        assert(t[i] == m[i] && t[j] == m[j]);
                    } else if j == p {
                        assert(t[i] == m[i]);
                    } else if i < p {
                        assert(t[i] == m[i] && t[j] == m[j - 1]);
                    } else if i == p {
                        assert(t[j] == m[j - 1]);
                    } else {
                        assert(t[i] == m[i - 1] && t[j] == m[j - 1]);
                    }
                }
            }
        }
    }

    /// The stat `target` gives under by-item type `kind`, whose template and default are given.
    fn target_stat_exec(
        &self,
        kind: &[char],
        template: &Option<Vec<char>>,
        default: &Option<Vec<char>>,
        target: &[char],
    ) -> (r: Option<Stat>)
        requires
            match template {
                Some(t) => lookup(self.data().by_item@, kind@) == Some(t@),
                None => lookup(self.data().by_item@, kind@) is None,
            },
            match default {
                Some(d) => lookup(self.data().by_item_default@, kind@) == Some(d@),
                None => lookup(self.data().by_item_default@, kind@) is None,
            },
        ensures
            r == target_stat(self.data(), self.stats(), kind@, target@),
    {
        proof {
            reveal_strlit("All");
            reveal_strlit("{item}");
        }
        if target.len() == 0 || eq_str(target, "All") {
            match default {
                Some(d) => find_stat(self.stats.as_slice(), d.as_slice()),
                None => None,
            }
        } else {
            match template {
                Some(t) => {
                    let word = alias_exec(self.data.item_aliases.as_slice(), target);
                    let pat = chars_of("{item}");
                    let name = replace_chars(t.as_slice(), pat.as_slice(), word.as_slice());
                    find_stat(self.stats.as_slice(), name.as_slice())
                },
                None => None,
            }
        }
    }

    /// The bonus rows this effect implies, given its value as a plain integer (`simple`: `AType`
    /// Simple, one `Type`, one integral amount, so only on an effect of that shape): none when it
    /// is not one, or when its type has no
    /// stat; the fixed stat's row; or one row per target that names a stat. A type in no table is
    /// counted as unmapped. An unknown `<Bonus>` is an error.
    pub fn derive<N>(&mut self, effect: &Effect<N>, simple: Option<i64>) -> (r: Result<
        Vec<Derived>,
        UnknownBonusType,
    >)
        requires
            old(self).wf(),
            simple is Some ==> effect.simple_shape(),
        ensures
            final(self).wf(),
            final(self).data() == old(self).data(),
            final(self).stats() == old(self).stats(),
            final(self).bonus_types() == old(self).bonus_types(),
            simple is None ==> (r matches Ok(v) && v@.len() == 0 && final(self).unmapped() == old(self).unmapped()),
            simple matches Some(value) ==> {
                    let kind = effect.types@[0]@;
                    match effect_bonus_type(
                        opt_text(effect.bonus),
                        old(self).data().bonus_type_aliases@,
                        old(self).bonus_types(),
                    ) {
                        Err(t) => r matches Err(e) && e.raw@ == t && final(self).unmapped() == old(
                            self,
                        ).unmapped(),
                        Ok(bt) => {
                            &&& r matches Ok(v) && rows_are(
                                v@,
                                derived_stats(old(self).data(), old(self).stats(), kind, views(effect.items@)),
                                bt,
                                value,
                            )
                            &&& final(self).unmapped() == if unmapped_kind(old(self).data(), kind) {
                                bump(old(self).unmapped(), kind)
                            } else {
                                old(self).unmapped()
                            }
                        },
                    }
                },
    {
        let value = match simple {
            Some(v) => v,
            None => return Ok(Vec::new()),
        };
        let kind = chars_of(effect.types[0].as_str());
        let raw: &str = match &effect.bonus {
            Some(b) => b.as_str(),
            None => "",
        };
        proof {
            reveal_strlit("");
        }
        assert(raw@ == opt_text(effect.bonus));
        let bonus_type = match self.bonus_type(raw) {
            Ok(b) => b,
            Err(e) => return Err(e),
        };
        match lookup_exec(self.data.fixed.as_slice(), kind.as_slice()) {
            Some(stat_name) => {
                proof {
                    lemma_lookup_member(self.data.fixed@, kind@);
                }
                let out = match find_stat(self.stats.as_slice(), stat_name.as_slice()) {
                    Some(stat) => vec![Derived { stat, bonus_type, value }],
                    None => Vec::new(),
                };
                assert(out@.len() > 0 ==> out@[0].stat == stat_by_name(self.stats(), stat_name@)->0);
                return Ok(out);
            },
            None => {},
        }
        let template = lookup_exec(self.data.by_item.as_slice(), kind.as_slice());
        let default = lookup_exec(self.data.by_item_default.as_slice(), kind.as_slice());
        if template.is_none() && default.is_none() {
            self.count_unmapped(kind.as_slice());
            proof {
                lemma_no_target_stats(self.data(), self.stats(), kind@, targets_of(views(effect.items@)));
            }
            return Ok(Vec::new());
        }
        let targets = targets_exec(&effect.items);
        let ghost tv = targets@.map_values(|v: Vec<char>| v@);
        let ghost data = self.data();
        let ghost stats = self.stats();
        let mut out: Vec<Derived> = Vec::new();
        let mut k: usize = 0;
        while k < targets.len()
            invariant
                k <= targets@.len(),
                tv == targets@.map_values(|v: Vec<char>| v@),
                data == self.data(),
                stats == self.stats(),
                match template {
                    Some(t) => lookup(data.by_item@, kind@) == Some(t@),
                    None => lookup(data.by_item@, kind@) is None,
                },
                match default {
                    Some(d) => lookup(data.by_item_default@, kind@) == Some(d@),
                    None => lookup(data.by_item_default@, kind@) is None,
                },
                rows_are(out@, target_stats(data, stats, kind@, tv.subrange(0, k as int)), bonus_type, value),
            decreases targets@.len() - k,
        {
            let s = self.target_stat_exec(kind.as_slice(), &template, &default, targets[k].as_slice());
            assert(tv.subrange(0, k + 1).drop_last() =~= tv.subrange(0, k as int));
            assert(tv.subrange(0, k + 1).last() == targets@[k as int]@);
            match s {
                Some(stat) => {
                    out.push(Derived { stat, bonus_type: copy_bonus_type(&bonus_type), value });
                },
                None => {},
            }
            k += 1;
        }
        assert(tv.subrange(0, targets@.len() as int) =~= tv);
        Ok(out)
    }

    /// Effect types seen by `derive` that have no mapping, with counts, in `str` order.
    pub fn unmapped_types(&self) -> (r: Vec<(String, usize)>)
        ensures
            r@.map_values(|e: (String, usize)| (e.0@, e.1)) == self.unmapped(),
    {
        let mut r: Vec<(String, usize)> = Vec::new();
        let mut k: usize = 0;
        while k < self.unmapped.len()
            invariant
                k <= self.unmapped@.len(),
                r@.map_values(|e: (String, usize)| (e.0@, e.1)) =~= self.unmapped().subrange(0, k as int),
            decreases self.unmapped@.len() - k,
        {
            let ghost before = r@.map_values(|e: (String, usize)| (e.0@, e.1));
            r.push((self.unmapped[k].0.clone(), self.unmapped[k].1));
            assert(r@.map_values(|e: (String, usize)| (e.0@, e.1)) =~= before.push(self.unmapped()[k as int]));
            assert(r@.map_values(|e: (String, usize)| (e.0@, e.1)) =~= self.unmapped().subrange(0, k + 1));
            k += 1;
        }
        r
    }
}

/// How often `k` was counted: its count, or 0 when it is not listed.
pub open spec fn count_of(s: Seq<(Seq<char>, usize)>, k: Seq<char>) -> nat
    decreases s.len(),
{
    if s.len() == 0 {
        0
    } else if s[0].0 == k {
        s[0].1 as nat
    } else {
        count_of(s.drop_first(), k)
    }
}

proof fn lemma_count_at(s: Seq<(Seq<char>, usize)>, i: int, k: Seq<char>)
    requires
        0 <= i < s.len(),
        s[i].0 == k,
        forall|j: int| 0 <= j < i ==> (#[trigger] s[j]).0 != k,
    ensures
        count_of(s, k) == s[i].1 as nat,
    decreases i,
{
    if i > 0 {
        assert(s[0].0 != k);
        assert forall|j: int| 0 <= j < i - 1 implies (#[trigger] s.drop_first()[j]).0 != k by {
            assert(s.drop_first()[j] == s[j + 1]);
        }
        lemma_count_at(s.drop_first(), i - 1, k);
    }
}

proof fn lemma_count_absent(s: Seq<(Seq<char>, usize)>, k: Seq<char>)
    requires
        forall|j: int| 0 <= j < s.len() ==> (#[trigger] s[j]).0 != k,
    ensures
        count_of(s, k) == 0,
    decreases s.len(),
{
    if s.len() > 0 {
        assert(s[0].0 != k);
        assert forall|j: int| 0 <= j < s.len() - 1 implies (#[trigger] s.drop_first()[j]).0 != k by {
            assert(s.drop_first()[j] == s[j + 1]);
        }
        lemma_count_absent(s.drop_first(), k);
    }
}

proof fn lemma_position(s: Seq<(Seq<char>, usize)>, k: Seq<char>)
    ensures
        position(s, k) <= s.len(),
        forall|i: int| 0 <= i < position(s, k) ==> seq_less((#[trigger] s[i]).0, k),
        position(s, k) < s.len() ==> !seq_less(s[position(s, k) as int].0, k),
    decreases s.len(),
{
    if s.len() > 0 && seq_less(s[0].0, k) {
        lemma_position(s.drop_first(), k);
        assert forall|i: int| 0 <= i < position(s, k) implies seq_less((#[trigger] s[i]).0, k) by {
            if i > 0 {
                assert(s[i] == s.drop_first()[i - 1]);
            }
        }
        if position(s, k) < s.len() {
            assert(s[position(s, k) as int] == s.drop_first()[position(s.drop_first(), k) as int]);
        }
    }
}

/// `k` sits in the sorted list at `p` or not at all, and every other key is elsewhere.
proof fn lemma_where(s: Seq<(Seq<char>, usize)>, k: Seq<char>, o: Seq<char>)
    requires
        sorted_keys(s),
        o != k,
    ensures
        ({
            let p = position(s, k) as int;
            &&& forall|j: int| 0 <= j < s.len() && j != p ==> (#[trigger] s[j]).0 != k
            &&& (p < s.len() && s[p].0 == k) || forall|j: int| 0 <= j < s.len() ==> (#[trigger] s[j]).0 != k
        }),
{
    lemma_position(s, k);
    let p = position(s, k) as int;
    assert forall|j: int| 0 <= j < s.len() && j != p implies (#[trigger] s[j]).0 != k by {
        if j < p {
            crate::text::lemma_less_irreflexive(k);
        } else {
            crate::text::lemma_less_total(s[p].0, k);
            if s[p].0 != k {
                crate::text::lemma_less_transitive(k, s[p].0, s[j].0);
                crate::text::lemma_less_irreflexive(k);
            } else {
                crate::text::lemma_less_irreflexive(k);
            }
        }
    }
    if p < s.len() && s[p].0 != k {
        crate::text::lemma_less_total(s[p].0, k);
        crate::text::lemma_less_irreflexive(k);
        assert forall|j: int| 0 <= j < s.len() implies (#[trigger] s[j]).0 != k by {
            if j == p {
            }
        }
    }
}

proof fn lemma_bump_sorted(s: Seq<(Seq<char>, usize)>, k: Seq<char>)
    requires
        sorted_keys(s),
    ensures
        sorted_keys(bump(s, k)),
{
    lemma_position(s, k);
    let p = position(s, k) as int;
    let t = bump(s, k);
    if p < s.len() && s[p].0 == k {
        assert forall|i: int, j: int| 0 <= i < j < t.len() implies seq_less(#[trigger] t[i].0, #[trigger] t[j].0) by {
            assert(t[i].0 == s[i].0 && t[j].0 == s[j].0);
        }
    } else {
        if p < s.len() {
            lemma_less_total(s[p].0, k);
        }
        assert forall|j: int| p <= j < s.len() implies seq_less(k, #[trigger] s[j].0) by {
            if j > p {
                lemma_less_transitive(k, s[p].0, s[j].0);
            }
        }
        assert(t =~= s.insert(p, (k, 1usize)));
        assert forall|i: int, j: int| 0 <= i < j < t.len() implies seq_less(#[trigger] t[i].0, #[trigger] t[j].0) by {
            if j < p {
                assert(t[i] == s[i] && t[j] == s[j]);
            } else if j == p {
                assert(t[i] == s[i]);
            } else if i < p {
                assert(t[i] == s[i] && t[j] == s[j - 1]);
            } else if i == p {
                assert(t[j] == s[j - 1]);
            } else {
                assert(t[i] == s[i - 1] && t[j] == s[j - 1]);
            }
        }
    }
}

/// The unmapped counts after counting each of `kinds` in turn.
pub open spec fn bump_all(s: Seq<(Seq<char>, usize)>, kinds: Seq<Seq<char>>) -> Seq<(Seq<char>, usize)>
    decreases kinds.len(),
{
    if kinds.len() == 0 {
        s
    } else {
        bump(bump_all(s, kinds.drop_last()), kinds.last())
    }
}

/// How many of `kinds` are `k`.
pub open spec fn occurrences(kinds: Seq<Seq<char>>, k: Seq<char>) -> nat
    decreases kinds.len(),
{
    if kinds.len() == 0 {
        0
    } else {
        occurrences(kinds.drop_last(), k) + if kinds.last() == k {
            1nat
        } else {
            0nat
        }
    }
}

/// Over a run of calls that count the unmapped types `kinds` in turn, each type's count grows by
/// the number of times it was counted (while counts stay below `usize::MAX`), and the list stays
/// sorted by type.
pub proof fn unmapped_counts_over_a_run(s: Seq<(Seq<char>, usize)>, kinds: Seq<Seq<char>>, k: Seq<char>)
    requires
        sorted_keys(s),
        count_of(s, k) + kinds.len() <= usize::MAX,
    ensures
        sorted_keys(bump_all(s, kinds)),
        count_of(bump_all(s, kinds), k) == count_of(s, k) + occurrences(kinds, k),
    decreases kinds.len(),
{
    if kinds.len() > 0 {
        let rest = kinds.drop_last();
        unmapped_counts_over_a_run(s, rest, k);
        lemma_occurrences_bounded(rest, k);
        let t = bump_all(s, rest);
        lemma_bump_sorted(t, kinds.last());
        if kinds.last() == k {
            let other = k.push(' ');
            assert(other.len() != k.len());
            unmapped_types_are_counted(t, k, other);
        } else {
            unmapped_types_are_counted(t, kinds.last(), k);
        }
    }
}

proof fn lemma_occurrences_bounded(kinds: Seq<Seq<char>>, k: Seq<char>)
    ensures
        occurrences(kinds, k) <= kinds.len(),
    decreases kinds.len(),
{
    if kinds.len() > 0 {
        lemma_occurrences_bounded(kinds.drop_last(), k);
    }
}

proof fn lemma_target_stats_bounded(data: EffectMapData, stats: Seq<Stat>, kind: Seq<char>, targets: Seq<Seq<char>>)
    ensures
        target_stats(data, stats, kind, targets).len() <= targets.len(),
        unmapped_kind(data, kind) ==> target_stats(data, stats, kind, targets).len() == 0,
    decreases targets.len(),
{
    if targets.len() > 0 {
        lemma_target_stats_bounded(data, stats, kind, targets.drop_last());
    }
}

/// The rows derived for an effect of type `kind` on targets `items` all carry the effect's value
/// and bonus type; a type with a fixed stat gives at most that one row, a type in no table gives
/// none, and any type gives at most one row per target (one target when the effect names none).
pub proof fn derived_rows_follow_the_tables(
    data: EffectMapData,
    stats: Seq<Stat>,
    kind: Seq<char>,
    items: Seq<Seq<char>>,
    rows: Seq<Derived>,
    bonus_type: Option<BonusType>,
    value: i64,
)
    requires
        rows_are(rows, derived_stats(data, stats, kind, items), bonus_type, value),
    ensures
        forall|i: int| 0 <= i < rows.len() ==> (#[trigger] rows[i]).value == value && rows[i].bonus_type == bonus_type,
        lookup(data.fixed@, kind) is Some ==> rows.len() <= 1,
        unmapped_kind(data, kind) ==> rows.len() == 0,
        rows.len() <= targets_of(items).len(),
{
    lemma_target_stats_bounded(data, stats, kind, targets_of(items));
}

/// Effect types with no mapping are counted, not errors: counting `kind` raises its count by
/// one (saturating at `usize::MAX`) and leaves every other type's count as it was.
pub proof fn unmapped_types_are_counted(s: Seq<(Seq<char>, usize)>, kind: Seq<char>, other: Seq<char>)
    requires
        sorted_keys(s),
        other != kind,
    ensures
        count_of(bump(s, kind), kind) == if count_of(s, kind) < usize::MAX {
            count_of(s, kind) + 1
        } else {
            count_of(s, kind)
        },
        count_of(bump(s, kind), other) == count_of(s, other),
{
    lemma_where(s, kind, other);
    lemma_position(s, kind);
    let p = position(s, kind) as int;
    let t = bump(s, kind);
    if p < s.len() && s[p].0 == kind {
        lemma_count_at(s, p, kind);
        assert(t[p].0 == kind);
        assert forall|j: int| 0 <= j < p implies (#[trigger] t[j]).0 != kind by {
            assert(t[j] == s[j]);
        }
        lemma_count_at(t, p, kind);
        if exists|i: int| 0 <= i < s.len() && (#[trigger] s[i]).0 == other {
            let i = choose|i: int| 0 <= i < s.len() && (#[trigger] s[i]).0 == other;
            let f = first_index(s, other, i);
            lemma_count_at(s, f, other);
            assert(t[f] == s[f]);
            assert forall|j: int| 0 <= j < f implies (#[trigger] t[j]).0 != other by {
                assert(t[j].0 == s[j].0);
            }
            lemma_count_at(t, f, other);
        } else {
            lemma_count_absent(s, other);
            assert forall|j: int| 0 <= j < t.len() implies (#[trigger] t[j]).0 != other by {
                assert(t[j].0 == s[j].0);
            }
            lemma_count_absent(t, other);
        }
    } else {
        lemma_count_absent(s, kind);
        assert(t[p] == (kind, 1usize));
        assert forall|j: int| 0 <= j < p implies (#[trigger] t[j]).0 != kind by {
            assert(t[j] == s[j]);
        }
        lemma_count_at(t, p, kind);
        if exists|i: int| 0 <= i < s.len() && (#[trigger] s[i]).0 == other {
            let i = choose|i: int| 0 <= i < s.len() && (#[trigger] s[i]).0 == other;
            let f = first_index(s, other, i);
            lemma_count_at(s, f, other);
            let g = if f < p { f } else { f + 1 };
            assert(t[g] == s[f]);
            assert forall|j: int| 0 <= j < g implies (#[trigger] t[j]).0 != other by {
                if j < p {
                    assert(t[j] == s[j]);
                } else if j > p {
                    assert(t[j] == s[j - 1]);
                }
            }
            lemma_count_at(t, g, other);
        } else {
            lemma_count_absent(s, other);
            assert forall|j: int| 0 <= j < t.len() implies (#[trigger] t[j]).0 != other by {
                if j < p {
                    assert(t[j] == s[j]);
                } else if j > p {
                    assert(t[j] == s[j - 1]);
                }
            }
            lemma_count_absent(t, other);
        }
    }
}

/// The first index at or before `i` holding `k`, given that `i` holds it.
proof fn first_index(s: Seq<(Seq<char>, usize)>, k: Seq<char>, i: int) -> (f: int)
    requires
        0 <= i < s.len(),
        s[i].0 == k,
    ensures
        0 <= f <= i,
        s[f].0 == k,
        forall|j: int| 0 <= j < f ==> (#[trigger] s[j]).0 != k,
    decreases i,
{
    if exists|j: int| 0 <= j < i && (#[trigger] s[j]).0 == k {
        let j = choose|j: int| 0 <= j < i && (#[trigger] s[j]).0 == k;
        first_index(s, k, j)
    } else {
        i
    }
}

} // verus!
