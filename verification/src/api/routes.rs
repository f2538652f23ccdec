//! The list endpoints' query parameters.

use vstd::prelude::*;
use crate::api::db::{like_pattern, like_pattern_spec, Filters, SqlValue};
use crate::api::error::ApiError;
use crate::model::{category_name, feat_source_name, FeatSource, ItemCategory};
use crate::text::{chars_of, decimal, replace_all, to_lowercase, trim, trim_chars, unicode_lower};

verus! {

/// `/v1/items` filters.
#[derive(Debug, Clone, Default)]
pub struct ItemFilter {
    /// Case-insensitive substring of the name.
    pub q: Option<String>,
    /// Equipment slot name, e.g. `Main Hand`.
    pub slot: Option<String>,
    /// `Armor`, `Shield`, `Weapon`, `Jewelry` or `Clothing`.
    pub category: Option<String>,
    pub min_level: Option<i64>,
    pub max_level: Option<i64>,
    /// Adventure pack name; matches items dropping in that pack's quests.
    pub pack: Option<String>,
    /// `true` for raid loot only.
    pub raid: Option<bool>,
    /// Stat name; matches items with a bonus to it.
    pub stat: Option<String>,
    /// Page size, 1–10000 (default 100).
    pub limit: Option<i64>,
    pub offset: Option<i64>,
}

/// `/v1/augments` filters.
#[derive(Debug, Clone, Default)]
pub struct AugmentFilter {
    pub q: Option<String>,
    /// Slot type label, e.g. `red` or `isle of dread: scale (armor)`.
    pub slot: Option<String>,
    /// Source family (file stem), e.g. `Ruby`.
    pub family: Option<String>,
    pub max_level: Option<i64>,
    pub limit: Option<i64>,
    pub offset: Option<i64>,
}

/// `/v1/feats` filters.
#[derive(Debug, Clone, Default)]
pub struct FeatFilter {
    pub q: Option<String>,
    /// `standard`, `class` or `race`.
    pub source: Option<String>,
    /// A feat group such as `Standard`, `Epic Feat` or `Metamagics`.
    pub group: Option<String>,
    /// `Train`, `Automatic`, `Favor`, …
    pub acquire: Option<String>,
    pub limit: Option<i64>,
    pub offset: Option<i64>,
}

/// `/v1/spells` filters.
#[derive(Debug, Clone, Default)]
pub struct SpellFilter {
    pub q: Option<String>,
    /// Spell school, e.g. `Evocation`.
    pub school: Option<String>,
    /// Class name; lists the spells on that class's list.
    pub class: Option<String>,
    pub limit: Option<i64>,
    pub offset: Option<i64>,
}


/// What `format!("{:?}", s)` writes for a string: the quoted, escaped form.
pub uninterp spec fn debug_text(s: Seq<char>) -> Seq<char>;

/// `<str as Debug>::fmt`, through `format!`. The text is [`debug_text`] of `s`.
#[verifier::external_body]
fn debug_quoted(s: &str) -> (r: String)
    ensures
        r@ == debug_text(s@),
{
    format!("{s:?}")
}

/// A positional parameter with its text as characters.
pub enum SqlValueView {
    Integer(i64),
    Text(Seq<char>),
}

pub open spec fn value_view(v: SqlValue) -> SqlValueView {
    match v {
        SqlValue::Integer(n) => SqlValueView::Integer(n),
        SqlValue::Text(t) => SqlValueView::Text(t@),
    }
}

pub open spec fn value_views(vs: Seq<SqlValue>) -> Seq<SqlValueView> {
    vs.map_values(|v: SqlValue| value_view(v))
}

/// A clause to add: its text, and the value bound to its `?`, if it has one.
pub type Bind = (Seq<char>, Option<SqlValueView>);

/// The clauses and parameters after adding `bs` in order: a bound clause's `?` becomes `?N`, `N`
/// the parameter's 1-based position.
pub open spec fn apply_binds(bs: Seq<Bind>) -> (Seq<Seq<char>>, Seq<SqlValueView>)
    decreases bs.len(),
{
    if bs.len() == 0 {
        (Seq::empty(), Seq::empty())
    } else {
        let (cs, ps) = apply_binds(bs.drop_last());
        let (c, v) = bs.last();
        match v {
            Some(v) => (cs.push(replace_all(c, seq!['?'], seq!['?'] + decimal(ps.len() + 1))), ps.push(v)),
            None => (cs.push(c), ps),
        }
    }
}

/// `bs` with a bound clause added when there is a value.
pub open spec fn bind_if(bs: Seq<Bind>, clause: Seq<char>, value: Option<SqlValueView>) -> Seq<Bind> {
    match value {
        Some(v) => bs.push((clause, Some(v))),
        None => bs,
    }
}

pub open spec fn text_view(s: Option<String>) -> Option<SqlValueView> {
    match s {
        Some(t) => Some(SqlValueView::Text(t@)),
        None => None,
    }
}

pub open spec fn int_view(n: Option<i64>) -> Option<SqlValueView> {
    match n {
        Some(v) => Some(SqlValueView::Integer(v)),
        None => None,
    }
}

/// The name-substring value of a filter: the `LIKE` pattern of `q`, unless `q` is blank.
pub open spec fn q_view(q: Option<String>) -> Option<SqlValueView> {
    match q {
        Some(q) => if trim(q@).len() > 0 {
            Some(SqlValueView::Text(like_pattern_spec(q@)))
        } else {
            None
        },
        None => None,
    }
}

pub open spec fn name_clause() -> Seq<char> {
    "i.name LIKE ? ESCAPE '\\'"@
}
pub open spec fn pack_clause() -> Seq<char> {
    "EXISTS (SELECT 1 FROM quest_loot ql JOIN quests q ON q.id = ql.quest_id JOIN adventure_packs ap ON ap.id = q.pack_id WHERE ql.item_id = i.id AND ap.name = ?)"@
}
pub open spec fn raid_clause() -> Seq<char> {
    "EXISTS (SELECT 1 FROM quest_loot ql WHERE ql.item_id = i.id AND ql.loot_type = 'raid')"@
}
pub open spec fn stat_clause() -> Seq<char> {
    "EXISTS (SELECT 1 FROM item_bonuses ib JOIN bonuses b ON b.id = ib.bonus_id JOIN stats s ON s.id = b.stat_id WHERE ib.item_id = i.id AND s.name = ?)"@
}

/// The clauses an item filter adds, in order: a name substring (unless `q` is blank), slot,
/// category, level range, pack, raid loot and stat.
pub open spec fn item_binds(f: ItemFilter) -> Seq<Bind> {
    let b1 = bind_if(Seq::empty(), name_clause(), q_view(f.q));
    let b2 = bind_if(b1, "es.name = ?"@, text_view(f.slot));
    let b3 = bind_if(b2, "i.item_category = ?"@, text_view(f.category));
    let b4 = bind_if(b3, "i.minimum_level >= ?"@, int_view(f.min_level));
    let b5 = bind_if(b4, "i.minimum_level <= ?"@, int_view(f.max_level));
    let b6 = bind_if(b5, pack_clause(), text_view(f.pack));
    let b7 = if f.raid == Some(true) {
        b6.push((raid_clause(), None))
    } else {
        b6
    };
    bind_if(b7, stat_clause(), text_view(f.stat))
}

proof fn lemma_bind_if(bs: Seq<Bind>, c: Seq<char>, v: Option<SqlValueView>)
    ensures
        bind_if(bs, c, v).len() == bs.len() + if v is Some {
            1int
        } else {
            0int
        },
        forall|x: Bind| bs.contains(x) ==> #[trigger] bind_if(bs, c, v).contains(x),
        v matches Some(w) ==> bind_if(bs, c, v).contains((c, Some(w))) && bind_if(bs, c, v).last() == (c, Some(w)),
{
    assert forall|x: Bind| bs.contains(x) implies #[trigger] bind_if(bs, c, v).contains(x) by {
        let k = choose|k: int| 0 <= k < bs.len() && bs[k] == x;
        assert(bind_if(bs, c, v)[k] == x);
    }
    if let Some(w) = v {
        assert(bind_if(bs, c, v)[bs.len() as int] == (c, Some(w)));
    }
}

proof fn lemma_push_keeps(bs: Seq<Bind>, y: Bind)
    ensures
        forall|x: Bind| bs.contains(x) ==> #[trigger] bs.push(y).contains(x),
        bs.push(y).contains(y),
{
    assert forall|x: Bind| bs.contains(x) implies #[trigger] bs.push(y).contains(x) by {
        let k = choose|k: int| 0 <= k < bs.len() && bs[k] == x;
        assert(bs.push(y)[k] == x);
    }
    assert(bs.push(y)[bs.len() as int] == y);
}

proof fn lemma_apply_binds(bs: Seq<Bind>)
    ensures
        apply_binds(bs).0.len() == bs.len(),
        bs.len() > 0 ==> (bs.last().1 matches Some(v) ==> apply_binds(bs).1.len() > 0 && apply_binds(bs).1.last() == v),
    decreases bs.len(),
{
    if bs.len() > 0 {
        lemma_apply_binds(bs.drop_last());
    }
}

/// An item filter adds exactly one clause per filter the request sets (a non-blank `q`, slot,
/// category, minimum and maximum level, pack, `raid=true`, stat), each with its own value bound:
/// the name pattern, the text or the number given; a stat filter's clause comes last, bound to
/// the stat's name.
pub proof fn item_filters_bind_each_present_field(f: ItemFilter, fs: Filters)
    requires
        filters_are(fs, item_binds(f)),
    ensures
        fs.clause_list().len() == (if q_view(f.q) is Some { 1int } else { 0int }) + (if f.slot is Some {
            1int
        } else {
            0int
        }) + (if f.category is Some { 1int } else { 0int }) + (if f.min_level is Some { 1int } else { 0int }) + (
        if f.max_level is Some { 1int } else { 0int }) + (if f.pack is Some { 1int } else { 0int }) + (if f.raid
            == Some(true) { 1int } else { 0int }) + (if f.stat is Some { 1int } else { 0int }),
        f.q matches Some(q) ==> (trim(q@).len() > 0 <==> q_view(f.q) is Some),
        f.q matches Some(q) ==> (trim(q@).len() > 0 ==> item_binds(f).contains(
            (name_clause(), Some(SqlValueView::Text(like_pattern_spec(q@)))),
        )),
        f.slot matches Some(s) ==> item_binds(f).contains(("es.name = ?"@, Some(SqlValueView::Text(s@)))),
        f.category matches Some(c) ==> item_binds(f).contains(("i.item_category = ?"@, Some(SqlValueView::Text(c@)))),
        f.min_level matches Some(n) ==> item_binds(f).contains(("i.minimum_level >= ?"@, Some(SqlValueView::Integer(n)))),
        f.max_level matches Some(n) ==> item_binds(f).contains(("i.minimum_level <= ?"@, Some(SqlValueView::Integer(n)))),
        f.pack matches Some(p) ==> item_binds(f).contains((pack_clause(), Some(SqlValueView::Text(p@)))),
        f.raid == Some(true) ==> item_binds(f).contains((raid_clause(), None)),
        f.stat matches Some(st) ==> item_binds(f).contains((stat_clause(), Some(SqlValueView::Text(st@))))
            && value_views(fs.param_list()).last() == SqlValueView::Text(st@),
{
    let b1 = bind_if(Seq::empty(), name_clause(), q_view(f.q));
    let b2 = bind_if(b1, "es.name = ?"@, text_view(f.slot));
    let b3 = bind_if(b2, "i.item_category = ?"@, text_view(f.category));
    let b4 = bind_if(b3, "i.minimum_level >= ?"@, int_view(f.min_level));
    let b5 = bind_if(b4, "i.minimum_level <= ?"@, int_view(f.max_level));
    let b6 = bind_if(b5, pack_clause(), text_view(f.pack));
    let b7 = if f.raid == Some(true) {
        b6.push((raid_clause(), None))
    } else {
        b6
    };
    lemma_bind_if(Seq::empty(), name_clause(), q_view(f.q));
    lemma_bind_if(b1, "es.name = ?"@, text_view(f.slot));
    lemma_bind_if(b2, "i.item_category = ?"@, text_view(f.category));
    lemma_bind_if(b3, "i.minimum_level >= ?"@, int_view(f.min_level));
    lemma_bind_if(b4, "i.minimum_level <= ?"@, int_view(f.max_level));
    lemma_bind_if(b5, pack_clause(), text_view(f.pack));
    lemma_push_keeps(b6, (raid_clause(), None));
    lemma_bind_if(b7, stat_clause(), text_view(f.stat));
    lemma_apply_binds(item_binds(f));
    assert(item_binds(f) == bind_if(b7, stat_clause(), text_view(f.stat)));
}

/// The filter's clauses so far are `bs`.
pub open spec fn filters_are(fs: Filters, bs: Seq<Bind>) -> bool {
    (fs.clause_list(), value_views(fs.param_list())) == apply_binds(bs)
}

fn bind_text(fs: &mut Filters, clause: &str, value: &Option<String>, Ghost(bs): Ghost<Seq<Bind>>)
    requires
        filters_are(*old(fs), bs),
        bs.len() < 16,
        old(fs).param_list().len() <= bs.len(),
    ensures
        filters_are(*final(fs), bind_if(bs, clause@, text_view(*value))),
        final(fs).param_list().len() <= bind_if(bs, clause@, text_view(*value)).len(),
{
    match value {
        Some(v) => {
            let ghost before = fs.param_list();
            fs.bind(clause, SqlValue::Text(v.clone()));
            proof {
                let nb = bs.push((clause@, Some(SqlValueView::Text(v@))));
                assert(nb.drop_last() =~= bs);
                assert(value_views(fs.param_list()) =~= value_views(before).push(SqlValueView::Text(v@)));
            }
        },
        None => {},
    }
}

fn bind_int(fs: &mut Filters, clause: &str, value: Option<i64>, Ghost(bs): Ghost<Seq<Bind>>)
    requires
        filters_are(*old(fs), bs),
        bs.len() < 16,
        old(fs).param_list().len() <= bs.len(),
    ensures
        filters_are(*final(fs), bind_if(bs, clause@, int_view(value))),
        final(fs).param_list().len() <= bind_if(bs, clause@, int_view(value)).len(),
{
    match value {
        Some(v) => {
            let ghost before = fs.param_list();
            fs.bind(clause, SqlValue::Integer(v));
            proof {
                let nb = bs.push((clause@, Some(SqlValueView::Integer(v))));
                assert(nb.drop_last() =~= bs);
                assert(value_views(fs.param_list()) =~= value_views(before).push(SqlValueView::Integer(v)));
            }
        },
        None => {},
    }
}

/// The `WHERE` clauses of an item list request. Rejected when the category is not one of ours.
pub fn item_filters(f: &ItemFilter) -> (r: Result<Filters, ApiError>)
    ensures
        match f.category {
            Some(c) => if exists|k: ItemCategory| category_name(k) == c@ {
                r matches Ok(fs) && filters_are(fs, item_binds(*f))
            } else {
                r matches Err(ApiError::BadRequest(m)) && m@ == "unknown category "@ + debug_text(c@)
            },
            None => r matches Ok(fs) && filters_are(fs, item_binds(*f)),
        },
{
    match &f.category {
        Some(c) => {
            if ItemCategory::parse(c.as_str()).is_none() {
                let mut m = chars_of("unknown category ");
                let d = debug_quoted(c.as_str());
                let dc = chars_of(d.as_str());
                crate::text::append_chars(&mut m, dc.as_slice());
                return Err(ApiError::BadRequest(crate::text::string_of(m.as_slice())));
            }
        },
        None => {},
    }
    let mut fs = Filters::new();
    let ghost b0 = Seq::<Bind>::empty();
    assert(value_views(fs.param_list()) =~= Seq::<SqlValueView>::empty());
    let q: Option<String> = match &f.q {
        Some(q) => {
            let qc = chars_of(q.as_str());
            let t = trim_chars(qc.as_slice());
            if t.len() > 0 {
                Some(like_pattern(q.as_str()))
            } else {
                None
            }
        },
        None => None,
    };
    assert(text_view(q) == q_view(f.q));
    bind_text(&mut fs, "i.name LIKE ? ESCAPE '\\'", &q, Ghost(b0));
    let ghost b1 = bind_if(b0, name_clause(), q_view(f.q));
    bind_text(&mut fs, "es.name = ?", &f.slot, Ghost(b1));
    let ghost b2 = bind_if(b1, "es.name = ?"@, text_view(f.slot));
    bind_text(&mut fs, "i.item_category = ?", &f.category, Ghost(b2));
    let ghost b3 = bind_if(b2, "i.item_category = ?"@, text_view(f.category));
    bind_int(&mut fs, "i.minimum_level >= ?", f.min_level, Ghost(b3));
    let ghost b4 = bind_if(b3, "i.minimum_level >= ?"@, int_view(f.min_level));
    bind_int(&mut fs, "i.minimum_level <= ?", f.max_level, Ghost(b4));
    let ghost b5 = bind_if(b4, "i.minimum_level <= ?"@, int_view(f.max_level));
    bind_text(
        &mut fs,
        "EXISTS (SELECT 1 FROM quest_loot ql JOIN quests q ON q.id = ql.quest_id JOIN adventure_packs ap ON ap.id = q.pack_id WHERE ql.item_id = i.id AND ap.name = ?)",
        &f.pack,
        Ghost(b5),
    );
    let ghost b6 = bind_if(b5, pack_clause(), text_view(f.pack));
    let ghost b7 = if f.raid == Some(true) {
        b6.push((raid_clause(), None))
    } else {
        b6
    };
    if f.raid == Some(true) {
        fs.clause("EXISTS (SELECT 1 FROM quest_loot ql WHERE ql.item_id = i.id AND ql.loot_type = 'raid')");
        assert(b7.drop_last() =~= b6);
    }
    bind_text(
        &mut fs,
        "EXISTS (SELECT 1 FROM item_bonuses ib JOIN bonuses b ON b.id = ib.bonus_id JOIN stats s ON s.id = b.stat_id WHERE ib.item_id = i.id AND s.name = ?)",
        &f.stat,
        Ghost(b7),
    );
    Ok(fs)
}

/// The `LIKE` pattern of a name filter, unless it is blank.
fn q_pattern(q: &Option<String>) -> (r: Option<String>)
    ensures
        text_view(r) == q_view(*q),
{
    match q {
        Some(q) => {
            let qc = chars_of(q.as_str());
            let t = trim_chars(qc.as_slice());
            if t.len() > 0 {
                Some(like_pattern(q.as_str()))
            } else {
                None
            }
        },
        None => None,
    }
}

/// `"unknown <what> "` followed by the quoted value.
fn unknown(what: &str, value: &str) -> (r: ApiError)
    ensures
        r matches ApiError::BadRequest(m) && m@ == "unknown "@ + what@ + " "@ + debug_text(value@),
{
    let mut m = chars_of("unknown ");
    let w = chars_of(what);
    crate::text::append_chars(&mut m, w.as_slice());
    crate::text::push_str(&mut m, " ");
    let d = debug_quoted(value);
    let dc = chars_of(d.as_str());
    crate::text::append_chars(&mut m, dc.as_slice());
    ApiError::BadRequest(crate::text::string_of(m.as_slice()))
}

pub open spec fn feat_group_clause() -> Seq<char> {
    "EXISTS (SELECT 1 FROM feat_groups fg WHERE fg.feat_id = f.id AND fg.group_name = ?)"@
}

/// The clauses a feat filter adds, in order: a name substring (unless `q` is blank), source,
/// group and how the feat is acquired.
pub open spec fn feat_binds(f: FeatFilter) -> Seq<Bind> {
    let b1 = bind_if(Seq::empty(), "f.name LIKE ? ESCAPE '\\'"@, q_view(f.q));
    let b2 = bind_if(b1, "f.source_kind = ?"@, text_view(f.source));
    let b3 = bind_if(b2, feat_group_clause(), text_view(f.group));
    bind_if(b3, "f.acquire = ?"@, text_view(f.acquire))
}

/// The `WHERE` clauses of a feat list request. Rejected when the source is not `standard`,
/// `class` or `race`.
pub fn feat_filters(f: &FeatFilter) -> (r: Result<Filters, ApiError>)
    ensures
        match f.source {
            Some(s) => if exists|k: FeatSource| feat_source_name(k) == s@ {
                r matches Ok(fs) && filters_are(fs, feat_binds(*f))
            } else {
                r matches Err(ApiError::BadRequest(m)) && m@ == "unknown source "@ + debug_text(s@)
            },
            None => r matches Ok(fs) && filters_are(fs, feat_binds(*f)),
        },
{
    match &f.source {
        Some(s) => {
            if FeatSource::parse(s.as_str()).is_none() {
                proof {
                    reveal_strlit("source");
                    reveal_strlit("unknown ");
                    reveal_strlit(" ");
                    reveal_strlit("unknown source ");
                    assert("unknown "@ + "source"@ + " "@ =~= "unknown source "@);
                }
                return Err(unknown("source", s.as_str()));
            }
        },
        None => {},
    }
    let mut fs = Filters::new();
    let ghost b0 = Seq::<Bind>::empty();
    assert(value_views(fs.param_list()) =~= Seq::<SqlValueView>::empty());
    let q = q_pattern(&f.q);
    bind_text(&mut fs, "f.name LIKE ? ESCAPE '\\'", &q, Ghost(b0));
    let ghost b1 = bind_if(b0, "f.name LIKE ? ESCAPE '\\'"@, q_view(f.q));
    bind_text(&mut fs, "f.source_kind = ?", &f.source, Ghost(b1));
    let ghost b2 = bind_if(b1, "f.source_kind = ?"@, text_view(f.source));
    bind_text(&mut fs, "EXISTS (SELECT 1 FROM feat_groups fg WHERE fg.feat_id = f.id AND fg.group_name = ?)", &f.group, Ghost(b2));
    let ghost b3 = bind_if(b2, feat_group_clause(), text_view(f.group));
    bind_text(&mut fs, "f.acquire = ?", &f.acquire, Ghost(b3));
    Ok(fs)
}

pub open spec fn school_clause() -> Seq<char> {
    "EXISTS (SELECT 1 FROM json_each(s.schools) j WHERE j.value = ?)"@
}

pub open spec fn class_spell_clause() -> Seq<char> {
    "EXISTS (SELECT 1 FROM class_spells cs JOIN classes c ON c.id = cs.class_id WHERE cs.spell_id = s.id AND c.name = ?)"@
}

/// The clauses a spell filter adds, in order: a name substring (unless `q` is blank), school
/// and the class whose list holds the spell.
pub open spec fn spell_binds(f: SpellFilter) -> Seq<Bind> {
    let b1 = bind_if(Seq::empty(), "s.name LIKE ? ESCAPE '\\'"@, q_view(f.q));
    let b2 = bind_if(b1, school_clause(), text_view(f.school));
    bind_if(b2, class_spell_clause(), text_view(f.class))
}

/// The `WHERE` clauses of a spell list request.
pub fn spell_filters(f: &SpellFilter) -> (r: Filters)
    ensures
        filters_are(r, spell_binds(*f)),
{
    let mut fs = Filters::new();
    let ghost b0 = Seq::<Bind>::empty();
    assert(value_views(fs.param_list()) =~= Seq::<SqlValueView>::empty());
    let q = q_pattern(&f.q);
    bind_text(&mut fs, "s.name LIKE ? ESCAPE '\\'", &q, Ghost(b0));
    let ghost b1 = bind_if(b0, "s.name LIKE ? ESCAPE '\\'"@, q_view(f.q));
    bind_text(&mut fs, "EXISTS (SELECT 1 FROM json_each(s.schools) j WHERE j.value = ?)", &f.school, Ghost(b1));
    let ghost b2 = bind_if(b1, school_clause(), text_view(f.school));
    bind_text(
        &mut fs,
        "EXISTS (SELECT 1 FROM class_spells cs JOIN classes c ON c.id = cs.class_id WHERE cs.spell_id = s.id AND c.name = ?)",
        &f.class,
        Ghost(b2),
    );
    fs
}

pub open spec fn augment_slot_clause() -> Seq<char> {
    "EXISTS (SELECT 1 FROM augment_slots s JOIN augment_slot_types t ON t.id = s.slot_id WHERE s.augment_id = a.id AND t.label = ?)"@
}

pub open spec fn lower_view(s: Option<String>) -> Option<SqlValueView> {
    match s {
        Some(t) => Some(SqlValueView::Text(unicode_lower(t@))),
        None => None,
    }
}

/// The clauses an augment filter adds, in order: a name substring (unless `q` is blank), slot
/// label (lower-cased, as labels are stored), family and a level cap that augments without a
/// minimum level always meet.
pub open spec fn augment_binds(f: AugmentFilter) -> Seq<Bind> {
    let b1 = bind_if(Seq::empty(), "a.name LIKE ? ESCAPE '\\'"@, q_view(f.q));
    let b2 = bind_if(b1, augment_slot_clause(), lower_view(f.slot));
    let b3 = bind_if(b2, "a.family = ?"@, text_view(f.family));
    bind_if(b3, "(a.min_level IS NULL OR a.min_level <= ?)"@, int_view(f.max_level))
}

/// The `WHERE` clauses of an augment list request.
pub fn augment_filters(f: &AugmentFilter) -> (r: Filters)
    ensures
        filters_are(r, augment_binds(*f)),
{
    let mut fs = Filters::new();
    let ghost b0 = Seq::<Bind>::empty();
    assert(value_views(fs.param_list()) =~= Seq::<SqlValueView>::empty());
    let q = q_pattern(&f.q);
    bind_text(&mut fs, "a.name LIKE ? ESCAPE '\\'", &q, Ghost(b0));
    let ghost b1 = bind_if(b0, "a.name LIKE ? ESCAPE '\\'"@, q_view(f.q));
    let slot: Option<String> = match &f.slot {
        Some(s) => {
            let c = chars_of(s.as_str());
            let l = to_lowercase(c.as_slice());
            Some(crate::text::string_of(l.as_slice()))
        },
        None => None,
    };
    assert(text_view(slot) == lower_view(f.slot));
    bind_text(
        &mut fs,
        "EXISTS (SELECT 1 FROM augment_slots s JOIN augment_slot_types t ON t.id = s.slot_id WHERE s.augment_id = a.id AND t.label = ?)",
        &slot,
        Ghost(b1),
    );
    let ghost b2 = bind_if(b1, augment_slot_clause(), lower_view(f.slot));
    bind_text(&mut fs, "a.family = ?", &f.family, Ghost(b2));
    let ghost b3 = bind_if(b2, "a.family = ?"@, text_view(f.family));
    bind_int(&mut fs, "(a.min_level IS NULL OR a.min_level <= ?)", f.max_level, Ghost(b3));
    fs
}

} // verus!
