//! The values the database rows hold, computed from parsed upstream records: display strings,
//! labels, the quest index that links items to the quests they drop in, and the build report.
//! Writing the rows is the application's part.

pub mod caches;
pub mod character_rows;
pub mod item_plan;
pub mod modifier_rows;
pub mod quest_index;
pub mod spell_rows;
pub mod timestamp;

use vstd::prelude::*;
use crate::text::{
    append_chars, chars_of, opt_str, decimal, decimal_int, decimal_signed, join, join_chars, kept, kept_parts,
    push_str, render_i64, render_i64_signed, replace_all, replace_chars, string_of, trim, trim_chars,
    views,
};

verus! {

/// What one build wrote, per family.
#[derive(Debug, Default, Clone, PartialEq, Eq)]
pub struct BuildReport {
    pub items_written: usize,
    pub items_skipped_cosmetic: usize,
    pub bonuses: usize,
    pub effects: usize,
    pub quests: usize,
    pub quest_loot_links: usize,
    pub augment_slot_types: usize,
    pub augments: usize,
    pub set_bonuses: usize,
    pub filigrees: usize,
    pub clickies: usize,
    pub modifiers: usize,
    pub feats: usize,
    pub races: usize,
    pub classes: usize,
    pub enhancement_trees: usize,
    pub enhancements: usize,
    pub spells: usize,
    /// Tree files naming a tree already written; the first definition wins.
    pub duplicate_trees_skipped: usize,
    /// Spells naming a spell already written; the first definition wins.
    pub duplicate_spells_skipped: usize,
    /// Effect types the effect map could not map onto a stat, with how often each occurred. They
    /// are still stored as modifiers; this is the to-do list for the effect map.
    pub unmapped_effect_types: Vec<(String, usize)>,
}

/// Trimmed text, or `None` when absent or blank.
pub open spec fn nonempty_spec(s: Option<Seq<char>>) -> Option<Seq<char>> {
    match s {
        Some(t) => if trim(t).len() > 0 {
            Some(trim(t))
        } else {
            None
        },
        None => None,
    }
}

/// Trimmed text, or `None` when absent or blank.
pub fn nonempty(s: Option<&str>) -> (r: Option<String>)
    ensures
        r matches Some(t) ==> nonempty_spec(opt_str(s)) == Some(t@),
        r is None ==> nonempty_spec(opt_str(s)) is None,
{
    match s {
        Some(x) => {
            let c = chars_of(x);
            let t = trim_chars(c.as_slice());
            if t.len() > 0 {
                Some(string_of(t.as_slice()))
            } else {
                None
            }
        },
        None => None,
    }
}

/// The trimmed non-blank parts joined by `sep`, or `None` when none is left.
pub open spec fn join_kept(parts: Seq<Seq<char>>, sep: Seq<char>) -> Option<Seq<char>> {
    let k = kept_parts(parts, false);
    if k.len() == 0 {
        None
    } else {
        Some(join(k, sep))
    }
}

fn join_kept_exec(parts: &[String], sep: &str) -> (r: Option<String>)
    ensures
        r matches Some(t) ==> join_kept(views(parts@), sep@) == Some(t@),
        r is None ==> join_kept(views(parts@), sep@) is None,
{
    let k = kept(parts, false);
    if k.len() == 0 {
        None
    } else {
        let j = join_chars(&k, sep);
        Some(string_of(j.as_slice()))
    }
}

/// Paragraphs joined by newlines, blank ones dropped.
pub fn join_lines(parts: &[String]) -> (r: Option<String>)
    ensures
        r matches Some(t) ==> join_kept(views(parts@), "\n"@) == Some(t@),
        r is None ==> join_kept(views(parts@), "\n"@) is None,
{
    join_kept_exec(parts, "\n")
}

/// Parts joined by `, `, blank ones dropped.
pub fn join_nonempty(parts: &[String]) -> (r: Option<String>)
    ensures
        r matches Some(t) ==> join_kept(views(parts@), ", "@) == Some(t@),
        r is None ==> join_kept(views(parts@), ", "@) is None,
{
    join_kept_exec(parts, ", ")
}

/// The item's page on the DDO wiki: spaces become `_`, `+` is percent-encoded.
pub open spec fn wiki_url_spec(name: Seq<char>) -> Seq<char> {
    "https://ddowiki.com/page/Item:"@ + replace_all(replace_all(name, " "@, "_"@), "+"@, "%2B"@)
}

pub fn wiki_url(name: &str) -> (r: String)
    ensures
        r@ == wiki_url_spec(name@),
{
    proof {
        reveal_strlit(" ");
        reveal_strlit("+");
    }
    let n = chars_of(name);
    let sp = chars_of(" ");
    let us = chars_of("_");
    let plus = chars_of("+");
    let enc = chars_of("%2B");
    let a = replace_chars(n.as_slice(), sp.as_slice(), us.as_slice());
    let b = replace_chars(a.as_slice(), plus.as_slice(), enc.as_slice());
    let mut out: Vec<char> = Vec::new();
    push_str(&mut out, "https://ddowiki.com/page/Item:");
    append_chars(&mut out, b.as_slice());
    string_of(out.as_slice())
}

/// `3.6[1d10] + 7 Good, Magic, Pierce, Slash`, the legacy display form. `multiplier` is the
/// weapon's damage multiplier already rendered as text.
pub open spec fn render_damage_spec(
    multiplier: Option<Seq<char>>,
    dice: Option<(i64, i64, Option<i64>)>,
    enhancement: Option<i64>,
    bypass: Seq<Seq<char>>,
) -> Option<Seq<char>> {
    match dice {
        None => None,
        Some((n, s, b)) => {
            let m = match multiplier {
                Some(m) => m,
                None => Seq::empty(),
            };
            let bonus = match b {
                Some(b) => if b != 0 {
                    decimal_signed(b as int)
                } else {
                    Seq::empty()
                },
                None => Seq::empty(),
            };
            let enh = match enhancement {
                Some(e) => " + "@ + decimal_int(e as int),
                None => Seq::empty(),
            };
            let k = kept_parts(bypass, true);
            let by = if k.len() == 0 {
                Seq::empty()
            } else {
                " "@ + join(k, ", "@)
            };
            Some(m + "["@ + decimal_int(n as int) + "d"@ + decimal_int(s as int) + bonus + "]"@ + enh + by)
        },
    }
}

pub fn render_damage(
    multiplier: Option<&str>,
    dice: Option<(i64, i64, Option<i64>)>,
    enhancement: Option<i64>,
    bypass: &[String],
) -> (r: Option<String>)
    ensures
        r matches Some(t) ==> render_damage_spec(opt_str(multiplier), dice, enhancement, views(bypass@))
            == Some(t@),
        r is None ==> render_damage_spec(opt_str(multiplier), dice, enhancement, views(bypass@)) is None,
{
    let (n, s, b) = match dice {
        Some(d) => d,
        None => return None,
    };
    let mut out: Vec<char> = Vec::new();
    if let Some(m) = multiplier {
        push_str(&mut out, m);
    }
    let ghost m_part = out@;
    push_str(&mut out, "[");
    let nd = render_i64(n);
    append_chars(&mut out, nd.as_slice());
    push_str(&mut out, "d");
    let sd = render_i64(s);
    append_chars(&mut out, sd.as_slice());
    let ghost before_bonus = out@;
    if let Some(b) = b {
        if b != 0 {
            let bd = render_i64_signed(b);
            append_chars(&mut out, bd.as_slice());
        }
    }
    let ghost after_bonus = out@;
    push_str(&mut out, "]");
    let ghost before_enh = out@;
    if let Some(e) = enhancement {
        push_str(&mut out, " + ");
        let ed = render_i64(e);
        append_chars(&mut out, ed.as_slice());
    }
    let ghost before_by = out@;
    let k = kept(bypass, true);
    if k.len() > 0 {
        push_str(&mut out, " ");
        let j = join_chars(&k, ", ");
        append_chars(&mut out, j.as_slice());
    }
    proof {
        let spec_m = match multiplier {
            Some(m) => m@,
            None => Seq::<char>::empty(),
        };
        assert(m_part =~= spec_m);
    }
    let ghost bonus_part = after_bonus.subrange(before_bonus.len() as int, after_bonus.len() as int);
    assert(after_bonus =~= before_bonus + bonus_part);
    let ghost enh_part = before_by.subrange(before_enh.len() as int, before_by.len() as int);
    assert(before_by =~= before_enh + enh_part);
    let ghost by_part = out@.subrange(before_by.len() as int, out@.len() as int);
    assert(out@ =~= before_by + by_part);
    let r = string_of(out.as_slice());
    proof {
        let spec = render_damage_spec(opt_str(multiplier), dice, enhancement, views(bypass@));
        let spec_m = match multiplier {
            Some(m) => m@,
            None => Seq::<char>::empty(),
        };
        assert(spec->0 =~= m_part + "["@ + decimal_int(n as int) + "d"@ + decimal_int(s as int) + bonus_part
            + "]"@ + enh_part + by_part);
    }
    Some(r)
}

/// The critical profile: `20 / x2` for a threat range of one, `16-20 / x2` for five.
pub open spec fn critical_spec(range: Option<i64>, mult: Option<i64>) -> Option<Seq<char>> {
    match (range, mult) {
        (Some(range), Some(mult)) => if range <= 1 {
            Some("20 / x"@ + decimal_int(mult as int))
        } else {
            Some(decimal_int(21 - range) + "-20 / x"@ + decimal_int(mult as int))
        },
        _ => None,
    }
}

pub fn critical_text(range: Option<i64>, mult: Option<i64>) -> (r: Option<String>)
    ensures
        r matches Some(t) ==> critical_spec(range, mult) == Some(t@),
        r is None ==> critical_spec(range, mult) is None,
{
    match (range, mult) {
        (Some(range), Some(mult)) => {
            let mut out: Vec<char> = Vec::new();
            if range <= 1 {
                push_str(&mut out, "20 / x");
            } else {
                let d = render_i64(21 - range);
                append_chars(&mut out, d.as_slice());
                push_str(&mut out, "-20 / x");
            }
            let md = render_i64(mult);
            append_chars(&mut out, md.as_slice());
            Some(string_of(out.as_slice()))
        },
        _ => None,
    }
}

/// A `bonuses` row's name: the stat with its signed value (`Strength +8`, `Hit Points -5`).
pub open spec fn bonus_label_spec(stat: Seq<char>, value: Option<i64>) -> Seq<char> {
    match value {
        Some(v) => if v < 0 {
            stat + " "@ + decimal_int(v as int)
        } else {
            stat + " +"@ + decimal_int(v as int)
        },
        None => stat,
    }
}

pub fn bonus_label(stat: &str, value: Option<i64>) -> (r: String)
    ensures
        r@ == bonus_label_spec(stat@, value),
{
    let mut out = chars_of(stat);
    match value {
        Some(v) => {
            if v < 0 {
                push_str(&mut out, " ");
            } else {
                push_str(&mut out, " +");
            }
            let d = render_i64(v);
            append_chars(&mut out, d.as_slice());
        },
        None => {},
    }
    string_of(out.as_slice())
}

} // verus!
