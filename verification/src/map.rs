//! Upstream vocabulary → ours. The tables are data ([`MappingData`]), loaded once by the caller;
//! every rule that reads them is here.

pub mod augment_slot;
pub mod bonus_type;
pub mod buff;
pub mod effect;
pub mod material;
pub mod placement;

use vstd::prelude::*;
use crate::model::{stat_by_name, Stat};
use crate::text::{chars_eq, chars_of};

verus! {

/// The whole mapping file. Kept as one document so a reader sees every rule in one place. Each
/// table is a list of `(key, value)` pairs with distinct keys.
#[derive(Debug, Clone, Default)]
pub struct MappingData {
    /// Buff types whose `Value1` is the item's `+N` enhancement bonus, not a stat bonus.
    pub enhancement: Vec<String>,
    /// Buff types whose stat is a fixed name regardless of `<Item>`.
    pub fixed: Vec<(String, String)>,
    /// Buff types whose stat name is a template over `<Item>` (`"{item} Resistance"`).
    pub by_item: Vec<(String, String)>,
    /// `<Item>` sub-target spellings that differ from the word our stat names use ("Lawful" → "Law").
    pub item_aliases: Vec<(String, String)>,
    /// Upstream `BonusType` spellings that are not our canonical name. An empty value means NULL.
    pub bonus_type_aliases: Vec<(String, String)>,
    /// `<Weapon>` spellings that differ from `weapon_types.name`.
    pub weapon_aliases: Vec<(String, String)>,
}

/// `(kind, stat)` is the first entry of `table` whose stat name names no stat.
pub open spec fn first_unknown_stat(table: Seq<(String, String)>, stats: Seq<Stat>, kind: Seq<char>, stat: Seq<char>) -> bool {
    exists|i: int|
        0 <= i < table.len() && #[trigger] table[i].0@ == kind && table[i].1@ == stat && stat_by_name(stats, stat) is None
            && forall|j: int| 0 <= j < i ==> stat_by_name(stats, (#[trigger] table[j]).1@) is Some
}

/// The value `table` gives `key`: that of its first pair with this key.
pub open spec fn lookup(table: Seq<(String, String)>, key: Seq<char>) -> Option<Seq<char>>
    decreases table.len(),
{
    if table.len() == 0 {
        None
    } else if table[0].0@ == key {
        Some(table[0].1@)
    } else {
        lookup(table.drop_first(), key)
    }
}

/// `key` after one alias table: its replacement if listed, itself otherwise.
pub open spec fn aliased(table: Seq<(String, String)>, key: Seq<char>) -> Seq<char> {
    match lookup(table, key) {
        Some(v) => v,
        None => key,
    }
}

/// Look `key` up in a table.
pub fn lookup_exec(table: &[(String, String)], key: &[char]) -> (r: Option<Vec<char>>)
    ensures
        match r {
            Some(v) => lookup(table@, key@) == Some(v@),
            None => lookup(table@, key@) is None,
        },
{
    let mut k: usize = 0;
    assert(table@.subrange(0, table@.len() as int) =~= table@);
    while k < table.len()
        invariant
            k <= table@.len(),
            lookup(table@, key@) == lookup(table@.subrange(k as int, table@.len() as int), key@),
        decreases table@.len() - k,
    {
        let n = chars_of(table[k].0.as_str());
        assert(table@.subrange(k as int, table@.len() as int)[0] == table@[k as int]);
        if chars_eq(n.as_slice(), key) {
            return Some(chars_of(table[k].1.as_str()));
        }
        assert(table@.subrange(k as int, table@.len() as int).drop_first() =~= table@.subrange(
            k + 1,
            table@.len() as int,
        ));
        k += 1;
    }
    None
}

/// `key` through an alias table.
pub fn alias_exec(table: &[(String, String)], key: &[char]) -> (r: Vec<char>)
    ensures
        r@ == aliased(table@, key@),
{
    match lookup_exec(table, key) {
        Some(v) => v,
        None => crate::text::slice_chars(key, 0, key.len()),
    }
}

} // verus!
