//! Upstream `<BonusType>` → our bonus type.

use vstd::prelude::*;
use crate::map::{alias_exec, aliased};
use crate::model::{bonus_type_by_name, find_bonus_type, BonusType};
use crate::text::{chars_of, string_of, trim, trim_chars};

verus! {

/// An upstream bonus type spelling with no alias and no bonus type of that name.
#[derive(Debug, Clone, PartialEq, Eq)]
pub struct UnknownBonusType {
    /// The spelling, trimmed.
    pub raw: String,
}

/// What [`normalize`] returns: `None` when upstream left the type unset (`""`, or an alias to
/// the empty name such as `"Not Set"`); the type the (aliased) name names; an error otherwise,
/// carrying the trimmed spelling.
pub open spec fn normalize_spec(
    raw: Seq<char>,
    aliases: Seq<(String, String)>,
    types: Seq<BonusType>,
) -> Result<Option<BonusType>, Seq<char>> {
    let t = trim(raw);
    if t.len() == 0 {
        Ok(None)
    } else {
        let canonical = aliased(aliases, t);
        if canonical.len() == 0 {
            Ok(None)
        } else {
            match bonus_type_by_name(types, canonical) {
                Some(b) => Ok(Some(b)),
                None => Err(t),
            }
        }
    }
}

/// `None` when upstream left the type unset (`""`, `"Not Set"`). An unknown spelling is an error
/// so it gets added to the alias table or to the bonus types, never dropped.
pub fn normalize(raw: &str, aliases: &[(String, String)], types: &[BonusType]) -> (r: Result<
    Option<BonusType>,
    UnknownBonusType,
>)
    ensures
        match r {
            Ok(b) => normalize_spec(raw@, aliases@, types@) == Ok::<Option<BonusType>, Seq<char>>(b),
            Err(e) => normalize_spec(raw@, aliases@, types@) == Err::<Option<BonusType>, Seq<char>>(e.raw@),
        },
{
    let c = chars_of(raw);
    let t = trim_chars(c.as_slice());
    if t.len() == 0 {
        return Ok(None);
    }
    let canonical = alias_exec(aliases, t.as_slice());
    if canonical.len() == 0 {
        return Ok(None);
    }
    match find_bonus_type(types, canonical.as_slice()) {
        Some(b) => Ok(Some(b)),
        None => Err(UnknownBonusType { raw: string_of(t.as_slice()) }),
    }
}

} // verus!
