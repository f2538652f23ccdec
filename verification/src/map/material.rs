//! `<Material>` carries wiki artefacts upstream never cleaned: "Gem (material)",
//! "Category:No Material items", "Feysteel (page does not exist)". Normalise to a plain name or
//! nothing.

use vstd::prelude::*;
use crate::text::{
    chars_of, contains, contains_str, eq_str, opt_str, starts_with, starts_with_str, string_of, strip_suffix,
    strip_suffix_str, trim, trim_chars,
};

verus! {

/// Material text that is a wiki artefact rather than a material.
pub open spec fn is_artefact(raw: Seq<char>) -> bool {
    ||| raw.len() == 0
    ||| starts_with(raw, "Category:"@)
    ||| starts_with(raw, "Special:"@)
    ||| contains(raw, "(page does not exist)"@)
    ||| raw == "Enhancement bonus"@
    ||| raw == "Unknown Material"@
    ||| raw == "Sentient Weapon"@
}

/// What [`normalize`] returns: the trimmed name without a ` (material)` suffix, or `None`.
pub open spec fn normalize_spec(raw: Option<Seq<char>>) -> Option<Seq<char>> {
    match raw {
        None => None,
        Some(r) => {
            let t = trim(r);
            if is_artefact(t) {
                None
            } else {
                match strip_suffix(t, " (material)"@) {
                    Some(s) => Some(s),
                    None => Some(t),
                }
            }
        },
    }
}

pub fn normalize(raw: Option<&str>) -> (r: Option<String>)
    ensures
        r matches Some(s) ==> normalize_spec(opt_str(raw)) == Some(s@),
        r is None ==> normalize_spec(opt_str(raw)) is None,
{
    let raw = match raw {
        Some(x) => x,
        None => return None,
    };
    let c = chars_of(raw);
    let t = trim_chars(c.as_slice());
    let t = t.as_slice();
    if t.len() == 0 || starts_with_str(t, "Category:") || starts_with_str(t, "Special:") || contains_str(
        t,
        "(page does not exist)",
    ) || eq_str(t, "Enhancement bonus") || eq_str(t, "Unknown Material") || eq_str(t, "Sentient Weapon") {
        return None;
    }
    match strip_suffix_str(t, " (material)") {
        Some(s) => Some(string_of(s.as_slice())),
        None => Some(string_of(t)),
    }
}

} // verus!
