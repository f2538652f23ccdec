//! The column values of the feat, stance, DC, attack and feat-slot rows.

use vstd::prelude::*;
use crate::rows::{nonempty, nonempty_spec};
use crate::api::etag::hex_digit;
use crate::text::{join, opt_str, opt_string, trim, trim_str, views};
use crate::xml::classes::FeatSlot;
use crate::xml::feats::{Attack, Dc, Feat, Stance};

verus! {

/// One character as it stands inside a JSON string that serde_json writes: `"` and `\` behind a
/// backslash, the controls with a short escape as `\b`, `\t`, `\n`, `\f`, `\r`, the other
/// controls below U+0020 as `\u00` and two lower-case hex digits, every other character as is.
pub open spec fn json_char(c: char) -> Seq<char> {
    if c == '"' {
        seq!['\\', '"']
    } else if c == '\\' {
        seq!['\\', '\\']
    } else if c == '\u{8}' {
        seq!['\\', 'b']
    } else if c == '\t' {
        seq!['\\', 't']
    } else if c == '\n' {
        seq!['\\', 'n']
    } else if c == '\u{c}' {
        seq!['\\', 'f']
    } else if c == '\r' {
        seq!['\\', 'r']
    } else if (c as u32) < 0x20 {
        seq!['\\', 'u', '0', '0', hex_digit((c as u32 / 16) as nat), hex_digit((c as u32 % 16) as nat)]
    } else {
        seq![c]
    }
}

/// The characters of a string, each as [`json_char`] writes it.
pub open spec fn json_escaped(s: Seq<char>) -> Seq<char>
    decreases s.len(),
{
    if s.len() == 0 {
        Seq::empty()
    } else {
        json_escaped(s.drop_last()) + json_char(s.last())
    }
}

/// A string as a JSON string literal: quoted and escaped.
pub open spec fn json_quoted(s: Seq<char>) -> Seq<char> {
    seq!['"'] + json_escaped(s) + seq!['"']
}

/// The JSON text serde_json writes for a list of strings: the quoted strings between `[` and
/// `]`, separated by `,` with no space (`["a","b"]`, `[]`).
pub open spec fn json_text(values: Seq<Seq<char>>) -> Seq<char> {
    seq!['['] + join(values.map_values(|v: Seq<char>| json_quoted(v)), seq![',']) + seq![']']
}

/// The JSON column for a list of strings: absent when the list is empty.
pub open spec fn json_opt(values: Seq<Seq<char>>) -> Option<Seq<char>> {
    if values.len() == 0 {
        None
    } else {
        Some(json_text(values))
    }
}

/// `serde_json::to_string` on a list of strings: the text is [`json_text`] of the strings, as its
/// compact formatter writes a sequence and its escape table escapes a string. It succeeds:
/// serde_json reports an error only when a value's `Serialize` impl fails or a map has
/// non-string keys, and a string's impl writes it without failing.
#[verifier::external_body]
fn to_json(values: &Vec<String>) -> (r: Option<String>)
    ensures
        r is Some,
        r matches Some(s) ==> s@ == json_text(views(values@)),
{
    serde_json::to_string(values).ok()
}

/// A list of strings as a JSON array, absent when the list is empty.
pub fn json_strings(values: &Vec<String>) -> (r: Option<String>)
    ensures
        opt_string(r) == json_opt(views(values@)),
{
    if values.len() == 0 {
        None
    } else {
        to_json(values)
    }
}

fn opt_as_str(s: &Option<String>) -> (r: Option<&str>)
    ensures
        opt_str(r) == opt_string(*s),
{
    match s {
        Some(t) => Some(t.as_str()),
        None => None,
    }
}

/// The columns of a `feats` row, less its source.
#[derive(Debug, Clone, PartialEq, Eq)]
pub struct FeatRow {
    pub name: String,
    pub description: Option<String>,
    pub icon: Option<String>,
    pub acquire: Option<String>,
    pub max_times_acquire: Option<i64>,
    pub sphere: Option<String>,
    pub auto_acquire_ignores_requirements: bool,
}

/// A feat's row: text columns trimmed and blank ones absent; whether its automatic acquisition
/// ignores requirements (false without one).
pub fn feat_row<N>(f: &Feat<N>) -> (r: FeatRow)
    ensures
        r.name == f.name,
        opt_string(r.description) == nonempty_spec(opt_string(f.description)),
        opt_string(r.icon) == nonempty_spec(opt_string(f.icon)),
        opt_string(r.acquire) == nonempty_spec(opt_string(f.acquire)),
        r.max_times_acquire == f.max_times_acquire,
        opt_string(r.sphere) == nonempty_spec(opt_string(f.sphere)),
        r.auto_acquire_ignores_requirements == (f.automatic_acquisition matches Some(a)
            && a.ignore_requirements),
{
    let ignore = match &f.automatic_acquisition {
        Some(a) => a.ignore_requirements,
        None => false,
    };
    FeatRow {
        name: f.name.clone(),
        description: nonempty(opt_as_str(&f.description)),
        icon: nonempty(opt_as_str(&f.icon)),
        acquire: nonempty(opt_as_str(&f.acquire)),
        max_times_acquire: f.max_times_acquire,
        sphere: nonempty(opt_as_str(&f.sphere)),
        auto_acquire_ignores_requirements: ignore,
    }
}

/// The columns of a `stances` row, less its owner and position.
#[derive(Debug, Clone, PartialEq, Eq)]
pub struct StanceRow {
    pub name: String,
    pub description: Option<String>,
    pub icon: Option<String>,
    pub group_name: Option<String>,
    pub auto_controlled: bool,
    pub incompatible: Option<String>,
}

/// A stance's row: the name trimmed, blank text absent, incompatible stances as JSON.
pub fn stance_row(s: &Stance) -> (r: StanceRow)
    ensures
        r.name@ == trim(s.name@),
        opt_string(r.description) == nonempty_spec(opt_string(s.description)),
        opt_string(r.icon) == nonempty_spec(opt_string(s.icon)),
        opt_string(r.group_name) == nonempty_spec(opt_string(s.group)),
        r.auto_controlled == s.auto_controlled is Some,
        opt_string(r.incompatible) == json_opt(views(s.incompatible@)),
{
    StanceRow {
        name: trim_str(s.name.as_str()),
        description: nonempty(opt_as_str(&s.description)),
        icon: nonempty(opt_as_str(&s.icon)),
        group_name: nonempty(opt_as_str(&s.group)),
        auto_controlled: s.auto_controlled.is_some(),
        incompatible: json_strings(&s.incompatible),
    }
}

/// The columns of a `dcs` row, less its owner, position and amount.
#[derive(Debug, Clone, PartialEq, Eq)]
pub struct DcRow {
    pub name: Option<String>,
    pub description: Option<String>,
    pub icon: Option<String>,
    pub dc_type: Option<String>,
    pub dc_versus: Option<String>,
    pub mod_ability: Option<String>,
    pub tactical: Option<String>,
    pub other: Option<String>,
    pub skill: Option<String>,
    pub class_level: Option<String>,
    pub base_class_level: Option<String>,
}

/// A DC's row: blank text absent, the modifying abilities as JSON.
pub fn dc_row(d: &Dc) -> (r: DcRow)
    ensures
        opt_string(r.name) == nonempty_spec(opt_string(d.name)),
        opt_string(r.description) == nonempty_spec(opt_string(d.description)),
        opt_string(r.icon) == nonempty_spec(opt_string(d.icon)),
        opt_string(r.dc_type) == nonempty_spec(opt_string(d.dc_type)),
        opt_string(r.dc_versus) == nonempty_spec(opt_string(d.dc_versus)),
        opt_string(r.mod_ability) == json_opt(views(d.mod_ability@)),
        opt_string(r.tactical) == nonempty_spec(opt_string(d.tactical)),
        opt_string(r.other) == nonempty_spec(opt_string(d.other)),
        opt_string(r.skill) == nonempty_spec(opt_string(d.skill)),
        opt_string(r.class_level) == nonempty_spec(opt_string(d.class_level)),
        opt_string(r.base_class_level) == nonempty_spec(opt_string(d.base_class_level)),
{
    DcRow {
        name: nonempty(opt_as_str(&d.name)),
        description: nonempty(opt_as_str(&d.description)),
        icon: nonempty(opt_as_str(&d.icon)),
        dc_type: nonempty(opt_as_str(&d.dc_type)),
        dc_versus: nonempty(opt_as_str(&d.dc_versus)),
        mod_ability: json_strings(&d.mod_ability),
        tactical: nonempty(opt_as_str(&d.tactical)),
        other: nonempty(opt_as_str(&d.other)),
        skill: nonempty(opt_as_str(&d.skill)),
        class_level: nonempty(opt_as_str(&d.class_level)),
        base_class_level: nonempty(opt_as_str(&d.base_class_level)),
    }
}

/// An attack's row `(name, description, icon)`: blank text absent.
pub fn attack_row(a: &Attack) -> (r: (Option<String>, Option<String>, Option<String>))
    ensures
        opt_string(r.0) == nonempty_spec(opt_string(a.name)),
        opt_string(r.1) == nonempty_spec(opt_string(a.description)),
        opt_string(r.2) == nonempty_spec(opt_string(a.icon)),
{
    (nonempty(opt_as_str(&a.name)), nonempty(opt_as_str(&a.description)), nonempty(opt_as_str(&a.icon)))
}

/// A feat slot's row `(level, feat type, auto populate, singular, update list)`: the type trimmed,
/// the update list as JSON.
pub fn feat_slot_row(s: &FeatSlot) -> (r: (i64, String, bool, bool, Option<String>))
    ensures
        r.0 == s.level,
        r.1@ == trim(s.feat_type@),
        r.2 == s.auto_populate is Some,
        r.3 == s.singular is Some,
        opt_string(r.4) == json_opt(views(s.update_list@)),
{
    (
        s.level,
        trim_str(s.feat_type.as_str()),
        s.auto_populate.is_some(),
        s.singular.is_some(),
        json_strings(&s.update_list),
    )
}

} // verus!
