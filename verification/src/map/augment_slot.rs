//! `<ItemAugment><Type>` → an `augment_slot_types` row. Labels follow the legacy database's
//! conventions (`lamordia: melancholic (accessory)`, `isle of dread: scale (weapon)`) so the
//! frontend's existing display keeps working.

use vstd::prelude::*;
use crate::text::{
    append_chars, chars_of, decimal, eq_str, owned, parse_u32, parse_unsigned, push_str, render_u64,
    split_once, split_once_exec, string_of, strip_prefix, strip_prefix_str, strip_suffix, strip_suffix_str,
    to_lowercase, trim, trim_chars, unicode_lower,
};

verus! {

#[derive(Debug, Clone, PartialEq, Eq)]
pub struct SlotSpec {
    pub label: String,
    pub family: String,
    pub variant: String,
    pub qualifier: Option<String>,
}

/// `(label, family, variant, qualifier)`.
pub type SlotSpecView = (Seq<char>, Seq<char>, Seq<char>, Option<Seq<char>>);

impl View for SlotSpec {
    type V = SlotSpecView;

    open spec fn view(&self) -> SlotSpecView {
        (
            self.label@,
            self.family@,
            self.variant@,
            match self.qualifier {
                Some(q) => Some(q@),
                None => None,
            },
        )
    }
}

/// The standard gem colours.
pub open spec fn is_colour(s: Seq<char>) -> bool {
    ||| s == "Red"@
    ||| s == "Green"@
    ||| s == "Blue"@
    ||| s == "Orange"@
    ||| s == "Purple"@
    ||| s == "Colorless"@
    ||| s == "Yellow"@
    ||| s == "Sun"@
    ||| s == "Moon"@
}

/// The four Lamordia slot moods.
pub open spec fn is_lamordia(s: Seq<char>) -> bool {
    ||| s == "Melancholic"@
    ||| s == "Dolorous"@
    ||| s == "Miserable"@
    ||| s == "Woeful"@
}

/// The crafting fallback: every type no other rule recognises.
pub open spec fn crafting_spec(raw: Seq<char>) -> SlotSpecView {
    let v = unicode_lower(raw);
    ("crafting: "@ + v, "crafting"@, v, None)
}

/// The Isle of Dread rules, given the text after `"IoD: "`.
pub open spec fn dino_spec(raw: Seq<char>, rest: Seq<char>) -> SlotSpecView {
    if rest == "Set Bonus Slot"@ {
        ("isle of dread: set bonus"@, "dino"@, "set"@, None)
    } else {
        match split_once(rest, ": "@) {
            Some((q, part)) => match strip_suffix(part, " Slot"@) {
                Some(v) => {
                    let (v, q) = (unicode_lower(v), unicode_lower(q));
                    ("isle of dread: "@ + v + " ("@ + q + ")"@, "dino"@, v, Some(q))
                },
                None => crafting_spec(raw),
            },
            None => crafting_spec(raw),
        }
    }
}

/// Whether `raw` is a Lamordia slot: `"<mood> Slot (<qualifier>)"`.
pub open spec fn lamordia_parts(raw: Seq<char>) -> Option<(Seq<char>, Seq<char>)> {
    match split_once(raw, " Slot ("@) {
        Some((head, tail)) => if is_lamordia(head) {
            match strip_suffix(tail, ")"@) {
                Some(q) => Some((head, q)),
                None => None,
            }
        } else {
            None
        },
        None => None,
    }
}

/// What [`decode`] returns for `raw0`.
pub open spec fn decode_spec(raw0: Seq<char>) -> SlotSpecView {
    let raw = trim(raw0);
    if is_colour(raw) {
        let v = unicode_lower(raw);
        (v, "standard"@, v, None)
    } else if strip_prefix(raw, "Tier "@) is Some && parse_unsigned(
        strip_prefix(raw, "Tier "@)->0,
        0xffff_ffff,
    ) is Some {
        let v = "tier "@ + decimal(parse_unsigned(strip_prefix(raw, "Tier "@)->0, 0xffff_ffff)->0);
        ("upgrade: "@ + v, "upgrade"@, v, None)
    } else if lamordia_parts(raw) is Some {
        let (head, q) = lamordia_parts(raw)->0;
        let (v, q) = (unicode_lower(head), unicode_lower(q));
        ("lamordia: "@ + v + " ("@ + q + ")"@, "lamordia"@, v, Some(q))
    } else if strip_prefix(raw, "IoD: "@) is Some {
        dino_spec(raw, strip_prefix(raw, "IoD: "@)->0)
    } else {
        crafting_spec(raw)
    }
}

fn colour(raw: &[char]) -> (r: bool)
    ensures
        r == is_colour(raw@),
{
    eq_str(raw, "Red") || eq_str(raw, "Green") || eq_str(raw, "Blue") || eq_str(raw, "Orange")
        || eq_str(raw, "Purple") || eq_str(raw, "Colorless") || eq_str(raw, "Yellow") || eq_str(raw, "Sun")
        || eq_str(raw, "Moon")
}

fn lamordia(raw: &[char]) -> (r: bool)
    ensures
        r == is_lamordia(raw@),
{
    eq_str(raw, "Melancholic") || eq_str(raw, "Dolorous") || eq_str(raw, "Miserable") || eq_str(raw, "Woeful")
}

/// `prefix + a + mid + b + suffix`, as a `String`.
fn glue(prefix: &str, a: &[char], mid: &str, b: &[char], suffix: &str) -> (r: String)
    ensures
        r@ == prefix@ + a@ + mid@ + b@ + suffix@,
{
    let mut out: Vec<char> = Vec::new();
    push_str(&mut out, prefix);
    append_chars(&mut out, a);
    push_str(&mut out, mid);
    append_chars(&mut out, b);
    push_str(&mut out, suffix);
    string_of(out.as_slice())
}

/// `prefix + a`, as a `String`.
fn prefixed(prefix: &str, a: &[char]) -> (r: String)
    ensures
        r@ == prefix@ + a@,
{
    let mut out: Vec<char> = Vec::new();
    push_str(&mut out, prefix);
    append_chars(&mut out, a);
    string_of(out.as_slice())
}

fn crafting(raw: &[char]) -> (r: SlotSpec)
    ensures
        r@ == crafting_spec(raw@),
{
    let v = to_lowercase(raw);
    let label = prefixed("crafting: ", v.as_slice());
    SlotSpec { label, family: owned("crafting"), variant: string_of(v.as_slice()), qualifier: None }
}

fn dino(raw: &[char], rest: &[char]) -> (r: SlotSpec)
    ensures
        r@ == dino_spec(raw@, rest@),
{
    if eq_str(rest, "Set Bonus Slot") {
        return SlotSpec {
            label: owned("isle of dread: set bonus"),
            family: owned("dino"),
            variant: owned("set"),
            qualifier: None,
        };
    }
    let sep = chars_of(": ");
    if let Some((q, part)) = split_once_exec(rest, sep.as_slice()) {
        if let Some(v) = strip_suffix_str(part.as_slice(), " Slot") {
            let v = to_lowercase(v.as_slice());
            let q = to_lowercase(q.as_slice());
            return SlotSpec {
                label: glue("isle of dread: ", v.as_slice(), " (", q.as_slice(), ")"),
                family: owned("dino"),
                variant: string_of(v.as_slice()),
                qualifier: Some(string_of(q.as_slice())),
            };
        }
    }
    crafting(raw)
}

fn lamordia_split(raw: &[char]) -> (r: Option<(Vec<char>, Vec<char>)>)
    ensures
        match r {
            Some((h, q)) => lamordia_parts(raw@) == Some((h@, q@)),
            None => lamordia_parts(raw@) is None,
        },
{
    let sep = chars_of(" Slot (");
    match split_once_exec(raw, sep.as_slice()) {
        Some((head, tail)) => {
            if lamordia(head.as_slice()) {
                match strip_suffix_str(tail.as_slice(), ")") {
                    Some(q) => Some((head, q)),
                    None => None,
                }
            } else {
                None
            }
        },
        None => None,
    }
}

/// Decode an upstream augment slot type into its label, family, variant and qualifier.
pub fn decode(raw: &str) -> (r: SlotSpec)
    ensures
        r@ == decode_spec(raw@),
{
    let raw0 = chars_of(raw);
    let raw = trim_chars(raw0.as_slice());
    let raw = raw.as_slice();

    if colour(raw) {
        let v = to_lowercase(raw);
        return SlotSpec {
            label: string_of(v.as_slice()),
            family: owned("standard"),
            variant: string_of(v.as_slice()),
            qualifier: None,
        };
    }
    if let Some(n) = strip_prefix_str(raw, "Tier ") {
        if let Some(x) = parse_u32(n.as_slice()) {
            let mut v: Vec<char> = Vec::new();
            push_str(&mut v, "tier ");
            let d = render_u64(x as u64);
            append_chars(&mut v, d.as_slice());
            let label = prefixed("upgrade: ", v.as_slice());
            return SlotSpec { label, family: owned("upgrade"), variant: string_of(v.as_slice()), qualifier: None };
        }
    }
    if let Some((head, q)) = lamordia_split(raw) {
        let v = to_lowercase(head.as_slice());
        let q = to_lowercase(q.as_slice());
        return SlotSpec {
            label: glue("lamordia: ", v.as_slice(), " (", q.as_slice(), ")"),
            family: owned("lamordia"),
            variant: string_of(v.as_slice()),
            qualifier: Some(string_of(q.as_slice())),
        };
    }
    if let Some(rest) = strip_prefix_str(raw, "IoD: ") {
        return dino(raw, rest.as_slice());
    }
    crafting(raw)
}

/// One of the slot families a decoded type belongs to.
pub open spec fn is_slot_family(f: Seq<char>) -> bool {
    ||| f == "standard"@
    ||| f == "upgrade"@
    ||| f == "lamordia"@
    ||| f == "dino"@
    ||| f == "crafting"@
}

/// Every slot type decodes into one of the five families; standard, upgrade and crafting slots
/// have no qualifier and Lamordia slots always have one; a crafting slot's variant is the whole
/// trimmed type, lower-cased, and its label is `crafting: ` and that variant.
pub proof fn decoded_families(raw: Seq<char>)
    ensures
        is_slot_family(decode_spec(raw).1),
        decode_spec(raw).1 == "standard"@ || decode_spec(raw).1 == "upgrade"@ || decode_spec(raw).1
            == "crafting"@ ==> decode_spec(raw).3 is None,
        decode_spec(raw).1 == "lamordia"@ ==> decode_spec(raw).3 is Some,
        decode_spec(raw).1 == "crafting"@ ==> decode_spec(raw).2 == unicode_lower(trim(raw)) && decode_spec(
            raw,
        ).0 == "crafting: "@ + decode_spec(raw).2,
{
    reveal_strlit("standard");
    reveal_strlit("upgrade");
    reveal_strlit("lamordia");
    reveal_strlit("dino");
    reveal_strlit("crafting");
    assert("dino"@.len() == 4 && "upgrade"@.len() == 7 && "standard"@.len() == 8);
    assert("crafting"@.len() == 8 && "lamordia"@.len() == 8);
    assert("standard"@ != "lamordia"@) by {
        assert("standard"@[0] != "lamordia"@[0]);
    }
    assert("upgrade"@ != "lamordia"@);
    assert("crafting"@ != "lamordia"@) by {
        assert("crafting"@[0] != "lamordia"@[0]);
    }
    assert("crafting"@ != "standard"@) by {
        assert("crafting"@[0] != "standard"@[0]);
    }
    assert("crafting"@ != "upgrade"@);
}

/// Every standard gem colour decodes as a standard slot: label and variant are the colour's
/// name, trimmed and lower-cased, and there is no qualifier.
pub proof fn colours_are_standard(raw: Seq<char>)
    requires
        trim(raw) == "Red"@ || trim(raw) == "Green"@ || trim(raw) == "Blue"@ || trim(raw) == "Orange"@
            || trim(raw) == "Purple"@ || trim(raw) == "Colorless"@ || trim(raw) == "Yellow"@ || trim(raw)
            == "Sun"@ || trim(raw) == "Moon"@,
    ensures
        decode_spec(raw) == (unicode_lower(trim(raw)), "standard"@, unicode_lower(trim(raw)), None::<Seq<char>>),
{
}

} // verus!
