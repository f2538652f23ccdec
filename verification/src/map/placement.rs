//! Where an item goes and what kind of thing it is, from its `<EquipmentSlot>` tags and its
//! `<Weapon>` or `<Armor>` subtype.

use vstd::prelude::*;
use crate::map::{alias_exec, aliased};
use crate::model::{
    weapon_by_name, weapon_type_by_name, EquipmentSlot, Handedness, ItemCategory, WeaponType,
};
use crate::text::{chars_of, eq_str, opt_str, opt_string, string_of};
use crate::xml::all_picks;
use crate::xml::items::{cosmetic, EquipmentSlots, SlotTag};
use crate::xml::items::{lemma_all_picks_concat, lemma_picks_push};

verus! {

#[derive(Debug, Clone, PartialEq, Eq)]
pub struct Placement {
    pub slot: EquipmentSlot,
    pub category: ItemCategory,
    /// Set for anything held in a hand, including shields, orbs and rune arms.
    pub handedness: Option<Handedness>,
    /// The weapon type or armor weight class, as `items.item_type`.
    pub item_type: Option<String>,
}

/// `(slot, category, handedness, item type)`.
pub type PlacementView = (EquipmentSlot, ItemCategory, Option<Handedness>, Option<Seq<char>>);

impl View for Placement {
    type V = PlacementView;

    open spec fn view(&self) -> PlacementView {
        (self.slot, self.category, self.handedness, opt_string(self.item_type))
    }
}

impl Placement {
    /// The seed row for a weapon or shield, when the item is one.
    pub fn weapon_type<'a>(&self, table: &'a [WeaponType]) -> (r: Option<&'a WeaponType>)
        ensures
            (self.handedness is None || self.item_type is None) ==> r is None,
            self.handedness is Some && self.item_type is Some ==> match r {
                Some(w) => weapon_by_name(table@, self.item_type->0@) == Some(*w),
                None => weapon_by_name(table@, self.item_type->0@) is None,
            },
    {
        if self.handedness.is_none() {
            return None;
        }
        match &self.item_type {
            Some(t) => {
                let n = chars_of(t.as_str());
                weapon_type_by_name(table, n.as_slice())
            },
            None => None,
        }
    }
}

/// Why an item could not be placed.
#[derive(Debug, Clone, PartialEq, Eq)]
pub enum PlacementError {
    /// The item occupies a weapon slot but has no `<Weapon>`.
    NoWeapon,
    /// A `<Weapon>` naming no weapon type, even after aliasing.
    UnknownWeaponType(String),
}

/// The non-cosmetic tags, in order.
pub open spec fn gear_tags(tags: Seq<SlotTag>) -> Seq<SlotTag> {
    all_picks(tags, |t: SlotTag| if cosmetic(t) { None } else { Some(t) })
}

/// The slot and category a non-weapon first tag means.
pub open spec fn slot_of(first: SlotTag) -> (EquipmentSlot, ItemCategory) {
    match first {
        SlotTag::Armor => (EquipmentSlot::Body, ItemCategory::Armor),
        SlotTag::Ring => (EquipmentSlot::Ring, ItemCategory::Jewelry),
        SlotTag::Necklace => (EquipmentSlot::Neck, ItemCategory::Jewelry),
        SlotTag::Trinket => (EquipmentSlot::Trinket, ItemCategory::Jewelry),
        SlotTag::Goggles => (EquipmentSlot::Goggles, ItemCategory::Jewelry),
        SlotTag::Helmet => (EquipmentSlot::Head, ItemCategory::Clothing),
        SlotTag::Cloak => (EquipmentSlot::Back, ItemCategory::Clothing),
        SlotTag::Bracers => (EquipmentSlot::Wrists, ItemCategory::Clothing),
        SlotTag::Gloves => (EquipmentSlot::Hands, ItemCategory::Clothing),
        SlotTag::Belt => (EquipmentSlot::Waist, ItemCategory::Clothing),
        SlotTag::Boots => (EquipmentSlot::Feet, ItemCategory::Clothing),
        _ => (EquipmentSlot::Quiver, ItemCategory::Clothing),
    }
}

/// How a weapon type is held, given the slots it lists.
pub open spec fn weapon_hold(wt: WeaponType, has_w1: bool, has_w2: bool) -> (EquipmentSlot, ItemCategory, Handedness) {
    if wt.is_shield {
        (EquipmentSlot::OffHand, ItemCategory::Shield, Handedness::OffHand)
    } else if wt.name@ == "Rune Arm"@ {
        (EquipmentSlot::Runearm, ItemCategory::Weapon, Handedness::OffHand)
    } else if wt.name@ == "Orb"@ || !has_w1 {
        (EquipmentSlot::OffHand, ItemCategory::Weapon, Handedness::OffHand)
    } else if wt.is_thrown {
        (EquipmentSlot::MainHand, ItemCategory::Weapon, Handedness::Thrown)
    } else if has_w2 {
        (EquipmentSlot::MainHand, ItemCategory::Weapon, Handedness::OneHanded)
    } else {
        (EquipmentSlot::MainHand, ItemCategory::Weapon, Handedness::TwoHanded)
    }
}

/// Where an item with these tags, `<Weapon>` and `<Armor>` goes: `Ok(None)` for items that only
/// occupy cosmetic slots or none at all; those are not gear.
pub open spec fn classify_spec(
    tags: Seq<SlotTag>,
    weapon: Option<Seq<char>>,
    armor: Option<Seq<char>>,
    table: Seq<WeaponType>,
    aliases: Seq<(String, String)>,
) -> Result<Option<PlacementView>, Option<Seq<char>>> {
    let gear = gear_tags(tags);
    if gear.len() == 0 {
        Ok(None)
    } else if gear.contains(SlotTag::Weapon1) || gear.contains(SlotTag::Weapon2) {
        match weapon {
            None => Err(None),
            Some(raw) => match weapon_by_name(table, aliased(aliases, raw)) {
                None => Err(Some(raw)),
                Some(wt) => {
                    let (slot, category, hand) = weapon_hold(
                        wt,
                        gear.contains(SlotTag::Weapon1),
                        gear.contains(SlotTag::Weapon2),
                    );
                    Ok(Some((slot, category, Some(hand), Some(wt.name@))))
                },
            },
        }
    } else {
        let (slot, category) = slot_of(gear[0]);
        Ok(Some((slot, category, None, if gear[0] is Armor { armor } else { None })))
    }
}

fn tag_eq(a: SlotTag, b: SlotTag) -> (r: bool)
    ensures
        r == (a == b),
{
    match (a, b) {
        (SlotTag::Weapon1, SlotTag::Weapon1) | (SlotTag::Weapon2, SlotTag::Weapon2) | (SlotTag::Armor, SlotTag::Armor)
        | (SlotTag::Ring, SlotTag::Ring) | (SlotTag::Helmet, SlotTag::Helmet) | (SlotTag::Cloak, SlotTag::Cloak)
        | (SlotTag::Trinket, SlotTag::Trinket) | (SlotTag::Necklace, SlotTag::Necklace)
        | (SlotTag::Bracers, SlotTag::Bracers) | (SlotTag::Gloves, SlotTag::Gloves) | (SlotTag::Belt, SlotTag::Belt)
        | (SlotTag::Boots, SlotTag::Boots) | (SlotTag::Goggles, SlotTag::Goggles) | (SlotTag::Quiver, SlotTag::Quiver)
        | (SlotTag::CosmeticHelm, SlotTag::CosmeticHelm) | (SlotTag::CosmeticCloak, SlotTag::CosmeticCloak)
        | (SlotTag::CosmeticArmor, SlotTag::CosmeticArmor) | (SlotTag::CosmeticWeapon1, SlotTag::CosmeticWeapon1) => true,
        _ => false,
    }
}

fn has_tag(tags: &Vec<SlotTag>, t: SlotTag) -> (r: bool)
    ensures
        r == tags@.contains(t),
{
    let mut k: usize = 0;
    while k < tags.len()
        invariant
            k <= tags@.len(),
            forall|j: int| 0 <= j < k ==> tags@[j] != t,
        decreases tags@.len() - k,
    {
        if tag_eq(tags[k], t) {
            assert(tags@[k as int] == t);
            return true;
        }
        k += 1;
    }
    false
}

fn non_cosmetic(tags: &Vec<SlotTag>) -> (r: Vec<SlotTag>)
    ensures
        r@ == gear_tags(tags@),
{
    let mut r: Vec<SlotTag> = Vec::new();
    let mut k: usize = 0;
    while k < tags.len()
        invariant
            k <= tags@.len(),
            r@ == gear_tags(tags@.subrange(0, k as int)),
        decreases tags@.len() - k,
    {
        proof {
            lemma_picks_push(
                tags@.subrange(0, k as int),
                tags@[k as int],
                |t: SlotTag| if cosmetic(t) { None } else { Some(t) },
            );
            assert(tags@.subrange(0, k + 1) =~= tags@.subrange(0, k as int).push(tags@[k as int]));
        }
        let t = tags[k];
        if !t.is_cosmetic() {
            r.push(t);
        }
        k += 1;
    }
    assert(tags@.subrange(0, tags@.len() as int) =~= tags@);
    r
}

proof fn lemma_gear_not_cosmetic(tags: Seq<SlotTag>)
    ensures
        forall|i: int| 0 <= i < gear_tags(tags).len() ==> !cosmetic(#[trigger] gear_tags(tags)[i]),
    decreases tags.len(),
{
    if tags.len() > 0 {
        lemma_gear_not_cosmetic(tags.drop_last());
        let prev = gear_tags(tags.drop_last());
        if cosmetic(tags.last()) {
            assert(gear_tags(tags) == prev);
        } else {
            assert(gear_tags(tags) == prev.push(tags.last()));
            assert forall|i: int| 0 <= i < gear_tags(tags).len() implies !cosmetic(#[trigger] gear_tags(tags)[i]) by {
                if i < prev.len() {
                    assert(gear_tags(tags)[i] == prev[i]);
                }
            }
        }
    }
}

/// `Ok(None)` for items that only occupy cosmetic slots or none at all; those are not gear.
/// `table` is the weapon type seed; `aliases` are upstream's `<Weapon>` spellings that differ.
pub fn classify(
    slots: &EquipmentSlots,
    weapon: Option<&str>,
    armor: Option<&str>,
    table: &[WeaponType],
    aliases: &[(String, String)],
) -> (r: Result<Option<Placement>, PlacementError>)
    ensures
        match r {
            Ok(None) => classify_spec(slots.tags@, opt_str(weapon), opt_str(armor), table@, aliases@) == Ok::<
                Option<PlacementView>,
                Option<Seq<char>>,
            >(None),
            Ok(Some(p)) => classify_spec(slots.tags@, opt_str(weapon), opt_str(armor), table@, aliases@) == Ok::<
                Option<PlacementView>,
                Option<Seq<char>>,
            >(Some(p@)),
            Err(PlacementError::NoWeapon) => classify_spec(slots.tags@, opt_str(weapon), opt_str(armor), table@, aliases@)
                == Err::<Option<PlacementView>, Option<Seq<char>>>(None),
            Err(PlacementError::UnknownWeaponType(raw)) => classify_spec(
                slots.tags@,
                opt_str(weapon),
                opt_str(armor),
                table@,
                aliases@,
            ) == Err::<Option<PlacementView>, Option<Seq<char>>>(Some(raw@)),
        },
{
    let tags = non_cosmetic(&slots.tags);
    if tags.len() == 0 {
        return Ok(None);
    }
    let first = tags[0];
    let has_w1 = has_tag(&tags, SlotTag::Weapon1);
    let has_w2 = has_tag(&tags, SlotTag::Weapon2);
    if has_w1 || has_w2 {
        let raw = match weapon {
            Some(w) => w,
            None => return Err(PlacementError::NoWeapon),
        };
        let raw_chars = chars_of(raw);
        let name = alias_exec(aliases, raw_chars.as_slice());
        let wt = match weapon_type_by_name(table, name.as_slice()) {
            Some(wt) => wt,
            None => return Err(PlacementError::UnknownWeaponType(string_of(raw_chars.as_slice()))),
        };
        let wn = chars_of(wt.name.as_str());
        let (slot, category, handedness) = if wt.is_shield {
            (EquipmentSlot::OffHand, ItemCategory::Shield, Handedness::OffHand)
        } else if eq_str(wn.as_slice(), "Rune Arm") {
            (EquipmentSlot::Runearm, ItemCategory::Weapon, Handedness::OffHand)
        } else if eq_str(wn.as_slice(), "Orb") || !has_w1 {
            (EquipmentSlot::OffHand, ItemCategory::Weapon, Handedness::OffHand)
        } else if wt.is_thrown {
            (EquipmentSlot::MainHand, ItemCategory::Weapon, Handedness::Thrown)
        } else if has_w2 {
            (EquipmentSlot::MainHand, ItemCategory::Weapon, Handedness::OneHanded)
        } else {
            (EquipmentSlot::MainHand, ItemCategory::Weapon, Handedness::TwoHanded)
        };
        return Ok(
            Some(
                Placement {
                    slot,
                    category,
                    handedness: Some(handedness),
                    item_type: Some(wt.name.clone()),
                },
            ),
        );
    }
    proof {
        lemma_gear_not_cosmetic(slots.tags@);
        assert(!cosmetic(tags@[0]));
    }
    let (slot, category) = match first {
        SlotTag::Armor => (EquipmentSlot::Body, ItemCategory::Armor),
        SlotTag::Ring => (EquipmentSlot::Ring, ItemCategory::Jewelry),
        SlotTag::Necklace => (EquipmentSlot::Neck, ItemCategory::Jewelry),
        SlotTag::Trinket => (EquipmentSlot::Trinket, ItemCategory::Jewelry),
        SlotTag::Goggles => (EquipmentSlot::Goggles, ItemCategory::Jewelry),
        SlotTag::Helmet => (EquipmentSlot::Head, ItemCategory::Clothing),
        SlotTag::Cloak => (EquipmentSlot::Back, ItemCategory::Clothing),
        SlotTag::Bracers => (EquipmentSlot::Wrists, ItemCategory::Clothing),
        SlotTag::Gloves => (EquipmentSlot::Hands, ItemCategory::Clothing),
        SlotTag::Belt => (EquipmentSlot::Waist, ItemCategory::Clothing),
        SlotTag::Boots => (EquipmentSlot::Feet, ItemCategory::Clothing),
        SlotTag::Quiver => (EquipmentSlot::Quiver, ItemCategory::Clothing),
        SlotTag::Weapon1 | SlotTag::Weapon2 => {
            assert(tags@.contains(tags@[0]));
            unreached()
        },
        SlotTag::CosmeticHelm | SlotTag::CosmeticCloak | SlotTag::CosmeticArmor | SlotTag::CosmeticWeapon1 => unreached(),
    };
    let item_type = match first {
        SlotTag::Armor => match armor {
            Some(a) => Some(string_of(chars_of(a).as_slice())),
            None => None,
        },
        _ => None,
    };
    Ok(Some(Placement { slot, category, handedness: None, item_type }))
}

proof fn lemma_gear_of_cosmetic(tags: Seq<SlotTag>)
    requires
        forall|j: int| 0 <= j < tags.len() ==> cosmetic(#[trigger] tags[j]),
    ensures
        gear_tags(tags) == Seq::<SlotTag>::empty(),
    decreases tags.len(),
{
    if tags.len() > 0 {
        assert(cosmetic(tags[tags.len() - 1]));
        lemma_gear_of_cosmetic(tags.drop_last());
    }
}

proof fn lemma_gear_members(tags: Seq<SlotTag>, t: SlotTag)
    ensures
        gear_tags(tags).contains(t) ==> tags.contains(t),
    decreases tags.len(),
{
    if tags.len() > 0 {
        lemma_gear_members(tags.drop_last(), t);
        let prev = gear_tags(tags.drop_last());
        if gear_tags(tags).contains(t) {
            let k = choose|k: int| 0 <= k < gear_tags(tags).len() && gear_tags(tags)[k] == t;
            if cosmetic(tags.last()) {
                assert(prev.contains(t));
            } else if k < prev.len() {
                assert(gear_tags(tags)[k] == prev[k]);
                assert(prev.contains(t));
            }
            if prev.contains(t) {
                let m = choose|m: int| 0 <= m < tags.drop_last().len() && tags.drop_last()[m] == t;
                assert(tags[m] == t);
            } else {
                assert(tags[tags.len() - 1] == t);
            }
        }
    }
}

/// The first gear tag is the first tag that is not cosmetic.
proof fn lemma_first_gear(tags: Seq<SlotTag>, i: int)
    requires
        0 <= i < tags.len(),
        !cosmetic(tags[i]),
        forall|j: int| 0 <= j < i ==> cosmetic(#[trigger] tags[j]),
    ensures
        gear_tags(tags).len() > 0,
        gear_tags(tags)[0] == tags[i],
{
    let f = |t: SlotTag| if cosmetic(t) { None } else { Some(t) };
    let pre = tags.subrange(0, i);
    let x = seq![tags[i]];
    let rest = tags.subrange(i + 1, tags.len() as int);
    assert(tags =~= pre + (x + rest));
    lemma_all_picks_concat(pre, x + rest, f);
    lemma_all_picks_concat(x, rest, f);
    assert forall|j: int| 0 <= j < pre.len() implies cosmetic(#[trigger] pre[j]) by {
        assert(pre[j] == tags[j]);
    }
    lemma_gear_of_cosmetic(pre);
    assert(x.drop_last() =~= Seq::<SlotTag>::empty());
    assert(x.last() == tags[i]);
    assert(f(tags[i]) == Some(tags[i]));
    assert(all_picks(Seq::<SlotTag>::empty(), f) =~= Seq::<SlotTag>::empty());
    assert(all_picks(x, f) =~= seq![tags[i]]);
    assert(gear_tags(tags) =~= all_picks(x, f) + all_picks(rest, f));
}

/// Gear that holds no weapon slot goes where its first non-cosmetic tag says, with no
/// handedness: bracers on the wrists, gloves on the hands, boots on the feet, a helmet on the
/// head, a cloak on the back, a belt at the waist, a necklace at the neck, a ring, trinket,
/// goggles or quiver in its own slot, armor on the body; an `<Armor>` subtype is kept for armor
/// only.
pub proof fn fixed_tags_name_their_slot(
    tags: Seq<SlotTag>,
    i: int,
    weapon: Option<Seq<char>>,
    armor: Option<Seq<char>>,
    table: Seq<WeaponType>,
    aliases: Seq<(String, String)>,
)
    requires
        0 <= i < tags.len(),
        !cosmetic(tags[i]),
        forall|j: int| 0 <= j < i ==> cosmetic(#[trigger] tags[j]),
        !tags.contains(SlotTag::Weapon1),
        !tags.contains(SlotTag::Weapon2),
    ensures
        classify_spec(tags, weapon, armor, table, aliases) matches Ok(Some(p)) && {
            &&& p.2 is None
            &&& p.3 == if tags[i] is Armor { armor } else { None }
            &&& tags[i] is Bracers ==> p.0 == EquipmentSlot::Wrists && p.1 == ItemCategory::Clothing
            &&& tags[i] is Gloves ==> p.0 == EquipmentSlot::Hands && p.1 == ItemCategory::Clothing
            &&& tags[i] is Boots ==> p.0 == EquipmentSlot::Feet && p.1 == ItemCategory::Clothing
            &&& tags[i] is Helmet ==> p.0 == EquipmentSlot::Head && p.1 == ItemCategory::Clothing
            &&& tags[i] is Cloak ==> p.0 == EquipmentSlot::Back && p.1 == ItemCategory::Clothing
            &&& tags[i] is Belt ==> p.0 == EquipmentSlot::Waist && p.1 == ItemCategory::Clothing
            &&& tags[i] is Quiver ==> p.0 == EquipmentSlot::Quiver && p.1 == ItemCategory::Clothing
            &&& tags[i] is Necklace ==> p.0 == EquipmentSlot::Neck && p.1 == ItemCategory::Jewelry
            &&& tags[i] is Ring ==> p.0 == EquipmentSlot::Ring && p.1 == ItemCategory::Jewelry
            &&& tags[i] is Trinket ==> p.0 == EquipmentSlot::Trinket && p.1 == ItemCategory::Jewelry
            &&& tags[i] is Goggles ==> p.0 == EquipmentSlot::Goggles && p.1 == ItemCategory::Jewelry
            &&& tags[i] is Armor ==> p.0 == EquipmentSlot::Body && p.1 == ItemCategory::Armor
        },
{
    lemma_first_gear(tags, i);
    lemma_gear_members(tags, SlotTag::Weapon1);
    lemma_gear_members(tags, SlotTag::Weapon2);
}

/// No two different slot tags share a slot: each fixed (non-weapon, non-cosmetic) tag names an
/// equipment slot of its own, and none of them a weapon hand.
pub proof fn fixed_tag_slots_are_distinct(a: SlotTag, b: SlotTag)
    requires
        !cosmetic(a) && !(a is Weapon1) && !(a is Weapon2),
        !cosmetic(b) && !(b is Weapon1) && !(b is Weapon2),
        a != b,
    ensures
        slot_of(a).0 != slot_of(b).0,
        slot_of(a).0 != EquipmentSlot::MainHand && slot_of(a).0 != EquipmentSlot::OffHand
            && slot_of(a).0 != EquipmentSlot::Runearm,
{
}

} // verus!
