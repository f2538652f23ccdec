//! `Items/*.item`: one `<Items><Item>…</Item></Items>` per file.
//!
//! An `<Item>` is read as a sequence of child elements ([`ItemChild`]) and then folded into
//! [`Item`]. Reading children as a sequence rather than as struct fields makes element order
//! irrelevant, which matters because upstream occasionally interleaves repeated elements
//! (`<Buff>`, `<Effect>`, `<Buff>`). An element with no [`ItemChild`] variant is a hard error
//! where the children are read: a new one should stop the build so a person decides whether it
//! maps to a column.
//!
//! `F` is the type of `<WeaponDamage>`, a fractional multiplier the reader parses.

use vstd::prelude::*;
use crate::text::{chars_of, eq_str, join, join_chars, opt_string, string_of, trim, trim_str};
use crate::xml::{all_picks, last_pick};

verus! {

/// The slot tags a `<EquipmentSlot>` element lists. Upstream uses one empty child element per
/// slot the item can occupy, so a one-handed weapon lists both `Weapon1` and `Weapon2`.
#[derive(Debug, Clone, Default, PartialEq, Eq)]
pub struct EquipmentSlots {
    pub tags: Vec<SlotTag>,
}

#[derive(Debug, Clone, Copy, PartialEq, Eq)]
pub enum SlotTag {
    Weapon1,
    Weapon2,
    Armor,
    Ring,
    Helmet,
    Cloak,
    Trinket,
    Necklace,
    Bracers,
    Gloves,
    Belt,
    Boots,
    Goggles,
    Quiver,
    CosmeticHelm,
    CosmeticCloak,
    CosmeticArmor,
    CosmeticWeapon1,
}

pub open spec fn cosmetic(t: SlotTag) -> bool {
    t is CosmeticHelm || t is CosmeticCloak || t is CosmeticArmor || t is CosmeticWeapon1
}

impl SlotTag {
    /// Cosmetic slots change an item's look, not the character.
    pub fn is_cosmetic(self) -> (r: bool)
        ensures
            r == cosmetic(self),
    {
        match self {
            SlotTag::CosmeticHelm | SlotTag::CosmeticCloak | SlotTag::CosmeticArmor | SlotTag::CosmeticWeapon1 => true,
            _ => false,
        }
    }
}

/// `<BaseDice>`; shields carry an empty element, so every part is optional.
#[derive(Debug, Clone, PartialEq, Eq)]
pub struct Dice {
    pub number: Option<i64>,
    pub sides: Option<i64>,
    pub bonus: Option<i64>,
}

/// One property of an item. `kind` is upstream's `<Type>`; the display template for it lives in
/// `ItemBuffs.xml`, keyed by the same string.
#[derive(Debug, Clone, PartialEq, Eq)]
pub struct Buff {
    pub kind: String,
    pub item: Option<String>,
    pub item2: Option<String>,
    pub value1: Option<i64>,
    pub value2: Option<i64>,
    pub bonus_type: Option<String>,
    pub description1: Option<String>,
}

/// A socket on an item. `options` lists the content upstream has fixed for it: one entry is a
/// crafted upgrade already applied, several are the choices a crafting step offers. Empty means
/// an ordinary open socket.
#[derive(Debug, Clone, PartialEq, Eq)]
pub struct ItemAugment {
    pub kind: String,
    pub options: Vec<AugmentOption>,
}

#[derive(Debug, Clone, PartialEq, Eq)]
pub struct AugmentOption {
    pub name: String,
    pub description: String,
    pub min_level: Option<i64>,
    pub icon: Option<String>,
    pub grant_augment: Vec<String>,
    pub set_bonus: Vec<String>,
}

/// An item's `<Requirements>`, read by element name.
#[derive(Debug, Clone, Default, PartialEq, Eq)]
pub struct Requirements {
    pub requirement: Vec<Requirement>,
    pub requires_one_of: Vec<RequirementGroup>,
    pub requires_none_of: Vec<RequirementGroup>,
}

#[derive(Debug, Clone, Default, PartialEq, Eq)]
pub struct RequirementGroup {
    pub requirement: Vec<Requirement>,
}

#[derive(Debug, Clone, PartialEq, Eq)]
pub struct Requirement {
    pub kind: String,
    pub item: Option<String>,
    pub value: Option<String>,
}

/// Every element an `<Item>` may contain, named exactly as upstream spells it.
#[derive(Debug, Clone)]
pub enum ItemChild<F> {
    Name(String),
    Icon(String),
    Description(String),
    DropLocation(String),
    MinLevel(i64),
    EquipmentSlot(EquipmentSlots),
    Weapon(String),
    Armor(String),
    AttackModifier(String),
    DamageModifier(String),
    DrBypass(String),
    WeaponDamage(F),
    BaseDice(Dice),
    CriticalMultiplier(i64),
    CriticalThreatRange(i64),
    Material(String),
    Buff(Buff),
    ItemAugment(ItemAugment),
    SetBonus(String),
    Requirements(Requirements),
    ArmorBonus(i64),
    MaximumDexterityBonus(i64),
    ArcaneSpellFailure(i64),
    ArmorCheckPenalty(i64),
    ShieldBonus(i64),
    DamageReduction(i64),
    MithralBody(i64),
    AdamantineBody(i64),
    IsAcceptsSentience,
    MinorArtifact,
    IsGreensteel,
    /// Upstream bookkeeping and rarities the schema does not model yet.
    NoAutoUpdate,
    UserSetsLevel,
    Effect,
    RestrictedSlots,
    SlotUpgrade,
}

#[derive(Debug, Clone)]
pub struct Item<F> {
    pub name: String,
    pub icon: Option<String>,
    pub description: Option<String>,
    pub drop_location: Option<String>,
    pub min_level: Option<i64>,
    pub equipment_slot: EquipmentSlots,
    pub weapon: Option<String>,
    pub armor: Option<String>,
    pub attack_modifier: Vec<String>,
    pub damage_modifier: Vec<String>,
    pub dr_bypass: Vec<String>,
    pub weapon_damage: Option<F>,
    pub base_dice: Option<Dice>,
    pub critical_multiplier: Option<i64>,
    pub critical_threat_range: Option<i64>,
    pub material: Option<String>,
    pub buffs: Vec<Buff>,
    pub augments: Vec<ItemAugment>,
    pub set_bonus: Vec<String>,
    pub requirements: Option<Requirements>,
    pub armor_bonus: Option<i64>,
    pub maximum_dexterity_bonus: Option<i64>,
    pub arcane_spell_failure: Option<i64>,
    pub armor_check_penalty: Option<i64>,
    pub shield_bonus: Option<i64>,
    pub damage_reduction: Option<i64>,
    pub mithral_body: Option<i64>,
    pub adamantine_body: Option<i64>,
    pub accepts_sentience: bool,
    pub minor_artifact: bool,
    pub is_greensteel: bool,
}

/// Why an `<Item>` was rejected.
#[derive(Debug, Clone, PartialEq, Eq)]
pub enum ItemError {
    /// An `<Item>` without a `<Name>`.
    Unnamed,
}

pub open spec fn pick_name<F>() -> spec_fn(ItemChild<F>) -> Option<Seq<char>> {
    |c: ItemChild<F>| match c { ItemChild::Name(v) => Some(trim(v@)), _ => None }
}
pub open spec fn pick_icon<F>() -> spec_fn(ItemChild<F>) -> Option<Seq<char>> {
    |c: ItemChild<F>| match c { ItemChild::Icon(v) => Some(trim(v@)), _ => None }
}
pub open spec fn pick_weapon<F>() -> spec_fn(ItemChild<F>) -> Option<Seq<char>> {
    |c: ItemChild<F>| match c { ItemChild::Weapon(v) => Some(trim(v@)), _ => None }
}
pub open spec fn pick_armor<F>() -> spec_fn(ItemChild<F>) -> Option<Seq<char>> {
    |c: ItemChild<F>| match c { ItemChild::Armor(v) => Some(trim(v@)), _ => None }
}
pub open spec fn pick_description<F>() -> spec_fn(ItemChild<F>) -> Option<String> {
    |c: ItemChild<F>| match c { ItemChild::Description(v) => Some(v), _ => None }
}
pub open spec fn pick_drop_location<F>() -> spec_fn(ItemChild<F>) -> Option<String> {
    |c: ItemChild<F>| match c { ItemChild::DropLocation(v) => Some(v), _ => None }
}
pub open spec fn pick_material<F>() -> spec_fn(ItemChild<F>) -> Option<String> {
    |c: ItemChild<F>| match c { ItemChild::Material(v) => Some(v), _ => None }
}
pub open spec fn pick_attack_modifier<F>() -> spec_fn(ItemChild<F>) -> Option<String> {
    |c: ItemChild<F>| match c { ItemChild::AttackModifier(v) => Some(v), _ => None }
}
pub open spec fn pick_damage_modifier<F>() -> spec_fn(ItemChild<F>) -> Option<String> {
    |c: ItemChild<F>| match c { ItemChild::DamageModifier(v) => Some(v), _ => None }
}
pub open spec fn pick_dr_bypass<F>() -> spec_fn(ItemChild<F>) -> Option<String> {
    |c: ItemChild<F>| match c { ItemChild::DrBypass(v) => Some(v), _ => None }
}
pub open spec fn pick_set_bonus<F>() -> spec_fn(ItemChild<F>) -> Option<String> {
    |c: ItemChild<F>| match c { ItemChild::SetBonus(v) => Some(v), _ => None }
}
pub open spec fn pick_weapon_damage<F>() -> spec_fn(ItemChild<F>) -> Option<F> {
    |c: ItemChild<F>| match c { ItemChild::WeaponDamage(v) => Some(v), _ => None }
}
pub open spec fn pick_equipment_slot<F>() -> spec_fn(ItemChild<F>) -> Option<EquipmentSlots> {
    |c: ItemChild<F>| match c { ItemChild::EquipmentSlot(v) => Some(v), _ => None }
}
pub open spec fn pick_base_dice<F>() -> spec_fn(ItemChild<F>) -> Option<Dice> {
    |c: ItemChild<F>| match c { ItemChild::BaseDice(v) => Some(v), _ => None }
}
pub open spec fn pick_buff<F>() -> spec_fn(ItemChild<F>) -> Option<Buff> {
    |c: ItemChild<F>| match c { ItemChild::Buff(v) => Some(v), _ => None }
}
pub open spec fn pick_augment<F>() -> spec_fn(ItemChild<F>) -> Option<ItemAugment> {
    |c: ItemChild<F>| match c { ItemChild::ItemAugment(v) => Some(v), _ => None }
}
pub open spec fn pick_requirements<F>() -> spec_fn(ItemChild<F>) -> Option<Requirements> {
    |c: ItemChild<F>| match c { ItemChild::Requirements(v) => Some(v), _ => None }
}

/// The integer-valued children, by position in this list: MinLevel, CriticalMultiplier,
/// CriticalThreatRange, ArmorBonus, MaximumDexterityBonus, ArcaneSpellFailure, ArmorCheckPenalty,
/// ShieldBonus, DamageReduction, MithralBody, AdamantineBody.
pub open spec fn int_slot<F>(c: ItemChild<F>) -> Option<(int, i64)> {
    match c {
        ItemChild::MinLevel(v) => Some((0, v)),
        ItemChild::CriticalMultiplier(v) => Some((1, v)),
        ItemChild::CriticalThreatRange(v) => Some((2, v)),
        ItemChild::ArmorBonus(v) => Some((3, v)),
        ItemChild::MaximumDexterityBonus(v) => Some((4, v)),
        ItemChild::ArcaneSpellFailure(v) => Some((5, v)),
        ItemChild::ArmorCheckPenalty(v) => Some((6, v)),
        ItemChild::ShieldBonus(v) => Some((7, v)),
        ItemChild::DamageReduction(v) => Some((8, v)),
        ItemChild::MithralBody(v) => Some((9, v)),
        ItemChild::AdamantineBody(v) => Some((10, v)),
        _ => None,
    }
}

pub open spec fn pick_int<F>(slot: int) -> spec_fn(ItemChild<F>) -> Option<i64> {
    |c: ItemChild<F>| match int_slot(c) {
        Some((s, v)) => if s == slot {
            Some(v)
        } else {
            None
        },
        None => None,
    }
}

/// The presence flags, by position: IsAcceptsSentience, MinorArtifact, IsGreensteel.
pub open spec fn pick_flag<F>(slot: int) -> spec_fn(ItemChild<F>) -> Option<()> {
    |c: ItemChild<F>| match c {
        ItemChild::IsAcceptsSentience => if slot == 0 { Some(()) } else { None },
        ItemChild::MinorArtifact => if slot == 1 { Some(()) } else { None },
        ItemChild::IsGreensteel => if slot == 2 { Some(()) } else { None },
        _ => None,
    }
}

/// The item the children fold into. Single-valued fields take the last element of their kind;
/// repeated ones collect every element in order; flags are set by presence.
pub open spec fn item_folds<F>(cs: Seq<ItemChild<F>>, it: Item<F>) -> bool {
    &&& it.name@ == match last_pick(cs, pick_name::<F>()) { Some(n) => n, None => Seq::empty() }
    &&& opt_string(it.icon) == last_pick(cs, pick_icon::<F>())
    &&& it.description == last_pick(cs, pick_description::<F>())
    &&& it.drop_location == last_pick(cs, pick_drop_location::<F>())
    &&& it.min_level == last_pick(cs, pick_int::<F>(0))
    &&& it.equipment_slot.tags@ == match last_pick(cs, pick_equipment_slot::<F>()) {
        Some(s) => s.tags@,
        None => Seq::empty(),
    }
    &&& opt_string(it.weapon) == last_pick(cs, pick_weapon::<F>())
    &&& opt_string(it.armor) == last_pick(cs, pick_armor::<F>())
    &&& it.attack_modifier@ == all_picks(cs, pick_attack_modifier::<F>())
    &&& it.damage_modifier@ == all_picks(cs, pick_damage_modifier::<F>())
    &&& it.dr_bypass@ == all_picks(cs, pick_dr_bypass::<F>())
    &&& it.weapon_damage == last_pick(cs, pick_weapon_damage::<F>())
    &&& it.base_dice == last_pick(cs, pick_base_dice::<F>())
    &&& it.critical_multiplier == last_pick(cs, pick_int::<F>(1))
    &&& it.critical_threat_range == last_pick(cs, pick_int::<F>(2))
    &&& it.material == last_pick(cs, pick_material::<F>())
    &&& it.buffs@ == all_picks(cs, pick_buff::<F>())
    &&& it.augments@ == all_picks(cs, pick_augment::<F>())
    &&& it.set_bonus@ == all_picks(cs, pick_set_bonus::<F>())
    &&& it.requirements == last_pick(cs, pick_requirements::<F>())
    &&& it.armor_bonus == last_pick(cs, pick_int::<F>(3))
    &&& it.maximum_dexterity_bonus == last_pick(cs, pick_int::<F>(4))
    &&& it.arcane_spell_failure == last_pick(cs, pick_int::<F>(5))
    &&& it.armor_check_penalty == last_pick(cs, pick_int::<F>(6))
    &&& it.shield_bonus == last_pick(cs, pick_int::<F>(7))
    &&& it.damage_reduction == last_pick(cs, pick_int::<F>(8))
    &&& it.mithral_body == last_pick(cs, pick_int::<F>(9))
    &&& it.adamantine_body == last_pick(cs, pick_int::<F>(10))
    &&& it.accepts_sentience == last_pick(cs, pick_flag::<F>(0)) is Some
    &&& it.minor_artifact == last_pick(cs, pick_flag::<F>(1)) is Some
    &&& it.is_greensteel == last_pick(cs, pick_flag::<F>(2)) is Some
}

/// `last_pick` and `all_picks` on a sequence one element longer.
pub proof fn lemma_picks_push<T, R>(cs: Seq<T>, x: T, f: spec_fn(T) -> Option<R>)
    ensures
        last_pick(cs.push(x), f) == match f(x) { Some(r) => Some(r), None => last_pick(cs, f) },
        all_picks(cs.push(x), f) == match f(x) { Some(r) => all_picks(cs, f).push(r), None => all_picks(cs, f) },
{
    assert(cs.push(x).drop_last() =~= cs);
}

impl<F> Item<F> {
    /// Fold an `<Item>`'s children into an item. Rejected when there is no `<Name>`.
    pub fn from_children(children: Vec<ItemChild<F>>) -> (r: Result<Item<F>, ItemError>)
        ensures
            r is Ok <==> last_pick(children@, pick_name::<F>()) is Some,
            r matches Ok(it) ==> item_folds(children@, it),
    {
        let mut it = Item {
            name: String::new(),
            icon: None,
            description: None,
            drop_location: None,
            min_level: None,
            equipment_slot: EquipmentSlots { tags: Vec::new() },
            weapon: None,
            armor: None,
            attack_modifier: Vec::new(),
            damage_modifier: Vec::new(),
            dr_bypass: Vec::new(),
            weapon_damage: None,
            base_dice: None,
            critical_multiplier: None,
            critical_threat_range: None,
            material: None,
            buffs: Vec::new(),
            augments: Vec::new(),
            set_bonus: Vec::new(),
            requirements: None,
            armor_bonus: None,
            maximum_dexterity_bonus: None,
            arcane_spell_failure: None,
            armor_check_penalty: None,
            shield_bonus: None,
            damage_reduction: None,
            mithral_body: None,
            adamantine_body: None,
            accepts_sentience: false,
            minor_artifact: false,
            is_greensteel: false,
        };
        let mut named = false;
        let mut cs = children;
        let ghost orig = cs@;
        let n = cs.len();
        let mut k: usize = 0;
        assert(it.attack_modifier@ =~= Seq::<String>::empty());
        assert(it.damage_modifier@ =~= Seq::<String>::empty());
        assert(it.dr_bypass@ =~= Seq::<String>::empty());
        assert(it.buffs@ =~= Seq::<Buff>::empty());
        assert(it.augments@ =~= Seq::<ItemAugment>::empty());
        assert(it.set_bonus@ =~= Seq::<String>::empty());
        assert(orig.subrange(0, 0) =~= Seq::<ItemChild<F>>::empty());
        while cs.len() > 0
            invariant
                k + cs@.len() == orig.len(),
                n == orig.len(),
                cs@ == orig.subrange(k as int, orig.len() as int),
                item_folds(orig.subrange(0, k as int), it),
                named == last_pick(orig.subrange(0, k as int), pick_name::<F>()) is Some,
            decreases cs@.len(),
        {
            let child = cs.remove(0);
            let ghost pre = orig.subrange(0, k as int);
            assert(child == orig[k as int]);
            assert(orig.subrange(0, k + 1) =~= pre.push(child));
            proof {
                lemma_picks_push(pre, child, pick_name::<F>());
                lemma_picks_push(pre, child, pick_icon::<F>());
                lemma_picks_push(pre, child, pick_description::<F>());
                lemma_picks_push(pre, child, pick_drop_location::<F>());
                lemma_picks_push(pre, child, pick_equipment_slot::<F>());
                lemma_picks_push(pre, child, pick_weapon::<F>());
                lemma_picks_push(pre, child, pick_armor::<F>());
                lemma_picks_push(pre, child, pick_attack_modifier::<F>());
                lemma_picks_push(pre, child, pick_damage_modifier::<F>());
                lemma_picks_push(pre, child, pick_dr_bypass::<F>());
                lemma_picks_push(pre, child, pick_weapon_damage::<F>());
                lemma_picks_push(pre, child, pick_base_dice::<F>());
                lemma_picks_push(pre, child, pick_material::<F>());
                lemma_picks_push(pre, child, pick_buff::<F>());
                lemma_picks_push(pre, child, pick_augment::<F>());
                lemma_picks_push(pre, child, pick_set_bonus::<F>());
                lemma_picks_push(pre, child, pick_requirements::<F>());
                lemma_picks_push(pre, child, pick_int::<F>(0));
                lemma_picks_push(pre, child, pick_int::<F>(1));
                lemma_picks_push(pre, child, pick_int::<F>(2));
                lemma_picks_push(pre, child, pick_int::<F>(3));
                lemma_picks_push(pre, child, pick_int::<F>(4));
                lemma_picks_push(pre, child, pick_int::<F>(5));
                lemma_picks_push(pre, child, pick_int::<F>(6));
                lemma_picks_push(pre, child, pick_int::<F>(7));
                lemma_picks_push(pre, child, pick_int::<F>(8));
                lemma_picks_push(pre, child, pick_int::<F>(9));
                lemma_picks_push(pre, child, pick_int::<F>(10));
                lemma_picks_push(pre, child, pick_flag::<F>(0));
                lemma_picks_push(pre, child, pick_flag::<F>(1));
                lemma_picks_push(pre, child, pick_flag::<F>(2));
            }
            match child {
                ItemChild::Name(v) => {
                    it.name = trim_str(v.as_str());
                    named = true;
                },
                ItemChild::Icon(v) => it.icon = Some(trim_str(v.as_str())),
                ItemChild::Description(v) => it.description = Some(v),
                ItemChild::DropLocation(v) => it.drop_location = Some(v),
                ItemChild::MinLevel(v) => it.min_level = Some(v),
                ItemChild::EquipmentSlot(v) => it.equipment_slot = v,
                ItemChild::Weapon(v) => it.weapon = Some(trim_str(v.as_str())),
                ItemChild::Armor(v) => it.armor = Some(trim_str(v.as_str())),
                ItemChild::AttackModifier(v) => it.attack_modifier.push(v),
                ItemChild::DamageModifier(v) => it.damage_modifier.push(v),
                ItemChild::DrBypass(v) => it.dr_bypass.push(v),
                ItemChild::WeaponDamage(v) => it.weapon_damage = Some(v),
                ItemChild::BaseDice(v) => it.base_dice = Some(v),
                ItemChild::CriticalMultiplier(v) => it.critical_multiplier = Some(v),
                ItemChild::CriticalThreatRange(v) => it.critical_threat_range = Some(v),
                ItemChild::Material(v) => it.material = Some(v),
                ItemChild::Buff(v) => it.buffs.push(v),
                ItemChild::ItemAugment(v) => it.augments.push(v),
                ItemChild::SetBonus(v) => it.set_bonus.push(v),
                ItemChild::Requirements(v) => it.requirements = Some(v),
                ItemChild::ArmorBonus(v) => it.armor_bonus = Some(v),
                ItemChild::MaximumDexterityBonus(v) => it.maximum_dexterity_bonus = Some(v),
                ItemChild::ArcaneSpellFailure(v) => it.arcane_spell_failure = Some(v),
                ItemChild::ArmorCheckPenalty(v) => it.armor_check_penalty = Some(v),
                ItemChild::ShieldBonus(v) => it.shield_bonus = Some(v),
                ItemChild::DamageReduction(v) => it.damage_reduction = Some(v),
                ItemChild::MithralBody(v) => it.mithral_body = Some(v),
                ItemChild::AdamantineBody(v) => it.adamantine_body = Some(v),
                ItemChild::IsAcceptsSentience => it.accepts_sentience = true,
                ItemChild::MinorArtifact => it.minor_artifact = true,
                ItemChild::IsGreensteel => it.is_greensteel = true,
                ItemChild::NoAutoUpdate | ItemChild::UserSetsLevel | ItemChild::Effect
                | ItemChild::RestrictedSlots | ItemChild::SlotUpgrade => {},
            }
            k += 1;
            assert(cs@ =~= orig.subrange(k as int, orig.len() as int));
        }
        assert(orig.subrange(0, orig.len() as int) =~= orig);
        if !named {
            return Err(ItemError::Unnamed);
        }
        Ok(it)
    }
}

/// The requirement a race restriction names: `Race` its item, `RaceConstruct` "Construct".
pub open spec fn race_of(r: Requirement) -> Option<Seq<char>> {
    if r.kind@ == "Race"@ {
        opt_string(r.item)
    } else if r.kind@ == "RaceConstruct"@ {
        Some("Construct"@)
    } else {
        None
    }
}

/// The loose requirements followed by those of every `RequiresOneOf` group, in order.
pub open spec fn positive_requirements(groups: Seq<RequirementGroup>) -> Seq<Requirement>
    decreases groups.len(),
{
    if groups.len() == 0 {
        Seq::empty()
    } else {
        positive_requirements(groups.drop_last()) + groups.last().requirement@
    }
}

/// What [`Item::race_required`] returns.
pub open spec fn race_required_spec(reqs: Option<Requirements>) -> Option<Seq<char>> {
    match reqs {
        None => None,
        Some(r) => {
            let races = all_picks(
                r.requirement@ + positive_requirements(r.requires_one_of@),
                |q: Requirement| race_of(q),
            );
            if races.len() == 0 {
                None
            } else {
                Some(join(races, ", "@))
            }
        },
    }
}

fn race_of_exec(r: &Requirement) -> (out: Option<Vec<char>>)
    ensures
        match out {
            Some(v) => race_of(*r) == Some(v@),
            None => race_of(*r) is None,
        },
{
    let kind = chars_of(r.kind.as_str());
    if eq_str(kind.as_slice(), "Race") {
        match &r.item {
            Some(i) => Some(chars_of(i.as_str())),
            None => None,
        }
    } else if eq_str(kind.as_slice(), "RaceConstruct") {
        Some(chars_of("Construct"))
    } else {
        None
    }
}

fn collect_races(reqs: &Vec<Requirement>, out: &mut Vec<Vec<char>>)
    ensures
        final(out)@.map_values(|v: Vec<char>| v@) == old(out)@.map_values(|v: Vec<char>| v@) + all_picks(
            reqs@,
            |q: Requirement| race_of(q),
        ),
{
    let ghost start = out@.map_values(|v: Vec<char>| v@);
    let mut k: usize = 0;
    while k < reqs.len()
        invariant
            k <= reqs@.len(),
            out@.map_values(|v: Vec<char>| v@) == start + all_picks(reqs@.subrange(0, k as int), |q: Requirement| race_of(q)),
        decreases reqs@.len() - k,
    {
        proof {
            lemma_picks_push(reqs@.subrange(0, k as int), reqs@[k as int], |q: Requirement| race_of(q));
            assert(reqs@.subrange(0, k + 1) =~= reqs@.subrange(0, k as int).push(reqs@[k as int]));
        }
        let ghost before = out@.map_values(|v: Vec<char>| v@);
        match race_of_exec(&reqs[k]) {
            Some(v) => {
                out.push(v);
                assert(out@.map_values(|v: Vec<char>| v@) =~= before.push(out@.last()@));
            },
            None => {},
        }
        k += 1;
    }
    assert(reqs@.subrange(0, reqs@.len() as int) =~= reqs@);
}

pub proof fn lemma_all_picks_concat<T, R>(a: Seq<T>, b: Seq<T>, f: spec_fn(T) -> Option<R>)
    ensures
        all_picks(a + b, f) == all_picks(a, f) + all_picks(b, f),
    decreases b.len(),
{
    if b.len() == 0 {
        assert(a + b =~= a);
        assert(all_picks(b, f) =~= Seq::<R>::empty());
        assert(all_picks(a, f) + all_picks(b, f) =~= all_picks(a, f));
    } else {
        lemma_all_picks_concat(a, b.drop_last(), f);
        assert((a + b).drop_last() =~= a + b.drop_last());
        assert((a + b).last() == b.last());
        match f(b.last()) {
            Some(r) => {
                assert(all_picks(a, f) + all_picks(b, f) =~= (all_picks(a, f) + all_picks(b.drop_last(), f)).push(r));
            },
            None => {},
        }
    }
}

impl<F> Item<F> {
    /// The race restriction, if any: `Race`/`Item` requirements joined, `RaceConstruct` as
    /// "Construct". Restrictions (`NotConstruct`) and feat requirements are not race requirements.
    pub fn race_required(&self) -> (r: Option<String>)
        ensures
            opt_string(r) == race_required_spec(self.requirements),
    {
        let reqs = match &self.requirements {
            Some(r) => r,
            None => return None,
        };
        let mut races: Vec<Vec<char>> = Vec::new();
        assert(races@.map_values(|v: Vec<char>| v@) =~= Seq::<Seq<char>>::empty());
        collect_races(&reqs.requirement, &mut races);
        let ghost so_far = reqs.requirement@;
        let mut g: usize = 0;
        while g < reqs.requires_one_of.len()
            invariant
                g <= reqs.requires_one_of@.len(),
                races@.map_values(|v: Vec<char>| v@) == all_picks(
                    reqs.requirement@ + positive_requirements(reqs.requires_one_of@.subrange(0, g as int)),
                    |q: Requirement| race_of(q),
                ),
            decreases reqs.requires_one_of@.len() - g,
        {
            let ghost pre = reqs.requirement@ + positive_requirements(reqs.requires_one_of@.subrange(0, g as int));
            let ghost grp = reqs.requires_one_of@[g as int].requirement@;
            assert(reqs.requires_one_of@.subrange(0, g + 1).drop_last() =~= reqs.requires_one_of@.subrange(0, g as int));
            assert(reqs.requirement@ + positive_requirements(reqs.requires_one_of@.subrange(0, g + 1)) =~= pre + grp);
            proof {
                lemma_all_picks_concat(pre, grp, |q: Requirement| race_of(q));
            }
            collect_races(&reqs.requires_one_of[g].requirement, &mut races);
            g += 1;
        }
        assert(reqs.requires_one_of@.subrange(0, reqs.requires_one_of@.len() as int) =~= reqs.requires_one_of@);
        if races.len() == 0 {
            return None;
        }
        let j = join_chars(&races, ", ");
        Some(string_of(j.as_slice()))
    }
}

} // verus!
