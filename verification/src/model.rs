//! The closed vocabularies of the DDO Tools schema that the logic decides between: where an item
//! goes, what it is, how it is held, how loot drops. Seed tables (stats, weapon types) are data
//! the caller supplies.

use vstd::prelude::*;
use crate::text::{chars_eq, chars_of, eq_str};

verus! {

#[derive(Debug, Clone, Copy, PartialEq, Eq)]
pub enum EquipmentSlot {
    Head,
    Neck,
    Trinket,
    Back,
    Wrists,
    Hands,
    Waist,
    Feet,
    Ring,
    Goggles,
    Body,
    MainHand,
    OffHand,
    Runearm,
    Quiver,
}

impl EquipmentSlot {
    /// The `equipment_slots.name` of the slot.
    pub fn as_str(self) -> (r: &'static str)
        ensures
            self is Head ==> r@ == "Head"@,
            self is Neck ==> r@ == "Neck"@,
            self is Trinket ==> r@ == "Trinket"@,
            self is Back ==> r@ == "Back"@,
            self is Wrists ==> r@ == "Wrists"@,
            self is Hands ==> r@ == "Hands"@,
            self is Waist ==> r@ == "Waist"@,
            self is Feet ==> r@ == "Feet"@,
            self is Ring ==> r@ == "Ring"@,
            self is Goggles ==> r@ == "Goggles"@,
            self is Body ==> r@ == "Body"@,
            self is MainHand ==> r@ == "Main Hand"@,
            self is OffHand ==> r@ == "Off Hand"@,
            self is Runearm ==> r@ == "Runearm"@,
            self is Quiver ==> r@ == "Quiver"@,
    {
        match self {
            EquipmentSlot::Head => "Head",
            EquipmentSlot::Neck => "Neck",
            EquipmentSlot::Trinket => "Trinket",
            EquipmentSlot::Back => "Back",
            EquipmentSlot::Wrists => "Wrists",
            EquipmentSlot::Hands => "Hands",
            EquipmentSlot::Waist => "Waist",
            EquipmentSlot::Feet => "Feet",
            EquipmentSlot::Ring => "Ring",
            EquipmentSlot::Goggles => "Goggles",
            EquipmentSlot::Body => "Body",
            EquipmentSlot::MainHand => "Main Hand",
            EquipmentSlot::OffHand => "Off Hand",
            EquipmentSlot::Runearm => "Runearm",
            EquipmentSlot::Quiver => "Quiver",
        }
    }
}

#[derive(Debug, Clone, Copy, PartialEq, Eq)]
pub enum ItemCategory {
    Armor,
    Shield,
    Weapon,
    Jewelry,
    Clothing,
}

impl ItemCategory {
    /// The `items.item_category` value.
    pub fn as_str(self) -> (r: &'static str)
        ensures
            r@ == category_name(self),
    {
        match self {
            ItemCategory::Armor => "Armor",
            ItemCategory::Shield => "Shield",
            ItemCategory::Weapon => "Weapon",
            ItemCategory::Jewelry => "Jewelry",
            ItemCategory::Clothing => "Clothing",
        }
    }

    /// The category a list filter names, if any.
    pub fn parse(s: &str) -> (r: Option<ItemCategory>)
        ensures
            r matches Some(c) ==> category_name(c) == s@,
            r is None ==> forall|c: ItemCategory| category_name(c) != s@,
    {
        let v = chars_of(s);
        if eq_str(v.as_slice(), "Armor") {
            Some(ItemCategory::Armor)
        } else if eq_str(v.as_slice(), "Shield") {
            Some(ItemCategory::Shield)
        } else if eq_str(v.as_slice(), "Weapon") {
            Some(ItemCategory::Weapon)
        } else if eq_str(v.as_slice(), "Jewelry") {
            Some(ItemCategory::Jewelry)
        } else if eq_str(v.as_slice(), "Clothing") {
            Some(ItemCategory::Clothing)
        } else {
            None
        }
    }
}

pub open spec fn category_name(c: ItemCategory) -> Seq<char> {
    match c {
        ItemCategory::Armor => "Armor"@,
        ItemCategory::Shield => "Shield"@,
        ItemCategory::Weapon => "Weapon"@,
        ItemCategory::Jewelry => "Jewelry"@,
        ItemCategory::Clothing => "Clothing"@,
    }
}

#[derive(Debug, Clone, Copy, PartialEq, Eq)]
pub enum Handedness {
    OneHanded,
    TwoHanded,
    OffHand,
    Thrown,
}

impl Handedness {
    /// The `item_weapon_stats.handedness` value.
    pub fn as_str(self) -> (r: &'static str)
        ensures
            self is OneHanded ==> r@ == "One-handed"@,
            self is TwoHanded ==> r@ == "Two-handed"@,
            self is OffHand ==> r@ == "Off-hand"@,
            self is Thrown ==> r@ == "Thrown"@,
    {
        match self {
            Handedness::OneHanded => "One-handed",
            Handedness::TwoHanded => "Two-handed",
            Handedness::OffHand => "Off-hand",
            Handedness::Thrown => "Thrown",
        }
    }
}

/// How an item reaches the player from a quest.
#[derive(Debug, Clone, Copy, PartialEq, Eq)]
pub enum LootType {
    Raid,
    Reward,
    Chest,
}

impl LootType {
    /// The `quest_loot.loot_type` value.
    pub fn as_str(self) -> (r: &'static str)
        ensures
            self is Raid ==> r@ == "raid"@,
            self is Reward ==> r@ == "reward"@,
            self is Chest ==> r@ == "chest"@,
    {
        match self {
            LootType::Raid => "raid",
            LootType::Reward => "reward",
            LootType::Chest => "chest",
        }
    }
}

/// Where a feat is defined: the standard list, or a race's or class's own file.
#[derive(Debug, Clone, Copy, PartialEq, Eq, Structural)]
pub enum FeatSource {
    Standard,
    Race,
    Class,
}

/// The name of a feat source, as stored and as a filter takes it.
pub open spec fn feat_source_name(k: FeatSource) -> Seq<char> {
    match k {
        FeatSource::Standard => "standard"@,
        FeatSource::Race => "race"@,
        FeatSource::Class => "class"@,
    }
}

impl FeatSource {
    /// The source with this name, if any.
    pub fn parse(s: &str) -> (r: Option<FeatSource>)
        ensures
            r matches Some(k) ==> feat_source_name(k) == s@,
            r is None ==> forall|k: FeatSource| feat_source_name(k) != s@,
    {
        proof {
            reveal_strlit("standard");
            reveal_strlit("race");
            reveal_strlit("class");
        }
        let c = crate::text::chars_of(s);
        if crate::text::eq_str(c.as_slice(), "standard") {
            Some(FeatSource::Standard)
        } else if crate::text::eq_str(c.as_slice(), "race") {
            Some(FeatSource::Race)
        } else if crate::text::eq_str(c.as_slice(), "class") {
            Some(FeatSource::Class)
        } else {
            proof {
                assert forall|k: FeatSource| feat_source_name(k) != s@ by {
                    match k {
                        FeatSource::Standard => {},
                        FeatSource::Race => {},
                        FeatSource::Class => {},
                    }
                }
            }
            None
        }
    }

    /// The `feats.source_kind` value.
    pub fn as_str(self) -> (r: &'static str)
        ensures
            r@ == feat_source_name(self),
    {
        match self {
            FeatSource::Standard => "standard",
            FeatSource::Race => "race",
            FeatSource::Class => "class",
        }
    }
}

/// What a `modifiers` row belongs to.
#[derive(Debug, Clone, Copy, PartialEq, Eq)]
pub enum ModifierSource {
    Item,
    Clickie,
    Augment,
    SetBonusTier,
    Filigree,
    Feat,
    Spell,
    Enhancement,
    EnhancementSelection,
}

impl ModifierSource {
    /// The `modifiers.source_kind` value.
    pub fn as_str(self) -> (r: &'static str)
        ensures
            self is Item ==> r@ == "item"@,
            self is Clickie ==> r@ == "clickie"@,
            self is Augment ==> r@ == "augment"@,
            self is SetBonusTier ==> r@ == "set_bonus_tier"@,
            self is Filigree ==> r@ == "filigree"@,
            self is Feat ==> r@ == "feat"@,
            self is Spell ==> r@ == "spell"@,
            self is Enhancement ==> r@ == "enhancement"@,
            self is EnhancementSelection ==> r@ == "enhancement_selection"@,
    {
        match self {
            ModifierSource::Item => "item",
            ModifierSource::Clickie => "clickie",
            ModifierSource::Augment => "augment",
            ModifierSource::SetBonusTier => "set_bonus_tier",
            ModifierSource::Filigree => "filigree",
            ModifierSource::Feat => "feat",
            ModifierSource::Spell => "spell",
            ModifierSource::Enhancement => "enhancement",
            ModifierSource::EnhancementSelection => "enhancement_selection",
        }
    }
}

/// What a `requirements`, `stances` or `dcs` row belongs to.
#[derive(Debug, Clone, Copy, PartialEq, Eq)]
pub enum OwnerKind {
    Modifier,
    Feat,
    FeatAutoAcquire,
    FeatConditionalGroup,
    Stance,
    Spell,
    EnhancementTree,
    Enhancement,
    EnhancementSelection,
}

impl OwnerKind {
    /// The `owner_kind` value.
    pub fn as_str(self) -> (r: &'static str)
        ensures
            self is Modifier ==> r@ == "modifier"@,
            self is Feat ==> r@ == "feat"@,
            self is FeatAutoAcquire ==> r@ == "feat_auto_acquire"@,
            self is FeatConditionalGroup ==> r@ == "feat_conditional_group"@,
            self is Stance ==> r@ == "stance"@,
            self is Spell ==> r@ == "spell"@,
            self is EnhancementTree ==> r@ == "enhancement_tree"@,
            self is Enhancement ==> r@ == "enhancement"@,
            self is EnhancementSelection ==> r@ == "enhancement_selection"@,
    {
        match self {
            OwnerKind::Modifier => "modifier",
            OwnerKind::Feat => "feat",
            OwnerKind::FeatAutoAcquire => "feat_auto_acquire",
            OwnerKind::FeatConditionalGroup => "feat_conditional_group",
            OwnerKind::Stance => "stance",
            OwnerKind::Spell => "spell",
            OwnerKind::EnhancementTree => "enhancement_tree",
            OwnerKind::Enhancement => "enhancement",
            OwnerKind::EnhancementSelection => "enhancement_selection",
        }
    }
}

/// What kind of enhancement tree a tree is.
#[derive(Debug, Clone, Copy, PartialEq, Eq)]
pub enum TreeKind {
    Racial,
    Destiny,
    Reaper,
    Universal,
    Class,
}

impl TreeKind {
    /// The `enhancement_trees.kind` value.
    pub fn as_str(self) -> (r: &'static str)
        ensures
            self is Racial ==> r@ == "racial"@,
            self is Destiny ==> r@ == "destiny"@,
            self is Reaper ==> r@ == "reaper"@,
            self is Universal ==> r@ == "universal"@,
            self is Class ==> r@ == "class"@,
    {
        match self {
            TreeKind::Racial => "racial",
            TreeKind::Destiny => "destiny",
            TreeKind::Reaper => "reaper",
            TreeKind::Universal => "universal",
            TreeKind::Class => "class",
        }
    }
}

/// The armor class of a piece of armor or a shield, named as upstream writes it.
#[derive(Debug, Clone, Copy, PartialEq, Eq)]
pub enum ArmorType {
    Cloth,
    Light,
    Medium,
    Heavy,
    Docent,
    Shield,
}

pub open spec fn armor_type_name(a: ArmorType) -> Seq<char> {
    match a {
        ArmorType::Cloth => "Cloth"@,
        ArmorType::Light => "Light"@,
        ArmorType::Medium => "Medium"@,
        ArmorType::Heavy => "Heavy"@,
        ArmorType::Docent => "Docent"@,
        ArmorType::Shield => "Shield"@,
    }
}

/// The armor type whose upstream name is `s`, if any.
pub open spec fn armor_type_of(s: Seq<char>) -> Option<ArmorType> {
    if s == "Cloth"@ {
        Some(ArmorType::Cloth)
    } else if s == "Light"@ {
        Some(ArmorType::Light)
    } else if s == "Medium"@ {
        Some(ArmorType::Medium)
    } else if s == "Heavy"@ {
        Some(ArmorType::Heavy)
    } else if s == "Docent"@ {
        Some(ArmorType::Docent)
    } else if s == "Shield"@ {
        Some(ArmorType::Shield)
    } else {
        None
    }
}

impl ArmorType {
    /// The armor type an `<Armor>` element names, if it is one of ours.
    pub fn parse(s: &str) -> (r: Option<ArmorType>)
        ensures
            r == armor_type_of(s@),
            r matches Some(a) ==> armor_type_name(a) == s@,
            r is None ==> forall|a: ArmorType| armor_type_name(a) != s@,
    {
        let v = chars_of(s);
        if eq_str(v.as_slice(), "Cloth") {
            Some(ArmorType::Cloth)
        } else if eq_str(v.as_slice(), "Light") {
            Some(ArmorType::Light)
        } else if eq_str(v.as_slice(), "Medium") {
            Some(ArmorType::Medium)
        } else if eq_str(v.as_slice(), "Heavy") {
            Some(ArmorType::Heavy)
        } else if eq_str(v.as_slice(), "Docent") {
            Some(ArmorType::Docent)
        } else if eq_str(v.as_slice(), "Shield") {
            Some(ArmorType::Shield)
        } else {
            None
        }
    }

    /// The `item_armor_stats.armor_type` value.
    pub fn as_str(self) -> (r: &'static str)
        ensures
            r@ == armor_type_name(self),
    {
        match self {
            ArmorType::Cloth => "Cloth",
            ArmorType::Light => "Light",
            ArmorType::Medium => "Medium",
            ArmorType::Heavy => "Heavy",
            ArmorType::Docent => "Docent",
            ArmorType::Shield => "Shield",
        }
    }
}

/// How fast a class's saving throw grows.
#[derive(Debug, Clone, Copy, PartialEq, Eq)]
pub enum SaveProgression {
    Good,
    Poor,
}

/// The progression an upstream `<Fortitude>`, `<Reflex>` or `<Will>` value names.
pub open spec fn save_progression_of(s: Seq<char>) -> Option<SaveProgression> {
    if s == "Good"@ {
        Some(SaveProgression::Good)
    } else if s == "Poor"@ {
        Some(SaveProgression::Poor)
    } else {
        None
    }
}

impl SaveProgression {
    /// The progression upstream's value names; `None` for a value that names none.
    pub fn from_upstream(s: &str) -> (r: Option<SaveProgression>)
        ensures
            r == save_progression_of(s@),
    {
        let v = chars_of(s);
        if eq_str(v.as_slice(), "Good") {
            Some(SaveProgression::Good)
        } else if eq_str(v.as_slice(), "Poor") {
            Some(SaveProgression::Poor)
        } else {
            None
        }
    }

    /// The `classes.fortitude`, `reflex` and `will` value.
    pub fn as_str(self) -> (r: &'static str)
        ensures
            self is Good ==> r@ == "good"@,
            self is Poor ==> r@ == "poor"@,
    {
        match self {
            SaveProgression::Good => "good",
            SaveProgression::Poor => "poor",
        }
    }
}

/// A row of the `stats` seed: what a bonus applies to.
#[derive(Debug, Clone, PartialEq, Eq)]
pub struct Stat {
    pub id: i64,
    pub name: String,
}

/// A row of the `weapon_types` seed.
#[derive(Debug, Clone, PartialEq, Eq)]
pub struct WeaponType {
    pub id: i64,
    pub name: String,
    pub is_shield: bool,
    /// Thrown weapons (darts, shuriken, throwing axes and hammers).
    pub is_thrown: bool,
}

/// The weapon types thrown from the hand.
pub open spec fn thrown_name(name: Seq<char>) -> bool {
    name == "Dart"@ || name == "Shuriken"@ || name == "Throwing Axe"@ || name == "Throwing Hammer"@
}

impl WeaponType {
    /// A seed row, marked thrown when its name is one of the thrown weapon types.
    pub fn from_seed(id: i64, name: String, is_shield: bool) -> (r: WeaponType)
        ensures
            r.id == id,
            r.name@ == name@,
            r.is_shield == is_shield,
            r.is_thrown == thrown_name(name@),
    {
        let v = chars_of(name.as_str());
        let is_thrown = eq_str(v.as_slice(), "Dart") || eq_str(v.as_slice(), "Shuriken")
            || eq_str(v.as_slice(), "Throwing Axe") || eq_str(v.as_slice(), "Throwing Hammer");
        WeaponType { id, name, is_shield, is_thrown }
    }
}

/// The first entry of `table` whose name is `name`.
pub open spec fn weapon_by_name(table: Seq<WeaponType>, name: Seq<char>) -> Option<WeaponType>
    decreases table.len(),
{
    if table.len() == 0 {
        None
    } else if table[0].name@ == name {
        Some(table[0])
    } else {
        weapon_by_name(table.drop_first(), name)
    }
}

/// The seed row for a weapon type name.
pub fn weapon_type_by_name<'a>(table: &'a [WeaponType], name: &[char]) -> (r: Option<&'a WeaponType>)
    ensures
        match r {
            Some(w) => weapon_by_name(table@, name@) == Some(*w),
            None => weapon_by_name(table@, name@) is None,
        },
{
    let mut k: usize = 0;
    assert(table@.subrange(0, table@.len() as int) =~= table@);
    while k < table.len()
        invariant
            k <= table@.len(),
            weapon_by_name(table@, name@) == weapon_by_name(table@.subrange(k as int, table@.len() as int), name@),
        decreases table@.len() - k,
    {
        let n = chars_of(table[k].name.as_str());
        assert(table@.subrange(k as int, table@.len() as int)[0] == table@[k as int]);
        if chars_eq(n.as_slice(), name) {
            return Some(&table[k]);
        }
        assert(table@.subrange(k as int, table@.len() as int).drop_first() =~= table@.subrange(
            k + 1,
            table@.len() as int,
        ));
        k += 1;
    }
    None
}

/// The first entry of `table` named `name`.
pub open spec fn stat_by_name(table: Seq<Stat>, name: Seq<char>) -> Option<Stat>
    decreases table.len(),
{
    if table.len() == 0 {
        None
    } else if table[0].name@ == name {
        Some(table[0])
    } else {
        stat_by_name(table.drop_first(), name)
    }
}

/// The seed row for a stat name.
pub fn find_stat(table: &[Stat], name: &[char]) -> (r: Option<Stat>)
    ensures
        r == stat_by_name(table@, name@),
{
    let mut k: usize = 0;
    assert(table@.subrange(0, table@.len() as int) =~= table@);
    while k < table.len()
        invariant
            k <= table@.len(),
            stat_by_name(table@, name@) == stat_by_name(table@.subrange(k as int, table@.len() as int), name@),
        decreases table@.len() - k,
    {
        let n = chars_of(table[k].name.as_str());
        assert(table@.subrange(k as int, table@.len() as int)[0] == table@[k as int]);
        if chars_eq(n.as_slice(), name) {
            return Some(Stat { id: table[k].id, name: table[k].name.clone() });
        }
        assert(table@.subrange(k as int, table@.len() as int).drop_first() =~= table@.subrange(
            k + 1,
            table@.len() as int,
        ));
        k += 1;
    }
    None
}

/// A row of the `bonus_types` seed: how two bonuses of one type stack.
#[derive(Debug, Clone, PartialEq, Eq)]
pub struct BonusType {
    pub id: i64,
    pub name: String,
}

/// The first entry of `table` named `name`.
pub open spec fn bonus_type_by_name(table: Seq<BonusType>, name: Seq<char>) -> Option<BonusType>
    decreases table.len(),
{
    if table.len() == 0 {
        None
    } else if table[0].name@ == name {
        Some(table[0])
    } else {
        bonus_type_by_name(table.drop_first(), name)
    }
}

/// The seed row for a canonical bonus type name.
pub fn find_bonus_type(table: &[BonusType], name: &[char]) -> (r: Option<BonusType>)
    ensures
        r == bonus_type_by_name(table@, name@),
{
    let mut k: usize = 0;
    assert(table@.subrange(0, table@.len() as int) =~= table@);
    while k < table.len()
        invariant
            k <= table@.len(),
            bonus_type_by_name(table@, name@) == bonus_type_by_name(
                table@.subrange(k as int, table@.len() as int),
                name@,
            ),
        decreases table@.len() - k,
    {
        let n = chars_of(table[k].name.as_str());
        assert(table@.subrange(k as int, table@.len() as int)[0] == table@[k as int]);
        if chars_eq(n.as_slice(), name) {
            return Some(BonusType { id: table[k].id, name: table[k].name.clone() });
        }
        assert(table@.subrange(k as int, table@.len() as int).drop_first() =~= table@.subrange(
            k + 1,
            table@.len() as int,
        ));
        k += 1;
    }
    None
}

} // verus!
