//! Upstream records folded from their child elements, in document order: items, effects and
//! requirement blocks, and the placement, bonus types, buffs and quest links they lead to.

use ddo_data::map::bonus_type::normalize;
use ddo_data::map::buff::BuffMap;
use ddo_data::map::placement::{classify, Placement};
use ddo_data::map::MappingData;
use ddo_data::model::{BonusType, EquipmentSlot, Handedness, ItemCategory, LootType, Stat, WeaponType};
use ddo_data::rows::item_plan::{plan_item, BuffRow};
use ddo_data::rows::quest_index::QuestIndex;
use ddo_data::xml::effect::{Effect, EffectChild, RawDice};
use ddo_data::xml::items::{
    AugmentOption, Buff, Dice, EquipmentSlots, Item, ItemAugment, ItemChild, Requirement as ItemRequirement,
    Requirements as ItemRequirements, SlotTag,
};
use ddo_data::xml::requirements::{RawChild, RawGroup, Requirement, RequirementGroupKind, Requirements};
use ddo_data::xml::trees::{Selector, SelectorChild, Tree, TreeChild, TreeItem, TreeItemChild};

fn s(v: &str) -> String {
    v.to_string()
}

fn buff(kind: &str, item: Option<&str>, value1: Option<i64>, bonus_type: Option<&str>) -> Buff {
    Buff {
        kind: s(kind),
        item: item.map(s),
        item2: None,
        value1,
        value2: None,
        bonus_type: bonus_type.map(s),
        description1: None,
    }
}

fn option(name: &str, description: &str, grant: &[&str]) -> AugmentOption {
    AugmentOption {
        name: s(name),
        description: s(description),
        min_level: None,
        icon: None,
        grant_augment: grant.iter().map(|g| s(g)).collect(),
        set_bonus: vec![],
    }
}

fn socket(kind: &str, options: Vec<AugmentOption>) -> ItemChild<f64> {
    ItemChild::ItemAugment(ItemAugment { kind: s(kind), options })
}

fn item(children: Vec<ItemChild<f64>>) -> Item<f64> {
    Item::from_children(children).unwrap()
}

/// `Items/Sireth, Spear of the Sky.item`, element by element.
fn sireth() -> Item<f64> {
    item(vec![
        ItemChild::Name(s(" Sireth, Spear of the Sky ")),
        ItemChild::Icon(s("Quarterstaff_6a")),
        ItemChild::MinLevel(23),
        ItemChild::EquipmentSlot(EquipmentSlots { tags: vec![SlotTag::Weapon1] }),
        ItemChild::Weapon(s("Quarterstaff")),
        ItemChild::AttackModifier(s("Strength")),
        ItemChild::DrBypass(s("Good")),
        ItemChild::DrBypass(s("Magic")),
        ItemChild::DrBypass(s("Pierce")),
        ItemChild::DrBypass(s("Slash")),
        ItemChild::WeaponDamage(3.6),
        ItemChild::BaseDice(Dice { number: Some(1), sides: Some(10), bonus: None }),
        ItemChild::CriticalMultiplier(2),
        ItemChild::CriticalThreatRange(5),
        ItemChild::Material(s("Steel")),
        ItemChild::DropLocation(s("Caught in the Web, End Chest")),
        ItemChild::IsAcceptsSentience,
        ItemChild::Buff(buff("WeaponEnchantment", None, Some(7), Some("Weapon Enchantment"))),
        ItemChild::Buff(buff("Supreme Good", Some("All"), None, None)),
        ItemChild::Buff(buff("Seeker", None, Some(9), Some("Enhancement"))),
        ItemChild::Buff(buff("Deadly", None, Some(11), Some("Enhancement"))),
        ItemChild::Buff(buff("AbilityBonus", Some("Strength"), Some(8), Some("Enhancement"))),
        ItemChild::Buff(buff("Sovereign Vorpal", Some("All"), None, None)),
        socket("Attuned to Heroism 1", vec![]),
        socket("Tier 2", vec![option("+8 Enhancement Bonus", "+8 Enhancement Bonus to attack and damage.", &[])]),
        socket("Tier 3", vec![]),
        socket("Tier 4", vec![option("Red Augment Slot", "Adds a Red slot.", &["Red"])]),
    ])
}

#[test]
fn parses_a_named_weapon() {
    let it = sireth();
    assert_eq!(it.name, "Sireth, Spear of the Sky");
    assert_eq!(it.icon.as_deref(), Some("Quarterstaff_6a"));
    assert_eq!(it.min_level, Some(23));
    assert_eq!(it.equipment_slot.tags, vec![SlotTag::Weapon1]);
    assert_eq!(it.weapon.as_deref(), Some("Quarterstaff"));
    assert_eq!(it.attack_modifier, vec!["Strength"]);
    assert_eq!(it.dr_bypass, vec!["Good", "Magic", "Pierce", "Slash"]);
    assert_eq!(it.weapon_damage, Some(3.6));
    let dice = it.base_dice.as_ref().unwrap();
    assert_eq!((dice.number, dice.sides, dice.bonus), (Some(1), Some(10), None));
    assert_eq!(it.critical_multiplier, Some(2));
    assert_eq!(it.critical_threat_range, Some(5));
    assert_eq!(it.material.as_deref(), Some("Steel"));
    assert_eq!(it.drop_location.as_deref(), Some("Caught in the Web, End Chest"));
    assert!(it.accepts_sentience);
    assert!(!it.minor_artifact);

    assert_eq!(it.buffs.len(), 6);
    let first = &it.buffs[0];
    assert_eq!(first.kind, "WeaponEnchantment");
    assert_eq!(first.value1, Some(7));
    assert_eq!(first.bonus_type.as_deref(), Some("Weapon Enchantment"));
    let good = &it.buffs[1];
    assert_eq!(good.kind, "Supreme Good");
    assert_eq!(good.item.as_deref(), Some("All"));
    assert_eq!(good.value1, None);

    assert_eq!(it.augments.len(), 4);
    assert_eq!(it.augments[0].kind, "Attuned to Heroism 1");
    let preset = &it.augments[1].options[0];
    assert_eq!(preset.name, "+8 Enhancement Bonus");
    assert!(preset.description.starts_with("+8 Enhancement Bonus"));
    assert_eq!(it.augments[3].options[0].grant_augment, vec!["Red"]);
    let cloak = item(vec![ItemChild::Name(s("Legendary Cloak of Winter")), socket("Green", vec![])]);
    assert!(cloak.augments[0].options.is_empty(), "an open Green socket has no fixed content");
}

#[test]
fn parses_armor_with_requirements_and_docent_fields() {
    let it = item(vec![
        ItemChild::Name(s("Docent of Defiance")),
        ItemChild::EquipmentSlot(EquipmentSlots { tags: vec![SlotTag::Armor] }),
        ItemChild::Armor(s("Docent")),
        ItemChild::ArmorBonus(-3),
        ItemChild::MithralBody(5),
        ItemChild::AdamantineBody(12),
        ItemChild::Requirements(ItemRequirements {
            requirement: vec![ItemRequirement { kind: s("RaceConstruct"), item: None, value: None }],
            requires_one_of: vec![],
            requires_none_of: vec![],
        }),
        ItemChild::Buff(buff("EnergyResistance", Some("Fire"), Some(30), Some("Enhancement"))),
        ItemChild::Buff(buff("Fortification", None, Some(150), Some("Enhancement"))),
        ItemChild::Buff(buff("EnergyResistance", Some("Electric"), Some(30), Some("Enhancement"))),
        ItemChild::Buff(buff("EnergyResistance", Some("Cold"), Some(30), Some("Enhancement"))),
    ]);
    assert_eq!(it.equipment_slot.tags, vec![SlotTag::Armor]);
    assert_eq!(it.armor.as_deref(), Some("Docent"));
    assert_eq!(it.armor_bonus, Some(-3));
    assert_eq!(it.mithral_body, Some(5));
    assert_eq!(it.adamantine_body, Some(12));
    let reqs = it.requirements.as_ref().unwrap();
    assert_eq!(reqs.requirement.len(), 1);
    assert_eq!(reqs.requirement[0].kind, "RaceConstruct");
    assert!(reqs.requirement[0].item.is_none());
    assert_eq!(it.race_required().as_deref(), Some("Construct"));
    // Three EnergyResistance buffs carry their element in <Item>.
    let elements: Vec<_> =
        it.buffs.iter().filter(|b| b.kind == "EnergyResistance").map(|b| b.item.clone().unwrap()).collect();
    assert_eq!(elements, vec!["Fire", "Electric", "Cold"]);
}

#[test]
fn parses_the_two_slot_ring_and_value2() {
    let it = item(vec![
        ItemChild::Name(s("Five Rings")),
        ItemChild::EquipmentSlot(EquipmentSlots { tags: vec![SlotTag::Ring, SlotTag::Ring] }),
    ]);
    assert_eq!(it.equipment_slot.tags.len(), 2);
    let mut deception = buff("Deception", None, Some(3), Some("Insightful"));
    deception.value2 = Some(5);
    let stalker = item(vec![ItemChild::Name(s("Epic Ring of the Stalker")), ItemChild::Buff(deception)]);
    let deception = stalker.buffs.iter().find(|b| b.kind == "Deception").unwrap();
    assert_eq!((deception.value1, deception.value2), (Some(3), Some(5)));
    assert_eq!(deception.bonus_type.as_deref(), Some("Insightful"));
    assert_eq!(stalker.set_bonus, Vec::<String>::new());
    let boots = item(vec![
        ItemChild::Name(s("Kundarak Delving Boots")),
        ItemChild::SetBonus(s("Kundarak Delving Equipment")),
    ]);
    assert_eq!(boots.set_bonus, vec!["Kundarak Delving Equipment"]);
}

#[test]
fn parses_interleaved_repeated_elements() {
    // Upstream's Acid Rune Arm lists <Buff>, <Effect>, <Buff>; element order must not matter.
    let it = item(vec![
        ItemChild::Name(s("Acid Rune Arm")),
        ItemChild::Weapon(s("Rune Arm")),
        ItemChild::Buff(buff("RuneArmCharge", None, Some(1), None)),
        ItemChild::Effect,
        ItemChild::Buff(buff("Combustion", Some("Acid"), Some(54), Some("Enhancement"))),
        socket("Yellow", vec![]),
        socket("Colorless", vec![]),
    ]);
    assert_eq!(it.buffs.len(), 2, "{:?}", it.buffs.iter().map(|b| &b.kind).collect::<Vec<_>>());
    assert_eq!(it.weapon.as_deref(), Some("Rune Arm"));
    assert_eq!(it.augments.len(), 2);
}

fn req(kind: &str, items: &[&str], value: Option<&str>) -> Requirement {
    Requirement { kind: s(kind), items: items.iter().map(|i| s(i)).collect(), value: value.map(s) }
}

#[test]
fn parses_a_simple_effect() {
    let e = Effect::<f64>::from_children(vec![
        EffectChild::Type(s("SpellPower")),
        EffectChild::Bonus(s("Equipment")),
        EffectChild::Item(s("Fire")),
        EffectChild::AType(s("Simple")),
        EffectChild::Amount(vec![152.0]),
    ])
    .unwrap();
    assert_eq!(e.types, vec!["SpellPower"]);
    assert_eq!(e.bonus.as_deref(), Some("Equipment"));
    assert_eq!(e.amount_type.as_deref(), Some("Simple"));
    assert_eq!(e.amounts, vec![152.0]);
    assert_eq!(e.items, vec!["Fire"]);
    assert!(e.dice.is_none());
    assert!(!e.apply_as_item_effect);
}

#[test]
fn parses_vectors_multiple_types_dice_and_flags() {
    let reqs = Requirements::from_children(vec![
        RawChild::Requirement(req("EnemyType", &["Goblinoid", "Orc"], None)),
        RawChild::RequiresOneOf(RawGroup {
            display_description: None,
            requirements: vec![req("Stance", &["Power Attack"], None), req("Feat", &["Cleave"], Some("2"))],
        }),
    ])
    .unwrap();
    let e = Effect::<f64>::from_children(vec![
        EffectChild::DisplayName(s("Thunderforged Base Damage")),
        EffectChild::Type(s("MeleePower")),
        EffectChild::Type(s("Doublestrike")),
        EffectChild::Bonus(s("Base")),
        EffectChild::Amount(vec![3.5, 4.0, 4.5, 4.5]),
        EffectChild::Item(s("All")),
        EffectChild::IsItemSpecific,
        EffectChild::AType(s("Stacks")),
        EffectChild::Dice(RawDice { number: Some(vec![6.0]), sides: Some(vec![10.0]), bonus: None, damage: Some(s("Bane")) }),
        EffectChild::Percent,
        EffectChild::Rare,
        EffectChild::ApplyAsItemEffect,
        EffectChild::Rank(4),
        EffectChild::Cap(s("100")),
        EffectChild::StackSource(s("Dexterity")),
        EffectChild::Value(s("Byeshk")),
        EffectChild::Requirements(reqs),
    ])
    .unwrap();
    assert_eq!(e.types, vec!["MeleePower", "Doublestrike"]);
    assert_eq!(e.amounts, vec![3.5, 4.0, 4.5, 4.5]);
    assert_eq!(e.display_name.as_deref(), Some("Thunderforged Base Damage"));
    let dice = e.dice.as_ref().unwrap();
    assert_eq!((dice.number.clone(), dice.sides.clone(), dice.damage.as_deref()), (vec![6.0], vec![10.0], Some("Bane")));
    assert!(e.percent && e.rare && e.apply_as_item_effect && e.is_item_specific);
    assert_eq!(e.rank, Some(4));
    assert_eq!(e.cap.as_deref(), Some("100"));
    assert_eq!(e.stack_source.as_deref(), Some("Dexterity"));
    assert_eq!(e.value.as_deref(), Some("Byeshk"));
    let reqs = e.requirements.as_ref().unwrap();
    assert_eq!(reqs.groups.len(), 2);
    assert_eq!(reqs.groups[0].kind, RequirementGroupKind::All);
    assert_eq!(reqs.groups[0].requirements[0].kind, "EnemyType");
    assert_eq!(reqs.groups[0].requirements[0].items, vec!["Goblinoid", "Orc"]);
    assert_eq!(reqs.groups[1].kind, RequirementGroupKind::OneOf);
    assert_eq!(reqs.groups[1].requirements[1].value.as_deref(), Some("2"));
}

#[test]
fn parses_requirement_blocks_in_order() {
    let reqs = Requirements::from_children(vec![
        RawChild::RequiresOneOf(RawGroup {
            display_description: None,
            requirements: vec![req("Race", &["Warforged"], None), req("Race", &["Bladeforged"], None)],
        }),
        RawChild::RequiresNoneOf(RawGroup { display_description: None, requirements: vec![req("Feat", &["Druidic Oath"], None)] }),
        RawChild::RequiresNoneOf(RawGroup {
            display_description: Some(s("Not with Mithral Body")),
            requirements: vec![req("Feat", &["Mithral Body"], None)],
        }),
        RawChild::Requirement(req("Level", &[], Some("4"))),
    ])
    .unwrap();
    let kinds: Vec<_> = reqs.groups.iter().map(|g| g.kind).collect();
    assert_eq!(
        kinds,
        vec![RequirementGroupKind::OneOf, RequirementGroupKind::NoneOf, RequirementGroupKind::NoneOf, RequirementGroupKind::All]
    );
    assert_eq!(reqs.groups[0].requirements.len(), 2);
    assert_eq!(reqs.groups[2].display_description.as_deref(), Some("Not with Mithral Body"));
    assert_eq!(reqs.groups[3].requirements[0].value.as_deref(), Some("4"));
}

#[test]
fn parses_a_class_tree_with_tier5_and_exclusions() {
    let item = |n: usize, extra: Vec<TreeItemChild<f64, f64>>| {
        let mut cs = vec![
            TreeItemChild::Name(format!("Assassin {n}")),
            TreeItemChild::InternalName(format!("AssItem{n}")),
        ];
        cs.extend(extra);
        TreeItem::from_children(cs).unwrap()
    };
    let mut children = vec![TreeChild::Name(s("Assassin")), TreeChild::Version(2)];
    for n in 0..5 {
        children.push(TreeChild::EnhancementTreeItem(item(n, vec![TreeItemChild::Tier5])));
    }
    let selector = Selector::from_children(vec![
        SelectorChild::Exclusions(s("AssPoisonStrikes2")),
        SelectorChild::Exclusions(s("AssPoisonStrikes3")),
    ]);
    children.push(TreeChild::EnhancementTreeItem(item(5, vec![TreeItemChild::Selector(selector)])));
    children.push(TreeChild::EnhancementTreeItem(item(6, vec![TreeItemChild::Clickie])));
    let tree = Tree::<f64, f64>::from_children(children).unwrap();
    assert!(!tree.is_racial);
    assert_eq!(tree.items.iter().filter(|i| i.is_tier5).count(), 5);
    let with_exclusions =
        tree.items.iter().find(|i| i.selector.as_ref().is_some_and(|s| !s.exclusions.is_empty())).unwrap();
    assert!(with_exclusions.selector.as_ref().unwrap().exclusions[0].starts_with("AssPoisonStrikes"));
    assert!(tree.items.iter().any(|i| i.is_clickie));
}

fn pair(a: &str, b: &str) -> (String, String) {
    (s(a), s(b))
}

fn bonus_types() -> Vec<BonusType> {
    ["Enhancement", "Insight", "Resistance", "Vitality", "Deflection", "Equipment", "Competence"]
        .iter()
        .enumerate()
        .map(|(i, n)| BonusType { id: i as i64 + 1, name: s(n) })
        .collect()
}

fn bonus_aliases() -> Vec<(String, String)> {
    vec![
        pair("Weapon Enchantment", "Enhancement"),
        pair("Armor Enhancement", "Enhancement"),
        pair("Insightful", "Insight"),
        pair("resistance", "Resistance"),
        pair("Not Set", ""),
    ]
}

#[test]
fn bonus_types_normalise_onto_ours() {
    let n = |raw: &str| normalize(raw, &bonus_aliases(), &bonus_types()).map(|b| b.map(|b| b.name));
    assert_eq!(n("Enhancement").unwrap().as_deref(), Some("Enhancement"));
    assert_eq!(n("Weapon Enchantment").unwrap().as_deref(), Some("Enhancement"));
    assert_eq!(n("Armor Enhancement").unwrap().as_deref(), Some("Enhancement"));
    assert_eq!(n("Insightful").unwrap().as_deref(), Some("Insight"));
    assert_eq!(n("resistance").unwrap().as_deref(), Some("Resistance"));
    assert_eq!(n("Vitality").unwrap().as_deref(), Some("Vitality"));
    assert_eq!(n("Not Set").unwrap(), None);
    assert_eq!(n("").unwrap(), None);
    assert!(n("Bogus").is_err(), "an unknown bonus type is a parse error");
}

fn weapon_types() -> Vec<WeaponType> {
    ["Longsword", "Longbow", "Dart", "Large Shield", "Rune Arm", "Orb", "Quarterstaff"]
        .iter()
        .enumerate()
        .map(|(i, n)| WeaponType::from_seed(i as i64 + 1, s(n), n.ends_with("Shield")))
        .collect()
}

fn slots(tags: &[SlotTag]) -> EquipmentSlots {
    EquipmentSlots { tags: tags.to_vec() }
}

#[test]
fn placement_from_slot_tags_and_weapon_type() {
    let table = weapon_types();
    let aliases = vec![pair("RuneArm", "Rune Arm")];
    let classify = |tags: &[SlotTag], weapon: Option<&str>, armor: Option<&str>| {
        classify(&slots(tags), weapon, armor, &table, &aliases)
    };
    let one_handed = classify(&[SlotTag::Weapon1, SlotTag::Weapon2], Some("Longsword"), None).unwrap();
    assert_eq!(
        one_handed,
        Some(Placement {
            slot: EquipmentSlot::MainHand,
            category: ItemCategory::Weapon,
            handedness: Some(Handedness::OneHanded),
            item_type: Some("Longsword".into()),
        })
    );
    let bow = classify(&[SlotTag::Weapon1], Some("Longbow"), None).unwrap().unwrap();
    assert_eq!((bow.slot, bow.handedness), (EquipmentSlot::MainHand, Some(Handedness::TwoHanded)));
    let dart = classify(&[SlotTag::Weapon1, SlotTag::Weapon2], Some("Dart"), None).unwrap().unwrap();
    assert_eq!(dart.handedness, Some(Handedness::Thrown));
    let shield = classify(&[SlotTag::Weapon2], Some("Large Shield"), None).unwrap().unwrap();
    assert_eq!(
        (shield.slot, shield.category, shield.handedness),
        (EquipmentSlot::OffHand, ItemCategory::Shield, Some(Handedness::OffHand))
    );
    let rune_arm = classify(&[SlotTag::Weapon2], Some("RuneArm"), None).unwrap().unwrap();
    assert_eq!((rune_arm.slot, rune_arm.item_type.as_deref()), (EquipmentSlot::Runearm, Some("Rune Arm")));

    let docent = classify(&[SlotTag::Armor], None, Some("Docent")).unwrap().unwrap();
    assert_eq!(
        (docent.slot, docent.category, docent.item_type.as_deref()),
        (EquipmentSlot::Body, ItemCategory::Armor, Some("Docent"))
    );
    let gloves = classify(&[SlotTag::Gloves], None, None).unwrap().unwrap();
    assert_eq!((gloves.slot, gloves.category), (EquipmentSlot::Hands, ItemCategory::Clothing));
    let ring = classify(&[SlotTag::Ring, SlotTag::Trinket], None, None).unwrap().unwrap();
    assert_eq!((ring.slot, ring.category), (EquipmentSlot::Ring, ItemCategory::Jewelry));

    assert_eq!(classify(&[SlotTag::CosmeticHelm], None, None).unwrap(), None, "cosmetic-only items are excluded");
    assert_eq!(classify(&[], None, None).unwrap(), None);
    assert!(classify(&[SlotTag::Weapon1], Some("Lightsaber"), None).is_err(), "unknown weapon type is an error");
}

#[test]
fn splits_buffs_into_bonuses_and_effects() {
    let stats = vec![Stat { id: 1, name: s("Cold Absorption") }, Stat { id: 2, name: s("Hit Points") }];
    let mapping = MappingData {
        enhancement: vec![s("ArmorEnchantment")],
        fixed: vec![pair("FalseLife", "Hit Points")],
        by_item: vec![pair("Absorption", "{item} Absorption")],
        item_aliases: vec![],
        bonus_type_aliases: vec![],
        weapon_aliases: vec![],
    };
    let map = BuffMap::load(mapping, stats, bonus_types()).unwrap();
    let templates = vec![
        pair("FalseLife", "%v1 False Life: Passive: +%v1 %b1 bonus to maximum hit points."),
        pair("Legendary Ice Barrier", "Legendary Ice Barrier: Passive: absorbs cold damage and chills attackers."),
    ];
    let cloak = item(vec![
        ItemChild::Name(s("Legendary Cloak of Winter")),
        ItemChild::Buff(buff("Absorption", Some("Cold"), Some(34), Some("Enhancement"))),
        ItemChild::Buff(buff("FalseLife", None, Some(50), Some("Enhancement"))),
        ItemChild::Buff(buff("Legendary Ice Barrier", None, None, None)),
        ItemChild::Buff(buff("Lifesealed", None, Some(34), Some("Enhancement"))),
    ]);
    let plan = plan_item(&cloak, &map, &templates).unwrap();
    let bonuses: Vec<(String, String, Option<String>)> = plan
        .buffs
        .iter()
        .filter_map(|r| match r {
            BuffRow::Bonus { stat, bonus_type, label, .. } => {
                Some((label.clone(), stat.name.clone(), bonus_type.as_ref().map(|b| b.name.clone())))
            }
            _ => None,
        })
        .collect();
    assert_eq!(
        bonuses,
        vec![
            (s("Cold Absorption +34"), s("Cold Absorption"), Some(s("Enhancement"))),
            (s("Hit Points +50"), s("Hit Points"), Some(s("Enhancement"))),
        ]
    );
    let effects: Vec<(String, Option<i64>, Option<String>)> = plan
        .buffs
        .iter()
        .filter_map(|r| match r {
            BuffRow::Effect { name, value, description, .. } => Some((name.clone(), *value, description.clone())),
            _ => None,
        })
        .collect();
    assert_eq!(effects.len(), 2);
    assert_eq!(effects[0].0, "Legendary Ice Barrier");
    assert_eq!((effects[1].0.as_str(), effects[1].1), ("Lifesealed", Some(34)));
    assert!(effects[0].2.as_deref().unwrap_or("").len() > 10, "effects carry ItemBuffs.xml text");
    let hp = plan.buffs.iter().find_map(|r| match r {
        BuffRow::Bonus { label, description, .. } if label == "Hit Points +50" => description.clone(),
        _ => None,
    });
    assert!(hp.unwrap().contains("50"));
}

#[test]
fn links_items_to_quests_from_drop_location() {
    let index = QuestIndex::new(vec![
        (s("Caught in the Web"), 1, true),
        (s("The Cursed Crypt"), 2, false),
        (s("Temple of Elemental Evil: Water Node"), 3, false),
        (s("Web"), 4, false),
    ]);
    assert_eq!(index.links("Caught in the Web, End Chest"), vec![(1, LootType::Raid)], "Caught in the Web is a raid");
    assert_eq!(
        index.links("The Cursed Crypt, End Chest"),
        vec![(2, LootType::Chest)],
        "'The Cursed Crypt, End Chest' is a non-raid chest drop"
    );
    // Upstream writes "Temple of Elemental Evil Part One" but the quests are named by node, so
    // this drop text stays unlinked.
    assert!(index.links("Temple of Elemental Evil Part One: Chest").is_empty());
}

#[test]
fn requirement_groups_follow_document_order() {
    let block = |r: Requirement| RawGroup { display_description: None, requirements: vec![r] };
    let reqs = Requirements::from_children(vec![
        RawChild::Requirement(req("Level", &[], Some("4"))),
        RawChild::Requirement(req("Race", &["Human"], None)),
        RawChild::RequiresOneOf(block(req("Class", &["Fighter"], None))),
        RawChild::Requirement(req("Feat", &["Toughness"], None)),
        RawChild::RequiresNoneOf(block(req("Feat", &["Druidic Oath"], None))),
    ])
    .unwrap();
    let kinds: Vec<RequirementGroupKind> = reqs.groups.iter().map(|g| g.kind).collect();
    assert_eq!(
        kinds,
        vec![RequirementGroupKind::All, RequirementGroupKind::OneOf, RequirementGroupKind::All, RequirementGroupKind::NoneOf]
    );
    assert_eq!(reqs.groups[0].requirements.len(), 2, "neighbouring loose requirements share a group");
}
