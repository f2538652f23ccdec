//! The values the database rows hold.

use ddo_data::map::buff::BuffMap;
use ddo_data::map::MappingData;
use ddo_data::model::{ArmorType, BonusType, LootType, SaveProgression, Stat};
use ddo_data::rows::character_rows::{dc_row, feat_row, feat_slot_row, json_strings, stance_row};
use ddo_data::rows::item_plan::{armor_stat_types, clickie_names, dr_bypasses, plan_item, BuffRow};
use ddo_data::rows::quest_index::QuestIndex;
use ddo_data::rows::{bonus_label, critical_text, join_nonempty, nonempty, render_damage, wiki_url};
use ddo_data::xml::classes::FeatSlot;
use ddo_data::xml::effect::{Effect, EffectChild};
use ddo_data::xml::feats::{Dc, Feat, FeatChild, Stance};
use ddo_data::xml::items::{Buff, Item, ItemChild, Requirement as ItemRequirement, Requirements as ItemRequirements};
use ddo_data::xml::Empty;
use ddo_data::rows::timestamp::utc_timestamp;
use ddo_data::rows::spell_rows::{requirement_rows, spell_damage_row, spell_row};
use ddo_data::xml::requirements::{RawChild, RawGroup, Requirement, RequirementGroupKind, Requirements};
use ddo_data::xml::spells::{DiceSpec, Spell, SpellChild, SpellDamage, SpellDice};

fn strings(v: &[&str]) -> Vec<String> {
    v.iter().map(|s| s.to_string()).collect()
}

#[test]
fn display_strings_render_like_the_legacy_database() {
    let bypass = strings(&["Good", " Magic ", "", "-", "Pierce", "Slash"]);
    assert_eq!(
        render_damage(Some("3.6"), Some((1, 10, None)), Some(7), &bypass).as_deref(),
        Some("3.6[1d10] + 7 Good, Magic, Pierce, Slash")
    );
    assert_eq!(
        render_damage(Some("1"), Some((1, 8, Some(0))), Some(3), &strings(&["Magic", "Slash"])).as_deref(),
        Some("1[1d8] + 3 Magic, Slash")
    );
    assert_eq!(render_damage(None, Some((2, 6, Some(-1))), None, &[]).as_deref(), Some("[2d6-1]"));
    assert_eq!(render_damage(None, Some((2, 6, Some(4))), None, &[]).as_deref(), Some("[2d6+4]"));
    assert_eq!(render_damage(Some("2"), None, Some(1), &bypass), None);
    assert_eq!(critical_text(Some(5), Some(2)).as_deref(), Some("16-20 / x2"));
    assert_eq!(critical_text(Some(1), Some(3)).as_deref(), Some("20 / x3"));
    assert_eq!(critical_text(None, Some(3)), None);
    assert_eq!(bonus_label("Strength", Some(8)), "Strength +8");
    assert_eq!(bonus_label("Hit Points", Some(-5)), "Hit Points -5");
    assert_eq!(bonus_label("Armor Class", None), "Armor Class");
    assert_eq!(
        wiki_url("Sireth, Spear of the Sky"),
        "https://ddowiki.com/page/Item:Sireth,_Spear_of_the_Sky"
    );
    assert_eq!(wiki_url("+3 Flaming Longsword"), "https://ddowiki.com/page/Item:%2B3_Flaming_Longsword");
    assert_eq!(nonempty(Some("  x ")).as_deref(), Some("x"));
    assert_eq!(nonempty(Some("   ")), None);
    assert_eq!(nonempty(None), None);
    assert_eq!(join_nonempty(&strings(&[" Strength", "", "Dexterity "])).as_deref(), Some("Strength, Dexterity"));
    assert_eq!(join_nonempty(&strings(&["  "])), None);
}

fn quests() -> QuestIndex {
    QuestIndex::new(vec![
        ("The Cursed Crypt".to_string(), 3, false),
        ("Caught in the Web".to_string(), 1, true),
        ("Temple of Elemental Evil Part One".to_string(), 2, false),
        ("Web".to_string(), 4, false),
        ("".to_string(), 5, false),
    ])
}

#[test]
fn drop_text_links_to_the_most_specific_quest_names() {
    let idx = quests();
    assert_eq!(idx.len(), 5);
    assert_eq!(idx.links("Caught in the Web, End Chest"), vec![(1, LootType::Raid)], "the nested `Web` is blanked out");
    assert_eq!(idx.links("The Cursed Crypt, End Chest"), vec![(3, LootType::Chest)]);
    assert_eq!(idx.links("Quest Reward: Web and The Cursed Crypt"), vec![(3, LootType::Reward), (4, LootType::Reward)]);
    assert!(idx.links("Temple of Elemental Evil Part Two").is_empty());
    assert!(idx.links("").is_empty());
}

#[test]
fn json_columns_and_character_rows() {
    assert_eq!(json_strings(&strings(&["Lawful Good", "a\"b"])).as_deref(), Some("[\"Lawful Good\",\"a\\\"b\"]"));
    assert_eq!(json_strings(&vec![]), None);
    let f = Feat::<f64>::from_children(vec![
        FeatChild::Name("Power Attack".into()),
        FeatChild::Description("   ".into()),
        FeatChild::Icon(" PowerAttack ".into()),
        FeatChild::MaxTimesAcquire(1),
    ])
    .unwrap();
    let row = feat_row(&f);
    assert_eq!(row.name, "Power Attack");
    assert_eq!(row.description, None);
    assert_eq!(row.icon.as_deref(), Some("PowerAttack"));
    assert!(!row.auto_acquire_ignores_requirements);
    let s = Stance {
        name: " Power Attack ".into(),
        icon: None,
        description: Some("x".into()),
        group: Some(" ".into()),
        auto_controlled: Some(Empty {}),
        requirements: None,
        incompatible: strings(&["Combat Expertise"]),
    };
    let sr = stance_row(&s);
    assert_eq!((sr.name.as_str(), sr.group_name.as_deref(), sr.auto_controlled), ("Power Attack", None, true));
    assert_eq!(sr.incompatible.as_deref(), Some("[\"Combat Expertise\"]"));
    let d = Dc {
        name: None,
        description: None,
        icon: None,
        dc_type: Some("Half Damage".into()),
        dc_versus: Some("Reflex".into()),
        mod_ability: vec![],
        amount: None,
        tactical: Some(" Trip ".into()),
        other: None,
        skill: None,
        class_level: None,
        base_class_level: None,
    };
    let dr = dc_row(&d);
    assert_eq!((dr.dc_type.as_deref(), dr.mod_ability, dr.tactical.as_deref()), (Some("Half Damage"), None, Some("Trip")));
    let slot = FeatSlot { level: 1, feat_type: " Standard ".into(), auto_populate: None, singular: Some(Empty {}), update_list: vec![] };
    assert_eq!(feat_slot_row(&slot), (1, "Standard".to_string(), false, true, None));
}

fn stats() -> Vec<Stat> {
    vec![
        Stat { id: 1, name: "Strength".into() },
        Stat { id: 2, name: "Cold Absorption".into() },
        Stat { id: 3, name: "Hit Points".into() },
    ]
}

fn bonus_types() -> Vec<BonusType> {
    vec![BonusType { id: 1, name: "Enhancement".into() }, BonusType { id: 2, name: "Insight".into() }]
}

fn mapping() -> MappingData {
    let pair = |a: &str, b: &str| (a.to_string(), b.to_string());
    MappingData {
        enhancement: strings(&["WeaponEnchantment"]),
        fixed: vec![pair("FalseLife", "Hit Points")],
        by_item: vec![pair("AbilityBonus", "{item}"), pair("Absorption", "{item} Absorption")],
        item_aliases: vec![],
        bonus_type_aliases: vec![pair("Insightful", "Insight"), pair("Not Set", "")],
        weapon_aliases: vec![],
    }
}

fn buff(kind: &str, item: Option<&str>, value: Option<i64>, bonus: Option<&str>) -> Buff {
    Buff {
        kind: kind.into(),
        item: item.map(str::to_string),
        item2: None,
        value1: value,
        value2: None,
        bonus_type: bonus.map(str::to_string),
        description1: None,
    }
}

#[test]
fn an_item_plans_its_row_and_its_buffs_in_order() {
    let map = BuffMap::load(mapping(), stats(), bonus_types()).unwrap();
    let templates = vec![
        ("AbilityBonus".to_string(), "%b1 %i1 %v1".to_string()),
        ("Lifesealed".to_string(), "Immune to negative levels.".to_string()),
    ];
    let req = ItemRequirement { kind: "Race".into(), item: Some("Dwarf".into()), value: None };
    let item = Item::<f64>::from_children(vec![
        ItemChild::Name(" Legendary Cloak of Winter ".into()),
        ItemChild::Material("Cloth (material)".into()),
        ItemChild::Description("  ".into()),
        ItemChild::DropLocation(" Caught in the Web, End Chest ".into()),
        ItemChild::Icon(" Cloak ".into()),
        ItemChild::SetBonus(" Eminence of Winter ".into()),
        ItemChild::Requirements(ItemRequirements { requirement: vec![req], requires_one_of: vec![], requires_none_of: vec![] }),
        ItemChild::Buff(buff("WeaponEnchantment", None, Some(3), None)),
        ItemChild::Buff(buff("Absorption", Some("Cold"), Some(34), Some("Enhancement"))),
        ItemChild::Buff(buff("AbilityBonus", Some("Strength"), Some(8), Some("Insightful"))),
        ItemChild::Buff(buff("Lifesealed", None, None, None)),
        ItemChild::Buff(buff("WeaponEnchantment", None, Some(5), None)),
    ])
    .unwrap();
    let plan = plan_item(&item, &map, &templates).unwrap();
    assert_eq!(plan.name, "Legendary Cloak of Winter");
    assert_eq!(plan.enhancement_bonus, Some(5), "the last enhancement buff wins");
    assert_eq!(plan.description, None);
    assert_eq!(plan.drop_location.as_deref(), Some("Caught in the Web, End Chest"));
    assert_eq!(plan.icon.as_deref(), Some("Cloak"));
    assert_eq!(plan.set_bonus.as_deref(), Some("Eminence of Winter"));
    assert_eq!(plan.race_required.as_deref(), Some("Dwarf"));
    assert_eq!(plan.wiki_url, "https://ddowiki.com/page/Item:Legendary_Cloak_of_Winter");
    assert_eq!(plan.buffs.len(), 3);
    match &plan.buffs[0] {
        BuffRow::Bonus { stat, bonus_type, value, label, description, .. } => {
            assert_eq!((stat.name.as_str(), *value, label.as_str()), ("Cold Absorption", Some(34), "Cold Absorption +34"));
            assert_eq!(bonus_type.as_ref().map(|b| b.name.as_str()), Some("Enhancement"));
            assert_eq!(*description, None, "no template");
        }
        other => panic!("{other:?}"),
    }
    match &plan.buffs[1] {
        BuffRow::Bonus { label, description, .. } => {
            assert_eq!(label, "Strength +8");
            assert_eq!(description.as_deref(), Some("Insight Strength 8"));
        }
        other => panic!("{other:?}"),
    }
    match &plan.buffs[2] {
        BuffRow::Effect { name, description, value, target } => {
            assert_eq!(name, "Lifesealed");
            assert_eq!(description.as_deref(), Some("Immune to negative levels."), "effects carry ItemBuffs.xml text");
            assert_eq!((*value, target.as_deref()), (None, None));
        }
        other => panic!("{other:?}"),
    }
    let bad = Item::<f64>::from_children(vec![
        ItemChild::Name("Bad".into()),
        ItemChild::Buff(buff("Absorption", None, Some(1), None)),
    ])
    .unwrap();
    assert!(plan_item(&bad, &map, &templates).is_err(), "a by-item buff without an <Item>");
}

#[test]
fn item_clickies_are_named_by_their_first_item() {
    let e = |items: &[&str], kind: &str| {
        let mut cs = vec![EffectChild::Type(kind.into())];
        for i in items {
            cs.push(EffectChild::Item(i.to_string()));
        }
        Effect::<f64>::from_children(cs).unwrap()
    };
    let effects = vec![e(&[" Fireball ", "x"], "ItemClickie"), e(&["Fire"], "SpellPower"), e(&["Haste"], "ItemClickie")];
    assert_eq!(clickie_names(&effects).unwrap(), vec!["Fireball", "Haste"]);
    assert!(clickie_names(&vec![e(&[], "ItemClickie")]).is_err());
}

#[test]
fn build_stamps_are_iso_8601_utc() {
    assert_eq!(utc_timestamp(0), "1970-01-01T00:00:00Z");
    assert_eq!(utc_timestamp(1_700_000_000), "2023-11-14T22:13:20Z");
    assert_eq!(utc_timestamp(951_782_400), "2000-02-29T00:00:00Z");
    assert_eq!(utc_timestamp(4_102_444_799), "2099-12-31T23:59:59Z");
    assert_eq!(utc_timestamp(253_402_300_800), "10000-01-01T00:00:00Z");
}

#[test]
fn spell_and_requirement_rows() {
    let s = Spell::<f64>::from_children(vec![
        SpellChild::Name("Static Shock".into()),
        SpellChild::School("Evocation".into()),
        SpellChild::Quicken,
        SpellChild::Maximize,
    ])
    .unwrap();
    let row = spell_row(&s);
    assert_eq!(row.schools.as_deref(), Some("[\"Evocation\"]"));
    assert_eq!(row.metamagics.as_deref(), Some("[\"Quicken\",\"Maximize\"]"));
    let d = SpellDamage {
        dice: SpellDice {
            base_dice: Some(DiceSpec { number: Some(1), sides: Some(6), bonus: None }),
            per_caster_levels: Some(2),
            bonus_dice: None,
        },
        damage: Some(" Electric ".into()),
        spell_power: None,
    };
    let dr = spell_damage_row(&d);
    assert_eq!((dr.base_number, dr.base_sides, dr.bonus_number), (Some(1), Some(6), None));
    assert_eq!(dr.damage.as_deref(), Some("Electric"));
    let r = |k: &str, v: Option<&str>| Requirement { kind: k.into(), items: vec!["A".into()], value: v.map(str::to_string) };
    let reqs = Requirements::from_children(vec![
        RawChild::Requirement(r("Level", Some("4"))),
        RawChild::RequiresNoneOf(RawGroup { display_description: None, requirements: vec![r("Feat", None), r("Race", Some(" "))] }),
    ])
    .unwrap();
    let rows = requirement_rows(&reqs);
    assert_eq!(rows.len(), 3);
    assert_eq!((rows[0].group_kind, rows[0].group_index, rows[0].sort_order), (RequirementGroupKind::All, 0, 0));
    assert_eq!(rows[0].value.as_deref(), Some("4"));
    assert_eq!((rows[2].group_kind, rows[2].group_index, rows[2].sort_order), (RequirementGroupKind::NoneOf, 1, 1));
    assert_eq!(rows[2].value, None);
    assert_eq!(rows[2].items.as_deref(), Some("[\"A\"]"));
}

#[test]
fn dr_bypasses_are_trimmed_without_blanks_or_dashes() {
    assert_eq!(dr_bypasses(&strings(&[" Good ", "", "-", " - ", "Silver", "   "])), vec!["Good", "Silver"]);
    assert!(dr_bypasses(&[]).is_empty());
}

#[test]
fn armor_stat_rows_follow_the_shield_and_the_armor_element() {
    assert_eq!(armor_stat_types(false, None), Some(vec![]));
    assert_eq!(armor_stat_types(true, None), Some(vec![ArmorType::Shield]));
    assert_eq!(armor_stat_types(false, Some(" Heavy ")), Some(vec![ArmorType::Heavy]));
    assert_eq!(armor_stat_types(true, Some("Docent")), Some(vec![ArmorType::Shield, ArmorType::Docent]));
    assert_eq!(armor_stat_types(true, Some("Plate")), None, "an unknown armor type is refused");
    assert_eq!(ArmorType::parse("Cloth"), Some(ArmorType::Cloth));
    assert_eq!(ArmorType::parse("cloth"), None);
}

#[test]
fn save_progressions_map_from_upstream_names() {
    assert_eq!(SaveProgression::from_upstream("Good"), Some(SaveProgression::Good));
    assert_eq!(SaveProgression::from_upstream("Poor"), Some(SaveProgression::Poor));
    assert_eq!(SaveProgression::from_upstream("good"), None);
    assert_eq!(SaveProgression::from_upstream("Average"), None);
    assert_eq!(SaveProgression::Good.as_str(), "good");
    assert_eq!(SaveProgression::Poor.as_str(), "poor");
}

#[test]
fn quests_with_one_name_keep_their_given_order() {
    let idx = QuestIndex::new(vec![
        ("Web".to_string(), 4, false),
        ("Caught in the Web".to_string(), 1, true),
        ("Web".to_string(), 9, true),
    ]);
    assert_eq!(idx.len(), 3);
    assert_eq!(idx.links("Web, End Chest"), vec![(4, LootType::Chest)], "the first of two equal names links");
}

#[test]
fn json_arrays_escape_as_serde_json_does() {
    assert_eq!(
        json_strings(&strings(&["a\\b", "tab\there", "line\n", "\u{1}", "caf\u{e9}", "x/y"])).as_deref(),
        Some("[\"a\\\\b\",\"tab\\there\",\"line\\n\",\"\\u0001\",\"caf\u{e9}\",\"x/y\"]")
    );
    assert_eq!(json_strings(&strings(&["\u{8}\u{c}\r\u{1f}"])).as_deref(), Some("[\"\\b\\f\\r\\u001f\"]"));
}

#[test]
fn only_a_simple_single_amount_effect_has_the_plain_number_shape() {
    let effect = |cs: Vec<EffectChild<f64>>| Effect::from_children(cs).unwrap();
    let simple = effect(vec![
        EffectChild::Type("Hitpoints".into()),
        EffectChild::AType("Simple".into()),
        EffectChild::Amount(vec![10.0]),
    ]);
    assert!(simple.has_simple_shape());
    let two_types = effect(vec![
        EffectChild::Type("Hitpoints".into()),
        EffectChild::Type("SpellPoints".into()),
        EffectChild::AType("Simple".into()),
        EffectChild::Amount(vec![10.0]),
    ]);
    assert!(!two_types.has_simple_shape());
    let stacks = effect(vec![
        EffectChild::Type("Hitpoints".into()),
        EffectChild::AType("Stacks".into()),
        EffectChild::Amount(vec![10.0]),
    ]);
    assert!(!stacks.has_simple_shape());
    let vector = effect(vec![
        EffectChild::Type("Hitpoints".into()),
        EffectChild::AType("Simple".into()),
        EffectChild::Amount(vec![1.0, 2.0]),
    ]);
    assert!(!vector.has_simple_shape());
}
