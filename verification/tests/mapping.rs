//! Buff and effect mapping over seed tables.

use ddo_data::map::buff::{BuffError, BuffMap, Resolved};
use ddo_data::map::effect::{Derived, EffectMap, EffectMapData};
use ddo_data::map::material::normalize as material;
use ddo_data::map::MappingData;
use ddo_data::model::{BonusType, Stat};
use ddo_data::xml::effect::{Effect, EffectChild};
use ddo_data::xml::items::Buff;

fn pair(a: &str, b: &str) -> (String, String) {
    (a.to_string(), b.to_string())
}

fn stats() -> Vec<Stat> {
    [
        "Strength", "Fire Spell Power", "Universal Spell Power", "Fire Spell Lore", "Saving Throws", "Will Save",
        "Hit Points", "Law Absorption", "Hide", "Move Silently", "Attack Bonus", "Fire Resistance",
    ]
    .iter()
    .enumerate()
    .map(|(i, n)| Stat { id: i as i64 + 1, name: n.to_string() })
    .collect()
}

fn bonus_types() -> Vec<BonusType> {
    ["Enhancement", "Equipment", "Insight", "Feat", "Weapon Enchantment", "Resistance", "Stacking"]
        .iter()
        .enumerate()
        .map(|(i, n)| BonusType { id: i as i64 + 1, name: n.to_string() })
        .collect()
}

fn effect_map() -> EffectMap {
    let data = EffectMapData {
        fixed: vec![pair("Hitpoints", "Hit Points")],
        by_item: vec![
            pair("SpellPower", "{item} Spell Power"),
            pair("SpellLore", "{item} Spell Lore"),
            pair("SaveBonus", "{item} Save"),
            pair("SkillBonus", "{item}"),
            pair("EnergyAbsorbance", "{item} Absorption"),
            pair("Weapon_Attack", "{item} Attack Bonus"),
        ],
        by_item_default: vec![
            pair("SpellPower", "Universal Spell Power"),
            pair("SaveBonus", "Saving Throws"),
            pair("Weapon_Attack", "Attack Bonus"),
        ],
        item_aliases: vec![pair("Lawful", "Law")],
        bonus_type_aliases: vec![pair("Insightful", "Insight"), pair("Not Set", "")],
    };
    EffectMap::load(data, stats(), bonus_types()).unwrap()
}

fn simple(kind: &str, bonus: &str, items: &[&str]) -> Effect<f64> {
    let mut cs = vec![
        EffectChild::Type(kind.into()),
        EffectChild::Bonus(bonus.into()),
        EffectChild::AType("Simple".into()),
        EffectChild::Amount(vec![1.0]),
    ];
    for i in items {
        cs.push(EffectChild::Item(i.to_string()));
    }
    Effect::from_children(cs).unwrap()
}

#[test]
fn effect_map_derives_bonuses_from_simple_effects() {
    let mut map = effect_map();
    let mut names = |e: &Effect<f64>, v: i64| -> Vec<String> {
        map.derive(e, Some(v)).unwrap().into_iter().map(|d| d.stat.name).collect()
    };
    assert_eq!(names(&simple("SpellPower", "Equipment", &["Fire"]), 152), vec!["Fire Spell Power"]);
    assert_eq!(names(&simple("SpellPower", "Equipment", &["All"]), 24), vec!["Universal Spell Power"]);
    assert_eq!(names(&simple("SpellPower", "Equipment", &[]), 24), vec!["Universal Spell Power"]);
    assert_eq!(names(&simple("SpellLore", "Equipment", &["Fire"]), 21), vec!["Fire Spell Lore"]);
    assert_eq!(names(&simple("SaveBonus", "Resistance", &["All"]), 4), vec!["Saving Throws"]);
    assert_eq!(names(&simple("SaveBonus", "Stacking", &["Will"]), 2), vec!["Will Save"]);
    assert_eq!(names(&simple("Hitpoints", "Insightful", &["ignored"]), 20), vec!["Hit Points"]);
    assert_eq!(names(&simple("EnergyAbsorbance", "Enhancement", &["Lawful"]), 20), vec!["Law Absorption"]);
    assert_eq!(names(&simple("SkillBonus", "Enhancement", &["Hide", "Move Silently"]), 5), vec!["Hide", "Move Silently"]);
    assert!(names(&simple("SpellLikeAbility", "Enhancement", &["Force Shot"]), 1).is_empty());
    assert!(names(&simple("Weapon_Attack", "Enhancement", &["Maul"]), 2).is_empty(), "per-weapon bonuses are not a stat");
    assert!(map.derive(&simple("Hitpoints", "Feat", &[]), None).unwrap().is_empty(), "not a plain number");
    assert!(map.derive(&simple("Hitpoints", "Bogus", &[]), Some(1)).is_err());
    let d = map.derive(&simple("Hitpoints", "Not Set", &[]), Some(-3)).unwrap();
    assert_eq!(d, vec![Derived { stat: Stat { id: 7, name: "Hit Points".into() }, bonus_type: None, value: -3 }]);
    map.derive(&simple("SpellLikeAbility", "Enhancement", &[]), Some(2)).unwrap();
    map.derive(&simple("AcidBreath", "Enhancement", &[]), Some(2)).unwrap();
    let unmapped = map.unmapped_types();
    assert_eq!(unmapped, vec![("AcidBreath".to_string(), 1), ("SpellLikeAbility".to_string(), 2)], "counted, not errors");
}

#[test]
fn effect_bonus_types_normalise_including_his_vocabulary() {
    let map = effect_map();
    assert_eq!(map.bonus_type("Insightful").unwrap().map(|b| b.name), Some("Insight".to_string()));
    assert_eq!(map.bonus_type(" Feat ").unwrap().map(|b| b.name), Some("Feat".to_string()));
    assert_eq!(map.bonus_type("Not Set").unwrap(), None);
    assert_eq!(map.bonus_type("").unwrap(), None);
    assert_eq!(map.bonus_type("Weapon Enchantment").unwrap().map(|b| b.id), Some(5));
    assert_eq!(map.bonus_type(" Bogus ").unwrap_err().raw, "Bogus");
}

#[test]
fn an_effect_map_rejects_a_fixed_stat_that_does_not_exist() {
    let data = EffectMapData { fixed: vec![pair("Hitpoints", "Hit Pointz")], ..Default::default() };
    let err = EffectMap::load(data, stats(), bonus_types()).err().unwrap();
    assert_eq!((err.kind.as_str(), err.stat.as_str()), ("Hitpoints", "Hit Pointz"));
}

fn buff_map() -> BuffMap {
    let data = MappingData {
        enhancement: vec!["WeaponEnchantment".into()],
        fixed: vec![pair("FalseLife", "Hit Points")],
        by_item: vec![pair("AbilityBonus", "{item}"), pair("EnergyResistance", "{item} Resistance")],
        item_aliases: vec![],
        bonus_type_aliases: vec![pair("Insightful", "Insight")],
        weapon_aliases: vec![],
    };
    BuffMap::load(data, stats(), bonus_types()).unwrap()
}

fn buff(kind: &str, item: Option<&str>, value: Option<i64>, bonus: Option<&str>) -> Buff {
    Buff {
        kind: kind.into(),
        item: item.map(str::to_string),
        item2: None,
        value1: value,
        value2: None,
        bonus_type: bonus.map(str::to_string),
        description1: None,
    }
}

#[test]
fn buffs_resolve_to_enhancement_bonus_stat_or_effect() {
    let map = buff_map();
    assert_eq!(map.resolve(&buff(" WeaponEnchantment ", None, Some(7), None)).unwrap(), Resolved::Enhancement(7));
    match map.resolve(&buff("EnergyResistance", Some(" Fire "), Some(20), Some("Enhancement"))).unwrap() {
        Resolved::Bonus { stat, bonus_type, value, .. } => {
            assert_eq!(stat.name, "Fire Resistance");
            assert_eq!(bonus_type.map(|b| b.name), Some("Enhancement".into()));
            assert_eq!(value, Some(20));
        }
        other => panic!("{other:?}"),
    }
    assert_eq!(
        map.resolve(&buff("Seeker", Some("  "), Some(2), None)).unwrap(),
        Resolved::Effect { name: "Seeker".into(), value: Some(2), target: None }
    );
    assert!(matches!(map.resolve(&buff("WeaponEnchantment", None, None, None)), Err(BuffError::EnhancementWithoutValue(_))));
    assert!(matches!(map.resolve(&buff("AbilityBonus", None, Some(1), None)), Err(BuffError::NeedsItem(_))));
    assert!(matches!(map.resolve(&buff("AbilityBonus", Some("Luck"), Some(1), None)), Err(BuffError::NotAStat(s)) if s == "Luck"));
    assert!(matches!(map.resolve(&buff("FalseLife", None, Some(1), Some("Bogus"))), Err(BuffError::UnknownBonusType(s)) if s == "Bogus"));
}

#[test]
fn bonus_descriptions_fill_the_display_template() {
    let map = buff_map();
    let b = buff("AbilityBonus", Some("Strength"), Some(8), Some("Enhancement"));
    assert_eq!(
        map.describe("%b1 %i1 %v1: Passive: %v1 %b1 bonus to %i1.", &b),
        "Enhancement Strength 8: Passive: 8 Enhancement bonus to Strength."
    );
    assert_eq!(map.describe("  %v2 %i2 %b1 ", &buff("X", None, None, Some(" Odd "))), "Odd");
}

#[test]
fn materials_lose_their_suffix() {
    assert_eq!(material(Some("Steel")).as_deref(), Some("Steel"));
    assert_eq!(material(None), None);
}
