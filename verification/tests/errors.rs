//! Inputs that each error is for.

use ddo_data::map::buff::{BuffMap, UnknownFixedStat};
use ddo_data::map::effect::{EffectMap, EffectMapData, UnknownEffectStat};
use ddo_data::map::placement::{classify, PlacementError};
use ddo_data::map::MappingData;
use ddo_data::model::{BonusType, Stat, WeaponType};
use ddo_data::rows::item_plan::clickie_names;
use ddo_data::xml::effect::{Effect, EffectChild, EffectError};
use ddo_data::xml::item_buffs::parse as parse_item_buffs;
use ddo_data::xml::items::{EquipmentSlots, SlotTag};
use ddo_data::xml::quests::{Quest, RawQuest};
use ddo_data::xml::races::{Race, RaceChild, RaceError};
use ddo_data::xml::requirements::{RawChild, Requirement, Requirements, RequirementsError};
use ddo_data::xml::Vector;

fn s(v: &str) -> String {
    v.to_string()
}

fn stats() -> Vec<Stat> {
    vec![Stat { id: 1, name: s("Hit Points") }, Stat { id: 2, name: s("Strength") }]
}

fn bonus_types() -> Vec<BonusType> {
    vec![BonusType { id: 1, name: s("Enhancement") }]
}

#[test]
fn a_race_with_a_word_among_its_build_points() {
    let r = Race::<f64>::from_children(vec![
        RaceChild::Name(s("Human")),
        RaceChild::BuildPoints(Vector { text: s("28 x 34") }),
    ]);
    assert_eq!(r.unwrap_err(), RaceError::BadBuildPoints(s("x")));
}

#[test]
fn an_effect_or_requirement_without_a_type() {
    assert_eq!(Effect::<f64>::from_children(vec![EffectChild::Bonus(s("Feat"))]).unwrap_err(), EffectError::Untyped);
    let untyped = Requirement { kind: s(""), items: vec![s("Cleave")], value: None };
    assert_eq!(Requirements::from_children(vec![RawChild::Requirement(untyped)]).unwrap_err(), RequirementsError::Untyped);
}

#[test]
fn weapon_slots_need_a_known_weapon() {
    let table = vec![WeaponType::from_seed(1, s("Longsword"), false)];
    let slots = EquipmentSlots { tags: vec![SlotTag::Weapon1] };
    assert_eq!(classify(&slots, None, None, &table, &[]).unwrap_err(), PlacementError::NoWeapon);
    assert_eq!(
        classify(&slots, Some("Lightsaber"), None, &table, &[]).unwrap_err(),
        PlacementError::UnknownWeaponType(s("Lightsaber"))
    );
}

#[test]
fn mappings_name_only_known_stats() {
    let buff_data = MappingData {
        enhancement: vec![],
        fixed: vec![(s("FalseLife"), s("Hit Points")), (s("Vigor"), s("Hit Pointz")), (s("Might"), s("Mite"))],
        by_item: vec![],
        item_aliases: vec![],
        bonus_type_aliases: vec![],
        weapon_aliases: vec![],
    };
    match BuffMap::load(buff_data, stats(), bonus_types()) {
        Err(UnknownFixedStat { kind, stat }) => assert_eq!((kind.as_str(), stat.as_str()), ("Vigor", "Hit Pointz")),
        Ok(_) => panic!("an unknown stat is refused"),
    }
    let effect_data = EffectMapData {
        fixed: vec![(s("Hitpoints"), s("Hit Points"))],
        by_item: vec![],
        by_item_default: vec![(s("SaveBonus"), s("Saving Throws"))],
        item_aliases: vec![],
        bonus_type_aliases: vec![],
    };
    match EffectMap::load(effect_data, stats(), bonus_types()) {
        Err(UnknownEffectStat { kind, stat }) => assert_eq!((kind.as_str(), stat.as_str()), ("SaveBonus", "Saving Throws")),
        Ok(_) => panic!("an unknown stat is refused"),
    }
}

#[test]
fn an_item_clickie_without_a_name() {
    let e = Effect::<f64>::from_children(vec![EffectChild::Type(s("ItemClickie"))]).unwrap();
    assert!(clickie_names(&vec![e]).is_err());
}

#[test]
fn a_quest_level_that_is_not_a_number() {
    let raw = RawQuest {
        name: s("The Chronoscope"),
        patron: None,
        adventure_pack: None,
        favor: None,
        levels: Some(Vector { text: s("6 epic") }),
        is_raid: None,
        do_not_show: None,
    };
    let e = Quest::try_from(raw).unwrap_err();
    assert_eq!((e.quest.as_str(), e.level.as_str()), ("The Chronoscope", "epic"));
}

#[test]
fn item_buff_templates_need_well_formed_xml() {
    assert!(parse_item_buffs("<ItemBuffs><Buff><Type>Seeker</Type></Buf></ItemBuffs>").is_err());
    assert!(parse_item_buffs("<ItemBuffs><Buff><Type>Seeker</Type></Buff></ItemBuffs>").is_ok());
}
