//! Feats, races and classes read from their child elements.

use ddo_data::xml::classes::{AutomaticFeats, Class, ClassChild, ClassError, ClassSpell};
use ddo_data::xml::effect::{Effect, EffectChild};
use ddo_data::xml::feats::{
    Attack, AutoChild, AutomaticAcquisition, ConditionalGroup, Feat, FeatChild, FeatError, Stance, SubItem,
};
use ddo_data::xml::races::{signed, Race, RaceChild, RaceError};
use ddo_data::xml::requirements::{RawChild, RawGroup, Requirement, RequirementGroupKind, Requirements};
use ddo_data::xml::Vector;

fn req(kind: &str, items: &[&str], value: Option<&str>) -> Requirement {
    Requirement {
        kind: kind.to_string(),
        items: items.iter().map(|s| s.to_string()).collect(),
        value: value.map(str::to_string),
    }
}

fn reqs(children: Vec<RawChild>) -> Requirements {
    Requirements::from_children(children).unwrap()
}

fn simple_effect(kind: &str, atype: &str, amounts: Vec<f64>) -> Effect<f64> {
    Effect::from_children(vec![
        EffectChild::Type(kind.into()),
        EffectChild::Bonus("Stacking".into()),
        EffectChild::AType(atype.into()),
        EffectChild::Amount(amounts),
    ])
    .unwrap()
}

fn stance(name: &str, incompatible: &[&str]) -> Stance {
    Stance {
        name: name.into(),
        icon: None,
        description: None,
        group: None,
        auto_controlled: None,
        requirements: None,
        incompatible: incompatible.iter().map(|s| s.to_string()).collect(),
    }
}

fn named_feat(name: &str) -> Feat<f64> {
    Feat::from_children(vec![FeatChild::Name(name.into()), FeatChild::Acquire("Train".into())]).unwrap()
}

/// A trimmed `Feats.xml`, as read from its elements.
fn feat_file() -> Vec<Feat<f64>> {
    let power = Feat::from_children(vec![
        FeatChild::Name(" Power Attack ".into()),
        FeatChild::Description("Trade attack for damage.".into()),
        FeatChild::Acquire("Train".into()),
        FeatChild::Group("Standard".into()),
        FeatChild::Requirements(reqs(vec![RawChild::Requirement(req("Ability", &["Strength"], Some("13")))])),
        FeatChild::Effect(simple_effect("MeleePower", "Simple", vec![5.0])),
        FeatChild::Group("Epic Feat".into()),
        FeatChild::Stance(stance("Power Attack", &["Combat Expertise", "Precision", "Manyshot", "Defensive Fighting"])),
        FeatChild::Effect(simple_effect("Weapon_Damage", "Simple", vec![2.0])),
        FeatChild::Effect(simple_effect("Weapon_Attack", "Simple", vec![-2.0])),
    ])
    .unwrap();
    let tough = Feat::from_children(vec![
        FeatChild::Name("Toughness".into()),
        FeatChild::MaxTimesAcquire(99),
        FeatChild::Effect(simple_effect("Hitpoints", "TotalLevel", (1..=40).map(|l| l as f64).collect())),
    ])
    .unwrap();
    let auto = AutomaticAcquisition::from_children(vec![
        AutoChild::Requirement(req("BAB", &[], Some("1"))),
        AutoChild::IgnoreRequirements,
    ]);
    let attack = Feat::from_children(vec![
        FeatChild::Name("Attack".into()),
        FeatChild::Attack(Attack { name: Some("Attack".into()), description: None, icon: None }),
        FeatChild::AutomaticAcquisition(auto),
    ])
    .unwrap();
    let sub = |n: &str| SubItem { name: n.into(), icon: None, description: None };
    let adept = Feat::from_children(vec![
        FeatChild::Name("Adept of Forms".into()),
        FeatChild::SubItem(sub("Form 1")),
        FeatChild::SubItem(sub("Form 2")),
        FeatChild::SubItem(sub("Form 3")),
        FeatChild::SubItem(sub("Form 4")),
    ])
    .unwrap();
    let conditional = Feat::from_children(vec![
        FeatChild::Name("Dark Hunger".into()),
        FeatChild::ConditionalGroup(ConditionalGroup { groups: vec!["Metamagics".into()], requirements: None }),
    ])
    .unwrap();
    let mut list = vec![power, tough, attack, adept, conditional];
    for n in ["Cleave", "Combat Expertise", "Dodge", "Mobility", "Precision", "Manyshot", "Defensive Fighting"] {
        list.push(named_feat(n));
    }
    list
}

#[test]
fn parses_feats_with_every_child_shape() {
    let list = feat_file();
    assert_eq!(list.len(), 12);
    let power = list.iter().find(|f| f.name == "Power Attack").unwrap();
    assert_eq!(power.acquire.as_deref(), Some("Train"));
    assert_eq!(power.groups, vec!["Standard", "Epic Feat"]);
    assert_eq!(power.stances.len(), 1);
    assert_eq!(power.stances[0].incompatible.len(), 4);
    assert_eq!(power.effects.len(), 3, "{:?}", power.effects.iter().map(|e| &e.types).collect::<Vec<_>>());
    let reqs = power.requirements.as_ref().unwrap();
    assert_eq!(
        (reqs.groups[0].requirements[0].kind.as_str(), reqs.groups[0].requirements[0].value.as_deref()),
        ("Ability", Some("13"))
    );

    let tough = list.iter().find(|f| f.name == "Toughness").unwrap();
    assert_eq!(tough.max_times_acquire, Some(99));
    assert_eq!(tough.effects[0].amount_type.as_deref(), Some("TotalLevel"));
    assert_eq!(tough.effects[0].amounts.len(), 40);

    let attack = list.iter().find(|f| f.name == "Attack").unwrap();
    assert!(attack.attack.is_some());
    assert!(attack.automatic_acquisition.is_some());

    let adept = list.iter().find(|f| f.name == "Adept of Forms").unwrap();
    assert_eq!(adept.sub_items.len(), 4);
    assert!(list.iter().any(|f| !f.conditional_groups.is_empty()), "one feat has a ConditionalGroup");
}

#[test]
fn a_feat_needs_a_name_and_auto_acquisition_puts_loose_requirements_first() {
    assert_eq!(Feat::<f64>::from_children(vec![FeatChild::Name("  ".into())]).unwrap_err(), FeatError::Unnamed);
    assert_eq!(Feat::<f64>::from_children(vec![]).unwrap_err(), FeatError::Unnamed);
    let auto = AutomaticAcquisition::from_children(vec![
        AutoChild::RequiresOneOf(RawGroup { display_description: Some(" Either ".into()), requirements: vec![req(" Race ", &["Dwarf"], None)] }),
        AutoChild::Requirement(req("Level", &[], Some("1"))),
        AutoChild::RequiresNoneOf(RawGroup { display_description: None, requirements: vec![] }),
        AutoChild::Requirement(req("Class", &["Fighter"], None)),
    ]);
    let kinds: Vec<_> = auto.requirements.groups.iter().map(|g| g.kind).collect();
    assert_eq!(kinds, vec![RequirementGroupKind::All, RequirementGroupKind::OneOf, RequirementGroupKind::NoneOf]);
    assert_eq!(auto.requirements.groups[0].requirements.len(), 2);
    assert_eq!(auto.requirements.groups[1].display_description.as_deref(), Some("Either"));
    assert_eq!(auto.requirements.groups[1].requirements[0].kind, "Race");
    assert!(!auto.ignore_requirements);
}

fn race_feat(name: &str) -> Feat<f64> {
    Feat::from_children(vec![FeatChild::Name(name.into()), FeatChild::Acquire("Automatic".into())]).unwrap()
}

#[test]
fn parses_races_and_classes() {
    let mut dwarf_children = vec![
        RaceChild::Name("Dwarf".into()),
        RaceChild::StartingWorld("Eberron".into()),
        RaceChild::BuildPoints(Vector { text: "28 32 34 36".into() }),
        RaceChild::Constitution("+2".into()),
        RaceChild::Charisma(" -2 ".into()),
    ];
    for f in ["Dwarven Stability", "Dwarven Stonecunning", "Dwarven Toughness", "Giant Evasion", "Dwarven Axe"] {
        dwarf_children.push(RaceChild::GrantedFeat(f.into()));
        dwarf_children.push(RaceChild::Feat(race_feat(f)));
    }
    let dwarf = Race::from_children(dwarf_children).unwrap();
    assert_eq!(dwarf.name, "Dwarf");
    assert_eq!(dwarf.build_points, vec![28, 32, 34, 36]);
    assert_eq!(dwarf.ability_modifiers, vec![("Constitution".to_string(), 2), ("Charisma".to_string(), -2)]);
    assert_eq!(dwarf.granted_feats.len(), 5);
    assert_eq!(dwarf.feats.len(), 5);
    let blade = Race::<f64>::from_children(vec![
        RaceChild::Name("Bladeforged".into()),
        RaceChild::IconicClass("Paladin".into()),
        RaceChild::IsConstruct,
    ])
    .unwrap();
    assert_eq!(blade.iconic_class.as_deref(), Some("Paladin"));
    assert!(blade.is_construct);

    let mut pal_children: Vec<ClassChild<f64, f64>> = vec![
        ClassChild::Name("Paladin".into()),
        ClassChild::HitPoints(10),
        ClassChild::SkillPoints(2),
        ClassChild::Alignment("Lawful Good".into()),
        ClassChild::Fortitude("Good".into()),
        ClassChild::Bab((0..=20).map(|l| l as f64).collect()),
        ClassChild::ClassSpell(ClassSpell { name: "Cure Light Wounds".into(), level: 1, cost: Some(6), max_caster_level: None }),
        ClassChild::AutomaticFeats(AutomaticFeats { level: 2, feats: vec!["Lay on Hands".into()] }),
    ];
    pal_children.push(ClassChild::Level(20, Vector { text: "4 4 4 4".into() }));
    pal_children.push(ClassChild::Level(5, Vector { text: "1 0 0 0".into() }));
    let pal = Class::from_children(pal_children).unwrap();
    let slots = |c: &Class<f64, f64>, l: u8| c.spell_slots.iter().find(|(n, _)| *n == l).map(|(_, v)| v.clone());
    assert_eq!(pal.name, "Paladin");
    assert_eq!((pal.hit_points, pal.skill_points), (Some(10), Some(2)));
    assert_eq!(pal.alignments, vec!["Lawful Good"]);
    assert_eq!(slots(&pal, 5).map(|v| v[0]), Some(1), "one first-level slot at class level 5");
    assert_eq!(slots(&pal, 20), Some(vec![4, 4, 4, 4]));
    assert_eq!(pal.bab.len(), 21);
    assert!(pal.class_spells.iter().any(|s| s.name == "Cure Light Wounds" && s.level == 1 && s.cost == Some(6)));
    assert!(pal.automatic_feats.iter().any(|a| a.level == 2 && a.feats.contains(&"Lay on Hands".to_string())));
    let dark = Class::<f64, f64>::from_children(vec![
        ClassChild::Name("Dark Apostate".into()),
        ClassChild::BaseClass(" Cleric ".into()),
    ])
    .unwrap();
    assert_eq!(dark.base_class.as_deref(), Some("Cleric"));
}

#[test]
fn spell_slots_are_kept_by_ascending_level_and_a_later_list_replaces() {
    let c = Class::<f64, f64>::from_children(vec![
        ClassChild::Name("Ranger".into()),
        ClassChild::Level(9, Vector { text: "2 1".into() }),
        ClassChild::Level(3, Vector { text: "1".into() }),
        ClassChild::Level(9, Vector { text: "3 1".into() }),
        ClassChild::Level(6, Vector { text: "".into() }),
    ])
    .unwrap();
    let levels: Vec<u8> = c.spell_slots.iter().map(|(l, _)| *l).collect();
    assert_eq!(levels, vec![3, 6, 9]);
    assert_eq!(c.spell_slots[2].1, vec![3, 1]);
    assert!(c.spell_slots[1].1.is_empty());
}

#[test]
fn class_and_race_errors_name_what_did_not_read() {
    let bad = Class::<f64, f64>::from_children(vec![
        ClassChild::Level(4, Vector { text: "1 two".into() }),
        ClassChild::Level(2, Vector { text: "x".into() }),
    ]);
    assert_eq!(bad.unwrap_err(), ClassError::BadSlots { level: 4, word: "two".into() });
    assert_eq!(Class::<f64, f64>::from_children(vec![]).unwrap_err(), ClassError::Unnamed);
    let r = Race::<f64>::from_children(vec![
        RaceChild::Name("Elf".into()),
        RaceChild::Dexterity("+ 2".into()),
        RaceChild::BuildPoints(Vector { text: "a".into() }),
    ]);
    assert_eq!(r.unwrap_err(), RaceError::BadModifier("Dexterity".into(), "+ 2".into()));
    assert_eq!(Race::<f64>::from_children(vec![RaceChild::Wisdom("1".into())]).unwrap_err(), RaceError::Unnamed);
    assert_eq!(signed("++3"), Some(3));
    assert_eq!(signed(" +-1 "), Some(-1));
    assert_eq!(signed(""), None);
}
