//! Enhancement trees and spells read from their child elements.

use ddo_data::xml::effect::{Effect, EffectChild};
use ddo_data::xml::feats::Stance;
use ddo_data::xml::requirements::{RawChild, Requirement, Requirements};
use ddo_data::xml::spells::{DiceSpec, Spell, SpellChild, SpellDamage, SpellDc, SpellDice, SpellError};
use ddo_data::xml::trees::{
    Selection, SelectionChild, Selector, SelectorChild, Tree, TreeChild, TreeError, TreeItem, TreeItemChild,
};
use ddo_data::xml::Empty;

fn req(kind: &str, items: &[&str]) -> Requirement {
    Requirement { kind: kind.into(), items: items.iter().map(|s| s.to_string()).collect(), value: None }
}

fn effect(kind: &str) -> Effect<f64> {
    Effect::from_children(vec![EffectChild::Type(kind.into()), EffectChild::AType("Simple".into())]).unwrap()
}

fn selection(name: &str) -> Selection<f64, f64> {
    Selection::from_children(vec![
        SelectionChild::Name(name.into()),
        SelectionChild::CostPerRank(vec![1.0]),
        SelectionChild::Effect(effect("AbilityBonus")),
    ])
    .unwrap()
}

fn plain_item(n: usize) -> TreeItem<f64, f64> {
    TreeItem::from_children(vec![
        TreeItemChild::Name(format!("Aasimar Item {n}")),
        TreeItemChild::InternalName(format!("AasimarItem{n}")),
        TreeItemChild::Ranks(1),
    ])
    .unwrap()
}

/// Upstream's `EnhancementTrees/Aasimar.tree.xml`, as read from its elements.
fn aasimar() -> Tree<f64, f64> {
    let core = TreeItem::from_children(vec![
        TreeItemChild::Name("Aasimar Core".into()),
        TreeItemChild::InternalName(" AasimarCore1 ".into()),
        TreeItemChild::XPosition(0),
        TreeItemChild::YPosition(0),
        TreeItemChild::CostPerRank(vec![1.0]),
        TreeItemChild::Ranks(1),
        TreeItemChild::MinSpent(0),
        TreeItemChild::ArrowRight,
        TreeItemChild::Effect(effect("Feat")),
    ])
    .unwrap();
    let selector = Selector::from_children(vec![
        SelectorChild::EnhancementSelection(selection("+1 Strength")),
        SelectorChild::EnhancementSelection(selection("+1 Wisdom")),
        SelectorChild::EnhancementSelection(selection("+1 Charisma")),
    ]);
    let chooser = TreeItem::from_children(vec![
        TreeItemChild::Name("Ability".into()),
        TreeItemChild::InternalName("AasimarAbility".into()),
        TreeItemChild::Requirements(
            Requirements::from_children(vec![
                RawChild::Requirement(req("Level", &[])),
                RawChild::Requirement(req("Enhancement", &["AasimarCore1"])),
            ])
            .unwrap(),
        ),
        TreeItemChild::Selector(selector),
    ])
    .unwrap();
    let mut children = vec![
        TreeChild::Name("Aasimar".into()),
        TreeChild::IsRacialTree,
        TreeChild::Requirements(Requirements::from_children(vec![RawChild::Requirement(req("Race", &["Aasimar"]))]).unwrap()),
        TreeChild::EnhancementTreeItem(core),
        TreeChild::EnhancementTreeItem(chooser),
    ];
    for n in 0..19 {
        children.push(TreeChild::EnhancementTreeItem(plain_item(n)));
    }
    Tree::from_children(children).unwrap()
}

#[test]
fn parses_a_racial_tree() {
    let tree = aasimar();
    assert_eq!(tree.name, "Aasimar");
    assert!(tree.is_racial && !tree.is_destiny && !tree.is_legacy);
    assert_eq!(tree.items.len(), 21);
    let core = &tree.items[0];
    assert_eq!(
        (core.internal_name.as_str(), core.x, core.y, core.ranks, core.min_spent),
        ("AasimarCore1", Some(0), Some(0), Some(1), Some(0))
    );
    assert_eq!(core.cost_per_rank, vec![1.0]);
    assert_eq!(core.arrows, vec!["ArrowRight"]);
    assert_eq!(core.effects.len(), 1);
    let chooser = &tree.items[1];
    let sel = chooser.selector.as_ref().unwrap();
    assert_eq!(sel.selections.len(), 3);
    assert_eq!(sel.selections[0].name, "+1 Strength");
    let reqs = chooser.requirements.as_ref().unwrap();
    assert_eq!(
        reqs.groups[0].requirements.iter().map(|r| r.kind.as_str()).collect::<Vec<_>>(),
        vec!["Level", "Enhancement"]
    );
    assert_eq!(tree.requirements.as_ref().unwrap().groups[0].requirements[0].items, vec!["Aasimar"]);
}

#[test]
fn tree_elements_need_names() {
    assert_eq!(Tree::<f64, f64>::from_children(vec![TreeChild::Legacy]).unwrap_err(), TreeError::UnnamedTree);
    assert_eq!(
        TreeItem::<f64, f64>::from_children(vec![TreeItemChild::Name("X".into())]).unwrap_err(),
        TreeError::UnnamedItem
    );
    assert_eq!(
        Selection::<f64, f64>::from_children(vec![SelectionChild::Clickie]).unwrap_err(),
        TreeError::UnnamedSelection
    );
    let s = Selector::<f64, f64>::from_children(vec![SelectorChild::Exclusions(" AssPoisonStrikes1 ".into())]);
    assert!(s.exclusions[0].starts_with("AssPoisonStrikes"));
}

fn named_spell(name: &str) -> Spell<f64> {
    Spell::from_children(vec![SpellChild::Name(name.into()), SpellChild::School("Conjuration".into())]).unwrap()
}

fn stance(n: usize) -> Stance {
    Stance {
        name: format!("Evolution {n}"),
        icon: None,
        description: None,
        group: Some("Evolution".into()),
        auto_controlled: None,
        requirements: None,
        incompatible: vec![],
    }
}

/// A trimmed `Spells.xml`, as read from its elements.
fn spell_file() -> Vec<Spell<f64>> {
    let shock = Spell::from_children(vec![
        SpellChild::Name("Static Shock".into()),
        SpellChild::School(" Evocation ".into()),
        SpellChild::MaxCasterLevel(10),
        SpellChild::Quicken,
        SpellChild::Enlarge,
        SpellChild::Maximize,
        SpellChild::Empower,
        SpellChild::Embolden,
        SpellChild::Intensify,
        SpellChild::Heighten,
        SpellChild::SpellDamage(SpellDamage {
            dice: SpellDice {
                base_dice: Some(DiceSpec { number: Some(1), sides: Some(6), bonus: None }),
                per_caster_levels: Some(2),
                bonus_dice: None,
            },
            damage: Some("Electric".into()),
            spell_power: Some("Electric".into()),
        }),
        SpellChild::SpellDc(SpellDc {
            dc_type: Some("Half Damage".into()),
            dc_versus: Some("Reflex".into()),
            schools: vec!["Evocation".into()],
            casting_stat_mod_flag: Some(Empty {}),
            amount: None,
            mod_abilities: vec![],
        }),
    ])
    .unwrap();
    let ruin = Spell::from_children(vec![SpellChild::Name("Ruin".into()), SpellChild::Cost(35)]).unwrap();
    let mut evo = vec![SpellChild::Name("Evolution".into())];
    for n in 0..6 {
        evo.push(SpellChild::Stance(stance(n)));
        evo.push(SpellChild::Effect(effect("AbilityBonus")));
    }
    let evo = Spell::from_children(evo).unwrap();
    let mut list = vec![shock, ruin, evo, named_spell("Dominate Person"), named_spell("Dominate Person")];
    for n in 0..14 {
        list.push(named_spell(&format!("Spell {n}")));
    }
    list
}

#[test]
fn parses_spells() {
    let list = spell_file();
    assert_eq!(list.len(), 19, "both Dominate Person definitions are kept");
    let shock = list.iter().find(|s| s.name == "Static Shock").unwrap();
    assert_eq!(shock.schools, vec!["Evocation"]);
    assert_eq!(shock.max_caster_level, Some(10));
    assert_eq!(shock.metamagics.len(), 7);
    assert!(shock.metamagics.contains(&"Quicken".to_string()));
    let dmg = &shock.damage[0];
    assert_eq!(dmg.base_dice().map(|d| (d.number, d.sides)), Some((Some(1), Some(6))));
    assert_eq!(dmg.dice.per_caster_levels, Some(2));
    assert_eq!((dmg.damage.as_deref(), dmg.spell_power.as_deref()), (Some("Electric"), Some("Electric")));
    let dc = &shock.dcs[0];
    assert_eq!((dc.dc_type.as_deref(), dc.dc_versus.as_deref()), (Some("Half Damage"), Some("Reflex")));
    assert!(dc.casting_stat_mod());
    let ruin = list.iter().find(|s| s.name == "Ruin").unwrap();
    assert!(ruin.cost.is_some());
    let evo = list.iter().find(|s| s.name == "Evolution").unwrap();
    assert_eq!(evo.stances.len(), 6);
    assert_eq!(evo.effects.len(), 6);
}

#[test]
fn spell_details_without_a_flag_or_dice() {
    let plain = SpellDamage::default();
    assert!(plain.base_dice().is_none());
    let dc = SpellDc {
        dc_type: None,
        dc_versus: None,
        schools: vec![],
        casting_stat_mod_flag: None,
        amount: None,
        mod_abilities: vec![],
    };
    assert!(!dc.casting_stat_mod());
    assert_eq!(Spell::<f64>::from_children(vec![SpellChild::Primer]).unwrap_err(), SpellError::Unnamed);
    let s = Spell::<f64>::from_children(vec![
        SpellChild::Name("A".into()),
        SpellChild::Name(" B ".into()),
        SpellChild::EmpowerHealing,
        SpellChild::Accelerate,
    ])
    .unwrap();
    assert_eq!(s.name, "B");
    assert_eq!(s.metamagics, vec!["EmpowerHealing", "Accelerate"]);
}
