//! Modifier, augment and filigree rows, the name caches, and the kinds the builder stores.

use ddo_data::model::{FeatSource, ModifierSource, OwnerKind, TreeKind};
use ddo_data::rows::caches::{BonusIndex, FeatIndex, NameIndex};
use ddo_data::rows::modifier_rows::{augment_row, filigree_row, modifier_row};
use ddo_data::rows::timestamp::{now_utc, utc_timestamp};
use ddo_data::xml::augments::{Augment, AugmentChild};
use ddo_data::xml::effect::{Effect, EffectChild, RawDice};
use ddo_data::xml::set_bonuses::Filigree;
use ddo_data::xml::trees::{Tree, TreeChild};

#[test]
fn a_set_name_met_twice_keeps_its_first_id() {
    let mut sets = NameIndex::new();
    assert_eq!(sets.get("Sireth's Set"), None);
    assert!(sets.insert("Sireth's Set", 7));
    assert!(sets.insert("Planar Conflux", 9));
    assert!(!sets.insert("Sireth's Set", 12), "a duplicate definition changes nothing");
    assert_eq!(sets.get("Sireth's Set"), Some(7));
    assert_eq!(sets.get("Planar Conflux"), Some(9));
    assert_eq!(sets.get("sireth's set"), None, "names match exactly");
    assert_eq!(sets.len(), 2);
}

#[test]
fn feats_resolve_to_their_own_source_first() {
    let mut feats = FeatIndex::new();
    feats.insert("Toughness", FeatSource::Standard, None, 1);
    feats.insert("Power Attack", FeatSource::Standard, None, 2);
    feats.insert("Toughness", FeatSource::Race, Some(4), 30);
    feats.insert("Toughness", FeatSource::Race, Some(4), 31);
    assert_eq!(feats.resolve(" Toughness ", FeatSource::Race, 4), Some(30), "own definition, first one");
    assert_eq!(feats.resolve("Toughness", FeatSource::Race, 5), Some(1), "another race falls back to standard");
    assert_eq!(feats.resolve("Power Attack", FeatSource::Class, 4), Some(2));
    assert_eq!(feats.resolve("Cleave", FeatSource::Class, 4), None);
}

#[test]
fn an_effect_becomes_a_modifier_row() {
    let e = Effect::<f64>::from_children(vec![
        EffectChild::Type("SpellPower".into()),
        EffectChild::Type("Weapon_Enchantment".into()),
        EffectChild::Bonus(" Equipment ".into()),
        EffectChild::Item("Fire".into()),
        EffectChild::Item("Cold".into()),
        EffectChild::Value("  ".into()),
        EffectChild::Dice(RawDice { number: Some(vec![1.0]), sides: Some(vec![6.0]), bonus: None, damage: Some(" Fire ".into()) }),
        EffectChild::Percent,
        EffectChild::Rank(3),
        EffectChild::Rare,
    ])
    .unwrap();
    let r = modifier_row(&e);
    assert_eq!(r.effect_type, "SpellPower");
    assert_eq!(r.extra_types.as_deref(), Some("[\"Weapon_Enchantment\"]"));
    assert_eq!(r.bonus.as_deref(), Some("Equipment"));
    assert_eq!(r.targets.as_deref(), Some("[\"Fire\",\"Cold\"]"));
    assert_eq!(r.value, None);
    assert_eq!(r.dice_damage.as_deref(), Some("Fire"));
    assert!(r.percent && r.is_rare && !r.is_item_specific && !r.apply_as_item_effect);
    assert_eq!(r.rank, Some(3));
    let plain = modifier_row(&Effect::<f64>::from_children(vec![EffectChild::Type("AC".into())]).unwrap());
    assert_eq!((plain.extra_types, plain.targets, plain.dice_damage), (None, None, None));
}

#[test]
fn augment_and_filigree_rows() {
    let a = Augment::<f64, f64>::from_children(vec![
        AugmentChild::Name("Ruby of Power +1".into()),
        AugmentChild::Description(" A ruby. ".into()),
        AugmentChild::EffectDescription("First".into()),
        AugmentChild::EffectDescription(" ".into()),
        AugmentChild::EffectDescription("Second".into()),
        AugmentChild::MinLevel(5),
        AugmentChild::ChooseLevel,
        AugmentChild::WeaponClass("Melee".into()),
    ])
    .unwrap();
    let r = augment_row(&a, "Ruby");
    assert_eq!(r.name, "Ruby of Power +1");
    assert_eq!(r.family, "Ruby");
    assert_eq!(r.description.as_deref(), Some("A ruby."));
    assert_eq!(r.effect_description.as_deref(), Some("First\nSecond"));
    assert_eq!(r.min_level, Some(5));
    assert!(r.choose_level && !r.dual_values);
    assert_eq!((r.set_bonus, r.adds_augment, r.grants_augment), (None, None, None));
    assert_eq!(r.weapon_class.as_deref(), Some("Melee"));

    let f = Filigree::<f64> {
        name: " Dragon's Edge ".into(),
        description: Some("".into()),
        icon: Some("edge".into()),
        menu: None,
        set_bonus: vec![" Dragon's Edge Set ".into(), "Other".into()],
        effects: vec![],
    };
    let fr = filigree_row(&f);
    assert_eq!(fr.name, "Dragon's Edge");
    assert_eq!((fr.description, fr.icon.as_deref(), fr.menu), (None, Some("edge"), None));
    assert_eq!(fr.set_name.as_deref(), Some("Dragon's Edge Set"));
}

#[test]
fn tree_kinds_and_stored_names() {
    let tree = |flags: Vec<TreeChild<f64, f64>>| {
        let mut cs = vec![TreeChild::Name("T".into())];
        cs.extend(flags);
        Tree::<f64, f64>::from_children(cs).unwrap()
    };
    assert_eq!(tree(vec![]).kind(), TreeKind::Class);
    assert_eq!(tree(vec![TreeChild::IsUniversalTree, TreeChild::IsRacialTree]).kind(), TreeKind::Racial);
    assert_eq!(tree(vec![TreeChild::IsReaperTree, TreeChild::IsEpicDestiny]).kind(), TreeKind::Destiny);
    assert_eq!(tree(vec![TreeChild::IsUniversalTree, TreeChild::IsReaperTree]).kind(), TreeKind::Reaper);
    assert_eq!(tree(vec![TreeChild::IsUniversalTree]).kind().as_str(), "universal");
    assert_eq!(FeatSource::parse("race"), Some(FeatSource::Race));
    assert_eq!(FeatSource::parse("Race"), None);
    assert_eq!(FeatSource::Standard.as_str(), "standard");
    assert_eq!(ModifierSource::SetBonusTier.as_str(), "set_bonus_tier");
    assert_eq!(OwnerKind::FeatConditionalGroup.as_str(), "feat_conditional_group");
}

#[test]
fn build_stamps_name_real_dates() {
    assert_eq!(utc_timestamp(951_868_799), "2000-02-29T23:59:59Z");
    assert_eq!(utc_timestamp(951_868_800), "2000-03-01T00:00:00Z");
    assert_eq!(utc_timestamp(1_719_791_999), "2024-06-30T23:59:59Z");
    assert_eq!(utc_timestamp(86_399), "1970-01-01T23:59:59Z");
}

#[test]
fn the_build_stamp_is_taken_now() {
    let stamp = now_utc();
    assert_eq!(stamp.len(), 20, "{stamp}");
    assert!(stamp.ends_with('Z') && stamp.as_bytes()[10] == b'T', "{stamp}");
    assert!(stamp.as_str() >= "2024-01-01T00:00:00Z", "{stamp}");
}

#[test]
fn an_equal_bonus_reuses_its_first_row() {
    let mut bonuses = BonusIndex::new();
    let key = (7, Some(3), Some(20), None);
    assert_eq!(bonuses.get(&key), None);
    assert!(bonuses.insert(key, 1));
    assert!(bonuses.insert((7, None, Some(20), None), 2), "another bonus type is another row");
    assert!(!bonuses.insert(key, 9), "a known bonus keeps its first id");
    assert_eq!(bonuses.get(&key), Some(1));
    assert_eq!(bonuses.get(&(7, None, Some(20), None)), Some(2));
    assert_eq!(bonuses.len(), 2);
}
