//! The adapter from DDOBuilderV2's vocabulary onto ours.

use ddo_data::map::augment_slot::{decode, SlotSpec};

#[test]
fn augment_slot_types_decode_into_family_variant_qualifier() {
    assert_eq!(
        decode("Red"),
        SlotSpec { label: "red".into(), family: "standard".into(), variant: "red".into(), qualifier: None }
    );
    assert_eq!(decode("Colorless").label, "colorless");
    assert_eq!(decode("Sun").family, "standard");
    assert_eq!(
        decode("Melancholic Slot (Accessory)"),
        SlotSpec {
            label: "lamordia: melancholic (accessory)".into(),
            family: "lamordia".into(),
            variant: "melancholic".into(),
            qualifier: Some("accessory".into())
        }
    );
    assert_eq!(
        decode("IoD: Weapon: Scale Slot"),
        SlotSpec {
            label: "isle of dread: scale (weapon)".into(),
            family: "dino".into(),
            variant: "scale".into(),
            qualifier: Some("weapon".into())
        }
    );
    assert_eq!(decode("IoD: Set Bonus Slot").label, "isle of dread: set bonus");
    assert_eq!(
        decode("Tier 2"),
        SlotSpec {
            label: "upgrade: tier 2".into(),
            family: "upgrade".into(),
            variant: "tier 2".into(),
            qualifier: None
        }
    );
    assert_eq!(decode("Greensteel Weapon Tier 1").family, "crafting");
    assert_eq!(decode("Greensteel Weapon Tier 1").label, "crafting: greensteel weapon tier 1");
}

#[test]
fn decode_trims_and_renders_tier_numbers_canonically() {
    assert_eq!(decode("  Tier +07 ").label, "upgrade: tier 7");
    assert_eq!(decode("Tier x").family, "crafting");
    assert_eq!(decode("Gloomy Slot (Accessory)").family, "crafting", "only the four Lamordia moods");
    assert_eq!(decode("Woeful Slot (Ring").label, "crafting: woeful slot (ring");
    assert_eq!(decode("IoD: Odd").label, "crafting: iod: odd");
}
