use ddo_data::diff::{compare_names, normalize_name, sort_names};

#[test]
fn level_suffix_variants_share_a_key() {
    assert_eq!(normalize_name("Allegiance (Level 12)"), "allegiance");
    assert_eq!(normalize_name("Adamantine Knuckles (level 23)"), "adamantineknuckles");
    assert_eq!(normalize_name("Allegiance"), "allegiance");
    assert_eq!(
        normalize_name("Cloak of the Reaper (Blue)"),
        "cloakofthereaperblue",
        "only level suffixes are stripped"
    );
    assert_eq!(normalize_name("Sireth, Spear of the Sky"), "sirethspearofthesky");
}

#[test]
fn ml_suffix_and_empty_numbers() {
    assert_eq!(normalize_name("Torc (ML 9))"), "torc");
    assert_eq!(normalize_name("Torc (ML )"), "torcml");
    assert_eq!(normalize_name("Torc (ML 9) x"), "torcml9x");
}

fn names(v: &[&str]) -> Vec<String> {
    v.iter().map(|s| s.to_string()).collect()
}

#[test]
fn diff_reports_coverage_against_a_legacy_database() {
    let built = names(&[
        "Sireth, Spear of the Sky",
        "Docent of Defiance",
        "Kundarak Delving Boots (Level 12)",
        "Five Rings",
        "Legendary Cloak of Winter",
        "Epic Ring of the Stalker",
        "Acid Rune Arm",
        "+3 Combustion Scorched Battle Axe",
        "Argenti's Armor",
        "+1 Starter Heavy Steel Shield",
        "Kundarak Delving Equipment",
        "Legendary Dreadnought Plate",
    ]);
    let excluded = names(&["17th Anniversary Dark Helm"]);
    let legacy = names(&[
        "Sireth, Spear of the Sky",
        "Docent of Defiance",
        "Kundarak Delving Boots",
        "Something Only The Wiki Had",
        "17th Anniversary Dark Helm",
    ]);
    let report = compare_names(&built, &legacy, &excluded);
    assert_eq!(report.matched, 3);
    assert_eq!(report.only_legacy, vec!["Something Only The Wiki Had".to_string()]);
    assert_eq!(report.excluded_by_design, vec!["17th Anniversary Dark Helm".to_string()], "cosmetics are not gaps");
    assert_eq!(report.only_new.len(), 9);
    let denominator = report.matched + report.only_legacy.len();
    assert!((report.matched as f64 / denominator as f64 - 0.75).abs() < 1e-9);
}

#[test]
fn compared_lists_come_out_sorted_and_keyed_names_collapse() {
    let report = compare_names(&names(&["b", "B (ML 3)", "a", "Zed"]), &names(&["c", "A"]), &vec![]);
    assert_eq!(report.matched, 1);
    assert_eq!(report.only_legacy, vec!["c".to_string()]);
    assert_eq!(report.only_new, vec!["B (ML 3)".to_string(), "Zed".to_string()], "a later name with the key replaces");
    assert_eq!(sort_names(names(&["b", "a", "B", "ab", ""])), names(&["", "B", "a", "ab", "b"]));
}

#[test]
fn every_legacy_key_lands_in_one_list() {
    let legacy = names(&["Alpha", "alpha (Level 4)", "Beta", "Gamma", "Delta"]);
    let report = compare_names(&names(&["ALPHA", "Gamma"]), &legacy, &names(&["delta"]));
    // Four distinct keys: alpha, beta, gamma, delta.
    assert_eq!(report.matched + report.only_legacy.len() + report.excluded_by_design.len(), 4);
    assert_eq!((report.matched, report.only_legacy.len(), report.excluded_by_design.len()), (2, 1, 1));
}

#[test]
fn a_suffix_that_is_no_level_label_stays_in_the_key() {
    assert_eq!(normalize_name("Sword (Blue)"), "swordblue");
    assert_eq!(normalize_name("Sword (Level x2)"), "swordlevelx2");
    assert_eq!(normalize_name("Sword (Level )"), "swordlevel");
    assert_eq!(normalize_name("  Sword (Rare 3)"), "swordrare3");
}
