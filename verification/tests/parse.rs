//! Reading DDOBuilderV2's quest, patron and item-buff files.

use ddo_data::xml::item_buffs::{self, templates_from_events, XmlEvent};
use ddo_data::xml::quests::{self, Quest, RawQuest};
use ddo_data::xml::{patrons, Empty, Vector};

fn raw(name: &str, patron: Option<&str>, pack: Option<&str>, favor: Option<i64>, levels: Option<&str>) -> RawQuest {
    RawQuest {
        name: name.to_string(),
        patron: patron.map(str::to_string),
        adventure_pack: pack.map(str::to_string),
        favor,
        levels: levels.map(|t| Vector { text: t.to_string() }),
        is_raid: None,
        do_not_show: None,
    }
}

/// A trimmed `Quests.xml`, as read from its elements.
fn quest_file() -> Vec<RawQuest> {
    let mut chrono = raw("The Chronoscope", Some("The Coin Lords"), Some("Devil Assault"), Some(5), Some("6 21"));
    chrono.is_raid = Some(Empty {});
    let mut lamordia = raw("Land of Lamordia", Some("None"), Some("Lamordia"), None, None);
    lamordia.do_not_show = Some(Empty {});
    vec![
        chrono,
        lamordia,
        raw(" Caught in the Web ", Some("The Free Agents"), Some("Devil Assault"), Some(4), Some("8 24")),
        raw("The Cursed Crypt", Some("The Gatekeepers"), None, Some(2), Some("3")),
        raw("Temple of Elemental Evil Part One", Some("The Free Agents"), Some("Temple of Elemental Evil"), Some(3), Some("27")),
        raw("Devil Assault", Some("The Coin Lords"), Some("Devil Assault"), Some(5), Some("14 29")),
        raw("Harbor Outskirts", Some("None"), None, None, None),
    ]
}

const ITEM_BUFFS: &str = "\u{feff}<?xml version=\"1.0\" encoding=\"utf-8\"?>
<ItemBuffs>
  <Buff>
    <Type>WeaponEnchantment</Type>
    <DisplayText>%v1 Enhancement Bonus: %v1 Enhancement bonus to attack and damage rolls.</DisplayText>
  </Buff>
  <Buff>
    <Type>Supreme Good</Type>
    <DisplayText>Good damage.</DisplayText>
  </Buff>
  <Buff>
    <Type>Fixture Multi Paragraph</Type>
    <DisplayText>First paragraph.</DisplayText>
    <Effect><Type>Ignored</Type></Effect>
    <Requirements><Requirement><Type>Level</Type></Requirement></Requirements>
    <DisplayText>Second paragraph.</DisplayText>
  </Buff>
  <Buff>
    <DisplayText>No type, no template.</DisplayText>
  </Buff>
</ItemBuffs>
";

fn get<'a>(templates: &'a [(String, String)], key: &str) -> Option<&'a str> {
    templates.iter().find(|(k, _)| k == key).map(|(_, v)| v.as_str())
}

#[test]
fn parses_quests_patrons_and_item_buffs() {
    let qs = quests::parse(quest_file()).unwrap();
    assert_eq!(qs.len(), 7);
    let chrono = qs.iter().find(|q| q.name == "The Chronoscope").unwrap();
    assert_eq!(chrono.levels, vec![6, 21]);
    assert!(chrono.is_raid);
    assert_eq!(chrono.patron.as_deref(), Some("The Coin Lords"));
    assert_eq!(chrono.adventure_pack.as_deref(), Some("Devil Assault"));
    assert_eq!(chrono.favor, Some(5));
    let lamordia = qs.iter().find(|q| q.name == "Land of Lamordia").unwrap();
    assert!(lamordia.do_not_show);
    assert!(!lamordia.is_raid);

    let ps = patrons::parse(vec!["House Cannith".to_string(), "The Coin Lords".to_string()]);
    assert!(ps.iter().any(|p| p.name == "House Cannith"));

    let buffs = item_buffs::parse(ITEM_BUFFS).unwrap();
    assert_eq!(
        get(&buffs, "WeaponEnchantment"),
        Some("%v1 Enhancement Bonus: %v1 Enhancement bonus to attack and damage rolls.")
    );
    assert!(get(&buffs, "Supreme Good").is_some());
    assert_eq!(
        get(&buffs, "Fixture Multi Paragraph"),
        Some("First paragraph.\nSecond paragraph."),
        "repeated <DisplayText> elements are paragraphs of one description"
    );
}

#[test]
fn quest_names_are_trimmed_and_a_none_patron_dropped() {
    let qs = quests::parse(quest_file()).unwrap();
    assert!(qs.iter().any(|q| q.name == "Caught in the Web"));
    let harbor = qs.iter().find(|q| q.name == "Harbor Outskirts").unwrap();
    assert_eq!(harbor.patron, None);
    assert!(harbor.levels.is_empty());
    let crypt = qs.iter().find(|q| q.name == "The Cursed Crypt").unwrap();
    assert_eq!(crypt.levels, vec![3]);
}

#[test]
fn a_level_that_is_not_a_number_is_an_error_naming_it() {
    let mut file = quest_file();
    file.insert(3, raw("Bad Levels", None, None, None, Some("12 x1 7")));
    file.push(raw("Worse Levels", None, None, None, Some("y")));
    let err = quests::parse(file).unwrap_err();
    assert_eq!((err.quest.as_str(), err.level.as_str()), ("Bad Levels", "x1"));
    let one = Quest::try_from(raw("Signed", None, None, None, Some(" +4\t-2 "))).unwrap();
    assert_eq!(one.levels, vec![4, -2]);
}

#[test]
fn item_buffs_replace_repeated_types_and_skip_blank_paragraphs() {
    let events = vec![
        XmlEvent::Start("ItemBuffs".into()),
        XmlEvent::Start("Buff".into()),
        XmlEvent::Start("Type".into()),
        XmlEvent::Text(" Twice ".into()),
        XmlEvent::End("Type".into()),
        XmlEvent::Start("DisplayText".into()),
        XmlEvent::Text("   ".into()),
        XmlEvent::End("DisplayText".into()),
        XmlEvent::Start("DisplayText".into()),
        XmlEvent::Text("old".into()),
        XmlEvent::End("DisplayText".into()),
        XmlEvent::End("Buff".into()),
        XmlEvent::Start("Buff".into()),
        XmlEvent::Start("Type".into()),
        XmlEvent::Text("Twice".into()),
        XmlEvent::End("Type".into()),
        XmlEvent::Other,
        XmlEvent::Start("DisplayText".into()),
        XmlEvent::Text("new".into()),
        XmlEvent::End("DisplayText".into()),
        XmlEvent::End("Buff".into()),
        XmlEvent::End("ItemBuffs".into()),
    ];
    assert_eq!(templates_from_events(events), vec![("Twice".to_string(), "new".to_string())]);
}

#[test]
fn malformed_item_buffs_are_an_error() {
    assert!(item_buffs::parse("<ItemBuffs><Buff></ItemBuffs>").is_err());
    assert!(item_buffs::parse("<ItemBuffs/>").unwrap().is_empty());
}
