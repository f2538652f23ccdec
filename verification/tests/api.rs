//! The decisions of the read-only API: paging, name search, filters, errors and ETags.

use ddo_data::api::db::{like_pattern, page, Filters, SqlValue};
use ddo_data::api::error::ApiError;
use ddo_data::api::etag::{etag_value, if_none_match, revalidate, Revalidation};
use ddo_data::api::routes::{
    augment_filters, feat_filters, item_filters, spell_filters, AugmentFilter, FeatFilter, ItemFilter, SpellFilter,
};

#[test]
fn paging_is_clamped_to_sane_bounds() {
    assert_eq!(page(None, None), (100, 0));
    assert_eq!(page(Some(5), Some(0)), (5, 0));
    assert_eq!(page(Some(0), Some(-3)), (1, 0));
    assert_eq!(page(Some(20_000), Some(25)), (10_000, 25));
    assert_eq!(page(Some(i64::MIN), Some(i64::MAX)), (1, i64::MAX));
}

#[test]
fn name_search_escapes_like_metacharacters() {
    assert_eq!(like_pattern("sireth"), "%sireth%");
    assert_eq!(like_pattern("  cloak of winter "), "%cloak of winter%");
    assert_eq!(like_pattern("100%_\\"), "%100\\%\\_\\\\%");
}

#[test]
fn filters_number_their_placeholders() {
    let mut f = Filters::new();
    assert_eq!(f.where_sql(), "");
    f.bind("a = ?", SqlValue::Integer(1));
    f.clause("b IS NULL");
    f.bind("c = ? OR d = ?", SqlValue::Text("x".into()));
    assert_eq!(f.where_sql(), "WHERE a = ?1 AND b IS NULL AND c = ?2 OR d = ?2");
    assert_eq!(f.params(), &vec![SqlValue::Integer(1), SqlValue::Text("x".into())]);
}

#[test]
fn items_list_filters_and_pages() {
    let f = ItemFilter {
        q: Some("sireth".into()),
        category: Some("Weapon".into()),
        min_level: Some(20),
        max_level: Some(25),
        raid: Some(true),
        ..Default::default()
    };
    let fs = item_filters(&f).unwrap();
    assert_eq!(
        fs.where_sql(),
        "WHERE i.name LIKE ?1 ESCAPE '\\' AND i.item_category = ?2 AND i.minimum_level >= ?3 AND i.minimum_level <= ?4 AND EXISTS (SELECT 1 FROM quest_loot ql WHERE ql.item_id = i.id AND ql.loot_type = 'raid')"
    );
    assert_eq!(
        fs.params(),
        &vec![SqlValue::Text("%sireth%".into()), SqlValue::Text("Weapon".into()), SqlValue::Integer(20), SqlValue::Integer(25)]
    );
    let blank = item_filters(&ItemFilter { q: Some("   ".into()), raid: Some(false), ..Default::default() }).unwrap();
    assert_eq!(blank.where_sql(), "");
    match item_filters(&ItemFilter { category: Some("Hat".into()), ..Default::default() }) {
        Err(ApiError::BadRequest(m)) => assert_eq!(m, "unknown category \"Hat\"", "unknown category is a client error"),
        Err(other) => panic!("{other:?}"),
        Ok(_) => panic!("unknown category is a client error"),
    }
}

#[test]
fn errors_map_to_status_and_body() {
    let (status, body) = ApiError::NotFound.into_parts();
    assert_eq!((status, body.error.as_str()), (404, "not found"));
    let (status, body) = ApiError::BadRequest("bad".into()).into_parts();
    assert_eq!((status, body.error.as_str()), (400, "bad"));
    assert!(matches!(ApiError::from_db(true, "x".into()), ApiError::NotFound));
    assert!(matches!(ApiError::from_db(false, "x".into()), ApiError::Internal(m) if m == "x"));
}

#[test]
fn etag_roundtrip_returns_not_modified() {
    let tag = etag_value(0x1234_abcd);
    assert_eq!(tag, "\"000000001234abcd\"");
    assert!(if_none_match(&tag, &tag));
    assert!(if_none_match(&format!("\"x\", {tag} "), &tag));
    assert!(if_none_match("*", &tag));
    assert!(!if_none_match("\"000000001234abce\"", &tag));
    assert!(!if_none_match("", &tag));
}

#[test]
fn feat_filters_check_the_source() {
    let f = FeatFilter { q: Some("power".into()), source: Some("class".into()), group: Some("Metamagics".into()), ..Default::default() };
    let fs = feat_filters(&f).unwrap();
    assert_eq!(
        fs.where_sql(),
        "WHERE f.name LIKE ?1 ESCAPE '\\' AND f.source_kind = ?2 AND EXISTS (SELECT 1 FROM feat_groups fg WHERE fg.feat_id = f.id AND fg.group_name = ?3)"
    );
    assert_eq!(
        fs.params(),
        &vec![SqlValue::Text("%power%".into()), SqlValue::Text("class".into()), SqlValue::Text("Metamagics".into())]
    );
    let acq = feat_filters(&FeatFilter { acquire: Some("Train".into()), ..Default::default() }).unwrap();
    assert_eq!(acq.where_sql(), "WHERE f.acquire = ?1");
    match feat_filters(&FeatFilter { source: Some("Class".into()), ..Default::default() }) {
        Err(ApiError::BadRequest(m)) => assert_eq!(m, "unknown source \"Class\""),
        Err(other) => panic!("{other:?}"),
        Ok(_) => panic!("an unknown source is a client error"),
    }
}

#[test]
fn spell_and_augment_filters() {
    let s = spell_filters(&SpellFilter { school: Some("Evocation".into()), class: Some("Wizard".into()), ..Default::default() });
    assert_eq!(
        s.where_sql(),
        "WHERE EXISTS (SELECT 1 FROM json_each(s.schools) j WHERE j.value = ?1) AND EXISTS (SELECT 1 FROM class_spells cs JOIN classes c ON c.id = cs.class_id WHERE cs.spell_id = s.id AND c.name = ?2)"
    );
    assert_eq!(spell_filters(&SpellFilter { q: Some(" ".into()), ..Default::default() }).where_sql(), "");
    let a = augment_filters(&AugmentFilter {
        q: Some("ruby".into()),
        slot: Some("Red".into()),
        family: Some("Ruby".into()),
        max_level: Some(10),
        ..Default::default()
    });
    assert_eq!(
        a.where_sql(),
        "WHERE a.name LIKE ?1 ESCAPE '\\' AND EXISTS (SELECT 1 FROM augment_slots s JOIN augment_slot_types t ON t.id = s.slot_id WHERE s.augment_id = a.id AND t.label = ?2) AND a.family = ?3 AND (a.min_level IS NULL OR a.min_level <= ?4)"
    );
    assert_eq!(
        a.params(),
        &vec![
            SqlValue::Text("%ruby%".into()),
            SqlValue::Text("red".into()),
            SqlValue::Text("Ruby".into()),
            SqlValue::Integer(10)
        ]
    );
}

#[test]
fn a_matching_if_none_match_is_answered_not_modified() {
    let tag = etag_value(0x1f);
    assert_eq!(revalidate(Some(&tag), &tag), Revalidation::NotModified);
    assert_eq!(revalidate(Some("\"other\", *"), &tag), Revalidation::NotModified);
    assert_eq!(revalidate(Some("\"other\""), &tag), Revalidation::Forward);
    assert_eq!(revalidate(None, &tag), Revalidation::Forward);
}

#[test]
fn a_term_and_its_trimmed_form_search_alike() {
    assert_eq!(like_pattern(" 50%_off\\ "), like_pattern("50%_off\\"));
    assert_eq!(like_pattern(" 50%_off\\ "), "%50\\%\\_off\\\\%");
    assert_eq!(like_pattern("   "), "%%");
}
