use drop_logger::entities::drops::NewDrop;
use drop_logger::models::DropSubmission;
use drop_logger::sanitize::Sanitizer;
use drop_logger::validate::{clean, quantity_ok, validate};

fn submission(item_name: &str, quantity: i32) -> DropSubmission {
    DropSubmission {
        zone_id: 7,
        item_name: item_name.to_string(),
        quantity,
        is_hq: false,
        user_hash: "reporter-1".to_string(),
        source_mob: Some("Cave <Bat>".to_string()),
        item_id: 4021,
        source_mob_id: Some(88),
    }
}

#[test]
fn only_the_item_in_range_survives() {
    let sanitizer = Sanitizer::new().unwrap();
    let batch = vec![submission("Zero", 0), submission("Hundred", 100), submission("Fifty-seven", 57)];
    let rows = validate(&batch, &sanitizer);
    assert_eq!(rows.len(), 1);
    assert_eq!(rows[0].quantity, 57);
    assert_eq!(rows[0].item_name, "Fifty-seven");
}

#[test]
fn quantity_bounds_are_exclusive() {
    assert!(!quantity_ok(0));
    assert!(quantity_ok(1));
    assert!(quantity_ok(99));
    assert!(!quantity_ok(100));
    assert!(!quantity_ok(-5));
    assert!(!quantity_ok(i32::MAX));
    assert!(!quantity_ok(i32::MIN));
}

#[test]
fn clean_strips_names_and_keeps_the_rest() {
    let sanitizer = Sanitizer::new().unwrap();
    let mut s = submission("Bat <Wing>!", 3);
    s.is_hq = true;
    let row = clean(&s, &sanitizer);
    assert_eq!(
        row,
        NewDrop {
            zone_id: 7,
            item_name: "Bat Wing".to_string(),
            quantity: 3,
            is_hq: true,
            reporter_hash: "reporter-1".to_string(),
            source_mob: Some("Cave Bat".to_string()),
            item_id: 4021,
            source_mob_id: Some(88),
        }
    );
}

#[test]
fn clean_leaves_a_missing_mob_missing() {
    let sanitizer = Sanitizer::new().unwrap();
    let mut s = submission("Ore", 2);
    s.source_mob = None;
    s.source_mob_id = None;
    let row = clean(&s, &sanitizer);
    assert_eq!(row.source_mob, None);
    assert_eq!(row.source_mob_id, None);
}

#[test]
fn the_reporter_hash_is_not_cleaned() {
    let sanitizer = Sanitizer::new().unwrap();
    let mut s = submission("Ore", 2);
    s.user_hash = "a/b+c==".to_string();
    assert_eq!(clean(&s, &sanitizer).reporter_hash, "a/b+c==");
}

#[test]
fn validate_keeps_the_order_of_the_batch() {
    let sanitizer = Sanitizer::new().unwrap();
    let batch = vec![
        submission("first", 1),
        submission("dropped", 0),
        submission("second", 99),
        submission("dropped too", -1),
        submission("third", 50),
    ];
    let rows = validate(&batch, &sanitizer);
    let names: Vec<&str> = rows.iter().map(|r| r.item_name.as_str()).collect();
    assert_eq!(names, vec!["first", "second", "third"]);
}

#[test]
fn validate_of_nothing_is_nothing() {
    let sanitizer = Sanitizer::new().unwrap();
    assert!(validate(&Vec::new(), &sanitizer).is_empty());
    assert!(validate(&vec![submission("x", 100), submission("y", 0)], &sanitizer).is_empty());
}
