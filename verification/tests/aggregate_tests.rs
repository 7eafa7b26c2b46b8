use drop_logger::aggregate::{
    drop_rate, drop_rates, drop_report, drop_total, is_storable, kill_count, names_kill_record,
    refresh_stats, sort_rows,
};
use drop_logger::models::DropRateDisplay;
use drop_logger::entities::drops::Model;
use drop_logger::entities::stats;

const ZONE_A: i32 = 11;
const MOB_X: i32 = 700;
const SWORD: i32 = 31;

fn event(zone_id: i32, item_name: &str, item_id: i32, quantity: i32, mob: Option<(&str, i32)>) -> Model {
    Model {
        id: 0,
        zone_id,
        item_name: item_name.to_string(),
        quantity,
        is_hq: false,
        reporter_hash: "r".to_string(),
        created_at: 1_700_000_000,
        source_mob: mob.map(|m| m.0.to_string()),
        item_id,
        source_mob_id: mob.map(|m| m.1),
    }
}

fn two_swords() -> Vec<Model> {
    vec![
        event(ZONE_A, "Sword", SWORD, 3, Some(("Mob X", MOB_X))),
        event(ZONE_A, "Sword", SWORD, 3, Some(("Mob X", MOB_X))),
    ]
}

#[test]
fn two_swords_over_ten_kills() {
    let mut events = two_swords();
    events.push(event(ZONE_A, "MOB-Mob X", MOB_X, 4, None));
    events.push(event(ZONE_A, "MOB-Mob X", MOB_X, 6, None));
    assert!(is_storable(&events));
    let total_drops = drop_total(&events, Some(MOB_X), SWORD);
    let total_kills = kill_count(&events, Some(MOB_X));
    assert_eq!(total_drops, 6);
    assert_eq!(total_kills, 10);
    assert_eq!(drop_rate(total_drops, total_kills), 6000);
}

#[test]
fn two_swords_without_kills() {
    let events = two_swords();
    let total_drops = drop_total(&events, Some(MOB_X), SWORD);
    let total_kills = kill_count(&events, Some(MOB_X));
    assert_eq!(total_drops, 6);
    assert_eq!(total_kills, 0);
    assert_eq!(drop_rate(total_drops, total_kills), 0);
}

#[test]
fn drop_rate_rounds_to_two_decimals() {
    assert_eq!(drop_rate(1, 3), 3333);
    assert_eq!(drop_rate(2, 3), 6667);
    assert_eq!(drop_rate(1, 8), 1250);
    assert_eq!(drop_rate(1, 7), 1429);
    assert_eq!(drop_rate(0, 5), 0);
    assert_eq!(drop_rate(5, 5), 10000);
    assert_eq!(drop_rate(3, 2), 15000);
}

#[test]
fn drop_rate_rounds_halves_away_from_zero() {
    assert_eq!(drop_rate(1, 32), 313);
    assert_eq!(drop_rate(3, 32), 938);
    assert_eq!(drop_rate(-1, 32), -313);
    assert_eq!(drop_rate(1, 20000), 1);
    assert_eq!(drop_rate(1, 20001), 0);
}

#[test]
fn drop_rate_guards_the_division() {
    assert_eq!(drop_rate(6, 0), 0);
    assert_eq!(drop_rate(6, -10), 0);
    assert_eq!(drop_rate(0, 0), 0);
}

#[test]
fn drop_rate_of_the_largest_totals() {
    assert_eq!(drop_rate(i64::MAX, 1), i64::MAX as i128 * 10000);
    assert_eq!(drop_rate(i64::MIN, 1), i64::MIN as i128 * 10000);
    assert_eq!(drop_rate(i64::MAX, i64::MAX), 10000);
    assert_eq!(drop_rate(1, i64::MAX), 0);
}

#[test]
fn kill_records_are_named_by_their_prefix() {
    assert!(names_kill_record("MOB-Ladybug"));
    assert!(names_kill_record("MOB-"));
    assert!(!names_kill_record("MOB"));
    assert!(!names_kill_record("mob-Ladybug"));
    assert!(!names_kill_record(" MOB-Ladybug"));
    assert!(!names_kill_record(""));
}

#[test]
fn kills_are_counted_per_mob() {
    let events = vec![
        event(ZONE_A, "MOB-Mob X", MOB_X, 4, None),
        event(ZONE_A, "MOB-Mob Y", 701, 9, None),
        event(ZONE_A, "Sword", MOB_X, 5, Some(("Mob X", MOB_X))),
        event(2, "MOB-Mob X", MOB_X, 1, Some(("Mob X", MOB_X))),
    ];
    assert_eq!(kill_count(&events, Some(MOB_X)), 5);
    assert_eq!(kill_count(&events, Some(701)), 9);
    assert_eq!(kill_count(&events, Some(702)), 0);
    assert_eq!(kill_count(&events, None), 0);
}

#[test]
fn drops_without_a_named_mob_are_not_counted() {
    let mut nameless = event(ZONE_A, "Sword", SWORD, 2, None);
    nameless.source_mob_id = Some(MOB_X);
    let mut unnumbered = event(ZONE_A, "Sword", SWORD, 4, Some(("Mob X", MOB_X)));
    unnumbered.source_mob_id = None;
    let events = vec![nameless, unnumbered, event(ZONE_A, "Sword", SWORD, 8, Some(("Mob X", MOB_X)))];
    assert_eq!(drop_total(&events, Some(MOB_X), SWORD), 8);
    assert_eq!(drop_total(&events, None, SWORD), 4);
    assert_eq!(drop_total(&events, Some(MOB_X), SWORD + 1), 0);
}

#[test]
fn storable_events_have_quantities_in_range() {
    assert!(is_storable(&Vec::new()));
    assert!(is_storable(&vec![event(1, "a", 1, 1, None), event(1, "a", 1, 99, None)]));
    assert!(!is_storable(&vec![event(1, "a", 1, 1, None), event(1, "a", 1, 100, None)]));
    assert!(!is_storable(&vec![event(1, "a", 1, 0, None)]));
    assert!(!is_storable(&vec![event(1, "a", 1, -1, None)]));
}

#[test]
fn refresh_groups_by_zone_and_item_name() {
    let events = vec![
        event(1, "Sword", 31, 3, Some(("Bat", 7))),
        event(2, "Sword", 31, 1, None),
        event(1, "Shield", 32, 5, Some(("Bat", 7))),
        event(1, "Sword", 31, 4, Some(("Wolf", 8))),
        event(1, "Sword", 99, 2, None),
    ];
    let rows = refresh_stats(&events);
    assert_eq!(
        rows,
        vec![
            stats::Model {
                zone_id: 1,
                item_name: "Sword".to_string(),
                source_mob: Some("Wolf".to_string()),
                drop_count: 3,
                total_quantity: 9,
            },
            stats::Model {
                zone_id: 2,
                item_name: "Sword".to_string(),
                source_mob: None,
                drop_count: 1,
                total_quantity: 1,
            },
            stats::Model {
                zone_id: 1,
                item_name: "Shield".to_string(),
                source_mob: Some("Bat".to_string()),
                drop_count: 1,
                total_quantity: 5,
            },
        ]
    );
}

#[test]
fn refresh_of_nothing_is_nothing() {
    assert!(refresh_stats(&Vec::new()).is_empty());
}

#[test]
fn refresh_gives_the_same_aggregates_each_time() {
    let events = two_swords();
    assert_eq!(refresh_stats(&events), refresh_stats(&events));
    assert_eq!(refresh_stats(&events)[0].drop_count, 2);
    assert_eq!(refresh_stats(&events)[0].total_quantity, 6);
}

#[test]
fn the_greatest_mob_name_wins_whatever_the_order() {
    let forward = vec![
        event(1, "Fang", 1, 1, Some(("Wolf", 8))),
        event(1, "Fang", 1, 1, Some(("Bat", 7))),
        event(1, "Fang", 1, 1, Some(("Wolf Alpha", 9))),
    ];
    let mut backward = forward.clone();
    backward.reverse();
    assert_eq!(refresh_stats(&forward)[0].source_mob.as_deref(), Some("Wolf Alpha"));
    assert_eq!(refresh_stats(&backward), refresh_stats(&forward));
}

fn line(mob: &str, item: &str, drops: i64, kills: i64, rate: i128) -> DropRateDisplay {
    DropRateDisplay {
        mob_name: mob.to_string(),
        item_name: item.to_string(),
        total_drops: drops,
        total_kills: kills,
        drop_rate_hundredths: rate,
    }
}

#[test]
fn the_report_of_two_swords_over_ten_kills() {
    let mut events = two_swords();
    events.push(event(ZONE_A, "MOB-Mob X", MOB_X, 10, None));
    assert_eq!(drop_report(&events), vec![line("Mob X", "Sword", 6, 10, 6000)]);
    assert_eq!(drop_report(&two_swords()), vec![line("Mob X", "Sword", 6, 0, 0)]);
}

#[test]
fn the_lines_come_in_order_of_first_occurrence() {
    let events = vec![
        event(1, "Wing", 2, 1, Some(("Wasp", 20))),
        event(1, "MOB-Wasp", 20, 4, None),
        event(1, "Fang", 3, 2, Some(("Bat", 10))),
        event(1, "Wing", 2, 1, Some(("Bat", 10))),
        event(9, "Wing", 2, 1, Some(("Wasp", 20))),
        event(1, "Ore", 4, 7, None),
    ];
    assert_eq!(
        drop_rates(&events),
        vec![
            line("Wasp", "Wing", 2, 4, 5000),
            line("Bat", "Fang", 2, 0, 0),
            line("Bat", "Wing", 1, 0, 0),
        ]
    );
}

#[test]
fn the_report_is_ordered_by_mob_then_item() {
    let events = vec![
        event(1, "Wing", 2, 1, Some(("Wasp", 20))),
        event(1, "Fang", 3, 2, Some(("Bat", 10))),
        event(1, "Claw", 5, 2, Some(("Wasp", 20))),
        event(1, "Wing", 2, 1, Some(("Bat", 10))),
        event(1, "Ear", 6, 3, Some(("Bat Lord", 11))),
        event(1, "MOB-Bat", 10, 8, None),
    ];
    assert_eq!(
        drop_report(&events),
        vec![
            line("Bat", "Fang", 2, 8, 2500),
            line("Bat", "Wing", 1, 8, 1250),
            line("Bat Lord", "Ear", 3, 0, 0),
            line("Wasp", "Claw", 2, 0, 0),
            line("Wasp", "Wing", 1, 0, 0),
        ]
    );
}

#[test]
fn lines_take_the_greatest_of_differing_names() {
    let events = vec![
        event(1, "Wing", 2, 1, Some(("Wasp", 20))),
        event(1, "Wing HQ", 2, 1, Some(("Giant Wasp", 20))),
    ];
    assert_eq!(drop_rates(&events), vec![line("Wasp", "Wing HQ", 2, 0, 0)]);
}

#[test]
fn drops_without_a_mob_identifier_share_a_line_without_kills() {
    let mut a = event(1, "Coin", 1, 5, Some(("Chest", 0)));
    a.source_mob_id = None;
    let mut b = event(2, "Coin", 1, 6, Some(("Barrel", 0)));
    b.source_mob_id = None;
    let events = vec![a, b, event(1, "MOB-Chest", 0, 9, None)];
    assert_eq!(drop_rates(&events), vec![line("Chest", "Coin", 11, 0, 0)]);
}

#[test]
fn sorting_orders_lines_and_keeps_them_all() {
    let rows = vec![
        line("b", "x", 1, 1, 10000),
        line("a", "z", 2, 1, 20000),
        line("b", "", 3, 1, 30000),
        line("a", "y", 4, 1, 40000),
        line("B", "x", 5, 1, 50000),
        line("ab", "a", 6, 1, 60000),
        line("a", "y", 7, 1, 70000),
    ];
    let sorted = sort_rows(rows.clone());
    let names: Vec<(&str, &str)> =
        sorted.iter().map(|r| (r.mob_name.as_str(), r.item_name.as_str())).collect();
    assert_eq!(
        names,
        vec![("B", "x"), ("a", "y"), ("a", "y"), ("a", "z"), ("ab", "a"), ("b", ""), ("b", "x")]
    );
    let mut drops: Vec<i64> = sorted.iter().map(|r| r.total_drops).collect();
    drops.sort();
    assert_eq!(drops, vec![1, 2, 3, 4, 5, 6, 7]);
    assert!(sort_rows(Vec::new()).is_empty());
}
