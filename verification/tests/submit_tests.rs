use drop_logger::models::DropSubmission;
use drop_logger::sanitize::Sanitizer;
use drop_logger::submit::{
    client_recognized, Action, Body, Event, Failure, Outcome, Phase, Submission,
};
use std::collections::HashMap;

const PLUGIN: Option<&str> = Some("Dalamud/9 DropLogger-Plugin/1.4");

fn item(user: &str, name: &str, quantity: i32) -> DropSubmission {
    DropSubmission {
        zone_id: 132,
        item_name: name.to_string(),
        quantity,
        is_hq: false,
        user_hash: user.to_string(),
        source_mob: Some("Ladybug".to_string()),
        item_id: 5,
        source_mob_id: Some(49),
    }
}

fn batch_of(n: usize) -> Vec<DropSubmission> {
    (0..n).map(|i| item("u1", "Wing", 1 + i as i32)).collect()
}

/// A counter store in memory: a count and the moment it lapses, per key.
struct Counters {
    now: u64,
    entries: HashMap<String, (i32, Option<u64>)>,
    increments: usize,
    expiries: usize,
}

impl Counters {
    fn new() -> Counters {
        Counters { now: 1_000, entries: HashMap::new(), increments: 0, expiries: 0 }
    }

    fn live(&self, key: &str) -> bool {
        match self.entries.get(key) {
            Some((_, Some(deadline))) => self.now < *deadline,
            Some((_, None)) => true,
            None => false,
        }
    }

    fn incr(&mut self, key: &str) -> i32 {
        self.increments += 1;
        if !self.live(key) {
            self.entries.remove(key);
        }
        let entry = self.entries.entry(key.to_string()).or_insert((0, None));
        entry.0 += 1;
        entry.0
    }

    fn expire(&mut self, key: &str, seconds: u64) {
        self.expiries += 1;
        if self.live(key) {
            let now = self.now;
            self.entries.get_mut(key).unwrap().1 = Some(now + seconds);
        }
    }
}

/// Runs one batch against the counters and a list of stored rows.
fn serve(
    counters: &mut Counters,
    stored: &mut Vec<String>,
    user_agent: Option<&str>,
    batch: Vec<DropSubmission>,
) -> Outcome {
    let sanitizer = Sanitizer::new().unwrap();
    let (mut submission, mut action) = Submission::begin(user_agent, batch);
    loop {
        let event = match action {
            Action::Respond { outcome } => {
                assert!(submission.is_done());
                return outcome;
            }
            Action::Increment { key } => Event::Incremented { count: counters.incr(&key) },
            Action::Expire { key, seconds } => {
                counters.expire(&key, seconds);
                Event::ExpirySettled
            }
            Action::Insert { rows } => {
                stored.extend(rows.into_iter().map(|r| r.item_name));
                Event::Stored
            }
        };
        action = submission.advance(event, &sanitizer).expect("the event answers the action");
    }
}

#[test]
fn recognizes_the_plugin_marker_anywhere() {
    assert!(client_recognized(Some("DropLogger-Plugin")));
    assert!(client_recognized(Some("Mozilla/5.0 DropLogger-Plugin/2.0 (x64)")));
    assert!(!client_recognized(Some("droplogger-plugin")));
    assert!(!client_recognized(Some("DropLogger Plugin")));
    assert!(!client_recognized(Some("DropLogger-Plugi")));
    assert!(!client_recognized(Some("")));
    assert!(!client_recognized(None));
}

#[test]
fn wrong_user_agent_is_rejected_before_any_store_access() {
    let mut counters = Counters::new();
    let mut stored = Vec::new();
    let outcome = serve(&mut counters, &mut stored, Some("curl/8.0"), batch_of(3));
    assert_eq!(outcome, Outcome::InvalidClient);
    assert_eq!(outcome.status_code(), 403);
    assert_eq!(counters.increments, 0);
    assert_eq!(counters.expiries, 0);
    assert!(stored.is_empty());
}

#[test]
fn missing_user_agent_is_rejected_before_any_store_access() {
    let mut counters = Counters::new();
    let mut stored = Vec::new();
    let outcome = serve(&mut counters, &mut stored, None, batch_of(3));
    assert_eq!(outcome, Outcome::InvalidClient);
    assert_eq!(counters.increments, 0);
    assert!(stored.is_empty());
}

#[test]
fn a_rejected_submission_takes_no_further_event() {
    let sanitizer = Sanitizer::new().unwrap();
    let (mut submission, action) = Submission::begin(Some("curl/8.0"), batch_of(2));
    assert_eq!(action, Action::Respond { outcome: Outcome::InvalidClient });
    assert_eq!(submission.phase(), Phase::Done);
    for event in [
        Event::CounterUnreachable,
        Event::IncrementFailed,
        Event::Incremented { count: 1 },
        Event::ExpirySettled,
        Event::Stored,
        Event::StoreFailed,
    ] {
        assert_eq!(submission.advance(event, &sanitizer), None);
        assert_eq!(submission.phase(), Phase::Done);
    }
}

#[test]
fn empty_batch_is_a_bad_request_without_side_effects() {
    let mut counters = Counters::new();
    let mut stored = Vec::new();
    let outcome = serve(&mut counters, &mut stored, PLUGIN, Vec::new());
    assert_eq!(outcome, Outcome::EmptyPayload);
    assert_eq!(outcome.status_code(), 400);
    assert_eq!(counters.increments, 0);
    assert_eq!(counters.expiries, 0);
    assert!(stored.is_empty());
}

#[test]
fn the_client_is_judged_before_the_batch() {
    let (_, action) = Submission::begin(Some("curl/8.0"), Vec::new());
    assert_eq!(action, Action::Respond { outcome: Outcome::InvalidClient });
}

#[test]
fn zero_hundred_and_fifty_seven() {
    let mut counters = Counters::new();
    let mut stored = Vec::new();
    let batch = vec![item("u1", "Zero", 0), item("u1", "Hundred", 100), item("u1", "Fifty-seven!", 57)];
    let outcome = serve(&mut counters, &mut stored, PLUGIN, batch);
    assert_eq!(outcome, Outcome::Inserted { count: 1 });
    assert_eq!(outcome.status_code(), 200);
    assert!(outcome.is_success());
    assert_eq!(outcome.body(), Body::Accepted { count: 1 });
    assert_eq!(stored, vec!["Fifty-seven".to_string()]);
}

#[test]
fn the_count_reported_is_the_number_of_rows_inserted() {
    let mut counters = Counters::new();
    let mut stored = Vec::new();
    let batch: Vec<DropSubmission> = [0, 100, 57]
        .into_iter()
        .map(|quantity| DropSubmission {
            zone_id: 1,
            item_name: "Sword".to_string(),
            quantity,
            is_hq: false,
            user_hash: "u1".to_string(),
            source_mob: None,
            item_id: 7,
            source_mob_id: None,
        })
        .collect();
    let outcome = serve(&mut counters, &mut stored, Some("DropLogger-Plugin"), batch);
    assert_eq!(outcome.status_code(), 200);
    assert_eq!(outcome.body(), Body::Accepted { count: 1 });
    assert_eq!(stored, vec!["Sword".to_string()]);
    assert_eq!(counters.entries["rate_limit:u1"].0, 1);
}

#[test]
fn the_count_reported_leaves_out_what_was_filtered() {
    let sanitizer = Sanitizer::new().unwrap();
    let batch = vec![
        item("u1", "a", 5),
        item("u1", "b", 0),
        item("u1", "c", 99),
        item("u1", "d", 100),
        item("u1", "e", 1),
    ];
    let (mut submission, _) = Submission::begin(PLUGIN, batch);
    assert_eq!(submission.len(), 5);
    let action = submission.advance(Event::Incremented { count: 3 }, &sanitizer).unwrap();
    match action {
        Action::Insert { rows } => assert_eq!(rows.len(), 3),
        other => panic!("expected an insert, got {:?}", other),
    }
    let action = submission.advance(Event::Stored, &sanitizer);
    assert_eq!(action, Some(Action::Respond { outcome: Outcome::Inserted { count: 3 } }));
}

#[test]
fn the_first_request_of_a_window_walks_every_step() {
    let sanitizer = Sanitizer::new().unwrap();
    let (mut submission, action) = Submission::begin(PLUGIN, batch_of(2));
    assert_eq!(action, Action::Increment { key: "rate_limit:u1".to_string() });
    assert_eq!(submission.phase(), Phase::AwaitingCount);
    assert_eq!(submission.len(), 2);

    let action = submission.advance(Event::Incremented { count: 1 }, &sanitizer);
    assert_eq!(action, Some(Action::Expire { key: "rate_limit:u1".to_string(), seconds: 60 }));
    assert_eq!(submission.phase(), Phase::AwaitingExpiry);

    let action = submission.advance(Event::ExpirySettled, &sanitizer).unwrap();
    match action {
        Action::Insert { rows } => {
            assert_eq!(rows.len(), 2);
            assert_eq!(rows[0].reporter_hash, "u1");
            assert_eq!(rows[1].quantity, 2);
        }
        other => panic!("expected an insert, got {:?}", other),
    }
    assert_eq!(submission.phase(), Phase::AwaitingStore);

    let action = submission.advance(Event::Stored, &sanitizer);
    assert_eq!(action, Some(Action::Respond { outcome: Outcome::Inserted { count: 2 } }));
    assert!(submission.is_done());
}

#[test]
fn a_later_request_of_a_window_attaches_no_expiry() {
    let sanitizer = Sanitizer::new().unwrap();
    let (mut submission, _) = Submission::begin(PLUGIN, batch_of(1));
    let action = submission.advance(Event::Incremented { count: 2 }, &sanitizer).unwrap();
    assert!(matches!(action, Action::Insert { .. }));
}

#[test]
fn the_hundredth_request_passes_and_the_next_is_limited() {
    let mut counters = Counters::new();
    let mut stored = Vec::new();
    for _ in 0..99 {
        let outcome = serve(&mut counters, &mut stored, PLUGIN, batch_of(1));
        assert_eq!(outcome, Outcome::Inserted { count: 1 });
    }
    assert_eq!(stored.len(), 99);

    let outcome = serve(&mut counters, &mut stored, PLUGIN, batch_of(5));
    assert_eq!(outcome, Outcome::Inserted { count: 5 });
    assert_eq!(counters.entries["rate_limit:u1"].0, 100);
    assert_eq!(stored.len(), 104);

    let outcome = serve(&mut counters, &mut stored, PLUGIN, batch_of(5));
    assert_eq!(outcome, Outcome::RateLimited);
    assert_eq!(outcome.status_code(), 429);
    assert!(!outcome.is_success());
    assert_eq!(counters.entries["rate_limit:u1"].0, 101);
    assert_eq!(stored.len(), 104);
}

#[test]
fn the_nth_request_counts_n_and_the_expiry_is_set_once() {
    let mut counters = Counters::new();
    let mut stored = Vec::new();
    for n in 1..=40 {
        counters.now = 1_000 + n as u64;
        serve(&mut counters, &mut stored, PLUGIN, batch_of(3));
        assert_eq!(counters.entries["rate_limit:u1"], (n, Some(1_000 + 1 + 60)));
        assert_eq!(counters.increments, n as usize);
        assert_eq!(counters.expiries, 1);
    }
}

#[test]
fn a_new_window_starts_the_count_again() {
    let mut counters = Counters::new();
    let mut stored = Vec::new();
    for _ in 0..101 {
        serve(&mut counters, &mut stored, PLUGIN, batch_of(1));
    }
    assert_eq!(serve(&mut counters, &mut stored, PLUGIN, batch_of(1)), Outcome::RateLimited);
    counters.now += 60;
    assert_eq!(
        serve(&mut counters, &mut stored, PLUGIN, batch_of(1)),
        Outcome::Inserted { count: 1 }
    );
    assert_eq!(counters.entries["rate_limit:u1"], (1, Some(1_000 + 60 + 60)));
    assert_eq!(counters.expiries, 2);
}

#[test]
fn a_batch_costs_one_increment_whatever_its_size() {
    let mut counters = Counters::new();
    let mut stored = Vec::new();
    serve(&mut counters, &mut stored, PLUGIN, batch_of(50));
    assert_eq!(counters.increments, 1);
    assert_eq!(stored.len(), 50);
}

#[test]
fn the_first_item_names_the_reporter_of_the_batch() {
    let batch = vec![item("alice", "a", 1), item("bob", "b", 1)];
    let (_, action) = Submission::begin(PLUGIN, batch);
    assert_eq!(action, Action::Increment { key: "rate_limit:alice".to_string() });
}

#[test]
fn a_batch_with_nothing_valid_succeeds_without_a_write() {
    let mut counters = Counters::new();
    let mut stored = Vec::new();
    let batch = vec![item("u1", "a", 0), item("u1", "b", 100), item("u1", "c", -3)];
    let outcome = serve(&mut counters, &mut stored, PLUGIN, batch);
    assert_eq!(outcome, Outcome::NoValidDrops);
    assert_eq!(outcome.status_code(), 200);
    assert!(outcome.is_success());
    assert_eq!(counters.increments, 1);
    assert!(stored.is_empty());
}

#[test]
fn an_unreachable_counter_store_fails_the_request() {
    let sanitizer = Sanitizer::new().unwrap();
    let (mut submission, _) = Submission::begin(PLUGIN, batch_of(1));
    let action = submission.advance(Event::CounterUnreachable, &sanitizer);
    assert_eq!(action, Some(Action::Respond { outcome: Outcome::CounterUnavailable }));
    assert_eq!(Outcome::CounterUnavailable.status_code(), 500);
    assert!(submission.is_done());
}

#[test]
fn a_failed_increment_fails_the_request() {
    let sanitizer = Sanitizer::new().unwrap();
    let (mut submission, _) = Submission::begin(PLUGIN, batch_of(1));
    let action = submission.advance(Event::IncrementFailed, &sanitizer);
    assert_eq!(action, Some(Action::Respond { outcome: Outcome::CounterFailed }));
    assert_eq!(Outcome::CounterFailed.status_code(), 500);
}

#[test]
fn a_failed_insert_fails_the_whole_batch() {
    let sanitizer = Sanitizer::new().unwrap();
    let (mut submission, _) = Submission::begin(PLUGIN, batch_of(4));
    submission.advance(Event::Incremented { count: 7 }, &sanitizer).unwrap();
    let action = submission.advance(Event::StoreFailed, &sanitizer);
    assert_eq!(action, Some(Action::Respond { outcome: Outcome::InsertFailed }));
    assert_eq!(Outcome::InsertFailed.status_code(), 500);
    assert!(!Outcome::InsertFailed.is_success());
}

#[test]
fn an_event_out_of_turn_changes_nothing() {
    let sanitizer = Sanitizer::new().unwrap();
    let (mut submission, _) = Submission::begin(PLUGIN, batch_of(1));
    assert_eq!(submission.advance(Event::Stored, &sanitizer), None);
    assert_eq!(submission.advance(Event::ExpirySettled, &sanitizer), None);
    assert_eq!(submission.phase(), Phase::AwaitingCount);
    submission.advance(Event::Incremented { count: 1 }, &sanitizer).unwrap();
    assert_eq!(submission.advance(Event::Incremented { count: 2 }, &sanitizer), None);
    assert_eq!(submission.advance(Event::StoreFailed, &sanitizer), None);
    assert_eq!(submission.phase(), Phase::AwaitingExpiry);
}

#[test]
fn counts_below_one_are_not_over_the_limit() {
    let sanitizer = Sanitizer::new().unwrap();
    let (mut submission, _) = Submission::begin(PLUGIN, batch_of(1));
    let action = submission.advance(Event::Incremented { count: 0 }, &sanitizer).unwrap();
    assert!(matches!(action, Action::Insert { .. }));
}

#[test]
fn every_outcome_has_its_status_and_body() {
    let cases = [
        (Outcome::InvalidClient, 403, Body::Error { error: "Invalid Client" }),
        (Outcome::EmptyPayload, 400, Body::Error { error: "Empty payload" }),
        (Outcome::CounterUnavailable, 500, Body::Text { text: "Internal error" }),
        (Outcome::CounterFailed, 500, Body::Text { text: "Redis error" }),
        (Outcome::RateLimited, 429, Body::Text { text: "Too many requests" }),
        (Outcome::NoValidDrops, 200, Body::Status { status: "No valid drops" }),
        (Outcome::Inserted { count: 12 }, 200, Body::Accepted { count: 12 }),
        (Outcome::InsertFailed, 500, Body::Text { text: "Database error" }),
    ];
    for (outcome, status, body) in cases {
        assert_eq!(outcome.status_code(), status);
        assert_eq!(outcome.body(), body);
        assert_eq!(outcome.is_success(), status == 200);
    }
}

#[test]
fn failures_fall_into_five_classes() {
    assert_eq!(Outcome::InvalidClient.failure(), Some(Failure::AuthRejection));
    assert_eq!(Outcome::EmptyPayload.failure(), Some(Failure::ValidationRejection));
    assert_eq!(Outcome::RateLimited.failure(), Some(Failure::RateLimitExceeded));
    assert_eq!(Outcome::CounterUnavailable.failure(), Some(Failure::TransientStoreError));
    assert_eq!(Outcome::CounterFailed.failure(), Some(Failure::TransientStoreError));
    assert_eq!(Outcome::InsertFailed.failure(), Some(Failure::PersistenceFailure));
    assert_eq!(Outcome::NoValidDrops.failure(), None);
    assert_eq!(Outcome::Inserted { count: 1 }.failure(), None);
}
