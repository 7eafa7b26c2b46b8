//! The per-item aggregates: one for each zone and item name.

use crate::aggregate::groups::{distinct_keys, lemma_distinct_keys};
use crate::aggregate::{
    copy_text, count_where, greater_text, greatest_mob, lemma_nothing_chosen, lemma_sums_bounded,
    storable, total_where, Chosen,
};
use crate::entities::drops;
use crate::entities::drops::{event_views, quantity_in_range};
use crate::entities::stats;
use vstd::prelude::*;

verus! {

/// The key of the aggregate that an event contributes to: its zone and its
/// item name.
pub open spec fn stat_key(e: drops::ModelView) -> (i32, Seq<char>) {
    (e.zone_id, e.item_name)
}

/// The events that contribute to the aggregate under `key`.
pub open spec fn stat_group(key: (i32, Seq<char>)) -> Chosen {
    |e: drops::ModelView| stat_key(e) == key
}

/// The key of an event, for grouping: every event has one.
pub open spec fn stat_key_of() -> spec_fn(drops::ModelView) -> Option<(i32, Seq<char>)> {
    |e: drops::ModelView| Some(stat_key(e))
}

/// The keys that occur among the events, each once, in the order in which
/// they first occur.
pub open spec fn stat_keys(events: Seq<drops::ModelView>) -> Seq<(i32, Seq<char>)> {
    distinct_keys(events, stat_key_of())
}

/// The aggregate under `key`: how many events contribute, the sum of their
/// quantities, and the greatest source-mob name among them.
pub open spec fn stat_for(events: Seq<drops::ModelView>, key: (i32, Seq<char>)) -> stats::ModelView {
    stats::ModelView {
        zone_id: key.0,
        item_name: key.1,
        source_mob: greatest_mob(events, stat_group(key)),
        drop_count: count_where(events, stat_group(key)),
        total_quantity: total_where(events, stat_group(key)),
    }
}

/// The whole set of aggregates: one for each key that occurs.
pub open spec fn stats_of(events: Seq<drops::ModelView>) -> Seq<stats::ModelView> {
    stat_keys(events).map_values(|key: (i32, Seq<char>)| stat_for(events, key))
}

/// The views of a list of aggregates, in order.
pub open spec fn stat_views(rows: Seq<stats::Model>) -> Seq<stats::ModelView> {
    rows.map_values(|r: stats::Model| r@)
}

/// The place of the aggregate under a key, if there is one.
fn find_stat(rows: &Vec<stats::Model>, zone_id: i32, item_name: &String) -> (place: Option<usize>)
    ensures
        match place {
            Some(j) => j < rows.len() && rows[j as int].zone_id == zone_id
                && rows[j as int].item_name@ == item_name@,
            None => forall|j: int|
                0 <= j < rows.len() ==> !((#[trigger] rows[j]).zone_id == zone_id
                    && rows[j].item_name@ == item_name@),
        },
{
    let mut j: usize = 0;
    while j < rows.len()
        invariant
            j <= rows.len(),
            forall|k: int|
                0 <= k < j ==> !((#[trigger] rows[k]).zone_id == zone_id && rows[k].item_name@
                    == item_name@),
        decreases rows.len() - j,
    {
        if rows[j].zone_id == zone_id && rows[j].item_name == *item_name {
            return Some(j);
        }
        j += 1;
    }
    None
}

/// Recomputes the whole set of aggregates from the events.
pub fn refresh_stats(events: &Vec<drops::Model>) -> (rows: Vec<stats::Model>)
    requires
        storable(event_views(events@)),
    ensures
        stat_views(rows@) == stats_of(event_views(events@)),
{
    let ghost all = event_views(events@);
    let mut rows: Vec<stats::Model> = Vec::new();
    let mut i: usize = 0;
    proof {
        assert(stat_views(rows@) =~= stats_of(all.take(0)));
    }
    while i < events.len()
        invariant
            i <= events.len(),
            all == event_views(events@),
            storable(all),
            stat_views(rows@) == stats_of(all.take(i as int)),
        decreases events.len() - i,
    {
        let event = &events[i];
        let ghost seen = all.take(i as int);
        let ghost next = all.take(i + 1);
        let ghost key = stat_key(event@);
        let ghost keys = stat_keys(seen);
        let ghost before = rows@;
        proof {
            assert(next.drop_last() =~= seen);
            assert(event@ == all[i as int]);
            assert(next.last() == event@);
            lemma_distinct_keys(seen, stat_key_of());
            assert(stat_views(before).len() == keys.len());
            assert forall|j: int| 0 <= j < keys.len() implies (#[trigger] before[j]).zone_id
                == keys[j].0 && before[j].item_name@ == keys[j].1 by {
                assert(stat_views(before)[j] == stat_for(seen, keys[j]));
            }
            assert forall|j: int| 0 <= j < next.len() implies quantity_in_range(
                (#[trigger] next[j]).quantity,
            ) by {
                assert(next[j] == all[j]);
            }
            lemma_sums_bounded(next, stat_group(key));
        }
        match find_stat(&rows, event.zone_id, &event.item_name) {
            Some(j) => {
                proof {
                    assert(keys[j as int] == key);
                    assert(stat_views(before)[j as int] == stat_for(seen, key));
                }
                let merged = stats::Model {
                    zone_id: event.zone_id,
                    item_name: event.item_name.clone(),
                    source_mob: greater_text(
                        copy_text(&rows[j].source_mob),
                        copy_text(&event.source_mob),
                    ),
                    drop_count: rows[j].drop_count + 1,
                    total_quantity: rows[j].total_quantity + event.quantity as i64,
                };
                rows.set(j, merged);
                proof {
                    assert(stat_keys(next) == keys);
                    assert forall|m: int| 0 <= m < keys.len() implies stat_views(rows@)[m]
                        == stat_for(next, keys[m]) by {
                        if m != j {
                            assert(keys[m] != key);
                            assert(stat_views(before)[m] == stat_for(seen, keys[m]));
                            assert(rows@[m] == before[m]);
                        }
                    }
                    assert(stat_views(rows@) =~= stats_of(next));
                }
            },
            None => {
                proof {
                    if keys.contains(key) {
                        let j = choose|j: int| 0 <= j < keys.len() && keys[j] == key;
                        assert(before[j].zone_id == keys[j].0);
                    }
                    assert forall|m: int| 0 <= m < seen.len() implies !stat_group(key)(
                        #[trigger] seen[m],
                    ) by {
                        assert(keys.contains(stat_key(seen[m])));
                    }
                    lemma_nothing_chosen(seen, stat_group(key));
                }
                let fresh = stats::Model {
                    zone_id: event.zone_id,
                    item_name: event.item_name.clone(),
                    source_mob: copy_text(&event.source_mob),
                    drop_count: 1,
                    total_quantity: event.quantity as i64,
                };
                rows.push(fresh);
                proof {
                    assert(stat_keys(next) == keys.push(key));
                    assert forall|m: int| 0 <= m < keys.len() + 1 implies stat_views(rows@)[m]
                        == stat_for(next, stat_keys(next)[m]) by {
                        if m < keys.len() {
                            assert(keys[m] != key);
                            assert(stat_views(before)[m] == stat_for(seen, keys[m]));
                            assert(rows@[m] == before[m]);
                        }
                    }
                    assert(stat_views(rows@) =~= stats_of(next));
                }
            },
        }
        i += 1;
    }
    proof {
        assert(all.take(events.len() as int) =~= all);
    }
    rows
}

} // verus!
