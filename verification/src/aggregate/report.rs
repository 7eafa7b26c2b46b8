//! The drop-rate report: one line for each mob and item, ordered by name.

use crate::aggregate::groups::{distinct_keys, lemma_distinct_keys};
use crate::aggregate::rates::{
    drop_rate, drops_of, kill_count, rate_hundredths, same_mob, total_kills,
};
use crate::aggregate::{
    greatest_item, greatest_mob, later, lemma_nothing_chosen, lemma_sums_bounded, storable,
    total_where,
};
use crate::entities::drops;
use crate::entities::drops::{event_views, quantity_in_range};
use crate::models::{DropRateDisplay, DropRateDisplayView};
use crate::text::{
    le, lemma_lex_le_antisymmetric, lemma_lex_le_total, lemma_lex_le_transitive, lex_le,
};
use vstd::multiset::Multiset;
use vstd::prelude::*;

verus! {

/// The line that an event contributes to: its mob and its item, by their
/// identifiers. An event that names no source mob contributes to none.
pub open spec fn report_key_of() -> spec_fn(drops::ModelView) -> Option<(Option<i32>, i32)> {
    |e: drops::ModelView|
        if e.source_mob is Some {
            Some((e.source_mob_id, e.item_id))
        } else {
            None
        }
}

/// The mob and item pairs that occur among the events, each once, in the
/// order in which they first occur.
pub open spec fn report_keys(events: Seq<drops::ModelView>) -> Seq<(Option<i32>, i32)> {
    distinct_keys(events, report_key_of())
}

/// A name, or the empty text in its place.
pub open spec fn name_or_empty(name: Option<Seq<char>>) -> Seq<char> {
    match name {
        Some(text) => text,
        None => Seq::empty(),
    }
}

/// The line for one mob and item: the greatest names among their drop
/// events, the drops and the kills summed, and the rate of the two.
pub open spec fn rate_row(events: Seq<drops::ModelView>, key: (Option<i32>, i32)) -> DropRateDisplayView {
    let drops = total_where(events, drops_of(key.0, key.1));
    let kills = total_kills(events, key.0);
    DropRateDisplayView {
        mob_name: name_or_empty(greatest_mob(events, drops_of(key.0, key.1))),
        item_name: greatest_item(events, drops_of(key.0, key.1)),
        total_drops: drops,
        total_kills: kills,
        drop_rate_hundredths: rate_hundredths(drops, kills),
    }
}

/// The lines of the report, in the order in which their mob and item first
/// occur.
pub open spec fn rate_rows(events: Seq<drops::ModelView>) -> Seq<DropRateDisplayView> {
    report_keys(events).map_values(|key: (Option<i32>, i32)| rate_row(events, key))
}

/// The views of a list of lines, in order.
pub open spec fn display_views(rows: Seq<DropRateDisplay>) -> Seq<DropRateDisplayView> {
    rows.map_values(|r: DropRateDisplay| r@)
}

/// Whether the line `a` may stand before the line `b`: by mob name, and by
/// item name where the mob names are the same.
pub open spec fn row_le(a: DropRateDisplayView, b: DropRateDisplayView) -> bool {
    if a.mob_name == b.mob_name {
        lex_le(a.item_name, b.item_name)
    } else {
        lex_le(a.mob_name, b.mob_name)
    }
}

/// Whether lines are in ascending order.
pub open spec fn ordered(rows: Seq<DropRateDisplayView>) -> bool {
    forall|i: int, j: int| 0 <= i < j < rows.len() ==> row_le(#[trigger] rows[i], #[trigger] rows[j])
}

/// Of any two lines, one may stand before the other.
pub proof fn lemma_row_le_total(a: DropRateDisplayView, b: DropRateDisplayView)
    ensures
        row_le(a, b) || row_le(b, a),
{
    lemma_lex_le_total(a.item_name, b.item_name);
    lemma_lex_le_total(a.mob_name, b.mob_name);
}

/// The order of lines is transitive.
pub proof fn lemma_row_le_transitive(
    a: DropRateDisplayView,
    b: DropRateDisplayView,
    c: DropRateDisplayView,
)
    requires
        row_le(a, b),
        row_le(b, c),
    ensures
        row_le(a, c),
{
    if a.mob_name == b.mob_name && b.mob_name == c.mob_name {
        lemma_lex_le_transitive(a.item_name, b.item_name, c.item_name);
    } else if a.mob_name == b.mob_name {
    } else if b.mob_name == c.mob_name {
    } else {
        lemma_lex_le_transitive(a.mob_name, b.mob_name, c.mob_name);
        if a.mob_name == c.mob_name {
            lemma_lex_le_antisymmetric(a.mob_name, b.mob_name);
        }
    }
}

/// What is known of one mob and item while the events are gone through.
struct Tally {
    mob_id: Option<i32>,
    item_id: i32,
    mob_name: String,
    item_name: String,
    total_drops: i64,
}

/// The place of the tally of a mob and item, if there is one.
fn find_tally(tallies: &Vec<Tally>, mob_id: Option<i32>, item_id: i32) -> (place: Option<usize>)
    ensures
        match place {
            Some(j) => j < tallies.len() && tallies[j as int].mob_id == mob_id
                && tallies[j as int].item_id == item_id,
            None => forall|j: int|
                0 <= j < tallies.len() ==> !((#[trigger] tallies[j]).mob_id == mob_id
                    && tallies[j].item_id == item_id),
        },
{
    let mut j: usize = 0;
    while j < tallies.len()
        invariant
            j <= tallies.len(),
            forall|k: int|
                0 <= k < j ==> !((#[trigger] tallies[k]).mob_id == mob_id && tallies[k].item_id
                    == item_id),
        decreases tallies.len() - j,
    {
        if same_mob(tallies[j].mob_id, mob_id) && tallies[j].item_id == item_id {
            return Some(j);
        }
        j += 1;
    }
    None
}

/// Whether a tally holds what the events say of its mob and item.
spec fn tally_matches(tally: Tally, events: Seq<drops::ModelView>, key: (Option<i32>, i32)) -> bool {
    &&& tally.mob_id == key.0
    &&& tally.item_id == key.1
    &&& tally.mob_name@ == name_or_empty(greatest_mob(events, drops_of(key.0, key.1)))
    &&& tally.item_name@ == greatest_item(events, drops_of(key.0, key.1))
    &&& tally.total_drops == total_where(events, drops_of(key.0, key.1))
}

/// Whether the tallies are those of the events, one for each mob and item
/// in the order of first occurrence.
spec fn tallies_match(tallies: Seq<Tally>, events: Seq<drops::ModelView>) -> bool {
    &&& tallies.len() == report_keys(events).len()
    &&& forall|j: int|
        0 <= j < tallies.len() ==> tally_matches(#[trigger] tallies[j], events, report_keys(events)[j])
}

/// Goes through the events once and keeps a tally for each mob and item.
fn tally_drops(events: &Vec<drops::Model>) -> (tallies: Vec<Tally>)
    requires
        storable(event_views(events@)),
    ensures
        tallies_match(tallies@, event_views(events@)),
{
    let ghost all = event_views(events@);
    let mut tallies: Vec<Tally> = Vec::new();
    let mut i: usize = 0;
    while i < events.len()
        invariant
            i <= events.len(),
            all == event_views(events@),
            storable(all),
            tallies_match(tallies@, all.take(i as int)),
        decreases events.len() - i,
    {
        let event = &events[i];
        let ghost seen = all.take(i as int);
        let ghost next = all.take(i + 1);
        let ghost keys = report_keys(seen);
        let ghost before = tallies@;
        proof {
            assert(next.drop_last() =~= seen);
            assert(event@ == all[i as int]);
            assert(next.last() == event@);
            lemma_distinct_keys(seen, report_key_of());
            assert forall|j: int| 0 <= j < next.len() implies quantity_in_range(
                (#[trigger] next[j]).quantity,
            ) by {
                assert(next[j] == all[j]);
            }
        }
        match &event.source_mob {
            Some(name) => {
                let ghost key = (event.source_mob_id, event.item_id);
                proof {
                    assert(report_key_of()(event@) == Some(key));
                    lemma_sums_bounded(next, drops_of(key.0, key.1));
                }
                match find_tally(&tallies, event.source_mob_id, event.item_id) {
                    Some(j) => {
                        proof {
                            assert(tally_matches(before[j as int], seen, keys[j as int]));
                            assert(keys[j as int] == key);
                        }
                        let merged = Tally {
                            mob_id: event.source_mob_id,
                            item_id: event.item_id,
                            mob_name: later(tallies[j].mob_name.clone(), name.clone()),
                            item_name: later(tallies[j].item_name.clone(), event.item_name.clone()),
                            total_drops: tallies[j].total_drops + event.quantity as i64,
                        };
                        tallies.set(j, merged);
                        proof {
                            assert(report_keys(next) == keys);
                            assert forall|m: int| 0 <= m < tallies@.len() implies tally_matches(
                                #[trigger] tallies@[m],
                                next,
                                keys[m],
                            ) by {
                                if m != j {
                                    assert(keys[m] != key);
                                    assert(tally_matches(before[m], seen, keys[m]));
                                    assert(tallies@[m] == before[m]);
                                }
                            }
                        }
                    },
                    None => {
                        proof {
                            if keys.contains(key) {
                                let j = choose|j: int| 0 <= j < keys.len() && keys[j] == key;
                                assert(tally_matches(before[j], seen, keys[j]));
                            }
                            assert forall|m: int| 0 <= m < seen.len() implies !drops_of(
                                key.0,
                                key.1,
                            )(#[trigger] seen[m]) by {
                                if drops_of(key.0, key.1)(seen[m]) {
                                    assert(report_key_of()(seen[m]) == Some(key));
                                    assert(keys.contains(report_key_of()(seen[m])->0));
                                }
                            }
                            lemma_nothing_chosen(seen, drops_of(key.0, key.1));
                        }
                        let fresh = Tally {
                            mob_id: event.source_mob_id,
                            item_id: event.item_id,
                            mob_name: name.clone(),
                            item_name: event.item_name.clone(),
                            total_drops: event.quantity as i64,
                        };
                        tallies.push(fresh);
                        proof {
                            assert(report_keys(next) == keys.push(key));
                            assert forall|m: int| 0 <= m < tallies@.len() implies tally_matches(
                                #[trigger] tallies@[m],
                                next,
                                report_keys(next)[m],
                            ) by {
                                if m < keys.len() {
                                    assert(keys[m] != key);
                                    assert(tally_matches(before[m], seen, keys[m]));
                                    assert(tallies@[m] == before[m]);
                                }
                            }
                        }
                    },
                }
            },
            None => {
                proof {
                    assert(report_key_of()(event@) is None);
                    assert(report_keys(next) == keys);
                    assert forall|m: int| 0 <= m < tallies@.len() implies tally_matches(
                        #[trigger] tallies@[m],
                        next,
                        keys[m],
                    ) by {
                        assert(tally_matches(before[m], seen, keys[m]));
                    }
                }
            },
        }
        i += 1;
    }
    proof {
        assert(all.take(events.len() as int) =~= all);
    }
    tallies
}

/// Computes the lines of the report, in the order in which their mob and
/// item first occur among the events.
pub fn drop_rates(events: &Vec<drops::Model>) -> (rows: Vec<DropRateDisplay>)
    requires
        storable(event_views(events@)),
    ensures
        display_views(rows@) == rate_rows(event_views(events@)),
{
    let ghost all = event_views(events@);
    let ghost keys = report_keys(all);
    let tallies = tally_drops(events);
    let mut rows: Vec<DropRateDisplay> = Vec::new();
    let mut j: usize = 0;
    while j < tallies.len()
        invariant
            j <= tallies.len(),
            all == event_views(events@),
            keys == report_keys(all),
            storable(all),
            tallies_match(tallies@, all),
            rows@.len() == j,
            forall|m: int| 0 <= m < j ==> (#[trigger] rows@[m])@ == rate_row(all, keys[m]),
        decreases tallies.len() - j,
    {
        let tally = &tallies[j];
        proof {
            assert(tally_matches(tallies@[j as int], all, keys[j as int]));
        }
        let kills = kill_count(events, tally.mob_id);
        let row = DropRateDisplay {
            mob_name: tally.mob_name.clone(),
            item_name: tally.item_name.clone(),
            total_drops: tally.total_drops,
            total_kills: kills,
            drop_rate_hundredths: drop_rate(tally.total_drops, kills),
        };
        rows.push(row);
        j += 1;
    }
    proof {
        assert(display_views(rows@) =~= rate_rows(all));
    }
    rows
}

/// Whether the line `a` may stand before the line `b`.
fn may_precede(a: &DropRateDisplay, b: &DropRateDisplay) -> (before: bool)
    ensures
        before == row_le(a@, b@),
{
    if a.mob_name == b.mob_name {
        le(a.item_name.as_str(), b.item_name.as_str())
    } else {
        le(a.mob_name.as_str(), b.mob_name.as_str())
    }
}

/// The place at which `row` goes into ordered lines: behind every line
/// that may stand before it.
fn find_place(rows: &Vec<DropRateDisplay>, row: &DropRateDisplay) -> (place: usize)
    requires
        ordered(display_views(rows@)),
    ensures
        place <= rows.len(),
        forall|k: int| 0 <= k < place ==> row_le((#[trigger] rows@[k])@, row@),
        forall|k: int| place <= k < rows.len() ==> row_le(row@, (#[trigger] rows@[k])@),
{
    let mut place: usize = 0;
    while place < rows.len() && may_precede(&rows[place], row)
        invariant
            place <= rows.len(),
            forall|k: int| 0 <= k < place ==> row_le((#[trigger] rows@[k])@, row@),
        decreases rows.len() - place,
    {
        place += 1;
    }
    proof {
        if place < rows.len() {
            let views = display_views(rows@);
            lemma_row_le_total(rows@[place as int]@, row@);
            assert forall|k: int| place <= k < rows.len() implies row_le(
                row@,
                (#[trigger] rows@[k])@,
            ) by {
                if k > place {
                    assert(row_le(views[place as int], views[k]));
                    lemma_row_le_transitive(row@, rows@[place as int]@, rows@[k]@);
                }
            }
        }
    }
    place
}

/// No lines make an empty bag of lines.
proof fn lemma_nothing_holds_nothing(rows: Seq<DropRateDisplayView>)
    requires
        rows.len() == 0,
    ensures
        rows.to_multiset() == Multiset::<DropRateDisplayView>::empty(),
{
    rows.to_multiset_ensures();
    vstd::multiset::lemma_multiset_empty_len(rows.to_multiset());
    assert(rows.to_multiset() =~= Multiset::<DropRateDisplayView>::empty());
}

/// Puts lines in ascending order of mob name and, under one mob name, of
/// item name.
pub fn sort_rows(rows: Vec<DropRateDisplay>) -> (sorted: Vec<DropRateDisplay>)
    ensures
        ordered(display_views(sorted@)),
        display_views(sorted@).to_multiset() == display_views(rows@).to_multiset(),
{
    let ghost given = display_views(rows@);
    let mut rest = rows;
    let mut sorted: Vec<DropRateDisplay> = Vec::new();
    proof {
        lemma_nothing_holds_nothing(display_views(sorted@));
        assert(display_views(sorted@).to_multiset().add(given.to_multiset()) =~= given.to_multiset());
    }
    while rest.len() > 0
        invariant
            ordered(display_views(sorted@)),
            display_views(sorted@).to_multiset().add(display_views(rest@).to_multiset())
                == given.to_multiset(),
        decreases rest.len(),
    {
        let ghost rest_before = display_views(rest@);
        let ghost sorted_before = display_views(sorted@);
        let row = rest.pop().unwrap();
        let place = find_place(&sorted, &row);
        let ghost taken = row@;
        sorted.insert(place, row);
        proof {
            let rest_after = display_views(rest@);
            let sorted_after = display_views(sorted@);
            assert(rest_before =~= rest_after.push(taken));
            assert(sorted_after =~= sorted_before.insert(place as int, taken));
            vstd::seq_lib::to_multiset_build(rest_after, taken);
            vstd::seq_lib::to_multiset_remove(sorted_after, place as int);
            assert(sorted_after.remove(place as int) =~= sorted_before);
            assert(sorted_after[place as int] == taken);
            sorted_after.to_multiset_ensures();
            assert(sorted_after.to_multiset().count(taken) > 0);
            assert(sorted_after.to_multiset() =~= sorted_before.to_multiset().insert(taken));
            assert(sorted_after.to_multiset().add(rest_after.to_multiset()) =~= given.to_multiset());
            assert forall|i: int, j: int| 0 <= i < j < sorted_after.len() implies row_le(
                #[trigger] sorted_after[i],
                #[trigger] sorted_after[j],
            ) by {
                if j < place {
                    assert(row_le(sorted_before[i], sorted_before[j]));
                } else if j == place {
                } else if i < place {
                    assert(row_le(sorted_before[i], sorted_before[j - 1]));
                } else if i == place {
                } else {
                    assert(row_le(sorted_before[i - 1], sorted_before[j - 1]));
                }
            }
        }
    }
    proof {
        lemma_nothing_holds_nothing(display_views(rest@));
        assert(display_views(sorted@).to_multiset().add(display_views(rest@).to_multiset())
            =~= display_views(sorted@).to_multiset());
    }
    sorted
}

/// Computes the report: a line for each mob and item that dropped it, in
/// ascending order of mob name, then of item name.
pub fn drop_report(events: &Vec<drops::Model>) -> (rows: Vec<DropRateDisplay>)
    requires
        storable(event_views(events@)),
    ensures
        ordered(display_views(rows@)),
        display_views(rows@).to_multiset() == rate_rows(event_views(events@)).to_multiset(),
{
    sort_rows(drop_rates(events))
}

} // verus!
