//! The statistics derived from the stored events: per-item aggregates,
//! kill counts and drop rates. Each is a function of the events alone.

pub mod groups;
pub mod order;
pub mod rates;
pub mod refresh;
pub mod report;

pub use self::rates::{drop_rate, drop_total, kill_count, names_kill_record};
pub use self::refresh::refresh_stats;
pub use self::report::{drop_rates, drop_report, sort_rows};

use crate::entities::drops;
use crate::entities::drops::{event_views, quantity_in_range};
use crate::models::text_of;
use crate::text::{le, lex_le};
use vstd::prelude::*;

verus! {

/// A predicate that picks events.
pub type Chosen = spec_fn(drops::ModelView) -> bool;

/// How many of the events are chosen.
pub open spec fn count_where(events: Seq<drops::ModelView>, chosen: Chosen) -> int
    decreases events.len(),
{
    if events.len() == 0 {
        0
    } else {
        count_where(events.drop_last(), chosen) + if chosen(events.last()) {
            1int
        } else {
            0int
        }
    }
}

/// The sum of the quantities of the chosen events.
pub open spec fn total_where(events: Seq<drops::ModelView>, chosen: Chosen) -> int
    decreases events.len(),
{
    if events.len() == 0 {
        0
    } else {
        total_where(events.drop_last(), chosen) + if chosen(events.last()) {
            events.last().quantity as int
        } else {
            0int
        }
    }
}

/// The greater of two optional texts; a missing one never wins.
pub open spec fn max_text(a: Option<Seq<char>>, b: Option<Seq<char>>) -> Option<Seq<char>> {
    match (a, b) {
        (None, _) => b,
        (_, None) => a,
        (Some(x), Some(y)) => if lex_le(x, y) {
            b
        } else {
            a
        },
    }
}

/// The greatest source-mob name among the chosen events, if any of them
/// names one.
pub open spec fn greatest_mob(events: Seq<drops::ModelView>, chosen: Chosen) -> Option<Seq<char>>
    decreases events.len(),
{
    if events.len() == 0 {
        None
    } else if chosen(events.last()) {
        max_text(greatest_mob(events.drop_last(), chosen), events.last().source_mob)
    } else {
        greatest_mob(events.drop_last(), chosen)
    }
}

/// The most events that can be aggregated at once: with any more, a sum of
/// quantities might not fit in 64 bits.
pub const MAX_EVENTS: u64 = 93_165_374_109_644_200;

/// The later of two texts in the order of [`lex_le`].
pub open spec fn later_text(a: Seq<char>, b: Seq<char>) -> Seq<char> {
    if lex_le(a, b) {
        b
    } else {
        a
    }
}

/// The greatest item name among the chosen events; the empty text where
/// none is chosen.
pub open spec fn greatest_item(events: Seq<drops::ModelView>, chosen: Chosen) -> Seq<char>
    decreases events.len(),
{
    if events.len() == 0 {
        Seq::empty()
    } else if chosen(events.last()) {
        later_text(greatest_item(events.drop_last(), chosen), events.last().item_name)
    } else {
        greatest_item(events.drop_last(), chosen)
    }
}

/// Whether a list of events can be aggregated: every quantity is in range,
/// and the list is not too long.
pub open spec fn storable(events: Seq<drops::ModelView>) -> bool {
    &&& events.len() <= MAX_EVENTS
    &&& forall|i: int| 0 <= i < events.len() ==> quantity_in_range((#[trigger] events[i]).quantity)
}

/// Tests whether a list of events can be aggregated.
pub fn is_storable(events: &Vec<drops::Model>) -> (ok: bool)
    ensures
        ok == storable(event_views(events@)),
{
    if events.len() as u64 > MAX_EVENTS {
        return false;
    }
    let mut i: usize = 0;
    while i < events.len()
        invariant
            i <= events.len(),
            events.len() <= MAX_EVENTS,
            forall|j: int|
                0 <= j < i ==> quantity_in_range((#[trigger] event_views(events@)[j]).quantity),
        decreases events.len() - i,
    {
        if !(events[i].quantity > 0 && events[i].quantity < drops::QUANTITY_CEILING) {
            assert(!quantity_in_range(event_views(events@)[i as int].quantity));
            return false;
        }
        i += 1;
    }
    true
}

/// The chosen events are at most all of them, and their quantities add up
/// to no more than 99 each.
pub proof fn lemma_sums_bounded(events: Seq<drops::ModelView>, chosen: Chosen)
    requires
        forall|i: int| 0 <= i < events.len() ==> quantity_in_range((#[trigger] events[i]).quantity),
    ensures
        0 <= count_where(events, chosen) <= events.len(),
        count_where(events, chosen) <= total_where(events, chosen) <= 99 * count_where(
            events,
            chosen,
        ),
    decreases events.len(),
{
    if events.len() > 0 {
        let earlier = events.drop_last();
        assert forall|i: int| 0 <= i < earlier.len() implies quantity_in_range(
            (#[trigger] earlier[i]).quantity,
        ) by {
            assert(earlier[i] == events[i]);
        }
        lemma_sums_bounded(earlier, chosen);
        assert(quantity_in_range(events[events.len() - 1].quantity));
    }
}

/// Events of which none is chosen add up to nothing.
pub proof fn lemma_nothing_chosen(events: Seq<drops::ModelView>, chosen: Chosen)
    requires
        forall|i: int| 0 <= i < events.len() ==> !chosen(#[trigger] events[i]),
    ensures
        count_where(events, chosen) == 0,
        total_where(events, chosen) == 0,
        greatest_mob(events, chosen) is None,
        greatest_item(events, chosen) == Seq::<char>::empty(),
    decreases events.len(),
{
    if events.len() > 0 {
        let earlier = events.drop_last();
        assert forall|i: int| 0 <= i < earlier.len() implies !chosen(#[trigger] earlier[i]) by {
            assert(earlier[i] == events[i]);
        }
        lemma_nothing_chosen(earlier, chosen);
        assert(!chosen(events[events.len() - 1]));
    }
}

/// The greater of two optional texts.
pub(crate) fn greater_text(a: Option<String>, b: Option<String>) -> (r: Option<String>)
    ensures
        text_of(r) == max_text(text_of(a), text_of(b)),
{
    match (a, b) {
        (None, b) => b,
        (a, None) => a,
        (Some(x), Some(y)) => if le(x.as_str(), y.as_str()) {
            Some(y)
        } else {
            Some(x)
        },
    }
}

/// The later of two texts.
pub(crate) fn later(a: String, b: String) -> (r: String)
    ensures
        r@ == later_text(a@, b@),
{
    if le(a.as_str(), b.as_str()) {
        b
    } else {
        a
    }
}

/// A copy of an optional text.
pub(crate) fn copy_text(field: &Option<String>) -> (r: Option<String>)
    ensures
        text_of(r) == text_of(*field),
{
    match field {
        Some(text) => Some(text.clone()),
        None => None,
    }
}

} // verus!
