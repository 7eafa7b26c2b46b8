//! Kill counts, drop totals and drop rates.

use crate::aggregate::{lemma_sums_bounded, storable, total_where, Chosen};
use crate::entities::drops;
use crate::entities::drops::{event_views, quantity_in_range};
use crate::text::starts_with;
use vstd::prelude::*;

verus! {

/// The text that opens the item name of every kill record.
pub open spec fn kill_prefix() -> Seq<char> {
    "MOB-"@
}

/// Whether an item name is that of a kill record, which counts kills of a
/// mob in place of drops of an item.
pub open spec fn is_kill_record(item_name: Seq<char>) -> bool {
    kill_prefix().is_prefix_of(item_name)
}

/// The kill records of one mob; the item identifier of a kill record is the
/// identifier of the mob.
pub open spec fn kills_of(mob_id: i32) -> Chosen {
    |e: drops::ModelView| is_kill_record(e.item_name) && e.item_id == mob_id
}

/// The events that report a drop of one item by one mob. Events that name
/// no source mob report none.
pub open spec fn drops_of(mob_id: Option<i32>, item_id: i32) -> Chosen {
    |e: drops::ModelView| e.source_mob is Some && e.source_mob_id == mob_id && e.item_id == item_id
}

/// How often a mob was killed: the quantities of its kill records, summed.
/// Without a mob identifier there are no kills to count.
pub open spec fn total_kills(events: Seq<drops::ModelView>, mob_id: Option<i32>) -> int {
    match mob_id {
        Some(id) => total_where(events, kills_of(id)),
        None => 0,
    }
}

/// The quotient of `numerator` by `denominator`, rounded to the nearest
/// integer, halves away from zero.
pub open spec fn rounded_quotient(numerator: int, denominator: int) -> int
    recommends
        denominator > 0,
{
    if numerator >= 0 {
        (2 * numerator + denominator) / (2 * denominator)
    } else {
        -((2 * (-numerator) + denominator) / (2 * denominator))
    }
}

/// The drop rate in hundredths of a percent: drops per kill, times 100,
/// rounded to two decimals; zero where no kill is recorded.
pub open spec fn rate_hundredths(total_drops: int, total_kills: int) -> int {
    if total_kills > 0 {
        rounded_quotient(total_drops * 10000, total_kills)
    } else {
        0
    }
}

/// Whether an item name is that of a kill record.
pub fn names_kill_record(item_name: &str) -> (kill: bool)
    ensures
        kill == is_kill_record(item_name@),
{
    starts_with(item_name, "MOB-")
}

/// The events that a sum is taken over.
enum Pick {
    /// The kill records of a mob.
    KillsOf { mob_id: i32 },
    /// The drops of an item by a mob.
    DropsOf { mob_id: Option<i32>, item_id: i32 },
}

impl Pick {
    /// The events that are picked.
    spec fn chosen(self) -> Chosen {
        match self {
            Pick::KillsOf { mob_id } => kills_of(mob_id),
            Pick::DropsOf { mob_id, item_id } => drops_of(mob_id, item_id),
        }
    }

    /// Whether an event is picked.
    fn picks(&self, event: &drops::Model) -> (picked: bool)
        ensures
            picked == self.chosen()(event@),
    {
        match self {
            Pick::KillsOf { mob_id } => names_kill_record(event.item_name.as_str())
                && event.item_id == *mob_id,
            Pick::DropsOf { mob_id, item_id } => event.source_mob.is_some() && same_mob(
                event.source_mob_id,
                *mob_id,
            ) && event.item_id == *item_id,
        }
    }
}

/// Sums the quantities of the events that are picked.
fn total_of(events: &Vec<drops::Model>, pick: Pick) -> (total: i64)
    requires
        storable(event_views(events@)),
    ensures
        total == total_where(event_views(events@), pick.chosen()),
{
    let ghost all = event_views(events@);
    let mut total: i64 = 0;
    let mut i: usize = 0;
    while i < events.len()
        invariant
            i <= events.len(),
            all == event_views(events@),
            storable(all),
            total == total_where(all.take(i as int), pick.chosen()),
        decreases events.len() - i,
    {
        let event = &events[i];
        proof {
            assert(all.take(i + 1).drop_last() =~= all.take(i as int));
            assert(event@ == all[i as int]);
            assert forall|j: int| 0 <= j < all.take(i + 1).len() implies quantity_in_range(
                (#[trigger] all.take(i + 1)[j]).quantity,
            ) by {
                assert(all.take(i + 1)[j] == all[j]);
            }
            lemma_sums_bounded(all.take(i + 1), pick.chosen());
        }
        if pick.picks(event) {
            total = total + event.quantity as i64;
        }
        i += 1;
    }
    proof {
        assert(all.take(events.len() as int) =~= all);
    }
    total
}

/// Sums the quantities of the kill records of the mob `mob_id`.
pub fn kill_count(events: &Vec<drops::Model>, mob_id: Option<i32>) -> (kills: i64)
    requires
        storable(event_views(events@)),
    ensures
        kills == total_kills(event_views(events@), mob_id),
{
    match mob_id {
        Some(id) => total_of(events, Pick::KillsOf { mob_id: id }),
        None => 0,
    }
}

/// Sums the quantities of the drops of the item `item_id` by the mob
/// `mob_id`.
pub fn drop_total(events: &Vec<drops::Model>, mob_id: Option<i32>, item_id: i32) -> (total: i64)
    requires
        storable(event_views(events@)),
    ensures
        total == total_where(event_views(events@), drops_of(mob_id, item_id)),
{
    total_of(events, Pick::DropsOf { mob_id, item_id })
}

/// Whether two optional mob identifiers are the same.
pub(crate) fn same_mob(a: Option<i32>, b: Option<i32>) -> (same: bool)
    ensures
        same == (a == b),
{
    match (a, b) {
        (Some(x), Some(y)) => x == y,
        (None, None) => true,
        _ => false,
    }
}

/// Computes the drop rate in hundredths of a percent: `6000` says that the
/// item dropped on 60.00 % of the kills.
pub fn drop_rate(total_drops: i64, total_kills: i64) -> (rate: i128)
    ensures
        rate == rate_hundredths(total_drops as int, total_kills as int),
{
    if total_kills > 0 {
        let kills: i128 = total_kills as i128;
        let scaled: i128 = total_drops as i128 * 10000;
        if scaled >= 0 {
            (2 * scaled + kills) / (2 * kills)
        } else {
            -((2 * (-scaled) + kills) / (2 * kills))
        }
    } else {
        0
    }
}

/// Where no kill is recorded the drop rate is zero, whatever dropped.
pub proof fn lemma_rate_without_kills(total_drops: int, total_kills: int)
    requires
        total_kills <= 0,
    ensures
        rate_hundredths(total_drops, total_kills) == 0,
{
}

/// An item that dropped once per kill has a drop rate of 100.00 %.
pub proof fn lemma_rate_of_every_kill(total_kills: int)
    requires
        total_kills > 0,
    ensures
        rate_hundredths(total_kills, total_kills) == 10000,
{
    assert((2 * (total_kills * 10000) + total_kills) / (2 * total_kills) == 10000)
        by (nonlinear_arith)
        requires
            total_kills > 0,
    ;
}

} // verus!
