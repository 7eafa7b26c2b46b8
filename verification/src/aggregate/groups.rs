//! Grouping of events by a key.

use crate::entities::drops;
use vstd::prelude::*;

verus! {

/// The keys that occur among the events, each once, in the order in which
/// they first occur. An event without a key belongs to no group.
pub open spec fn distinct_keys<K>(
    events: Seq<drops::ModelView>,
    key_of: spec_fn(drops::ModelView) -> Option<K>,
) -> Seq<K>
    decreases events.len(),
{
    if events.len() == 0 {
        Seq::empty()
    } else {
        let earlier = distinct_keys(events.drop_last(), key_of);
        match key_of(events.last()) {
            Some(key) => if earlier.contains(key) {
                earlier
            } else {
                earlier.push(key)
            },
            None => earlier,
        }
    }
}

/// No key is listed twice, and a key is listed exactly if an event has it.
pub proof fn lemma_distinct_keys<K>(
    events: Seq<drops::ModelView>,
    key_of: spec_fn(drops::ModelView) -> Option<K>,
)
    ensures
        distinct_keys(events, key_of).no_duplicates(),
        forall|i: int|
            0 <= i < events.len() && key_of(#[trigger] events[i]) is Some ==> distinct_keys(
                events,
                key_of,
            ).contains(key_of(events[i])->0),
        forall|key: K| #[trigger]
            distinct_keys(events, key_of).contains(key) ==> exists|i: int|
                0 <= i < events.len() && key_of(#[trigger] events[i]) == Some(key),
    decreases events.len(),
{
    if events.len() > 0 {
        let earlier = events.drop_last();
        let earlier_keys = distinct_keys(earlier, key_of);
        let keys = distinct_keys(events, key_of);
        lemma_distinct_keys(earlier, key_of);
        assert forall|i: int| 0 <= i < events.len() && key_of(#[trigger] events[i]) is Some implies keys.contains(
            key_of(events[i])->0,
        ) by {
            let key = key_of(events[i])->0;
            if i < earlier.len() {
                assert(earlier[i] == events[i]);
                let j = choose|j: int| 0 <= j < earlier_keys.len() && earlier_keys[j] == key;
                assert(keys[j] == key);
            } else if earlier_keys.contains(key) {
            } else {
                assert(keys[keys.len() - 1] == key);
            }
        }
        assert forall|key: K| #[trigger] keys.contains(key) implies exists|i: int|
            0 <= i < events.len() && key_of(#[trigger] events[i]) == Some(key) by {
            if earlier_keys.contains(key) {
                let i = choose|i: int|
                    0 <= i < earlier.len() && key_of(#[trigger] earlier[i]) == Some(key);
                assert(events[i] == earlier[i]);
            } else {
                assert(key_of(events[events.len() - 1]) == Some(key));
            }
        }
    }
}

} // verus!
