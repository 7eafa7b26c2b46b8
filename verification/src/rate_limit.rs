//! Fixed-window rate limiting per reporter.
//!
//! The counters live in an outside store that offers an atomic increment
//! and an expiry. This module holds what the server decides around those
//! two operations, a model of the store, and the laws of the two together.

use vstd::prelude::*;
use vstd::string::StringExecFns;

verus! {

/// The most requests one reporter may make within a window.
pub const MAX_REQUESTS_PER_USER: i32 = 100;

/// The length of a window, in seconds.
pub const RATE_LIMIT_WINDOW_SEC: u64 = 60;

/// The key under which the counter of a reporter is kept.
pub open spec fn rate_key_of(identity: Seq<char>) -> Seq<char> {
    "rate_limit:"@ + identity
}

/// Whether a count is that of the first request of a window, after which
/// the expiry has to be attached.
pub open spec fn opens_window(count: int) -> bool {
    count == 1
}

/// Whether a count is beyond what a window allows.
pub open spec fn over_limit(count: int) -> bool {
    count > MAX_REQUESTS_PER_USER
}

/// Builds the counter key of a reporter.
pub fn rate_key(identity: &str) -> (key: String)
    ensures
        key@ == rate_key_of(identity@),
{
    let mut key = String::from_str("rate_limit:");
    key.append(identity);
    key
}

/// The expiry to attach after an increment returned `count`: the window
/// length after the first increment of a window, nothing after any other.
pub fn expiry_after(count: i32) -> (seconds: Option<u64>)
    ensures
        seconds == (if opens_window(count as int) {
            Some(RATE_LIMIT_WINDOW_SEC)
        } else {
            None
        }),
{
    if count == 1 {
        Some(RATE_LIMIT_WINDOW_SEC)
    } else {
        None
    }
}

/// Whether the request that got `count` back has to be turned away.
pub fn exceeds_limit(count: i32) -> (over: bool)
    ensures
        over == over_limit(count as int),
{
    count > MAX_REQUESTS_PER_USER
}

/// One counter of the store: how often it was incremented since it was
/// created, and the moment at which it lapses, if an expiry was attached.
pub struct RateCounter {
    pub count: int,
    pub expires_at: Option<int>,
}

/// The counters of the store, by key.
pub type Counters = Map<Seq<char>, RateCounter>;

/// Whether a counter exists under `key` at the moment `now`.
pub open spec fn is_live(store: Counters, key: Seq<char>, now: int) -> bool {
    store.contains_key(key) && match store[key].expires_at {
        Some(deadline) => now < deadline,
        None => true,
    }
}

/// The store's increment: a live counter goes up by one and keeps its
/// expiry; otherwise a counter is created at one, without expiry. Gives the
/// store afterwards and the new count.
pub open spec fn increment(store: Counters, key: Seq<char>, now: int) -> (Counters, int) {
    if is_live(store, key, now) {
        let counter = RateCounter { count: store[key].count + 1, expires_at: store[key].expires_at };
        (store.insert(key, counter), counter.count)
    } else {
        (store.insert(key, RateCounter { count: 1, expires_at: None }), 1)
    }
}

/// The store's expiry: a live counter lapses `seconds` after `now`; a
/// missing one stays missing.
pub open spec fn expire(store: Counters, key: Seq<char>, now: int, seconds: int) -> Counters {
    if is_live(store, key, now) {
        store.insert(key, RateCounter { count: store[key].count, expires_at: Some(now + seconds) })
    } else {
        store
    }
}

/// One request of a reporter at the moment `now`: the counter is
/// incremented, and the expiry attached if the server asks for it. Gives the
/// store afterwards and the count that the request got back.
pub open spec fn check_and_increment(store: Counters, identity: Seq<char>, now: int) -> (
    Counters,
    int,
) {
    let key = rate_key_of(identity);
    let (incremented, count) = increment(store, key, now);
    if opens_window(count) {
        (expire(incremented, key, now, RATE_LIMIT_WINDOW_SEC as int), count)
    } else {
        (incremented, count)
    }
}

/// The store after requests of one reporter at the moments `times`, in
/// order.
pub open spec fn store_after(store: Counters, identity: Seq<char>, times: Seq<int>) -> Counters
    decreases times.len(),
{
    if times.len() == 0 {
        store
    } else {
        check_and_increment(store_after(store, identity, times.drop_last()), identity, times.last()).0
    }
}

/// The count that the last of the requests at `times` got back.
pub open spec fn last_count(store: Counters, identity: Seq<char>, times: Seq<int>) -> int
    recommends
        times.len() > 0,
{
    check_and_increment(store_after(store, identity, times.drop_last()), identity, times.last()).1
}

/// Whether every moment of `times` lies in the window that opens at the
/// first of them.
pub open spec fn within_one_window(times: Seq<int>) -> bool {
    forall|i: int|
        0 <= i < times.len() ==> times[0] <= #[trigger] times[i] < times[0]
            + RATE_LIMIT_WINDOW_SEC as int
}

/// The first request of a window gets the count one, and its counter
/// lapses one window length later.
pub proof fn lemma_first_request_opens_window(store: Counters, identity: Seq<char>, now: int)
    requires
        !is_live(store, rate_key_of(identity), now),
    ensures
        check_and_increment(store, identity, now).1 == 1,
        check_and_increment(store, identity, now).0[rate_key_of(identity)] == (RateCounter {
            count: 1,
            expires_at: Some(now + RATE_LIMIT_WINDOW_SEC as int),
        }),
        check_and_increment(store, identity, now).0.contains_key(rate_key_of(identity)),
{
}

/// A later request of a window gets the next count and leaves the expiry
/// as it was.
pub proof fn lemma_later_request_keeps_expiry(store: Counters, identity: Seq<char>, now: int)
    requires
        is_live(store, rate_key_of(identity), now),
        store[rate_key_of(identity)].count >= 1,
    ensures
        check_and_increment(store, identity, now).1 == store[rate_key_of(identity)].count + 1,
        check_and_increment(store, identity, now).0[rate_key_of(identity)] == (RateCounter {
            count: store[rate_key_of(identity)].count + 1,
            expires_at: store[rate_key_of(identity)].expires_at,
        }),
        check_and_increment(store, identity, now).0.contains_key(rate_key_of(identity)),
{
}

/// A request touches no counter but that of its reporter.
pub proof fn lemma_other_counters_untouched(
    store: Counters,
    identity: Seq<char>,
    now: int,
    other: Seq<char>,
)
    requires
        other != rate_key_of(identity),
    ensures
        check_and_increment(store, identity, now).0.contains_key(other) == store.contains_key(
            other,
        ),
        check_and_increment(store, identity, now).0[other] == store[other],
{
}

/// Within one window the Nth request of a reporter gets exactly N back,
/// and the expiry that the first request attached is never moved.
pub proof fn lemma_nth_request_counts_n(store: Counters, identity: Seq<char>, times: Seq<int>)
    requires
        times.len() > 0,
        !is_live(store, rate_key_of(identity), times[0]),
        within_one_window(times),
    ensures
        last_count(store, identity, times) == times.len(),
        store_after(store, identity, times).contains_key(rate_key_of(identity)),
        store_after(store, identity, times)[rate_key_of(identity)] == (RateCounter {
            count: times.len() as int,
            expires_at: Some(times[0] + RATE_LIMIT_WINDOW_SEC as int),
        }),
    decreases times.len(),
{
    let key = rate_key_of(identity);
    let earlier = times.drop_last();
    if earlier.len() == 0 {
        assert(store_after(store, identity, earlier) == store);
        assert(times.last() == times[0]);
        lemma_first_request_opens_window(store, identity, times[0]);
    } else {
        assert(earlier[0] == times[0]);
        assert forall|i: int| 0 <= i < earlier.len() implies times[0] <= #[trigger] earlier[i]
            < times[0] + RATE_LIMIT_WINDOW_SEC as int by {
            assert(earlier[i] == times[i]);
        }
        lemma_nth_request_counts_n(store, identity, earlier);
        let before = store_after(store, identity, earlier);
        assert(times.last() == times[times.len() - 1]);
        assert(is_live(before, key, times.last()));
        lemma_later_request_keeps_expiry(before, identity, times.last());
    }
}

/// The request that brings a window to the limit is still let through; the
/// one after it is turned away.
pub proof fn lemma_limit_is_inclusive(store: Counters, identity: Seq<char>, times: Seq<int>)
    requires
        times.len() > 0,
        !is_live(store, rate_key_of(identity), times[0]),
        within_one_window(times),
    ensures
        over_limit(last_count(store, identity, times)) <==> times.len() > MAX_REQUESTS_PER_USER,
{
    lemma_nth_request_counts_n(store, identity, times);
}

} // verus!
