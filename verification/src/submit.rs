//! The submission protocol: what the server does with one batch, step by
//! step.
//!
//! Talking to the counter store and to the event store is left to the
//! caller. A [`Submission`] says which operation comes next and takes the
//! result back as an [`Event`], until it names the [`Outcome`] to respond
//! with.

use crate::entities::drops::{row_views, NewDrop, NewDropView};
use crate::models::{submission_views, DropSubmission, DropSubmissionView};
use crate::rate_limit::{
    check_and_increment, exceeds_limit, expire, expiry_after, increment, opens_window, over_limit,
    rate_key, rate_key_of, Counters, RATE_LIMIT_WINDOW_SEC,
};
use crate::sanitize::Sanitizer;
use crate::text::{contains, occurs_in};
use crate::validate::{accepted, lemma_accepted_in_range, validate};
use vstd::prelude::*;

verus! {

/// The marker by which the plugin identifies itself in its `User-Agent`.
pub open spec fn plugin_marker() -> Seq<char> {
    "DropLogger-Plugin"@
}

/// Whether a `User-Agent` value is that of the plugin. A request without
/// one is not.
pub open spec fn is_recognized(user_agent: Option<Seq<char>>) -> bool {
    match user_agent {
        Some(text) => occurs_in(plugin_marker(), text),
        None => false,
    }
}

/// Whether a request comes from the plugin, judged by its `User-Agent`.
pub fn client_recognized(user_agent: Option<&str>) -> (ok: bool)
    ensures
        ok == is_recognized(
            match user_agent {
                Some(text) => Some(text@),
                None => None,
            },
        ),
{
    match user_agent {
        Some(text) => contains(text, "DropLogger-Plugin"),
        None => false,
    }
}

/// How a submission ended.
#[derive(Debug, Clone, Copy, PartialEq, Eq, Structural)]
pub enum Outcome {
    /// The client did not identify itself as the plugin.
    InvalidClient,
    /// The batch held no items.
    EmptyPayload,
    /// The counter store could not be reached.
    CounterUnavailable,
    /// The counter store failed to increment.
    CounterFailed,
    /// The reporter is over the limit of the current window.
    RateLimited,
    /// Every item was filtered out; nothing was written.
    NoValidDrops,
    /// The surviving items were written. `count` is the number of rows
    /// that were inserted: the items of the batch that passed validation.
    Inserted { count: usize },
    /// The bulk insert failed; nothing was written.
    InsertFailed,
}

impl Outcome {
    /// The HTTP status that answers this outcome.
    pub open spec fn status(self) -> u16 {
        match self {
            Outcome::InvalidClient => 403,
            Outcome::EmptyPayload => 400,
            Outcome::CounterUnavailable => 500,
            Outcome::CounterFailed => 500,
            Outcome::RateLimited => 429,
            Outcome::NoValidDrops => 200,
            Outcome::Inserted { .. } => 200,
            Outcome::InsertFailed => 500,
        }
    }

    /// The HTTP status that answers this outcome.
    pub fn status_code(&self) -> (code: u16)
        ensures
            code == self.status(),
    {
        match self {
            Outcome::InvalidClient => 403,
            Outcome::EmptyPayload => 400,
            Outcome::CounterUnavailable => 500,
            Outcome::CounterFailed => 500,
            Outcome::RateLimited => 429,
            Outcome::NoValidDrops => 200,
            Outcome::Inserted { .. } => 200,
            Outcome::InsertFailed => 500,
        }
    }

    /// Whether the request was served: the batch was taken, even if no item
    /// of it was kept.
    pub fn is_success(&self) -> (ok: bool)
        ensures
            ok == (self.status() == 200),
    {
        match self {
            Outcome::NoValidDrops => true,
            Outcome::Inserted { .. } => true,
            _ => false,
        }
    }
}

/// The classes of failure that end a submission.
#[derive(Debug, Clone, Copy, PartialEq, Eq, Structural)]
pub enum Failure {
    /// The client marker is missing or wrong. Not a fault of the server.
    AuthRejection,
    /// The batch is empty.
    ValidationRejection,
    /// The reporter is over the limit; the client may try again once the
    /// window has passed.
    RateLimitExceeded,
    /// The counter store could not be reached or failed. Nothing is retried
    /// within the request.
    TransientStoreError,
    /// The bulk insert failed; the whole batch counts as failed.
    PersistenceFailure,
}

impl Outcome {
    /// The class of failure of this outcome, if it is one.
    pub open spec fn failure_of(self) -> Option<Failure> {
        match self {
            Outcome::InvalidClient => Some(Failure::AuthRejection),
            Outcome::EmptyPayload => Some(Failure::ValidationRejection),
            Outcome::CounterUnavailable => Some(Failure::TransientStoreError),
            Outcome::CounterFailed => Some(Failure::TransientStoreError),
            Outcome::RateLimited => Some(Failure::RateLimitExceeded),
            Outcome::NoValidDrops => None,
            Outcome::Inserted { .. } => None,
            Outcome::InsertFailed => Some(Failure::PersistenceFailure),
        }
    }

    /// The class of failure of this outcome, if it is one.
    pub fn failure(&self) -> (class: Option<Failure>)
        ensures
            class == self.failure_of(),
    {
        match self {
            Outcome::InvalidClient => Some(Failure::AuthRejection),
            Outcome::EmptyPayload => Some(Failure::ValidationRejection),
            Outcome::CounterUnavailable => Some(Failure::TransientStoreError),
            Outcome::CounterFailed => Some(Failure::TransientStoreError),
            Outcome::RateLimited => Some(Failure::RateLimitExceeded),
            Outcome::NoValidDrops => None,
            Outcome::Inserted { .. } => None,
            Outcome::InsertFailed => Some(Failure::PersistenceFailure),
        }
    }
}

/// An outcome is a failure exactly if its status is not 200, and a failure
/// of a store exactly if its status is 500.
pub proof fn lemma_failures_by_status(outcome: Outcome)
    ensures
        outcome.failure_of() is None <==> outcome.status() == 200,
        outcome.status() == 500 <==> outcome.failure_of() == Some(Failure::TransientStoreError)
            || outcome.failure_of() == Some(Failure::PersistenceFailure),
{
}

/// What the response to an outcome carries.
#[derive(Debug, Clone, Copy, PartialEq, Eq)]
pub enum Body {
    /// A JSON object with the one member `error`.
    Error { error: &'static str },
    /// A JSON object with the one member `status`.
    Status { status: &'static str },
    /// A JSON object with the members `success`, which is `true`, and
    /// `count`.
    Accepted { count: usize },
    /// Plain text.
    Text { text: &'static str },
}

/// What a [`Body`] holds, as mathematical values.
pub enum BodyView {
    Error { error: Seq<char> },
    Status { status: Seq<char> },
    Accepted { count: usize },
    Text { text: Seq<char> },
}

impl View for Body {
    type V = BodyView;

    open spec fn view(&self) -> BodyView {
        match self {
            Body::Error { error } => BodyView::Error { error: error@ },
            Body::Status { status } => BodyView::Status { status: status@ },
            Body::Accepted { count } => BodyView::Accepted { count: *count },
            Body::Text { text } => BodyView::Text { text: text@ },
        }
    }
}

impl Outcome {
    /// The body that answers this outcome.
    pub open spec fn body_of(self) -> BodyView {
        match self {
            Outcome::InvalidClient => BodyView::Error { error: "Invalid Client"@ },
            Outcome::EmptyPayload => BodyView::Error { error: "Empty payload"@ },
            Outcome::CounterUnavailable => BodyView::Text { text: "Internal error"@ },
            Outcome::CounterFailed => BodyView::Text { text: "Redis error"@ },
            Outcome::RateLimited => BodyView::Text { text: "Too many requests"@ },
            Outcome::NoValidDrops => BodyView::Status { status: "No valid drops"@ },
            Outcome::Inserted { count } => BodyView::Accepted { count },
            Outcome::InsertFailed => BodyView::Text { text: "Database error"@ },
        }
    }

    /// The body that answers this outcome.
    pub fn body(&self) -> (body: Body)
        ensures
            body@ == self.body_of(),
    {
        match self {
            Outcome::InvalidClient => Body::Error { error: "Invalid Client" },
            Outcome::EmptyPayload => Body::Error { error: "Empty payload" },
            Outcome::CounterUnavailable => Body::Text { text: "Internal error" },
            Outcome::CounterFailed => Body::Text { text: "Redis error" },
            Outcome::RateLimited => Body::Text { text: "Too many requests" },
            Outcome::NoValidDrops => Body::Status { status: "No valid drops" },
            Outcome::Inserted { count } => Body::Accepted { count: *count },
            Outcome::InsertFailed => Body::Text { text: "Database error" },
        }
    }
}

/// What the caller has to do next.
#[derive(Debug, Clone, PartialEq, Eq)]
pub enum Action {
    /// Increment the counter under `key` by one and report the new count.
    Increment { key: String },
    /// Let the counter under `key` lapse in `seconds`, and report back
    /// whether or not that worked.
    Expire { key: String, seconds: u64 },
    /// Insert all of `rows` in one operation.
    Insert { rows: Vec<NewDrop> },
    /// Answer the request; the submission is over.
    Respond { outcome: Outcome },
}

/// What an [`Action`] holds, as mathematical values.
pub enum ActionView {
    Increment { key: Seq<char> },
    Expire { key: Seq<char>, seconds: u64 },
    Insert { rows: Seq<NewDropView> },
    Respond { outcome: Outcome },
}

impl View for Action {
    type V = ActionView;

    open spec fn view(&self) -> ActionView {
        match self {
            Action::Increment { key } => ActionView::Increment { key: key@ },
            Action::Expire { key, seconds } => ActionView::Expire { key: key@, seconds: *seconds },
            Action::Insert { rows } => ActionView::Insert { rows: row_views(rows@) },
            Action::Respond { outcome } => ActionView::Respond { outcome: *outcome },
        }
    }
}

impl ActionView {
    /// Whether the action reaches for the counter store or the event store.
    pub open spec fn touches_store(self) -> bool {
        !(self is Respond)
    }
}

/// What came back from the operation that the last action asked for.
#[derive(Debug, Clone, Copy, PartialEq, Eq, Structural)]
pub enum Event {
    /// No connection to the counter store could be had.
    CounterUnreachable,
    /// The increment failed.
    IncrementFailed,
    /// The increment gave `count`.
    Incremented { count: i32 },
    /// The expiry was attempted. Whether it worked is not looked at.
    ExpirySettled,
    /// The rows were inserted.
    Stored,
    /// The insert failed as a whole.
    StoreFailed,
}

/// Where a submission stands.
#[derive(Debug, Clone, Copy, PartialEq, Eq, Structural)]
pub enum Phase {
    /// The increment was asked for.
    AwaitingCount,
    /// The expiry was asked for, after the first request of a window.
    AwaitingExpiry,
    /// The insert was asked for.
    AwaitingStore,
    /// The response was named; nothing follows.
    Done,
}

/// A submission as mathematical values: the batch and the phase.
pub struct SubmissionView {
    pub batch: Seq<DropSubmissionView>,
    pub phase: Phase,
}

/// What follows once the count of the request is known and any expiry is
/// settled: the request is turned away if it is over the limit; else the
/// batch is validated, and written unless nothing is left of it.
pub open spec fn settle(batch: Seq<DropSubmissionView>, count: int) -> (Phase, ActionView) {
    if over_limit(count) {
        (Phase::Done, ActionView::Respond { outcome: Outcome::RateLimited })
    } else if accepted(batch).len() == 0 {
        (Phase::Done, ActionView::Respond { outcome: Outcome::NoValidDrops })
    } else {
        (Phase::AwaitingStore, ActionView::Insert { rows: accepted(batch) })
    }
}

/// The first step: a client that is not recognized is turned away, then an
/// empty batch; for any other the counter of the first item's reporter is
/// incremented.
pub open spec fn first_step(user_agent: Option<Seq<char>>, batch: Seq<DropSubmissionView>) -> (
    Phase,
    ActionView,
) {
    if !is_recognized(user_agent) {
        (Phase::Done, ActionView::Respond { outcome: Outcome::InvalidClient })
    } else if batch.len() == 0 {
        (Phase::Done, ActionView::Respond { outcome: Outcome::EmptyPayload })
    } else {
        (Phase::AwaitingCount, ActionView::Increment { key: rate_key_of(batch[0].user_hash) })
    }
}

/// The step that an event causes: the next phase and the action, or
/// nothing where the phase does not expect the event.
pub open spec fn next_step(s: SubmissionView, event: Event) -> Option<(Phase, ActionView)> {
    match (s.phase, event) {
        (Phase::AwaitingCount, Event::CounterUnreachable) => Some(
            (Phase::Done, ActionView::Respond { outcome: Outcome::CounterUnavailable }),
        ),
        (Phase::AwaitingCount, Event::IncrementFailed) => Some(
            (Phase::Done, ActionView::Respond { outcome: Outcome::CounterFailed }),
        ),
        (Phase::AwaitingCount, Event::Incremented { count }) => if opens_window(count as int) {
            Some(
                (
                    Phase::AwaitingExpiry,
                    ActionView::Expire {
                        key: rate_key_of(s.batch[0].user_hash),
                        seconds: RATE_LIMIT_WINDOW_SEC,
                    },
                ),
            )
        } else {
            Some(settle(s.batch, count as int))
        },
        (Phase::AwaitingExpiry, Event::ExpirySettled) => Some(settle(s.batch, 1)),
        (Phase::AwaitingStore, Event::Stored) => Some(
            (
                Phase::Done,
                ActionView::Respond {
                    outcome: Outcome::Inserted { count: accepted(s.batch).len() as usize },
                },
            ),
        ),
        (Phase::AwaitingStore, Event::StoreFailed) => Some(
            (Phase::Done, ActionView::Respond { outcome: Outcome::InsertFailed }),
        ),
        _ => None,
    }
}

/// One batch on its way through the server.
pub struct Submission {
    batch: Vec<DropSubmission>,
    phase: Phase,
    /// How many rows were handed out to be inserted.
    handed_out: usize,
}

impl View for Submission {
    type V = SubmissionView;

    closed spec fn view(&self) -> SubmissionView {
        SubmissionView { batch: submission_views(self.batch@), phase: self.phase }
    }
}

impl Submission {
    /// As long as the response is not named, the batch holds an item; while
    /// the insert is awaited, the number of rows handed out is on record.
    #[verifier::type_invariant]
    spec fn well_formed(&self) -> bool {
        &&& self.phase != Phase::Done ==> self.batch@.len() > 0
        &&& self.phase == Phase::AwaitingStore ==> self.handed_out == accepted(
            submission_views(self.batch@),
        ).len()
    }

    /// Takes a batch in and names the first action.
    pub fn begin(user_agent: Option<&str>, batch: Vec<DropSubmission>) -> (r: (Submission, Action))
        ensures
            r.0@.batch == submission_views(batch@),
            (r.0@.phase, r.1@) == first_step(
                match user_agent {
                    Some(text) => Some(text@),
                    None => None,
                },
                submission_views(batch@),
            ),
    {
        if !client_recognized(user_agent) {
            let action = Action::Respond { outcome: Outcome::InvalidClient };
            (Submission { batch, phase: Phase::Done, handed_out: 0 }, action)
        } else if batch.len() == 0 {
            let action = Action::Respond { outcome: Outcome::EmptyPayload };
            (Submission { batch, phase: Phase::Done, handed_out: 0 }, action)
        } else {
            let key = rate_key(batch[0].user_hash.as_str());
            (Submission { batch, phase: Phase::AwaitingCount, handed_out: 0 }, Action::Increment { key })
        }
    }

    /// Where the submission stands.
    pub fn phase(&self) -> (phase: Phase)
        ensures
            phase == self@.phase,
    {
        self.phase
    }

    /// Whether the response was named.
    pub fn is_done(&self) -> (done: bool)
        ensures
            done == (self@.phase == Phase::Done),
    {
        match self.phase {
            Phase::Done => true,
            _ => false,
        }
    }

    /// How many items were submitted.
    pub fn len(&self) -> (n: usize)
        ensures
            n == self@.batch.len(),
    {
        self.batch.len()
    }

    /// Decides what follows once the count is known and any expiry is
    /// settled.
    fn settle(&mut self, count: i32, sanitizer: &Sanitizer) -> (action: Action)
        requires
            old(self).batch@.len() > 0,
        ensures
            final(self)@.batch == old(self)@.batch,
            (final(self)@.phase, action@) == settle(old(self)@.batch, count as int),
            final(self).well_formed(),
    {
        if exceeds_limit(count) {
            self.phase = Phase::Done;
            Action::Respond { outcome: Outcome::RateLimited }
        } else {
            let rows = validate(&self.batch, sanitizer);
            if rows.len() == 0 {
                self.phase = Phase::Done;
                Action::Respond { outcome: Outcome::NoValidDrops }
            } else {
                assert(row_views(rows@).len() == rows@.len());
                self.handed_out = rows.len();
                self.phase = Phase::AwaitingStore;
                Action::Insert { rows }
            }
        }
    }

    /// Takes the result of the last action in and names the next one. An
    /// event that the phase does not expect changes nothing and gives
    /// `None`.
    pub fn advance(&mut self, event: Event, sanitizer: &Sanitizer) -> (action: Option<Action>)
        ensures
            final(self)@.batch == old(self)@.batch,
            match next_step(old(self)@, event) {
                Some((phase, expected)) => final(self)@.phase == phase && action is Some
                    && action->0@ == expected,
                None => final(self)@.phase == old(self)@.phase && action is None,
            },
    {
        proof {
            use_type_invariant(&*self);
        }
        match (self.phase, event) {
            (Phase::AwaitingCount, Event::CounterUnreachable) => {
                self.phase = Phase::Done;
                Some(Action::Respond { outcome: Outcome::CounterUnavailable })
            },
            (Phase::AwaitingCount, Event::IncrementFailed) => {
                self.phase = Phase::Done;
                Some(Action::Respond { outcome: Outcome::CounterFailed })
            },
            (Phase::AwaitingCount, Event::Incremented { count }) => {
                match expiry_after(count) {
                    Some(seconds) => {
                        let key = rate_key(self.batch[0].user_hash.as_str());
                        self.phase = Phase::AwaitingExpiry;
                        Some(Action::Expire { key, seconds })
                    },
                    None => Some(self.settle(count, sanitizer)),
                }
            },
            (Phase::AwaitingExpiry, Event::ExpirySettled) => Some(self.settle(1, sanitizer)),
            (Phase::AwaitingStore, Event::Stored) => {
                self.phase = Phase::Done;
                Some(Action::Respond { outcome: Outcome::Inserted { count: self.handed_out } })
            },
            (Phase::AwaitingStore, Event::StoreFailed) => {
                self.phase = Phase::Done;
                Some(Action::Respond { outcome: Outcome::InsertFailed })
            },
            _ => None,
        }
    }
}

/// The actions that a submission names while `events` arrive in order.
/// Events that the phase of the moment does not expect are passed over.
pub open spec fn actions_after(s: SubmissionView, events: Seq<Event>) -> Seq<ActionView>
    decreases events.len(),
{
    if events.len() == 0 {
        Seq::empty()
    } else {
        match next_step(s, events.first()) {
            Some((phase, action)) => seq![action] + actions_after(
                SubmissionView { batch: s.batch, phase },
                events.drop_first(),
            ),
            None => actions_after(s, events.drop_first()),
        }
    }
}

/// Once the response is named, no event brings a further action.
pub proof fn lemma_done_is_final(s: SubmissionView, events: Seq<Event>)
    requires
        s.phase == Phase::Done,
    ensures
        actions_after(s, events) == Seq::<ActionView>::empty(),
    decreases events.len(),
{
    if events.len() > 0 {
        lemma_done_is_final(s, events.drop_first());
    }
}

/// A client that is not recognized is turned away with the first action,
/// and whatever happens afterwards, neither store is ever reached for.
pub proof fn lemma_unrecognized_client_reaches_no_store(
    user_agent: Option<Seq<char>>,
    batch: Seq<DropSubmissionView>,
    events: Seq<Event>,
)
    requires
        !is_recognized(user_agent),
    ensures
        first_step(user_agent, batch).1 == (ActionView::Respond {
            outcome: Outcome::InvalidClient,
        }),
        !first_step(user_agent, batch).1.touches_store(),
        actions_after(
            SubmissionView { batch, phase: first_step(user_agent, batch).0 },
            events,
        ).len() == 0,
{
    lemma_done_is_final(SubmissionView { batch, phase: Phase::Done }, events);
}

/// An empty batch from the plugin is turned away with the first action,
/// and whatever happens afterwards, neither store is ever reached for.
pub proof fn lemma_empty_batch_reaches_no_store(
    user_agent: Option<Seq<char>>,
    batch: Seq<DropSubmissionView>,
    events: Seq<Event>,
)
    requires
        is_recognized(user_agent),
        batch.len() == 0,
    ensures
        first_step(user_agent, batch).1 == (ActionView::Respond {
            outcome: Outcome::EmptyPayload,
        }),
        !first_step(user_agent, batch).1.touches_store(),
        actions_after(
            SubmissionView { batch, phase: first_step(user_agent, batch).0 },
            events,
        ).len() == 0,
{
    lemma_done_is_final(SubmissionView { batch, phase: Phase::Done }, events);
}

/// A batch costs one increment, whatever its size: after the first action
/// no increment is asked for again.
pub proof fn lemma_one_increment_per_batch(s: SubmissionView, events: Seq<Event>)
    ensures
        forall|i: int|
            0 <= i < actions_after(s, events).len() ==> !(#[trigger] actions_after(s, events)[i]
                is Increment),
    decreases events.len(),
{
    if events.len() > 0 {
        match next_step(s, events.first()) {
            Some((phase, action)) => {
                lemma_one_increment_per_batch(
                    SubmissionView { batch: s.batch, phase },
                    events.drop_first(),
                );
            },
            None => {
                lemma_one_increment_per_batch(s, events.drop_first());
            },
        }
    }
}

/// Only rows that passed validation are ever handed to the event store,
/// and never an empty list of them.
pub proof fn lemma_only_accepted_rows_are_written(s: SubmissionView, event: Event)
    ensures
        next_step(s, event) matches Some((_, ActionView::Insert { rows })) ==> rows == accepted(
            s.batch,
        ) && rows.len() > 0,
{
}

/// The count that is reported after a write is the number of rows that
/// were handed to the event store, which is never more than were submitted.
pub proof fn lemma_count_is_what_was_written(s: SubmissionView)
    requires
        s.phase == Phase::AwaitingStore,
    ensures
        next_step(s, Event::Stored) == Some(
            (
                Phase::Done,
                ActionView::Respond {
                    outcome: Outcome::Inserted { count: accepted(s.batch).len() as usize },
                },
            ),
        ),
        accepted(s.batch).len() <= s.batch.len(),
{
    lemma_accepted_in_range(s.batch);
}

/// A request over the limit ends at once: the response is named and
/// nothing is written.
pub proof fn lemma_over_limit_is_turned_away(s: SubmissionView, count: i32)
    requires
        s.phase == Phase::AwaitingCount,
        over_limit(count as int),
    ensures
        next_step(s, Event::Incremented { count }) == Some(
            (Phase::Done, ActionView::Respond { outcome: Outcome::RateLimited }),
        ),
{
}

/// A failure of either store ends the submission with a server error.
pub proof fn lemma_store_failures_are_server_errors(s: SubmissionView, event: Event)
    requires
        event == Event::CounterUnreachable || event == Event::IncrementFailed || event
            == Event::StoreFailed,
    ensures
        next_step(s, event) matches Some((phase, action)) ==> phase == Phase::Done && (
        action matches ActionView::Respond { outcome } && outcome.status() == 500),
{
}

/// The counters after the store has answered what a request of the plugin
/// asks of it at the moment `now`: the increment, and the expiry if the
/// count that came back makes the server ask for one.
pub open spec fn counters_after_request(
    store: Counters,
    batch: Seq<DropSubmissionView>,
    now: int,
) -> Counters
    recommends
        batch.len() > 0,
{
    let key = rate_key_of(batch[0].user_hash);
    let (incremented, count) = increment(store, key, now);
    let waiting = SubmissionView { batch, phase: Phase::AwaitingCount };
    match next_step(waiting, Event::Incremented { count: count as i32 }) {
        Some((_, ActionView::Expire { key, seconds })) => expire(
            incremented,
            key,
            now,
            seconds as int,
        ),
        _ => incremented,
    }
}

/// A request of the plugin with a batch that is not empty does to the
/// counters what one request of the first item's reporter does in the
/// model of the store, whatever else the batch holds.
pub proof fn lemma_request_counts_once_for_first_reporter(
    store: Counters,
    user_agent: Option<Seq<char>>,
    batch: Seq<DropSubmissionView>,
    now: int,
)
    requires
        is_recognized(user_agent),
        batch.len() > 0,
        i32::MIN <= increment(store, rate_key_of(batch[0].user_hash), now).1 <= i32::MAX,
    ensures
        first_step(user_agent, batch).1 == (ActionView::Increment {
            key: rate_key_of(batch[0].user_hash),
        }),
        counters_after_request(store, batch, now) == check_and_increment(
            store,
            batch[0].user_hash,
            now,
        ).0,
{
}

} // verus!
