//! Schedules of the server around its stores and its container engine: how
//! often and how long apart something is tried before it is given up, and
//! how often the derived statistics are refreshed.

use vstd::prelude::*;

verus! {

/// How often a connection to the event store is attempted at most.
pub const MAX_CONNECT_ATTEMPTS: u32 = 20;

/// The pause between two attempts to connect, in seconds.
pub const CONNECT_RETRY_DELAY_SEC: u64 = 2;

/// How often the container engine is asked at most whether it runs, once it
/// was launched.
pub const MAX_ENGINE_POLLS: u32 = 12;

/// The pause before each such question, in seconds.
pub const ENGINE_POLL_DELAY_SEC: u64 = 5;

/// The time between two refreshes of the derived statistics, in seconds.
pub const REFRESH_INTERVAL_SEC: u64 = 3600;

/// What to do next under a schedule.
#[derive(Debug, Clone, Copy, PartialEq, Eq, Structural)]
pub enum Step {
    /// Wait for `delay_seconds`, then make the attempt with the number
    /// `attempt`, counted from one.
    Try { delay_seconds: u64, attempt: u32 },
    /// Stop trying; the last attempt stands.
    GiveUp,
}

/// A schedule of attempts: at most `max_attempts` of them, `delay_seconds`
/// apart. The wait also comes before the first attempt if
/// `wait_before_first` is set.
#[derive(Debug, Clone, Copy, PartialEq, Eq, Structural)]
pub struct Schedule {
    pub max_attempts: u32,
    pub delay_seconds: u64,
    pub wait_before_first: bool,
}

impl Schedule {
    /// The first step: the first attempt, unless none is allowed.
    pub open spec fn first(self) -> Step {
        if self.max_attempts == 0 {
            Step::GiveUp
        } else {
            Step::Try {
                delay_seconds: if self.wait_before_first {
                    self.delay_seconds
                } else {
                    0
                },
                attempt: 1,
            }
        }
    }

    /// The step after the attempt with the number `attempt` has failed: the
    /// next attempt after the wait, until the last allowed one has failed.
    pub open spec fn next(self, attempt: u32) -> Step {
        if attempt >= self.max_attempts {
            Step::GiveUp
        } else {
            Step::Try { delay_seconds: self.delay_seconds, attempt: (attempt + 1) as u32 }
        }
    }

    /// How many attempts are made from `step` on if each of them fails.
    pub open spec fn attempts_from(self, step: Step) -> nat
        decreases
                match step {
                    Step::Try { attempt, .. } => if attempt < self.max_attempts {
                        self.max_attempts - attempt + 1
                    } else {
                        1
                    },
                    Step::GiveUp => 0,
                },
    {
        match step {
            Step::Try { attempt, .. } => 1 + self.attempts_from(self.next(attempt)),
            Step::GiveUp => 0,
        }
    }

    /// Names the first step.
    pub fn start(&self) -> (step: Step)
        ensures
            step == self.first(),
    {
        if self.max_attempts == 0 {
            Step::GiveUp
        } else if self.wait_before_first {
            Step::Try { delay_seconds: self.delay_seconds, attempt: 1 }
        } else {
            Step::Try { delay_seconds: 0, attempt: 1 }
        }
    }

    /// Names the step after the failure of the attempt with the number
    /// `attempt`.
    pub fn after_failure(&self, attempt: u32) -> (step: Step)
        ensures
            step == self.next(attempt),
    {
        if attempt >= self.max_attempts {
            Step::GiveUp
        } else {
            Step::Try { delay_seconds: self.delay_seconds, attempt: attempt + 1 }
        }
    }
}

/// The schedule on which the server connects to the event store: the first
/// attempt at once, then one every two seconds, twenty in all.
pub open spec fn connection_schedule() -> Schedule {
    Schedule {
        max_attempts: MAX_CONNECT_ATTEMPTS,
        delay_seconds: CONNECT_RETRY_DELAY_SEC,
        wait_before_first: false,
    }
}

/// The schedule on which the server waits for a container engine that it
/// launched: a question every five seconds, the first after five seconds,
/// twelve in all.
pub open spec fn engine_poll_schedule() -> Schedule {
    Schedule {
        max_attempts: MAX_ENGINE_POLLS,
        delay_seconds: ENGINE_POLL_DELAY_SEC,
        wait_before_first: true,
    }
}

/// The schedule for connecting to the event store.
pub fn database_connection() -> (schedule: Schedule)
    ensures
        schedule == connection_schedule(),
{
    Schedule {
        max_attempts: MAX_CONNECT_ATTEMPTS,
        delay_seconds: CONNECT_RETRY_DELAY_SEC,
        wait_before_first: false,
    }
}

/// The schedule for waiting for the container engine.
pub fn engine_poll() -> (schedule: Schedule)
    ensures
        schedule == engine_poll_schedule(),
{
    Schedule {
        max_attempts: MAX_ENGINE_POLLS,
        delay_seconds: ENGINE_POLL_DELAY_SEC,
        wait_before_first: true,
    }
}

/// Decides what follows the failure of the attempt to connect with the
/// number `attempt`, counted from one.
pub fn after_failed_attempt(attempt: u32) -> (step: Step)
    ensures
        step == connection_schedule().next(attempt),
{
    database_connection().after_failure(attempt)
}

/// From an attempt within the schedule on, the attempts that are still made
/// are that one and all up to the last allowed.
pub proof fn lemma_attempts_from(schedule: Schedule, attempt: u32, delay_seconds: u64)
    requires
        1 <= attempt <= schedule.max_attempts,
    ensures
        schedule.attempts_from(Step::Try { delay_seconds, attempt }) == schedule.max_attempts
            - attempt + 1,
    decreases schedule.max_attempts - attempt,
{
    if attempt < schedule.max_attempts {
        lemma_attempts_from(schedule, (attempt + 1) as u32, schedule.delay_seconds);
    } else {
        assert(schedule.attempts_from(Step::GiveUp) == 0);
    }
}

/// When every attempt fails, exactly as many are made as the schedule
/// allows, numbered from one without a gap.
pub proof fn lemma_schedule_is_exhausted(schedule: Schedule)
    ensures
        schedule.attempts_from(schedule.first()) == schedule.max_attempts,
        forall|attempt: u32|
            1 <= attempt < schedule.max_attempts ==> #[trigger] schedule.next(attempt) == (
            Step::Try { delay_seconds: schedule.delay_seconds, attempt: (attempt + 1) as u32 }),
        forall|attempt: u32|
            attempt >= schedule.max_attempts ==> #[trigger] schedule.next(attempt) == Step::GiveUp,
{
    if schedule.max_attempts > 0 {
        lemma_attempts_from(schedule, 1, schedule.first()->delay_seconds);
    } else {
        assert(schedule.attempts_from(Step::GiveUp) == 0);
    }
}

} // verus!
