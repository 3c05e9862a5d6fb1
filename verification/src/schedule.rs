//! When accumulated pending work closes.
use crate::clock::Timestamp;
use vstd::prelude::*;
use vstd::string::*;

verus! {

/// Nanoseconds in one second.
pub const SECOND: i128 = 1_000_000_000;

/// Time thresholds that decide when accumulated pending work closes, in nanoseconds.
#[derive(Clone, Copy, Debug, PartialEq, Eq, Structural)]
pub struct BatchSchedule {
    debounce: i128,
    maximum_age: i128,
}

/// Threshold responsible for closing one Worker batch.
#[derive(Clone, Copy, Debug, PartialEq, Eq, Structural)]
pub enum BatchCloseReason {
    /// At least one pending entry has invalid acceptance metadata.
    InvalidAcceptance,
    /// The configured request-count limit was reached.
    MaximumRequests,
    /// The oldest pending request reached its maximum wait.
    MaximumAge,
    /// No request arrived during the configured inactivity interval.
    Debounce,
}

/// Invalid Worker batch scheduling configuration.
#[derive(Clone, Copy, Debug, PartialEq, Eq, Structural)]
pub enum BatchScheduleError {
    /// The debounce interval was zero or negative.
    InvalidDebounce,
    /// The maximum batch age was zero or negative.
    InvalidMaximumAge,
}

impl BatchScheduleError {
    /// What the failure is reported as.
    pub fn message(&self) -> (text: String)
        ensures
            text@ == match *self {
                BatchScheduleError::InvalidDebounce =>
                    "batch debounce interval must be greater than zero"@,
                BatchScheduleError::InvalidMaximumAge =>
                    "maximum batch age must be greater than zero"@,
            },
    {
        match self {
            BatchScheduleError::InvalidDebounce =>
                "batch debounce interval must be greater than zero".to_owned(),
            BatchScheduleError::InvalidMaximumAge =>
                "maximum batch age must be greater than zero".to_owned(),
        }
    }
}

/// Current decision for one fixed pending snapshot.
#[derive(Clone, Copy, Debug, PartialEq, Eq, Structural)]
pub enum BatchReadiness {
    /// No pending requests were observed.
    Empty,
    /// The snapshot remains open until the earlier time threshold.
    Waiting {
        /// Earliest time at which the same snapshot becomes ready.
        ready_at: Timestamp,
    },
    /// The snapshot must close now.
    Ready {
        /// Threshold responsible for closing the batch.
        reason: BatchCloseReason,
    },
}

/// One fixed view of the pending requests.
#[derive(Clone, Copy, Debug, PartialEq, Eq, Structural)]
pub struct PendingSnapshot {
    /// The number of requests.
    pub requests: usize,
    /// Whether a request has invalid acceptance metadata.
    pub has_invalid_acceptance: bool,
    /// When the oldest was accepted.
    pub oldest_accepted_at: Option<Timestamp>,
    /// When the newest was accepted.
    pub newest_accepted_at: Option<Timestamp>,
    /// The last acceptance number.
    pub maximum_sequence: u64,
}

/// The decision for a snapshot: requests close at once if they cannot be dated or are too many,
/// and otherwise when the oldest has waited long enough or none has come for long enough.
pub open spec fn decided(
    snapshot: PendingSnapshot,
    maximum_requests: usize,
    debounce: int,
    maximum_age: int,
    now: Timestamp,
) -> BatchReadiness {
    if snapshot.requests == 0 {
        BatchReadiness::Empty
    } else if snapshot.has_invalid_acceptance {
        BatchReadiness::Ready { reason: BatchCloseReason::InvalidAcceptance }
    } else if snapshot.requests >= maximum_requests {
        BatchReadiness::Ready { reason: BatchCloseReason::MaximumRequests }
    } else {
        match (snapshot.oldest_accepted_at, snapshot.newest_accepted_at) {
            (Some(oldest), Some(newest)) => {
                let maximum_age_at = oldest.held_plus(maximum_age);
                let debounce_at = newest.held_plus(debounce);
                if now.instant() >= maximum_age_at.instant() {
                    BatchReadiness::Ready { reason: BatchCloseReason::MaximumAge }
                } else if now.instant() >= debounce_at.instant() {
                    BatchReadiness::Ready { reason: BatchCloseReason::Debounce }
                } else {
                    BatchReadiness::Waiting {
                        ready_at: if debounce_at.instant() < maximum_age_at.instant() {
                            debounce_at
                        } else {
                            maximum_age_at
                        },
                    }
                }
            },
            _ => BatchReadiness::Ready { reason: BatchCloseReason::InvalidAcceptance },
        }
    }
}

impl BatchSchedule {
    /// The inactivity interval that closes a nonempty batch.
    pub closed spec fn spec_debounce(self) -> int {
        self.debounce as int
    }

    /// The maximum time the oldest pending request may wait.
    pub closed spec fn spec_maximum_age(self) -> int {
        self.maximum_age as int
    }

    #[verifier::type_invariant]
    spec fn is_positive(self) -> bool {
        self.debounce > 0 && self.maximum_age > 0
    }

    /// Creates a schedule from strictly positive time thresholds.
    pub fn new(debounce: i128, maximum_age: i128) -> (result: Result<Self, BatchScheduleError>)
        ensures
            match result {
                Ok(schedule) => debounce > 0 && maximum_age > 0 && schedule.spec_debounce()
                    == debounce && schedule.spec_maximum_age() == maximum_age,
                Err(BatchScheduleError::InvalidDebounce) => debounce <= 0,
                Err(BatchScheduleError::InvalidMaximumAge) => debounce > 0 && maximum_age <= 0,
            },
    {
        if debounce <= 0 {
            return Err(BatchScheduleError::InvalidDebounce);
        }
        if maximum_age <= 0 {
            return Err(BatchScheduleError::InvalidMaximumAge);
        }
        Ok(BatchSchedule { debounce, maximum_age })
    }

    /// Returns the inactivity interval that closes a nonempty batch.
    pub fn debounce(self) -> (result: i128)
        ensures
            result == self.spec_debounce(),
            result > 0,
    {
        proof {
            use_type_invariant(&self);
        }
        self.debounce
    }

    /// Returns the maximum time the oldest pending request may wait.
    pub fn maximum_age(self) -> (result: i128)
        ensures
            result == self.spec_maximum_age(),
            result > 0,
    {
        proof {
            use_type_invariant(&self);
        }
        self.maximum_age
    }

    /// Evaluates one fixed pending snapshot at a caller-supplied time.
    pub fn readiness(self, snapshot: PendingSnapshot, maximum_requests: usize, now: Timestamp) -> (result:
        BatchReadiness)
        ensures
            result == decided(
                snapshot,
                maximum_requests,
                self.spec_debounce(),
                self.spec_maximum_age(),
                now,
            ),
    {
        if snapshot.requests == 0 {
            return BatchReadiness::Empty;
        }
        if snapshot.has_invalid_acceptance {
            return BatchReadiness::Ready { reason: BatchCloseReason::InvalidAcceptance };
        }
        if snapshot.requests >= maximum_requests {
            return BatchReadiness::Ready { reason: BatchCloseReason::MaximumRequests };
        }
        let oldest = match snapshot.oldest_accepted_at {
            Some(oldest) => oldest,
            None => {
                return BatchReadiness::Ready { reason: BatchCloseReason::InvalidAcceptance };
            },
        };
        let newest = match snapshot.newest_accepted_at {
            Some(newest) => newest,
            None => {
                return BatchReadiness::Ready { reason: BatchCloseReason::InvalidAcceptance };
            },
        };
        let maximum_age_at = oldest.saturating_add(self.maximum_age);
        if !maximum_age_at.after(&now) {
            return BatchReadiness::Ready { reason: BatchCloseReason::MaximumAge };
        }
        let debounce_at = newest.saturating_add(self.debounce);
        if !debounce_at.after(&now) {
            return BatchReadiness::Ready { reason: BatchCloseReason::Debounce };
        }
        BatchReadiness::Waiting {
            ready_at: if maximum_age_at.after(&debounce_at) {
                debounce_at
            } else {
                maximum_age_at
            },
        }
    }
}

impl Default for BatchSchedule {
    fn default() -> (schedule: BatchSchedule)
        ensures
            schedule.spec_debounce() == 30 * SECOND,
            schedule.spec_maximum_age() == 300 * SECOND,
    {
        BatchSchedule { debounce: 30 * SECOND, maximum_age: 300 * SECOND }
    }
}

/// A snapshot that waits becomes ready exactly at the announced time: not before, and at it and
/// ever after.
pub proof fn waiting_ends_when_announced(
    snapshot: PendingSnapshot,
    maximum_requests: usize,
    debounce: int,
    maximum_age: int,
    now: Timestamp,
    later: Timestamp,
)
    ensures
        decided(snapshot, maximum_requests, debounce, maximum_age, now) matches BatchReadiness::Waiting {
            ready_at,
        } ==> {
            &&& now.instant() < ready_at.instant()
            &&& later.instant() >= ready_at.instant() ==> decided(
                snapshot,
                maximum_requests,
                debounce,
                maximum_age,
                later,
            ) is Ready
            &&& later.instant() < ready_at.instant() ==> decided(
                snapshot,
                maximum_requests,
                debounce,
                maximum_age,
                later,
            ) == (BatchReadiness::Waiting { ready_at })
        },
{
}

} // verus!
