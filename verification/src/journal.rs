//! The durable journal of one batch transaction, and the outcome that it records.
use crate::apply::ErrorCode;
use crate::fields::first_match;
use crate::git_error::{GitFailure, GitTransactionError};
use crate::git_text::{is_object_id, ObjectId};
use crate::ids::{BatchId, RequestId, Revision};
use std::collections::HashSet;
use vstd::prelude::*;
use vstd::string::*;

verus! {

broadcast use vstd::std_specs::hash::group_hash_axioms;

/// Schema version of the journals that are written.
pub const JOURNAL_SCHEMA_VERSION: u16 = 3;

/// Schema version of the older journals that are still read.
pub const PREVIOUS_JOURNAL_SCHEMA_VERSION: u16 = 2;

/// Maximum bytes of one journal.
pub const MAXIMUM_JOURNAL_BYTES: u64 = 1_048_576;

/// Exact ownership of one queued request by one batch.
#[derive(Clone, Copy, Debug, PartialEq, Eq, Hash, Structural)]
pub struct ClaimToken {
    /// Identity of the request.
    pub request_id: RequestId,
    /// Identity of the batch.
    pub batch_id: BatchId,
    /// Number of the attempt, from one.
    pub attempt: u32,
}

/// A request-specific deterministic failure isolated from the batch.
#[derive(Clone, Copy, Debug, PartialEq, Eq, Structural)]
pub struct RequestFailure {
    /// The exact queue ownership token.
    pub token: ClaimToken,
    /// The stable request failure code.
    pub error_code: ErrorCode,
}

impl RequestFailure {
    /// Returns the exact queue ownership token.
    pub fn token(&self) -> (result: ClaimToken)
        ensures
            result == self.token,
    {
        self.token
    }

    /// Returns the stable request failure code.
    pub fn error_code(&self) -> (result: ErrorCode)
        ensures
            result == self.error_code,
    {
        self.error_code
    }
}

/// Result of one repository batch.
#[allow(inconsistent_fields)]
#[derive(Debug)]
pub enum BatchCommitOutcome<S = Vec<ClaimToken>, F = Vec<RequestFailure>> {
    /// Every claim failed deterministically, so no commit was created.
    NoChanges {
        /// Isolated request failures.
        failures: F,
    },
    /// Successful requests were committed and the official branch advanced.
    Committed {
        /// New official Git commit.
        commit: ObjectId,
        /// Exact successful queue ownership tokens.
        successful: S,
        /// Isolated request failures.
        failures: F,
    },
}

/// An outcome with its lists as sequences.
pub type OutcomeView = BatchCommitOutcome<Seq<ClaimToken>, Seq<RequestFailure>>;

impl View for BatchCommitOutcome {
    type V = OutcomeView;

    open spec fn view(&self) -> OutcomeView {
        match *self {
            BatchCommitOutcome::NoChanges { failures } => BatchCommitOutcome::NoChanges {
                failures: failures@,
            },
            BatchCommitOutcome::Committed { commit, successful, failures } =>
                BatchCommitOutcome::Committed {
                    commit,
                    successful: successful@,
                    failures: failures@,
                },
        }
    }
}

/// The journaled claim of one request.
#[derive(Clone, Copy, Debug, PartialEq, Eq, Structural)]
pub struct JournalClaim {
    /// Identity of the request.
    pub request_id: RequestId,
    /// Number of the attempt, from one.
    pub attempt: u32,
    /// Position of the request in the queue, from one.
    pub acceptance_sequence: u64,
}

/// The journaled failure of one request.
#[derive(Clone, Copy, Debug, PartialEq, Eq, Structural)]
pub struct JournalFailure {
    /// Identity of the request.
    pub request_id: RequestId,
    /// The stable request failure code.
    pub error_code: ErrorCode,
}

/// How far a transaction has come.
#[allow(inconsistent_fields)]
#[derive(Debug)]
pub enum JournalState<C = ObjectId, R = Vec<RequestId>, F = Vec<JournalFailure>> {
    /// Claims are recorded; nothing is decided.
    Preparing,
    /// Every claim failed.
    NoChanges {
        /// The failures.
        failures: F,
    },
    /// A commit exists.
    Committed {
        /// The commit.
        commit: C,
        /// The requests in it.
        successful: R,
        /// The failures.
        failures: F,
        /// Whether the official branch may have advanced.
        publication_started: bool,
    },
}

/// A state with its lists as sequences.
pub type StateView = JournalState<ObjectId, Seq<RequestId>, Seq<JournalFailure>>;

impl View for JournalState {
    type V = StateView;

    open spec fn view(&self) -> StateView {
        match *self {
            JournalState::Preparing => JournalState::Preparing,
            JournalState::NoChanges { failures } => JournalState::NoChanges {
                failures: failures@,
            },
            JournalState::Committed { commit, successful, failures, publication_started } =>
                JournalState::Committed {
                    commit,
                    successful: successful@,
                    failures: failures@,
                    publication_started,
                },
        }
    }
}

/// The durable journal of one batch transaction.
#[derive(Debug)]
pub struct TransactionJournal<B = ObjectId, L = Vec<JournalClaim>, S = JournalState> {
    /// Identity of the batch.
    pub batch_id: BatchId,
    /// Identity of the queue that owns the claims.
    pub queue_identity: Revision,
    /// The official commit on which the batch builds.
    pub base_commit: B,
    /// The claims in queue order.
    pub claims: L,
    /// Requests rejected while the batch was claimed.
    pub claim_failures: u64,
    /// How far the transaction has come.
    pub state: S,
}

/// A journal with its lists as sequences.
pub type JournalView = TransactionJournal<ObjectId, Seq<JournalClaim>, StateView>;

impl View for TransactionJournal {
    type V = JournalView;

    open spec fn view(&self) -> JournalView {
        TransactionJournal {
            batch_id: self.batch_id,
            queue_identity: self.queue_identity,
            base_commit: self.base_commit,
            claims: self.claims@,
            claim_failures: self.claim_failures,
            state: self.state@,
        }
    }
}

/// The state in a journal as it is stored, with commits as text.
pub type StoredState = JournalState<String>;

/// A journal as it is stored, with commits as text.
pub type StoredJournal = TransactionJournal<String, Vec<JournalClaim>, StoredState>;

/// A stored journal and the schema version that it gives.
#[derive(Debug)]
pub enum StoredTransactionJournal {
    /// A journal with all fields of the present schema.
    Current {
        /// Schema version that the journal gives.
        schema_version: u16,
        /// The journal.
        journal: StoredJournal,
    },
    /// A journal of the previous schema, which did not count claim failures.
    Previous {
        /// Schema version that the journal gives.
        schema_version: u16,
        /// The journal.
        journal: StoredJournal,
    },
}

/// The requests of a list of claims.
pub open spec fn claimed_requests(claims: Seq<JournalClaim>) -> Seq<RequestId> {
    claims.map_values(|claim: JournalClaim| claim.request_id)
}

/// The requests of a list of failures.
pub open spec fn failed_requests(failures: Seq<JournalFailure>) -> Seq<RequestId> {
    failures.map_values(|failure: JournalFailure| failure.request_id)
}

/// Whether claims are in queue order: every attempt and position counts from one, and positions
/// increase.
pub open spec fn claims_in_order(claims: Seq<JournalClaim>) -> bool {
    &&& forall|i: int|
        0 <= i < claims.len() ==> (#[trigger] claims[i]).attempt > 0
            && claims[i].acceptance_sequence > 0
    &&& forall|i: int, j: int|
        0 <= i < j < claims.len() ==> (#[trigger] claims[i]).acceptance_sequence < (
        #[trigger] claims[j]).acceptance_sequence
}

/// Whether outcomes decide every claim exactly once.
pub open spec fn decides_all(claims: Seq<JournalClaim>, outcomes: Seq<RequestId>) -> bool {
    &&& outcomes.no_duplicates()
    &&& claimed_requests(claims).no_duplicates()
    &&& outcomes.to_set() == claimed_requests(claims).to_set()
}

/// The requests that a terminal state decides.
pub open spec fn decided<C>(state: JournalState<C, Seq<RequestId>, Seq<JournalFailure>>) -> Seq<
    RequestId,
> {
    match state {
        JournalState::Preparing => Seq::empty(),
        JournalState::NoChanges { failures } => failed_requests(failures),
        JournalState::Committed { successful, failures, .. } => successful + failed_requests(
            failures,
        ),
    }
}

/// Whether a journal of a batch is consistent in itself: its claims are in queue order, and a
/// terminal state decides every claim exactly once.
pub open spec fn is_consistent(journal: JournalView, batch_id: BatchId) -> bool {
    &&& journal.batch_id == batch_id
    &&& claims_in_order(journal.claims)
    &&& journal.state is Preparing || decides_all(journal.claims, decided(journal.state))
}

/// The state that a stored state stands for, where its commit is an object name.
pub open spec fn state_of(stored: StoredState) -> Option<StateView> {
    match stored {
        JournalState::Preparing => Some(JournalState::Preparing),
        JournalState::NoChanges { failures } => Some(
            JournalState::NoChanges { failures: failures@ },
        ),
        JournalState::Committed { commit, successful, failures, publication_started } =>
            if is_object_id(commit@) {
                Some(
                    JournalState::Committed {
                        commit: ObjectId::named(commit@),
                        successful: successful@,
                        failures: failures@,
                        publication_started,
                    },
                )
            } else {
                None
            },
    }
}

/// The journal of a batch that a stored journal stands for. A schema that is not known makes it
/// invalid; anything else that does not fit makes it a mismatch.
pub open spec fn accepted(stored: StoredTransactionJournal, batch_id: BatchId) -> Result<
    JournalView,
    GitFailure,
> {
    let (version, known, journal, claim_failures) = match stored {
        StoredTransactionJournal::Current { schema_version, journal } => (
            schema_version,
            JOURNAL_SCHEMA_VERSION,
            journal,
            journal.claim_failures,
        ),
        StoredTransactionJournal::Previous { schema_version, journal } => (
            schema_version,
            PREVIOUS_JOURNAL_SCHEMA_VERSION,
            journal,
            0,
        ),
    };
    if version != known {
        Err(GitTransactionError::InvalidJournal)
    } else if !is_object_id(journal.base_commit@) || state_of(journal.state) is None {
        Err(GitTransactionError::JournalMismatch)
    } else {
        let found = TransactionJournal {
            batch_id: journal.batch_id,
            queue_identity: journal.queue_identity,
            base_commit: ObjectId::named(journal.base_commit@),
            claims: journal.claims@,
            claim_failures,
            state: state_of(journal.state)->0,
        };
        if is_consistent(found, batch_id) {
            Ok(found)
        } else {
            Err(GitTransactionError::JournalMismatch)
        }
    }
}

/// A copy of a list of plain records.
fn copied<A: Copy>(records: &Vec<A>) -> (copy: Vec<A>)
    ensures
        copy@ == records@,
{
    let mut copy: Vec<A> = Vec::new();
    let mut i: usize = 0;
    while i < records.len()
        invariant
            i <= records@.len(),
            copy@ == records@.take(i as int),
        decreases records@.len() - i,
    {
        copy.push(records[i]);
        assert(records@.take(i as int).push(records@[i as int]) =~= records@.take(i + 1));
        i += 1;
    }
    assert(records@.take(records@.len() as int) =~= records@);
    copy
}

impl TransactionJournal {
    /// The journal as it is stored: under the present schema, with its commits as text. A
    /// consistent journal that was stored is accepted as what it was.
    pub fn stored(&self) -> (stored: StoredTransactionJournal)
        ensures
            stored matches StoredTransactionJournal::Current { schema_version, journal } && {
                &&& schema_version == JOURNAL_SCHEMA_VERSION
                &&& journal.batch_id == self.batch_id
                &&& journal.queue_identity == self.queue_identity
                &&& journal.base_commit@ == self.base_commit.spec_text()
                &&& journal.claims@ == self.claims@
                &&& journal.claim_failures == self.claim_failures
                &&& state_of(journal.state) == Some(self.state@)
            },
            accepted(stored, self.batch_id) == if is_consistent(self@, self.batch_id) {
                Ok::<JournalView, GitFailure>(self@)
            } else {
                Err(GitTransactionError::JournalMismatch)
            },
    {
        let state: StoredState = match &self.state {
            JournalState::Preparing => JournalState::Preparing,
            JournalState::NoChanges { failures } => JournalState::NoChanges {
                failures: copied(failures),
            },
            JournalState::Committed { commit, successful, failures, publication_started } => {
                JournalState::Committed {
                    commit: commit.text(),
                    successful: copied(successful),
                    failures: copied(failures),
                    publication_started: *publication_started,
                }
            },
        };
        let journal = TransactionJournal {
            batch_id: self.batch_id,
            queue_identity: self.queue_identity,
            base_commit: self.base_commit.text(),
            claims: copied(&self.claims),
            claim_failures: self.claim_failures,
            state,
        };
        StoredTransactionJournal::Current { schema_version: JOURNAL_SCHEMA_VERSION, journal }
    }
}

/// Whether no request occurs twice.
fn distinct_requests(requests: &Vec<RequestId>) -> (result: bool)
    ensures
        result == requests@.no_duplicates(),
{
    let mut seen: HashSet<u128> = HashSet::new();
    let mut i: usize = 0;
    while i < requests.len()
        invariant
            i <= requests@.len(),
            forall|value: u128| #[trigger]
                seen@.contains(value) <==> exists|j: int|
                    0 <= j < i && (#[trigger] requests@[j]).value == value,
            forall|a: int, b: int| 0 <= a < b < i ==> requests@[a] != requests@[b],
        decreases requests@.len() - i,
    {
        let ghost earlier = seen@;
        if !seen.insert(requests[i].value) {
            proof {
                let j = choose|j: int|
                    0 <= j < i && (#[trigger] requests@[j]).value == requests@[i as int].value;
                assert(requests@[j] == requests@[i as int]);
            }
            return false;
        }
        proof {
            assert forall|value: u128| #[trigger] seen@.contains(value) <==> exists|j: int|
                0 <= j < i + 1 && (#[trigger] requests@[j]).value == value by {
                assert(requests@[i as int].value == requests@[i as int].value);
            }
            assert forall|a: int, b: int| 0 <= a < b < i + 1 implies requests@[a]
                != requests@[b] by {
                if b == i {
                    assert(requests@[a].value == requests@[a].value);
                    assert(earlier.contains(requests@[a].value));
                }
            }
        }
        i += 1;
    }
    true
}

/// Whether every request of one list is in another.
fn all_among(requests: &Vec<RequestId>, others: &Vec<RequestId>) -> (result: bool)
    ensures
        result == requests@.to_set().subset_of(others@.to_set()),
{
    let mut known: HashSet<u128> = HashSet::new();
    let mut i: usize = 0;
    while i < others.len()
        invariant
            i <= others@.len(),
            forall|value: u128| #[trigger]
                known@.contains(value) <==> exists|j: int|
                    0 <= j < i && (#[trigger] others@[j]).value == value,
        decreases others@.len() - i,
    {
        known.insert(others[i].value);
        assert forall|value: u128| #[trigger] known@.contains(value) <==> exists|j: int|
            0 <= j < i + 1 && (#[trigger] others@[j]).value == value by {
            assert(others@[i as int].value == others@[i as int].value);
        }
        i += 1;
    }
    let mut i: usize = 0;
    while i < requests.len()
        invariant
            i <= requests@.len(),
            forall|value: u128| #[trigger]
                known@.contains(value) <==> exists|j: int|
                    0 <= j < others@.len() && (#[trigger] others@[j]).value == value,
            forall|j: int| 0 <= j < i ==> others@.contains(#[trigger] requests@[j]),
        decreases requests@.len() - i,
    {
        if !known.contains(&requests[i].value) {
            proof {
                assert(requests@.to_set().contains(requests@[i as int]));
                if others@.contains(requests@[i as int]) {
                    let j = choose|j: int|
                        0 <= j < others@.len() && others@[j] == requests@[i as int];
                    assert(others@[j].value == requests@[i as int].value);
                }
            }
            return false;
        }
        proof {
            let j = choose|j: int|
                0 <= j < others@.len() && (#[trigger] others@[j]).value == requests@[i as int].value;
            assert(others@[j] == requests@[i as int]);
        }
        i += 1;
    }
    assert forall|request: RequestId| requests@.to_set().contains(
        request,
    ) implies others@.to_set().contains(request) by {
        let j = choose|j: int| 0 <= j < requests@.len() && requests@[j] == request;
        assert(others@.contains(requests@[j]));
    }
    true
}

/// The requests of a list of claims.
fn requests_of(claims: &Vec<JournalClaim>) -> (requests: Vec<RequestId>)
    ensures
        requests@ == claimed_requests(claims@),
{
    let mut requests: Vec<RequestId> = Vec::new();
    let mut i: usize = 0;
    while i < claims.len()
        invariant
            i <= claims@.len(),
            requests@ == claimed_requests(claims@.take(i as int)),
        decreases claims@.len() - i,
    {
        requests.push(claims[i].request_id);
        assert(requests@ =~= claimed_requests(claims@.take(i + 1)));
        i += 1;
    }
    assert(claims@.take(claims@.len() as int) =~= claims@);
    requests
}

/// Appends the requests of a list of failures.
fn append_failed(requests: Vec<RequestId>, failures: &Vec<JournalFailure>) -> (result: Vec<
    RequestId,
>)
    ensures
        result@ == requests@ + failed_requests(failures@),
{
    let ghost start = requests@;
    let mut result = requests;
    let mut i: usize = 0;
    while i < failures.len()
        invariant
            i <= failures@.len(),
            result@ == start + failed_requests(failures@.take(i as int)),
        decreases failures@.len() - i,
    {
        result.push(failures[i].request_id);
        assert(result@ =~= start + failed_requests(failures@.take(i + 1)));
        i += 1;
    }
    assert(failures@.take(failures@.len() as int) =~= failures@);
    result
}

/// Copies a list of requests.
pub fn copy_requests(requests: &Vec<RequestId>) -> (copy: Vec<RequestId>)
    ensures
        copy@ == requests@,
{
    let mut copy: Vec<RequestId> = Vec::new();
    let mut i: usize = 0;
    while i < requests.len()
        invariant
            i <= requests@.len(),
            copy@ == requests@.take(i as int),
        decreases requests@.len() - i,
    {
        copy.push(requests[i]);
        assert(copy@ =~= requests@.take(i + 1));
        i += 1;
    }
    assert(requests@.take(requests@.len() as int) =~= requests@);
    copy
}

/// Whether claims are in queue order.
fn ordered_claims(claims: &Vec<JournalClaim>) -> (result: bool)
    ensures
        result == claims_in_order(claims@),
{
    let mut i: usize = 0;
    while i < claims.len()
        invariant
            i <= claims@.len(),
            forall|a: int|
                0 <= a < i ==> (#[trigger] claims@[a]).attempt > 0
                    && claims@[a].acceptance_sequence > 0,
            forall|a: int, b: int|
                0 <= a < b < i ==> (#[trigger] claims@[a]).acceptance_sequence < (
                #[trigger] claims@[b]).acceptance_sequence,
        decreases claims@.len() - i,
    {
        let claim = claims[i];
        if claim.attempt == 0 || claim.acceptance_sequence == 0 {
            return false;
        }
        if i > 0 && claims[i - 1].acceptance_sequence >= claim.acceptance_sequence {
            assert(claims@[i - 1].acceptance_sequence >= claims@[i as int].acceptance_sequence);
            return false;
        }
        i += 1;
    }
    true
}

/// Whether outcomes decide every claim exactly once.
fn deciding_all(claims: &Vec<JournalClaim>, outcomes: &Vec<RequestId>) -> (result: bool)
    ensures
        result == decides_all(claims@, outcomes@),
{
    let requests = requests_of(claims);
    distinct_requests(outcomes) && distinct_requests(&requests) && {
        let inside = all_among(outcomes, &requests);
        let covering = all_among(&requests, outcomes);
        proof {
            assert((inside && covering) == (outcomes@.to_set() =~= requests@.to_set()));
        }
        inside && covering
    }
}

/// Reads the journal of a batch: checks its schema and its consistency.
pub fn decode_journal(stored: StoredTransactionJournal, batch_id: BatchId) -> (result: Result<
    TransactionJournal,
    GitTransactionError,
>)
    ensures
        (match result {
            Ok(journal) => Ok(journal@),
            Err(error) => Err(error@),
        }) == accepted(stored, batch_id),
{
    let (version, known, claim_failures, journal) = match stored {
        StoredTransactionJournal::Current { schema_version, journal } => (
            schema_version,
            JOURNAL_SCHEMA_VERSION,
            journal.claim_failures,
            journal,
        ),
        StoredTransactionJournal::Previous { schema_version, journal } => (
            schema_version,
            PREVIOUS_JOURNAL_SCHEMA_VERSION,
            0,
            journal,
        ),
    };
    if version != known {
        return Err(GitTransactionError::InvalidJournal);
    }
    let base_commit = match ObjectId::parse(journal.base_commit.as_str()) {
        Some(base_commit) => base_commit,
        None => {
            return Err(GitTransactionError::JournalMismatch);
        },
    };
    let state = match journal.state {
        JournalState::Preparing => JournalState::Preparing,
        JournalState::NoChanges { failures } => JournalState::NoChanges { failures },
        JournalState::Committed { commit, successful, failures, publication_started } => {
            match ObjectId::parse(commit.as_str()) {
                Some(commit) => JournalState::Committed {
                    commit,
                    successful,
                    failures,
                    publication_started,
                },
                None => {
                    return Err(GitTransactionError::JournalMismatch);
                },
            }
        },
    };
    let found = TransactionJournal {
        batch_id: journal.batch_id,
        queue_identity: journal.queue_identity,
        base_commit,
        claims: journal.claims,
        claim_failures,
        state,
    };
    if validate_journal_structure(&found, batch_id) {
        Ok(found)
    } else {
        Err(GitTransactionError::JournalMismatch)
    }
}

/// Whether a journal of a batch is consistent in itself.
pub fn validate_journal_structure(journal: &TransactionJournal, batch_id: BatchId) -> (result: bool)
    ensures
        result == is_consistent(journal@, batch_id),
{
    if journal.batch_id != batch_id || !ordered_claims(&journal.claims) {
        return false;
    }
    match &journal.state {
        JournalState::Preparing => true,
        JournalState::NoChanges { failures } => {
            let outcomes = append_failed(Vec::new(), failures);
            assert(outcomes@ =~= decided(journal@.state));
            deciding_all(&journal.claims, &outcomes)
        },
        JournalState::Committed { successful, failures, .. } => {
            let outcomes = append_failed(copy_requests(successful), failures);
            assert(outcomes@ =~= decided(journal@.state));
            deciding_all(&journal.claims, &outcomes)
        },
    }
}

/// Selects the claim of a request.
pub open spec fn claims_request(request_id: RequestId) -> spec_fn(JournalClaim) -> bool {
    |claim: JournalClaim| claim.request_id == request_id
}

/// The ownership token of a journaled request.
pub open spec fn token_in(journal: JournalView, request_id: RequestId) -> Option<ClaimToken> {
    match first_match(journal.claims, claims_request(request_id), 0) {
        Some(at) => if journal.claims[at].attempt > 0 {
            Some(
                ClaimToken {
                    request_id,
                    batch_id: journal.batch_id,
                    attempt: journal.claims[at].attempt,
                },
            )
        } else {
            None
        },
        None => None,
    }
}

/// The ownership tokens of journaled requests.
pub open spec fn tokens_in(journal: JournalView, requests: Seq<RequestId>) -> Option<
    Seq<ClaimToken>,
>
    decreases requests.len(),
{
    if requests.len() == 0 {
        Some(Seq::empty())
    } else {
        match (tokens_in(journal, requests.drop_last()), token_in(journal, requests.last())) {
            (Some(tokens), Some(token)) => Some(tokens.push(token)),
            _ => None,
        }
    }
}

/// The failures of journaled requests with their ownership tokens.
pub open spec fn failures_in(journal: JournalView, failures: Seq<JournalFailure>) -> Option<
    Seq<RequestFailure>,
>
    decreases failures.len(),
{
    if failures.len() == 0 {
        Some(Seq::empty())
    } else {
        match (
            failures_in(journal, failures.drop_last()),
            token_in(journal, failures.last().request_id),
        ) {
            (Some(earlier), Some(token)) => Some(
                earlier.push(RequestFailure { token, error_code: failures.last().error_code }),
            ),
            _ => None,
        }
    }
}

/// The outcome that a journal records. A journal that is still preparing records none.
pub open spec fn outcome_of(journal: JournalView) -> Result<OutcomeView, GitFailure> {
    match journal.state {
        JournalState::Preparing => Err(GitTransactionError::JournalState),
        JournalState::NoChanges { failures } => match failures_in(journal, failures) {
            Some(failures) => Ok(BatchCommitOutcome::NoChanges { failures }),
            None => Err(GitTransactionError::JournalMismatch),
        },
        JournalState::Committed { commit, successful, failures, .. } => match (
            tokens_in(journal, successful),
            failures_in(journal, failures),
        ) {
            (Some(successful), Some(failures)) => Ok(
                BatchCommitOutcome::Committed { commit, successful, failures },
            ),
            _ => Err(GitTransactionError::JournalMismatch),
        },
    }
}

/// Finds the ownership token of a journaled request.
fn find_token(journal: &TransactionJournal, request_id: RequestId) -> (result: Option<ClaimToken>)
    ensures
        result == token_in(journal@, request_id),
{
    let ghost holds = claims_request(request_id);
    let mut i: usize = 0;
    while i < journal.claims.len()
        invariant
            i <= journal.claims@.len(),
            holds == claims_request(request_id),
            first_match(journal.claims@, holds, 0) == first_match(
                journal.claims@,
                holds,
                i as int,
            ),
        decreases journal.claims@.len() - i,
    {
        let claim = journal.claims[i];
        if claim.request_id == request_id {
            if claim.attempt == 0 {
                return None;
            }
            return Some(
                ClaimToken { request_id, batch_id: journal.batch_id, attempt: claim.attempt },
            );
        }
        i += 1;
    }
    None
}

proof fn tokens_of_prefix(journal: JournalView, requests: Seq<RequestId>, count: int)
    requires
        0 <= count <= requests.len(),
        tokens_in(journal, requests.take(count)) is None,
    ensures
        tokens_in(journal, requests) is None,
    decreases requests.len() - count,
{
    if count < requests.len() {
        assert(requests.take(count + 1).drop_last() =~= requests.take(count));
        tokens_of_prefix(journal, requests, count + 1);
    } else {
        assert(requests.take(count) =~= requests);
    }
}

proof fn failures_of_prefix(journal: JournalView, failures: Seq<JournalFailure>, count: int)
    requires
        0 <= count <= failures.len(),
        failures_in(journal, failures.take(count)) is None,
    ensures
        failures_in(journal, failures) is None,
    decreases failures.len() - count,
{
    if count < failures.len() {
        assert(failures.take(count + 1).drop_last() =~= failures.take(count));
        failures_of_prefix(journal, failures, count + 1);
    } else {
        assert(failures.take(count) =~= failures);
    }
}

/// Finds the ownership tokens of journaled requests.
fn find_tokens(journal: &TransactionJournal, requests: &Vec<RequestId>) -> (result: Option<
    Vec<ClaimToken>,
>)
    ensures
        match result {
            Some(tokens) => tokens_in(journal@, requests@) == Some(tokens@),
            None => tokens_in(journal@, requests@) is None,
        },
{
    let mut tokens: Vec<ClaimToken> = Vec::new();
    let mut i: usize = 0;
    assert(requests@.take(0) =~= Seq::<RequestId>::empty());
    while i < requests.len()
        invariant
            i <= requests@.len(),
            tokens_in(journal@, requests@.take(i as int)) == Some(tokens@),
        decreases requests@.len() - i,
    {
        assert(requests@.take(i + 1).drop_last() =~= requests@.take(i as int));
        match find_token(journal, requests[i]) {
            Some(token) => tokens.push(token),
            None => {
                proof {
                    tokens_of_prefix(journal@, requests@, i + 1);
                }
                return None;
            },
        }
        i += 1;
    }
    assert(requests@.take(requests@.len() as int) =~= requests@);
    Some(tokens)
}

/// Finds the failures of journaled requests with their ownership tokens.
fn find_failures(journal: &TransactionJournal, failures: &Vec<JournalFailure>) -> (result: Option<
    Vec<RequestFailure>,
>)
    ensures
        match result {
            Some(found) => failures_in(journal@, failures@) == Some(found@),
            None => failures_in(journal@, failures@) is None,
        },
{
    let mut found: Vec<RequestFailure> = Vec::new();
    let mut i: usize = 0;
    assert(failures@.take(0) =~= Seq::<JournalFailure>::empty());
    while i < failures.len()
        invariant
            i <= failures@.len(),
            failures_in(journal@, failures@.take(i as int)) == Some(found@),
        decreases failures@.len() - i,
    {
        assert(failures@.take(i + 1).drop_last() =~= failures@.take(i as int));
        let failure = failures[i];
        match find_token(journal, failure.request_id) {
            Some(token) => found.push(RequestFailure { token, error_code: failure.error_code }),
            None => {
                proof {
                    failures_of_prefix(journal@, failures@, i + 1);
                }
                return None;
            },
        }
        i += 1;
    }
    assert(failures@.take(failures@.len() as int) =~= failures@);
    Some(found)
}

/// The outcome that a journal records.
pub fn outcome_from_journal(journal: &TransactionJournal) -> (result: Result<
    BatchCommitOutcome,
    GitTransactionError,
>)
    ensures
        (match result {
            Ok(outcome) => Ok(outcome@),
            Err(error) => Err(error@),
        }) == outcome_of(journal@),
{
    match &journal.state {
        JournalState::Preparing => Err(GitTransactionError::JournalState),
        JournalState::NoChanges { failures } => match find_failures(journal, failures) {
            Some(failures) => Ok(BatchCommitOutcome::NoChanges { failures }),
            None => Err(GitTransactionError::JournalMismatch),
        },
        JournalState::Committed { commit, successful, failures, .. } => match (
            find_tokens(journal, successful),
            find_failures(journal, failures),
        ) {
            (Some(successful), Some(failures)) => Ok(
                BatchCommitOutcome::Committed { commit: *commit, successful, failures },
            ),
            _ => Err(GitTransactionError::JournalMismatch),
        },
    }
}

/// One owned request of a batch.
#[derive(Debug)]
pub struct Claim {
    /// Exact queue ownership.
    pub token: ClaimToken,
    /// Position of the request in the queue, from one, if it was accepted.
    pub sequence: Option<u64>,
    /// Title of the request.
    pub title: String,
}

/// The journaled form of a claim.
pub open spec fn journaled(claim: Claim) -> JournalClaim {
    JournalClaim {
        request_id: claim.token.request_id,
        attempt: claim.token.attempt,
        acceptance_sequence: match claim.sequence {
            Some(sequence) => sequence,
            None => 0,
        },
    }
}

/// The journaled form of claims.
pub open spec fn journaled_all(claims: Seq<Claim>) -> Seq<JournalClaim> {
    claims.map_values(|claim: Claim| journaled(claim))
}

/// The journaled form of claims.
pub fn journal_claims(claims: &Vec<Claim>) -> (result: Vec<JournalClaim>)
    ensures
        result@ == journaled_all(claims@),
{
    let mut result: Vec<JournalClaim> = Vec::new();
    let mut i: usize = 0;
    while i < claims.len()
        invariant
            i <= claims@.len(),
            result@ == journaled_all(claims@.take(i as int)),
        decreases claims@.len() - i,
    {
        let claim = &claims[i];
        result.push(
            JournalClaim {
                request_id: claim.token.request_id,
                attempt: claim.token.attempt,
                acceptance_sequence: match claim.sequence {
                    Some(sequence) => sequence,
                    None => 0,
                },
            },
        );
        assert(result@ =~= journaled_all(claims@.take(i + 1)));
        i += 1;
    }
    assert(claims@.take(claims@.len() as int) =~= claims@);
    result
}

/// Whether journaled claims are exactly those of a batch.
pub fn validate_journal_claims(journal: &TransactionJournal, claims: &Vec<Claim>) -> (result: bool)
    ensures
        result == (journal@.claims == journaled_all(claims@)),
{
    let expected = journal_claims(claims);
    if expected.len() != journal.claims.len() {
        return false;
    }
    let mut i: usize = 0;
    while i < expected.len()
        invariant
            i <= expected@.len() == journal.claims@.len(),
            expected@ == journaled_all(claims@),
            forall|j: int| 0 <= j < i ==> expected@[j] == journal.claims@[j],
        decreases expected@.len() - i,
    {
        if expected[i] != journal.claims[i] {
            return false;
        }
        i += 1;
    }
    assert(expected@ =~= journal.claims@);
    true
}

/// Why the claims of a batch from `next` on are not acceptable, with `previous` the queue position
/// before them and `ownership` what the queue says of each claim: nothing, or why it is not owned.
pub open spec fn claims_problem(
    batch_id: BatchId,
    claims: Seq<Claim>,
    ownership: Seq<Option<String>>,
    next: int,
) -> Option<GitFailure>
    decreases claims.len() - next,
{
    if next < 0 || next >= claims.len() {
        None
    } else {
        let claim = claims[next];
        if claim.token.batch_id != batch_id || (exists|i: int|
            0 <= i < next && (#[trigger] claims[i]).token.request_id == claim.token.request_id) {
            Some(GitTransactionError::InvalidClaims)
        } else if let Some(reason) = ownership[next] {
            Some(GitTransactionError::Queue(reason@))
        } else {
            match claim.sequence {
                None => Some(GitTransactionError::InvalidClaims),
                Some(sequence) => if next > 0 && (claims[next - 1].sequence matches Some(before)
                    && before >= sequence) {
                    Some(GitTransactionError::InvalidClaims)
                } else {
                    claims_problem(batch_id, claims, ownership, next + 1)
                },
            }
        }
    }
}

/// Checks the claims of a batch: they must belong to it, be distinct, be owned, and stand in queue
/// order.
pub fn validate_batch_claims(
    batch_id: BatchId,
    claims: &Vec<Claim>,
    ownership: &Vec<Option<String>>,
) -> (result: Result<(), GitTransactionError>)
    requires
        ownership@.len() == claims@.len(),
    ensures
        match result {
            Ok(()) => claims_problem(batch_id, claims@, ownership@, 0) is None,
            Err(error) => claims_problem(batch_id, claims@, ownership@, 0) == Some(error@),
        },
{
    let mut seen: HashSet<u128> = HashSet::new();
    let mut next: usize = 0;
    while next < claims.len()
        invariant
            next <= claims@.len() == ownership@.len(),
            forall|value: u128| #[trigger]
                seen@.contains(value) <==> exists|j: int|
                    0 <= j < next && (#[trigger] claims@[j]).token.request_id.value == value,
            claims_problem(batch_id, claims@, ownership@, 0) == claims_problem(
                batch_id,
                claims@,
                ownership@,
                next as int,
            ),
        decreases claims@.len() - next,
    {
        let claim = &claims[next];
        if claim.token.batch_id != batch_id {
            return Err(GitTransactionError::InvalidClaims);
        }
        let ghost earlier = seen@;
        if !seen.insert(claim.token.request_id.value) {
            proof {
                let j = choose|j: int|
                    0 <= j < next && (#[trigger] claims@[j]).token.request_id.value
                        == claim.token.request_id.value;
                assert(claims@[j].token.request_id == claim.token.request_id);
            }
            return Err(GitTransactionError::InvalidClaims);
        }
        proof {
            assert(!(exists|i: int|
                0 <= i < next && (#[trigger] claims@[i]).token.request_id
                    == claim.token.request_id)) by {
                if exists|i: int|
                    0 <= i < next && (#[trigger] claims@[i]).token.request_id
                        == claim.token.request_id {
                    let i = choose|i: int|
                        0 <= i < next && (#[trigger] claims@[i]).token.request_id
                            == claim.token.request_id;
                    assert(claims@[i].token.request_id.value == claim.token.request_id.value);
                    assert(earlier.contains(claim.token.request_id.value));
                }
            }
            assert forall|value: u128| #[trigger] seen@.contains(value) <==> exists|j: int|
                0 <= j < next + 1 && (#[trigger] claims@[j]).token.request_id.value == value by {
                assert(claims@[next as int].token.request_id.value
                    == claim.token.request_id.value);
            }
        }
        if let Some(reason) = &ownership[next] {
            return Err(GitTransactionError::Queue(reason.clone()));
        }
        match claim.sequence {
            None => {
                return Err(GitTransactionError::InvalidClaims);
            },
            Some(sequence) => {
                if next > 0 {
                    if let Some(before) = claims[next - 1].sequence {
                        if before >= sequence {
                            return Err(GitTransactionError::InvalidClaims);
                        }
                    }
                }
            },
        }
        next += 1;
    }
    Ok(())
}

/// The token of each claim.
pub open spec fn claim_tokens(claims: Seq<Claim>) -> Seq<ClaimToken> {
    claims.map_values(|claim: Claim| claim.token)
}

/// The journaled form of request failures.
pub open spec fn journaled_failures(failures: Seq<RequestFailure>) -> Seq<JournalFailure> {
    failures.map_values(
        |failure: RequestFailure|
            JournalFailure {
                request_id: failure.token.request_id,
                error_code: failure.error_code,
            },
    )
}

/// The requests of a list of tokens.
pub open spec fn token_requests(tokens: Seq<ClaimToken>) -> Seq<RequestId> {
    tokens.map_values(|token: ClaimToken| token.request_id)
}

/// The tokens of a list of failures.
pub open spec fn failure_tokens(failures: Seq<RequestFailure>) -> Seq<ClaimToken> {
    failures.map_values(|failure: RequestFailure| failure.token)
}

proof fn token_of_claim(journal: JournalView, claims: Seq<Claim>, token: ClaimToken)
    requires
        journal.claims == journaled_all(claims),
        claim_tokens(claims).contains(token),
        token.batch_id == journal.batch_id,
        token.attempt > 0,
        token_requests(claim_tokens(claims)).no_duplicates(),
    ensures
        token_in(journal, token.request_id) == Some(token),
{
    let at = choose|i: int| 0 <= i < claim_tokens(claims).len() && claim_tokens(claims)[i] == token;
    let requests = token_requests(claim_tokens(claims));
    assert(journal.claims[at].request_id == token.request_id);
    first_claim_is(journal.claims, token.request_id, at, 0, requests);
}

proof fn first_claim_is(
    claims: Seq<JournalClaim>,
    request_id: RequestId,
    at: int,
    from: int,
    requests: Seq<RequestId>,
)
    requires
        0 <= from <= at < claims.len(),
        claims[at].request_id == request_id,
        requests.len() == claims.len(),
        forall|i: int| 0 <= i < claims.len() ==> requests[i] == (#[trigger] claims[i]).request_id,
        requests.no_duplicates(),
    ensures
        first_match(claims, claims_request(request_id), from) == Some(at),
    decreases at - from,
{
    if from < at {
        assert(requests[from] != requests[at]);
        assert(claims[from].request_id != request_id);
        first_claim_is(claims, request_id, at, from + 1, requests);
    }
}

proof fn tokens_of_claims(journal: JournalView, claims: Seq<Claim>, tokens: Seq<ClaimToken>)
    requires
        journal.claims == journaled_all(claims),
        forall|i: int|
            0 <= i < tokens.len() ==> claim_tokens(claims).contains(#[trigger] tokens[i])
                && tokens[i].batch_id == journal.batch_id && tokens[i].attempt > 0,
        token_requests(claim_tokens(claims)).no_duplicates(),
    ensures
        tokens_in(journal, token_requests(tokens)) == Some(tokens),
    decreases tokens.len(),
{
    let requests = token_requests(tokens);
    if tokens.len() > 0 {
        let earlier = tokens.drop_last();
        assert forall|i: int| 0 <= i < earlier.len() implies claim_tokens(claims).contains(
            #[trigger] earlier[i],
        ) && earlier[i].batch_id == journal.batch_id && earlier[i].attempt > 0 by {
            assert(earlier[i] == tokens[i]);
        }
        tokens_of_claims(journal, claims, earlier);
        assert(requests.drop_last() =~= token_requests(earlier));
        assert(tokens[tokens.len() - 1] == tokens.last());
        token_of_claim(journal, claims, tokens.last());
        assert(earlier.push(tokens.last()) =~= tokens);
    } else {
        assert(tokens =~= Seq::<ClaimToken>::empty());
    }
}

proof fn failures_of_claims(journal: JournalView, claims: Seq<Claim>, failures: Seq<RequestFailure>)
    requires
        journal.claims == journaled_all(claims),
        forall|i: int|
            0 <= i < failures.len() ==> claim_tokens(claims).contains(
                (#[trigger] failures[i]).token,
            ) && failures[i].token.batch_id == journal.batch_id && failures[i].token.attempt > 0,
        token_requests(claim_tokens(claims)).no_duplicates(),
    ensures
        failures_in(journal, journaled_failures(failures)) == Some(failures),
    decreases failures.len(),
{
    let stored = journaled_failures(failures);
    if failures.len() > 0 {
        let earlier = failures.drop_last();
        assert forall|i: int| 0 <= i < earlier.len() implies claim_tokens(claims).contains(
            (#[trigger] earlier[i]).token,
        ) && earlier[i].token.batch_id == journal.batch_id && earlier[i].token.attempt > 0 by {
            assert(earlier[i] == failures[i]);
        }
        failures_of_claims(journal, claims, earlier);
        assert(stored.drop_last() =~= journaled_failures(earlier));
        assert(failures[failures.len() - 1] == failures.last());
        token_of_claim(journal, claims, failures.last().token);
        assert(earlier.push(failures.last()) =~= failures);
    } else {
        assert(failures =~= Seq::<RequestFailure>::empty());
    }
}

/// Whether successes and failures together decide every claim of a batch exactly once.
pub open spec fn partitions(
    claims: Seq<Claim>,
    successful: Seq<ClaimToken>,
    failures: Seq<RequestFailure>,
) -> bool {
    &&& (successful + failure_tokens(failures)).no_duplicates()
    &&& (successful + failure_tokens(failures)).to_set() == claim_tokens(claims).to_set()
}

/// Whether claims belong to a batch, are distinct and stand in queue order.
pub open spec fn well_claimed(batch_id: BatchId, claims: Seq<Claim>) -> bool {
    &&& forall|i: int|
        0 <= i < claims.len() ==> {
            &&& (#[trigger] claims[i]).token.batch_id == batch_id
            &&& claims[i].token.attempt > 0
            &&& claims[i].sequence matches Some(sequence) && sequence > 0
        }
    &&& token_requests(claim_tokens(claims)).no_duplicates()
    &&& forall|i: int, j: int|
        0 <= i < j < claims.len() ==> (#[trigger] claims[i]).sequence->0 < (
        #[trigger] claims[j]).sequence->0
}

proof fn requests_of_tokens(tokens: Seq<ClaimToken>, batch_id: BatchId, claims: Seq<Claim>)
    requires
        well_claimed(batch_id, claims),
        tokens.no_duplicates(),
        tokens.to_set() == claim_tokens(claims).to_set(),
    ensures
        token_requests(tokens).no_duplicates(),
        token_requests(tokens).to_set() == claimed_requests(journaled_all(claims)).to_set(),
{
    let all = claim_tokens(claims);
    let requests = token_requests(tokens);
    let known = claimed_requests(journaled_all(claims));
    assert(known =~= token_requests(all));
    assert forall|i: int| 0 <= i < tokens.len() implies all.contains(#[trigger] tokens[i]) by {
        assert(tokens.to_set().contains(tokens[i]));
    }
    assert forall|i: int| 0 <= i < all.len() implies tokens.contains(#[trigger] all[i]) by {
        assert(all.to_set().contains(all[i]));
    }
    assert forall|i: int, j: int| 0 <= i < requests.len() && 0 <= j < requests.len() && i
        != j implies requests[i] != requests[j] by {
        let a = choose|a: int| 0 <= a < all.len() && all[a] == tokens[i];
        let b = choose|b: int| 0 <= b < all.len() && all[b] == tokens[j];
        assert(all.contains(tokens[i]) && all.contains(tokens[j]));
        assert(tokens[i] != tokens[j]);
        assert(a != b);
        assert(token_requests(all)[a] != token_requests(all)[b]);
    }
    assert forall|request: RequestId| requests.to_set().contains(request) <==> known.to_set().contains(
        request,
    ) by {
        if requests.contains(request) {
            let i = choose|i: int| 0 <= i < requests.len() && requests[i] == request;
            assert(all.contains(tokens[i]));
            let a = choose|a: int| 0 <= a < all.len() && all[a] == tokens[i];
            assert(known[a] == request);
        }
        if known.contains(request) {
            let a = choose|a: int| 0 <= a < known.len() && known[a] == request;
            assert(tokens.contains(all[a]));
            let i = choose|i: int| 0 <= i < tokens.len() && tokens[i] == all[a];
            assert(requests[i] == request);
        }
    }
    assert(requests.to_set() =~= known.to_set());
}

/// What a transaction journals can be recovered: the journal of a batch whose claims are all
/// decided is consistent, and it records exactly the outcome that it was written for.
pub proof fn journals_record_their_outcome(
    batch_id: BatchId,
    queue_identity: Revision,
    base_commit: ObjectId,
    claims: Seq<Claim>,
    claim_failures: u64,
    commit: ObjectId,
    successful: Seq<ClaimToken>,
    failures: Seq<RequestFailure>,
    publication_started: bool,
)
    requires
        well_claimed(batch_id, claims),
        partitions(claims, successful, failures),
    ensures
        ({
            let journal = TransactionJournal {
                batch_id,
                queue_identity,
                base_commit,
                claims: journaled_all(claims),
                claim_failures,
                state: JournalState::Committed {
                    commit,
                    successful: token_requests(successful),
                    failures: journaled_failures(failures),
                    publication_started,
                },
            };
            &&& is_consistent(journal, batch_id)
            &&& outcome_of(journal) == Ok::<OutcomeView, GitFailure>(
                BatchCommitOutcome::Committed { commit, successful, failures },
            )
        }),
        successful.len() == 0 ==> ({
            let journal = TransactionJournal {
                batch_id,
                queue_identity,
                base_commit,
                claims: journaled_all(claims),
                claim_failures,
                state: StateView::NoChanges { failures: journaled_failures(failures) },
            };
            &&& is_consistent(journal, batch_id)
            &&& outcome_of(journal) == Ok::<OutcomeView, GitFailure>(
                BatchCommitOutcome::NoChanges { failures },
            )
        }),
{
    let stored = journaled_all(claims);
    let tokens = successful + failure_tokens(failures);
    let all = claim_tokens(claims);
    let journal = TransactionJournal {
        batch_id,
        queue_identity,
        base_commit,
        claims: stored,
        claim_failures,
        state: JournalState::Committed {
            commit,
            successful: token_requests(successful),
            failures: journaled_failures(failures),
            publication_started,
        },
    };
    let unchanged = TransactionJournal {
        batch_id,
        queue_identity,
        base_commit,
        claims: stored,
        claim_failures,
        state: StateView::NoChanges { failures: journaled_failures(failures) },
    };
    assert forall|i: int| 0 <= i < tokens.len() implies all.contains(#[trigger] tokens[i])
        && tokens[i].batch_id == batch_id && tokens[i].attempt > 0 by {
        assert(tokens.to_set().contains(tokens[i]));
        let a = choose|a: int| 0 <= a < all.len() && all[a] == tokens[i];
        assert(all[a] == claims[a].token);
    }
    assert forall|i: int| 0 <= i < successful.len() implies all.contains(#[trigger] successful[i])
        && successful[i].batch_id == batch_id && successful[i].attempt > 0 by {
        assert(tokens[i] == successful[i]);
    }
    assert forall|i: int| 0 <= i < failures.len() implies all.contains(
        (#[trigger] failures[i]).token,
    ) && failures[i].token.batch_id == batch_id && failures[i].token.attempt > 0 by {
        assert(tokens[successful.len() + i] == failures[i].token);
    }
    tokens_of_claims(journal, claims, successful);
    failures_of_claims(journal, claims, failures);
    failures_of_claims(unchanged, claims, failures);
    requests_of_tokens(tokens, batch_id, claims);
    assert(failed_requests(journaled_failures(failures)) =~= token_requests(
        failure_tokens(failures),
    ));
    assert(decided(journal.state) =~= token_requests(tokens));
    assert(claimed_requests(stored) =~= token_requests(all));
    assert(claims_in_order(stored));
    if successful.len() == 0 {
        assert(decided(unchanged.state) =~= token_requests(tokens));
    }
}

} // verus!
