//! Publication of one claimed batch: the repository transaction, its build, the search index, the
//! release, and the end of the requests in the queue.
use crate::git_error::{git_message, GitFailure, GitTransactionError};
use crate::git_text::ObjectId;
use crate::journal::{BatchCommitOutcome, ClaimToken, OutcomeView, RequestFailure};
use crate::read_error::{read_message, CommittedReadError, ReadFailure};
use crate::search_error::{store_message, SearchIndexStoreError, StoreFailure};
use crate::text::{join2, join5, same_text};
use vstd::prelude::*;
use vstd::string::*;

verus! {

/// Failure while completing or recovering one Worker batch.
#[allow(inconsistent_fields)]
#[derive(Debug)]
pub enum BatchProcessorError<
    T = String,
    G = GitTransactionError,
    C = CommittedReadError,
    S = SearchIndexStoreError,
> {
    /// Repository transaction or journal validation failed.
    Repository(G),
    /// Quartz execution failed.
    Quartz(T),
    /// Immutable release preparation or activation failed.
    Release(T),
    /// The canonical committed snapshot could not be opened for indexing.
    CommittedRead(C),
    /// Persistent search index publication failed.
    SearchIndex(S),
    /// A terminal queue transition failed.
    Queue(T),
    /// The repository requested publication without a successful trial output.
    MissingBuildOutput,
    /// A committed batch had no recoverable prepared release.
    MissingPreparedRelease,
    /// The canonical committed snapshot did not match the completed batch.
    SearchSnapshotCommitMismatch {
        /// Commit produced by the completed repository transaction.
        expected: T,
        /// Commit observed from the canonical read boundary.
        actual: T,
    },
}

/// A failure with its texts as sequences.
pub type ProcessorFailure = BatchProcessorError<Seq<char>, GitFailure, ReadFailure, StoreFailure>;

impl View for BatchProcessorError {
    type V = ProcessorFailure;

    open spec fn view(&self) -> ProcessorFailure {
        match *self {
            BatchProcessorError::Repository(error) => BatchProcessorError::Repository(error@),
            BatchProcessorError::Quartz(reason) => BatchProcessorError::Quartz(reason@),
            BatchProcessorError::Release(reason) => BatchProcessorError::Release(reason@),
            BatchProcessorError::CommittedRead(error) => BatchProcessorError::CommittedRead(error@),
            BatchProcessorError::SearchIndex(error) => BatchProcessorError::SearchIndex(error@),
            BatchProcessorError::Queue(reason) => BatchProcessorError::Queue(reason@),
            BatchProcessorError::MissingBuildOutput => BatchProcessorError::MissingBuildOutput,
            BatchProcessorError::MissingPreparedRelease =>
                BatchProcessorError::MissingPreparedRelease,
            BatchProcessorError::SearchSnapshotCommitMismatch { expected, actual } =>
                BatchProcessorError::SearchSnapshotCommitMismatch {
                    expected: expected@,
                    actual: actual@,
                },
        }
    }
}

/// What a failure is reported as.
pub open spec fn processor_message(failure: ProcessorFailure) -> Seq<char> {
    match failure {
        BatchProcessorError::Repository(error) => "repository transaction failed: "@ + git_message(
            error,
        ),
        BatchProcessorError::Quartz(reason) => "Quartz build failed: "@ + reason,
        BatchProcessorError::Release(reason) => "release publication failed: "@ + reason,
        BatchProcessorError::CommittedRead(error) => "committed search snapshot failed: "@
            + read_message(error),
        BatchProcessorError::SearchIndex(error) => "search index publication failed: "@
            + store_message(error),
        BatchProcessorError::Queue(reason) => "terminal queue reconciliation failed: "@ + reason,
        BatchProcessorError::MissingBuildOutput =>
            "repository publication has no successful Quartz output"@,
        BatchProcessorError::MissingPreparedRelease =>
            "committed batch has no recoverable prepared release"@,
        BatchProcessorError::SearchSnapshotCommitMismatch { expected, actual } =>
            "committed search snapshot `"@ + actual + "` does not match batch commit `"@ + expected
                + "`"@,
    }
}

impl BatchProcessorError {
    /// What the failure is reported as.
    pub fn message(&self) -> (text: String)
        ensures
            text@ == processor_message(self@),
    {
        match self {
            BatchProcessorError::Repository(error) => join2(
                "repository transaction failed: ",
                error.message().as_str(),
            ),
            BatchProcessorError::Quartz(reason) => join2("Quartz build failed: ", reason.as_str()),
            BatchProcessorError::Release(reason) => join2(
                "release publication failed: ",
                reason.as_str(),
            ),
            BatchProcessorError::CommittedRead(error) => join2(
                "committed search snapshot failed: ",
                error.message().as_str(),
            ),
            BatchProcessorError::SearchIndex(error) => join2(
                "search index publication failed: ",
                error.message().as_str(),
            ),
            BatchProcessorError::Queue(reason) => join2(
                "terminal queue reconciliation failed: ",
                reason.as_str(),
            ),
            BatchProcessorError::MissingBuildOutput =>
                "repository publication has no successful Quartz output".to_owned(),
            BatchProcessorError::MissingPreparedRelease =>
                "committed batch has no recoverable prepared release".to_owned(),
            BatchProcessorError::SearchSnapshotCommitMismatch { expected, actual } => join5(
                "committed search snapshot `",
                actual.as_str(),
                "` does not match batch commit `",
                expected.as_str(),
                "`",
            ),
        }
    }
}

/// How a batch is published.
#[derive(Clone, Copy, Debug, PartialEq, Eq, Structural)]
pub enum Publication {
    /// Its claims are applied in a new transaction.
    Process,
    /// Its interrupted transaction is completed.
    Recover,
}

/// Where the publication of a batch stands.
#[derive(Clone, Copy, Debug, PartialEq, Eq, Structural)]
pub enum ProcessorPhase {
    /// The repository transaction is under way.
    Transacting,
    /// The content is being built on trial.
    Building,
    /// A release is being prepared.
    Preparing,
    /// An interrupted preparation is being resumed.
    Resuming {
        /// The commit.
        commit: ObjectId,
    },
    /// A stale build is being discarded.
    DiscardingStale {
        /// The commit.
        commit: ObjectId,
    },
    /// The content is being built once more.
    Rebuilding {
        /// The commit.
        commit: ObjectId,
    },
    /// The transaction of a failed trial is being undone.
    Aborting,
    /// The build of a failed trial is being discarded.
    DiscardingFailed,
    /// The selected search index is being looked up.
    IndexLookup,
    /// The committed snapshot is being opened.
    IndexSnapshot,
    /// A search index is being prepared and selected.
    IndexPublishing,
    /// A prepared release is being looked for.
    FindingRelease,
    /// The active release is being read.
    ReadingActive,
    /// A release is being activated.
    Activating,
    /// The requests are being ended in the queue.
    Reconciling,
    /// The journal of the transaction is being removed.
    Finalizing,
    /// Nothing is left to do.
    Ended,
}

/// What is done next.
#[derive(Debug)]
pub enum ProcessorAction<
    S = Vec<ClaimToken>,
    F = Vec<RequestFailure>,
    E = BatchProcessorError,
    O = BatchCommitOutcome,
> {
    /// Run the repository transaction.
    Transact,
    /// Accept or refuse what the transaction asked for, and run it further.
    Answer(bool),
    /// Build the content.
    Build,
    /// Prepare a release of what was built.
    Prepare {
        /// The commit.
        commit: ObjectId,
    },
    /// Resume an interrupted preparation.
    ResumePrepare {
        /// The commit.
        commit: ObjectId,
    },
    /// Discard what was built.
    DiscardBuild,
    /// Undo the prepared transaction.
    AbortPreparing,
    /// Look up the commit of the selected search index.
    LookupIndex,
    /// Open the committed snapshot and read its commit.
    OpenSnapshot,
    /// Prepare and select a search index of the snapshot.
    PublishIndex,
    /// Look for a prepared release.
    FindPrepared {
        /// The commit.
        commit: ObjectId,
    },
    /// Read the commit of the active release.
    ReadActive,
    /// Activate the prepared release.
    Activate,
    /// End the requests in the queue.
    Reconcile {
        /// Those that succeeded.
        successful: S,
        /// Those that failed.
        failures: F,
    },
    /// Remove the journal of the transaction.
    Finalize {
        /// Whether a release has to be active for the commit.
        released: bool,
    },
    /// Nothing: the publication has ended.
    Finish(Result<O, E>),
}

/// An action with its lists and texts as sequences.
pub type ProcessorActionView = ProcessorAction<
    Seq<ClaimToken>,
    Seq<RequestFailure>,
    ProcessorFailure,
    OutcomeView,
>;

impl View for ProcessorAction {
    type V = ProcessorActionView;

    open spec fn view(&self) -> ProcessorActionView {
        match *self {
            ProcessorAction::Transact => ProcessorAction::Transact,
            ProcessorAction::Answer(accepted) => ProcessorAction::Answer(accepted),
            ProcessorAction::Build => ProcessorAction::Build,
            ProcessorAction::Prepare { commit } => ProcessorAction::Prepare { commit },
            ProcessorAction::ResumePrepare { commit } => ProcessorAction::ResumePrepare { commit },
            ProcessorAction::DiscardBuild => ProcessorAction::DiscardBuild,
            ProcessorAction::AbortPreparing => ProcessorAction::AbortPreparing,
            ProcessorAction::LookupIndex => ProcessorAction::LookupIndex,
            ProcessorAction::OpenSnapshot => ProcessorAction::OpenSnapshot,
            ProcessorAction::PublishIndex => ProcessorAction::PublishIndex,
            ProcessorAction::FindPrepared { commit } => ProcessorAction::FindPrepared { commit },
            ProcessorAction::ReadActive => ProcessorAction::ReadActive,
            ProcessorAction::Activate => ProcessorAction::Activate,
            ProcessorAction::Reconcile { successful, failures } => ProcessorAction::Reconcile {
                successful: successful@,
                failures: failures@,
            },
            ProcessorAction::Finalize { released } => ProcessorAction::Finalize { released },
            ProcessorAction::Finish(Ok(outcome)) => ProcessorAction::Finish(Ok(outcome@)),
            ProcessorAction::Finish(Err(error)) => ProcessorAction::Finish(Err(error@)),
        }
    }
}

/// What came of an action.
#[derive(Debug)]
pub enum ProcessorReply {
    /// It was done.
    Done,
    /// It failed.
    Failed(BatchProcessorError),
    /// The transaction asks for a trial build.
    BuildAsked,
    /// The transaction asks for a release of a commit.
    PublishAsked {
        /// The commit.
        commit: ObjectId,
    },
    /// The transaction ended.
    Ended(Result<BatchCommitOutcome, GitTransactionError>),
    /// No interrupted preparation can be resumed, as the text says.
    NothingToResume(String),
    /// Whether something was found.
    Found(bool),
    /// A commit, if there is one.
    Commit(Option<String>),
}

/// The publication of a batch.
#[derive(Debug)]
pub struct BatchProcessor<E = Option<BatchProcessorError>, O = Option<BatchCommitOutcome>> {
    /// How it is published.
    pub publication: Publication,
    /// Whether committed batches get a search index.
    pub search: bool,
    /// Where it stands.
    pub phase: ProcessorPhase,
    /// Whether there is a build that no release was made of.
    pub built: bool,
    /// Whether a release is prepared.
    pub prepared: bool,
    /// Whether the trial build failed.
    pub trial_failed: bool,
    /// Why an answer was a refusal.
    pub callback_error: E,
    /// What the transaction ended with.
    pub outcome: O,
}

/// A publication with its lists and texts as sequences.
pub type ProcessorView = BatchProcessor<Option<ProcessorFailure>, Option<OutcomeView>>;

impl View for BatchProcessor {
    type V = ProcessorView;

    open spec fn view(&self) -> ProcessorView {
        BatchProcessor {
            publication: self.publication,
            search: self.search,
            phase: self.phase,
            built: self.built,
            prepared: self.prepared,
            trial_failed: self.trial_failed,
            callback_error: match self.callback_error {
                Some(error) => Some(error@),
                None => None,
            },
            outcome: match self.outcome {
                Some(outcome) => Some(outcome@),
                None => None,
            },
        }
    }
}

/// A publication and what it does next.
pub type ProcessorStep = (ProcessorView, ProcessorActionView);

/// A publication that goes on in a phase.
pub open spec fn onward(
    state: ProcessorView,
    phase: ProcessorPhase,
    action: ProcessorActionView,
) -> ProcessorStep {
    (BatchProcessor { phase, ..state }, action)
}

/// A publication that fails.
pub open spec fn ended(state: ProcessorView, failure: ProcessorFailure) -> ProcessorStep {
    onward(state, ProcessorPhase::Ended, ProcessorAction::Finish(Err(failure)))
}

/// A publication that accepts what the transaction asked for.
pub open spec fn accepted(state: ProcessorView) -> ProcessorStep {
    onward(state, ProcessorPhase::Transacting, ProcessorAction::Answer(true))
}

/// A publication that refuses what the transaction asked for.
pub open spec fn refused(state: ProcessorView, failure: ProcessorFailure) -> ProcessorStep {
    onward(
        BatchProcessor { callback_error: Some(failure), ..state },
        ProcessorPhase::Transacting,
        ProcessorAction::Answer(false),
    )
}

/// The commit that a publication is about, if the transaction made one.
pub open spec fn committed(state: ProcessorView) -> Option<ObjectId> {
    match state.outcome {
        Some(BatchCommitOutcome::Committed { commit, .. }) => Some(commit),
        _ => None,
    }
}

/// A publication that ends the requests in the queue.
pub open spec fn reconciling(state: ProcessorView) -> ProcessorStep {
    onward(
        state,
        ProcessorPhase::Reconciling,
        match state.outcome {
            Some(BatchCommitOutcome::Committed { successful, failures, .. }) =>
                ProcessorAction::Reconcile { successful, failures },
            Some(BatchCommitOutcome::NoChanges { failures }) => ProcessorAction::Reconcile {
                successful: Seq::empty(),
                failures,
            },
            None => ProcessorAction::Reconcile { successful: Seq::empty(), failures: Seq::empty() },
        },
    )
}

/// A publication that activates its release.
pub open spec fn activating(state: ProcessorView) -> ProcessorStep {
    onward(state, ProcessorPhase::Activating, ProcessorAction::Activate)
}

/// A publication whose search index is settled.
pub open spec fn indexed(state: ProcessorView, commit: ObjectId) -> ProcessorStep {
    match state.publication {
        Publication::Recover => onward(
            state,
            ProcessorPhase::ReadingActive,
            ProcessorAction::ReadActive,
        ),
        Publication::Process => if state.prepared {
            activating(state)
        } else {
            onward(
                state,
                ProcessorPhase::FindingRelease,
                ProcessorAction::FindPrepared { commit },
            )
        },
    }
}

/// How a publication goes on once the transaction ended.
pub open spec fn transacted(
    state: ProcessorView,
    result: Result<OutcomeView, GitFailure>,
) -> ProcessorStep {
    match result {
        Ok(outcome) => {
            let state = BatchProcessor { outcome: Some(outcome), ..state };
            match outcome {
                BatchCommitOutcome::NoChanges { .. } => reconciling(state),
                BatchCommitOutcome::Committed { commit, .. } => if state.search {
                    onward(state, ProcessorPhase::IndexLookup, ProcessorAction::LookupIndex)
                } else {
                    indexed(state, commit)
                },
            }
        },
        Err(error) => {
            let failure = match state.callback_error {
                Some(failure) => failure,
                None => BatchProcessorError::Repository(error),
            };
            if state.publication == Publication::Process && (state.trial_failed || state.built) {
                onward(
                    BatchProcessor { callback_error: Some(failure), built: false, ..state },
                    ProcessorPhase::Aborting,
                    ProcessorAction::AbortPreparing,
                )
            } else {
                ended(BatchProcessor { callback_error: None, ..state }, failure)
            }
        },
    }
}

/// How a publication goes on after an event of its transaction.
pub open spec fn answered(state: ProcessorView, reply: ProcessorReply) -> ProcessorStep {
    match (state.phase, reply) {
        (ProcessorPhase::Transacting, ProcessorReply::Ended(result)) => transacted(
            state,
            match result {
                Ok(outcome) => Ok(outcome@),
                Err(error) => Err(error@),
            },
        ),
        (ProcessorPhase::Transacting, ProcessorReply::BuildAsked) => onward(
            state,
            ProcessorPhase::Building,
            ProcessorAction::Build,
        ),
        (ProcessorPhase::Transacting, ProcessorReply::PublishAsked { commit }) =>
            match state.publication {
                Publication::Process => if state.built {
                    onward(
                        BatchProcessor { built: false, ..state },
                        ProcessorPhase::Preparing,
                        ProcessorAction::Prepare { commit },
                    )
                } else {
                    refused(state, BatchProcessorError::MissingBuildOutput)
                },
                Publication::Recover => onward(
                    state,
                    ProcessorPhase::Resuming { commit },
                    ProcessorAction::ResumePrepare { commit },
                ),
            },
        (ProcessorPhase::Building, ProcessorReply::Done) => accepted(
            BatchProcessor { built: true, ..state },
        ),
        (ProcessorPhase::Building, ProcessorReply::Failed(error)) => refused(
            BatchProcessor { trial_failed: true, ..state },
            error@,
        ),
        (ProcessorPhase::Preparing, ProcessorReply::Done) => accepted(
            BatchProcessor { prepared: true, ..state },
        ),
        (ProcessorPhase::Preparing, ProcessorReply::Failed(error)) => refused(state, error@),
        (ProcessorPhase::Resuming { .. }, ProcessorReply::Done) => accepted(
            BatchProcessor { prepared: true, ..state },
        ),
        (ProcessorPhase::Resuming { .. }, ProcessorReply::Failed(error)) => refused(state, error@),
        (ProcessorPhase::Resuming { commit }, ProcessorReply::NothingToResume(_)) => onward(
            state,
            ProcessorPhase::DiscardingStale { commit },
            ProcessorAction::DiscardBuild,
        ),
        (ProcessorPhase::DiscardingStale { commit }, ProcessorReply::Done) => onward(
            state,
            ProcessorPhase::Rebuilding { commit },
            ProcessorAction::Build,
        ),
        (ProcessorPhase::DiscardingStale { .. }, ProcessorReply::Failed(error)) => refused(
            state,
            error@,
        ),
        (ProcessorPhase::Rebuilding { commit }, ProcessorReply::Done) => onward(
            state,
            ProcessorPhase::Preparing,
            ProcessorAction::Prepare { commit },
        ),
        (ProcessorPhase::Rebuilding { .. }, ProcessorReply::Failed(error)) => refused(
            state,
            error@,
        ),
        _ => ended(state, BatchProcessorError::MissingBuildOutput),
    }
}

/// The failure that ends a publication once its trial is undone.
pub open spec fn kept_failure(state: ProcessorView) -> ProcessorFailure {
    match state.callback_error {
        Some(failure) => failure,
        None => BatchProcessorError::MissingBuildOutput,
    }
}

/// How a publication goes on after its transaction ended.
pub open spec fn released(state: ProcessorView, reply: ProcessorReply) -> ProcessorStep {
    match (committed(state), state.phase, reply) {
        (_, _, ProcessorReply::Failed(error)) => ended(state, error@),
        (_, ProcessorPhase::Aborting, ProcessorReply::Done) => onward(
            state,
            ProcessorPhase::DiscardingFailed,
            ProcessorAction::DiscardBuild,
        ),
        (_, ProcessorPhase::DiscardingFailed, ProcessorReply::Done) => ended(
            BatchProcessor { callback_error: None, ..state },
            kept_failure(state),
        ),
        (Some(commit), ProcessorPhase::IndexLookup, ProcessorReply::Commit(found)) =>
            if found matches Some(text) && text@ == commit.spec_text() {
                indexed(state, commit)
            } else {
                onward(state, ProcessorPhase::IndexSnapshot, ProcessorAction::OpenSnapshot)
            },
        (Some(commit), ProcessorPhase::IndexSnapshot, ProcessorReply::Commit(Some(actual))) =>
            if actual@ == commit.spec_text() {
                onward(state, ProcessorPhase::IndexPublishing, ProcessorAction::PublishIndex)
            } else {
                ended(
                    state,
                    BatchProcessorError::SearchSnapshotCommitMismatch {
                        expected: commit.spec_text(),
                        actual: actual@,
                    },
                )
            },
        (Some(commit), ProcessorPhase::IndexPublishing, ProcessorReply::Done) => indexed(
            state,
            commit,
        ),
        (Some(commit), ProcessorPhase::ReadingActive, ProcessorReply::Commit(found)) =>
            if found matches Some(text) && text@ == commit.spec_text() {
                reconciling(state)
            } else if state.prepared {
                activating(state)
            } else {
                onward(
                    state,
                    ProcessorPhase::FindingRelease,
                    ProcessorAction::ResumePrepare { commit },
                )
            },
        (Some(_), ProcessorPhase::FindingRelease, ProcessorReply::Found(true)) => activating(state),
        (Some(_), ProcessorPhase::FindingRelease, ProcessorReply::Done) => activating(state),
        (Some(_), ProcessorPhase::FindingRelease, ProcessorReply::NothingToResume(reason)) => ended(
            state,
            BatchProcessorError::Release(reason@),
        ),
        (Some(_), ProcessorPhase::Activating, ProcessorReply::Done) => reconciling(state),
        (_, ProcessorPhase::Reconciling, ProcessorReply::Done) => onward(
            state,
            ProcessorPhase::Finalizing,
            ProcessorAction::Finalize { released: committed(state) is Some },
        ),
        (_, ProcessorPhase::Finalizing, ProcessorReply::Done) => match state.outcome {
            Some(outcome) => onward(
                BatchProcessor { outcome: None, ..state },
                ProcessorPhase::Ended,
                ProcessorAction::Finish(Ok(outcome)),
            ),
            None => ended(state, BatchProcessorError::MissingPreparedRelease),
        },
        _ => ended(state, BatchProcessorError::MissingPreparedRelease),
    }
}

/// Whether the repository transaction has not ended in a phase.
pub open spec fn is_transacting(phase: ProcessorPhase) -> bool {
    match phase {
        ProcessorPhase::Transacting => true,
        ProcessorPhase::Building => true,
        ProcessorPhase::Preparing => true,
        ProcessorPhase::Resuming { .. } => true,
        ProcessorPhase::DiscardingStale { .. } => true,
        ProcessorPhase::Rebuilding { .. } => true,
        _ => false,
    }
}

/// How a publication goes on after a reply. A reply that does not fit ends it.
pub open spec fn published(state: ProcessorView, reply: ProcessorReply) -> ProcessorStep {
    if is_transacting(state.phase) {
        answered(state, reply)
    } else {
        released(state, reply)
    }
}

/// How a publication begins.
pub open spec fn publication_begun(publication: Publication, search: bool) -> ProcessorStep {
    (
        BatchProcessor {
            publication,
            search,
            phase: ProcessorPhase::Transacting,
            built: false,
            prepared: false,
            trial_failed: false,
            callback_error: None,
            outcome: None,
        },
        ProcessorAction::Transact,
    )
}

/// Copies a list.
fn copy_all<T: Copy>(items: &Vec<T>) -> (copy: Vec<T>)
    ensures
        copy@ == items@,
{
    let mut copy: Vec<T> = Vec::new();
    let mut i: usize = 0;
    while i < items.len()
        invariant
            i <= items@.len(),
            copy@ == items@.take(i as int),
        decreases items@.len() - i,
    {
        copy.push(items[i]);
        assert(items@.take(i as int).push(items@[i as int]) =~= items@.take(i + 1));
        i += 1;
    }
    assert(items@.take(items@.len() as int) =~= items@);
    copy
}

/// Whether an optional text is the name of a commit.
fn names(found: &Option<String>, commit: ObjectId) -> (result: bool)
    ensures
        result == (found matches Some(text) && text@ == commit.spec_text()),
{
    match found {
        Some(text) => same_text(text.as_str(), commit.text().as_str()),
        None => false,
    }
}

impl BatchProcessor {
    /// Begins to publish a batch.
    pub fn begin(publication: Publication, search: bool) -> (result: (
        BatchProcessor,
        ProcessorAction,
    ))
        ensures
            (result.0@, result.1@) == publication_begun(publication, search),
    {
        (
            BatchProcessor {
                publication,
                search,
                phase: ProcessorPhase::Transacting,
                built: false,
                prepared: false,
                trial_failed: false,
                callback_error: None,
                outcome: None,
            },
            ProcessorAction::Transact,
        )
    }

    fn onward(self, phase: ProcessorPhase, action: ProcessorAction) -> (result: (
        BatchProcessor,
        ProcessorAction,
    ))
        ensures
            (result.0@, result.1@) == onward(self@, phase, action@),
    {
        let mut state = self;
        state.phase = phase;
        (state, action)
    }

    fn end(self, error: BatchProcessorError) -> (result: (BatchProcessor, ProcessorAction))
        ensures
            (result.0@, result.1@) == ended(self@, error@),
    {
        self.onward(ProcessorPhase::Ended, ProcessorAction::Finish(Err(error)))
    }

    fn accept(self) -> (result: (BatchProcessor, ProcessorAction))
        ensures
            (result.0@, result.1@) == accepted(self@),
    {
        self.onward(ProcessorPhase::Transacting, ProcessorAction::Answer(true))
    }

    fn refuse(self, error: BatchProcessorError) -> (result: (BatchProcessor, ProcessorAction))
        ensures
            (result.0@, result.1@) == refused(self@, error@),
    {
        let mut state = self;
        state.callback_error = Some(error);
        state.onward(ProcessorPhase::Transacting, ProcessorAction::Answer(false))
    }

    fn commit(&self) -> (result: Option<ObjectId>)
        ensures
            result == committed(self@),
    {
        match &self.outcome {
            Some(BatchCommitOutcome::Committed { commit, .. }) => Some(*commit),
            _ => None,
        }
    }

    fn reconcile(self) -> (result: (BatchProcessor, ProcessorAction))
        ensures
            (result.0@, result.1@) == reconciling(self@),
    {
        let nothing: Vec<ClaimToken> = Vec::new();
        assert(nothing@ =~= Seq::<ClaimToken>::empty());
        let action = match &self.outcome {
            Some(BatchCommitOutcome::Committed { successful, failures, .. }) =>
                ProcessorAction::Reconcile {
                    successful: copy_all(successful),
                    failures: copy_all(failures),
                },
            Some(BatchCommitOutcome::NoChanges { failures }) => ProcessorAction::Reconcile {
                successful: nothing,
                failures: copy_all(failures),
            },
            None => {
                let failures: Vec<RequestFailure> = Vec::new();
                assert(failures@ =~= Seq::<RequestFailure>::empty());
                ProcessorAction::Reconcile { successful: nothing, failures }
            },
        };
        self.onward(ProcessorPhase::Reconciling, action)
    }

    fn activate(self) -> (result: (BatchProcessor, ProcessorAction))
        ensures
            (result.0@, result.1@) == activating(self@),
    {
        self.onward(ProcessorPhase::Activating, ProcessorAction::Activate)
    }

    fn release(self, commit: ObjectId) -> (result: (BatchProcessor, ProcessorAction))
        ensures
            (result.0@, result.1@) == indexed(self@, commit),
    {
        match self.publication {
            Publication::Recover => self.onward(
                ProcessorPhase::ReadingActive,
                ProcessorAction::ReadActive,
            ),
            Publication::Process => if self.prepared {
                self.activate()
            } else {
                self.onward(
                    ProcessorPhase::FindingRelease,
                    ProcessorAction::FindPrepared { commit },
                )
            },
        }
    }

    fn end_transaction(self, transaction: Result<BatchCommitOutcome, GitTransactionError>) -> (result:
        (BatchProcessor, ProcessorAction))
        ensures
            (result.0@, result.1@) == transacted(
                self@,
                match transaction {
                    Ok(outcome) => Ok(outcome@),
                    Err(error) => Err(error@),
                },
            ),
    {
        let mut state = self;
        match transaction {
            Ok(outcome) => {
                state.outcome = Some(outcome);
                match state.commit() {
                    None => state.reconcile(),
                    Some(commit) => if state.search {
                        state.onward(ProcessorPhase::IndexLookup, ProcessorAction::LookupIndex)
                    } else {
                        state.release(commit)
                    },
                }
            },
            Err(error) => {
                let failure = match state.callback_error.take() {
                    Some(failure) => failure,
                    None => BatchProcessorError::Repository(error),
                };
                if state.publication == Publication::Process && (state.trial_failed
                    || state.built) {
                    state.callback_error = Some(failure);
                    state.built = false;
                    state.onward(ProcessorPhase::Aborting, ProcessorAction::AbortPreparing)
                } else {
                    state.end(failure)
                }
            },
        }
    }

    fn step_transaction(self, reply: ProcessorReply) -> (result: (BatchProcessor, ProcessorAction))
        ensures
            (result.0@, result.1@) == answered(self@, reply),
    {
        let mut state = self;
        match (state.phase, reply) {
            (ProcessorPhase::Transacting, ProcessorReply::Ended(result)) => state.end_transaction(
                result,
            ),
            (ProcessorPhase::Transacting, ProcessorReply::BuildAsked) => state.onward(
                ProcessorPhase::Building,
                ProcessorAction::Build,
            ),
            (ProcessorPhase::Transacting, ProcessorReply::PublishAsked { commit }) =>
                match state.publication {
                    Publication::Process => if state.built {
                        state.built = false;
                        state.onward(
                            ProcessorPhase::Preparing,
                            ProcessorAction::Prepare { commit },
                        )
                    } else {
                        state.refuse(BatchProcessorError::MissingBuildOutput)
                    },
                    Publication::Recover => state.onward(
                        ProcessorPhase::Resuming { commit },
                        ProcessorAction::ResumePrepare { commit },
                    ),
                },
            (ProcessorPhase::Building, ProcessorReply::Done) => {
                state.built = true;
                state.accept()
            },
            (ProcessorPhase::Building, ProcessorReply::Failed(error)) => {
                state.trial_failed = true;
                state.refuse(error)
            },
            (ProcessorPhase::Preparing, ProcessorReply::Done) => {
                state.prepared = true;
                state.accept()
            },
            (ProcessorPhase::Preparing, ProcessorReply::Failed(error)) => state.refuse(error),
            (ProcessorPhase::Resuming { .. }, ProcessorReply::Done) => {
                state.prepared = true;
                state.accept()
            },
            (ProcessorPhase::Resuming { .. }, ProcessorReply::Failed(error)) => state.refuse(error),
            (ProcessorPhase::Resuming { commit }, ProcessorReply::NothingToResume(_)) => state.onward(
                ProcessorPhase::DiscardingStale { commit },
                ProcessorAction::DiscardBuild,
            ),
            (ProcessorPhase::DiscardingStale { commit }, ProcessorReply::Done) => state.onward(
                ProcessorPhase::Rebuilding { commit },
                ProcessorAction::Build,
            ),
            (ProcessorPhase::DiscardingStale { .. }, ProcessorReply::Failed(error)) => state.refuse(
                error,
            ),
            (ProcessorPhase::Rebuilding { commit }, ProcessorReply::Done) => state.onward(
                ProcessorPhase::Preparing,
                ProcessorAction::Prepare { commit },
            ),
            (ProcessorPhase::Rebuilding { .. }, ProcessorReply::Failed(error)) => state.refuse(
                error,
            ),
            _ => state.end(BatchProcessorError::MissingBuildOutput),
        }
    }

    fn step_index(self, commit: ObjectId, reply: ProcessorReply) -> (result: (
        BatchProcessor,
        ProcessorAction,
    ))
        requires
            committed(self@) == Some(commit),
            !(reply is Failed),
            self.phase is IndexLookup || self.phase is IndexSnapshot
                || self.phase is IndexPublishing,
        ensures
            (result.0@, result.1@) == released(self@, reply),
    {
        match (self.phase, reply) {
            (ProcessorPhase::IndexLookup, ProcessorReply::Commit(found)) => if names(
                &found,
                commit,
            ) {
                self.release(commit)
            } else {
                self.onward(ProcessorPhase::IndexSnapshot, ProcessorAction::OpenSnapshot)
            },
            (ProcessorPhase::IndexSnapshot, ProcessorReply::Commit(Some(actual))) => {
                let expected = commit.text();
                if same_text(actual.as_str(), expected.as_str()) {
                    self.onward(ProcessorPhase::IndexPublishing, ProcessorAction::PublishIndex)
                } else {
                    self.end(BatchProcessorError::SearchSnapshotCommitMismatch { expected, actual })
                }
            },
            (ProcessorPhase::IndexPublishing, ProcessorReply::Done) => self.release(commit),
            _ => self.end(BatchProcessorError::MissingPreparedRelease),
        }
    }

    fn step_release(self, commit: ObjectId, reply: ProcessorReply) -> (result: (
        BatchProcessor,
        ProcessorAction,
    ))
        requires
            committed(self@) == Some(commit),
            !(reply is Failed),
            self.phase is ReadingActive || self.phase is FindingRelease || self.phase is Activating,
        ensures
            (result.0@, result.1@) == released(self@, reply),
    {
        match (self.phase, reply) {
            (ProcessorPhase::ReadingActive, ProcessorReply::Commit(found)) => if names(
                &found,
                commit,
            ) {
                self.reconcile()
            } else if self.prepared {
                self.activate()
            } else {
                self.onward(
                    ProcessorPhase::FindingRelease,
                    ProcessorAction::ResumePrepare { commit },
                )
            },
            (ProcessorPhase::FindingRelease, ProcessorReply::Found(true)) => self.activate(),
            (ProcessorPhase::FindingRelease, ProcessorReply::Done) => self.activate(),
            (ProcessorPhase::FindingRelease, ProcessorReply::NothingToResume(reason)) => self.end(
                BatchProcessorError::Release(reason),
            ),
            (ProcessorPhase::Activating, ProcessorReply::Done) => self.reconcile(),
            _ => self.end(BatchProcessorError::MissingPreparedRelease),
        }
    }

    fn step_end(self, reply: ProcessorReply) -> (result: (BatchProcessor, ProcessorAction))
        requires
            !is_transacting(self.phase),
            !(reply is Failed),
            self.phase !is IndexLookup && self.phase !is IndexSnapshot
                && self.phase !is IndexPublishing && self.phase !is ReadingActive
                && self.phase !is FindingRelease && self.phase !is Activating,
        ensures
            (result.0@, result.1@) == released(self@, reply),
    {
        let mut state = self;
        match (state.phase, reply) {
            (ProcessorPhase::Aborting, ProcessorReply::Done) => state.onward(
                ProcessorPhase::DiscardingFailed,
                ProcessorAction::DiscardBuild,
            ),
            (ProcessorPhase::DiscardingFailed, ProcessorReply::Done) => {
                let failure = match state.callback_error.take() {
                    Some(failure) => failure,
                    None => BatchProcessorError::MissingBuildOutput,
                };
                state.end(failure)
            },
            (ProcessorPhase::Reconciling, ProcessorReply::Done) => {
                let released = state.commit().is_some();
                state.onward(ProcessorPhase::Finalizing, ProcessorAction::Finalize { released })
            },
            (ProcessorPhase::Finalizing, ProcessorReply::Done) => match state.outcome.take() {
                Some(outcome) => state.onward(
                    ProcessorPhase::Ended,
                    ProcessorAction::Finish(Ok(outcome)),
                ),
                None => state.end(BatchProcessorError::MissingPreparedRelease),
            },
            _ => state.end(BatchProcessorError::MissingPreparedRelease),
        }
    }

    /// Decides what comes after a reply.
    pub fn step(self, reply: ProcessorReply) -> (result: (BatchProcessor, ProcessorAction))
        ensures
            (result.0@, result.1@) == published(self@, reply),
    {
        match self.phase {
            ProcessorPhase::Transacting | ProcessorPhase::Building | ProcessorPhase::Preparing
            | ProcessorPhase::Resuming { .. } | ProcessorPhase::DiscardingStale { .. }
            | ProcessorPhase::Rebuilding { .. } => {
                return self.step_transaction(reply);
            },
            _ => {},
        }
        let reply = match reply {
            ProcessorReply::Failed(error) => {
                return self.end(error);
            },
            other => other,
        };
        match self.phase {
            ProcessorPhase::IndexLookup | ProcessorPhase::IndexSnapshot
            | ProcessorPhase::IndexPublishing => match self.commit() {
                Some(commit) => self.step_index(commit, reply),
                None => self.end(BatchProcessorError::MissingPreparedRelease),
            },
            ProcessorPhase::ReadingActive | ProcessorPhase::FindingRelease
            | ProcessorPhase::Activating => match self.commit() {
                Some(commit) => self.step_release(commit, reply),
                None => self.end(BatchProcessorError::MissingPreparedRelease),
            },
            _ => self.step_end(reply),
        }
    }
}

/// A batch is reported as published only when its journal was removed, with exactly the outcome of
/// its transaction.
pub proof fn published_batches_are_finalized(state: ProcessorView, reply: ProcessorReply)
    ensures
        published(state, reply).1 matches ProcessorAction::Finish(Ok(outcome)) ==> state.phase
            == ProcessorPhase::Finalizing && reply is Done && state.outcome == Some(outcome),
        published(state, reply).1 is Finalize ==> state.phase == ProcessorPhase::Reconciling
            && reply is Done,
{
}

/// The requests of a committed batch are ended only when a release of its commit is active, and
/// with exactly the tokens of its outcome.
pub proof fn committed_batches_are_released_first(state: ProcessorView, reply: ProcessorReply)
    ensures
        published(state, reply).1 matches ProcessorAction::Reconcile { successful, failures } ==> {
            let after = published(state, reply).0;
            match after.outcome {
                Some(BatchCommitOutcome::Committed { commit, successful: listed, failures: refused })
                    => successful == listed && failures == refused && (state.phase
                    == ProcessorPhase::Activating && reply is Done || (state.phase
                    == ProcessorPhase::ReadingActive && (reply matches ProcessorReply::Commit(
                    Some(active),
                ) && active@ == commit.spec_text()))),
                Some(BatchCommitOutcome::NoChanges { failures: refused }) => successful.len() == 0
                    && failures == refused,
                None => false,
            }
        },
{
}

/// A trial whose build failed, or whose build no release was made of, is undone before its failure
/// is reported, and what was refused is what is reported.
pub proof fn failed_trials_are_undone(state: ProcessorView, reply: ProcessorReply)
    requires
        state.phase == ProcessorPhase::Transacting,
        state.publication == Publication::Process,
        state.trial_failed || state.built,
        reply matches ProcessorReply::Ended(Err(_)),
    ensures
        ({
            let (aborting, action) = published(state, reply);
            &&& action == ProcessorActionView::AbortPreparing
            &&& ({
                let (discarding, action) = published(aborting, ProcessorReply::Done);
                &&& action == ProcessorActionView::DiscardBuild
                &&& published(discarding, ProcessorReply::Done).1 matches ProcessorAction::Finish(
                    Err(failure),
                ) && (state.callback_error matches Some(refusal) ==> failure == refusal)
            })
        }),
{
}

} // verus!
