//! Failures of a Worker cycle.
use crate::ids::{ulid_text, BatchId};
use crate::processor::{processor_message, BatchProcessorError, ProcessorFailure};
use crate::text::{decimal, decimal_text, join2, join3, join5};
use vstd::prelude::*;
use vstd::string::*;

verus! {

/// Failure while interrupted claims are collected.
#[allow(inconsistent_fields)]
#[derive(Debug)]
pub enum RecoveryError<T = String> {
    /// Durable queue discovery or transition failed.
    Queue {
        /// Concrete queue failure.
        source: T,
        /// Requests durably rejected before the failure.
        failed_requests: usize,
    },
    /// Interrupted processing exceeded the configured in-memory batch bound.
    TooManyProcessingClaims {
        /// Configured maximum number of claims.
        maximum: usize,
    },
    /// Interrupted claims unexpectedly belonged to multiple batches.
    MultipleProcessingBatches {
        /// Batch found first.
        expected: BatchId,
        /// Conflicting batch found later.
        found: BatchId,
    },
}

/// A failure with its texts as sequences.
pub type RecoveryFailure = RecoveryError<Seq<char>>;

impl View for RecoveryError {
    type V = RecoveryFailure;

    open spec fn view(&self) -> RecoveryFailure {
        match *self {
            RecoveryError::Queue { source, failed_requests } => RecoveryError::Queue {
                source: source@,
                failed_requests,
            },
            RecoveryError::TooManyProcessingClaims { maximum } =>
                RecoveryError::TooManyProcessingClaims { maximum },
            RecoveryError::MultipleProcessingBatches { expected, found } =>
                RecoveryError::MultipleProcessingBatches { expected, found },
        }
    }
}

/// Failure while starting or processing one bounded Worker cycle.
#[allow(inconsistent_fields)]
#[derive(Debug)]
pub enum WorkerRunError<T = String, P = BatchProcessorError, R = RecoveryError> {
    /// Durable queue discovery or transition failed.
    Queue {
        /// Concrete queue failure.
        source: T,
        /// Requests durably rejected before the failure.
        failed_requests: usize,
    },
    /// Repository application or publication failed.
    Processor {
        /// Concrete batch-processing failure.
        source: P,
        /// Requests rejected before repository processing began.
        failed_requests: usize,
    },
    /// Startup recovery failed after a durable journal count was discovered.
    StartupRecovery {
        /// Concrete recovery failure.
        source: R,
        /// Requests rejected before startup recovery began.
        failed_requests: usize,
    },
    /// The independent Git replication thread could not be started.
    ReplicationThread(T),
    /// Interrupted processing exceeded the configured in-memory batch bound.
    TooManyProcessingClaims {
        /// Configured maximum number of claims.
        maximum: usize,
    },
    /// Interrupted claims unexpectedly belonged to multiple batches.
    MultipleProcessingBatches {
        /// Batch found first.
        expected: BatchId,
        /// Conflicting batch found later.
        found: BatchId,
    },
    /// Queue claims and the repository journal named different batches.
    TransactionBatchMismatch {
        /// Batch found in processing queue records.
        processing: BatchId,
        /// Batch found in the repository journal.
        repository: BatchId,
        /// Requests rejected before the repository transaction began.
        failed_requests: usize,
    },
    /// A preparing repository transaction had no live claims to replay.
    MissingProcessingClaims {
        /// Batch named by the repository journal.
        batch_id: BatchId,
        /// Requests rejected before the repository transaction began.
        failed_requests: usize,
    },
    /// A previous cycle failed and startup recovery is required before reuse.
    RecoveryRequired,
}

/// A failure with its texts as sequences.
pub type RunFailure = WorkerRunError<Seq<char>, ProcessorFailure, RecoveryFailure>;

impl View for WorkerRunError {
    type V = RunFailure;

    open spec fn view(&self) -> RunFailure {
        match *self {
            WorkerRunError::Queue { source, failed_requests } => WorkerRunError::Queue {
                source: source@,
                failed_requests,
            },
            WorkerRunError::Processor { source, failed_requests } => WorkerRunError::Processor {
                source: source@,
                failed_requests,
            },
            WorkerRunError::StartupRecovery { source, failed_requests } =>
                WorkerRunError::StartupRecovery { source: source@, failed_requests },
            WorkerRunError::ReplicationThread(reason) => WorkerRunError::ReplicationThread(reason@),
            WorkerRunError::TooManyProcessingClaims { maximum } =>
                WorkerRunError::TooManyProcessingClaims { maximum },
            WorkerRunError::MultipleProcessingBatches { expected, found } =>
                WorkerRunError::MultipleProcessingBatches { expected, found },
            WorkerRunError::TransactionBatchMismatch { processing, repository, failed_requests } =>
                WorkerRunError::TransactionBatchMismatch { processing, repository, failed_requests },
            WorkerRunError::MissingProcessingClaims { batch_id, failed_requests } =>
                WorkerRunError::MissingProcessingClaims { batch_id, failed_requests },
            WorkerRunError::RecoveryRequired => WorkerRunError::RecoveryRequired,
        }
    }
}

/// Requests durably rejected before a cycle failed.
pub open spec fn rejected(failure: RunFailure) -> usize {
    match failure {
        WorkerRunError::Queue { failed_requests, .. } => failed_requests,
        WorkerRunError::Processor { failed_requests, .. } => failed_requests,
        WorkerRunError::StartupRecovery { failed_requests, .. } => failed_requests,
        WorkerRunError::TransactionBatchMismatch { failed_requests, .. } => failed_requests,
        WorkerRunError::MissingProcessingClaims { failed_requests, .. } => failed_requests,
        _ => 0,
    }
}

/// A recovery failure as a failure of the cycle.
pub open spec fn plain(failure: RecoveryFailure) -> RunFailure {
    match failure {
        RecoveryError::Queue { source, failed_requests } => WorkerRunError::Queue {
            source,
            failed_requests,
        },
        RecoveryError::TooManyProcessingClaims { maximum } =>
            WorkerRunError::TooManyProcessingClaims { maximum },
        RecoveryError::MultipleProcessingBatches { expected, found } =>
            WorkerRunError::MultipleProcessingBatches { expected, found },
    }
}

/// A recovery failure after a journal recorded rejected requests: their number is reported unless
/// the failure has one of its own.
pub open spec fn counted(failure: RecoveryFailure, failed_requests: usize) -> RunFailure {
    if failed_requests == 0 || rejected(plain(failure)) > 0 {
        plain(failure)
    } else {
        WorkerRunError::StartupRecovery { source: failure, failed_requests }
    }
}

/// The rejected requests that a recovery failure reports are its own, or else those of the journal.
pub proof fn rejected_requests_are_reported(failure: RecoveryFailure, failed_requests: usize)
    ensures
        rejected(counted(failure, failed_requests)) == if rejected(plain(failure)) > 0 {
            rejected(plain(failure))
        } else {
            failed_requests
        },
{
}

impl RecoveryError {
    fn into_plain(self) -> (error: WorkerRunError)
        ensures
            error@ == plain(self@),
    {
        match self {
            RecoveryError::Queue { source, failed_requests } => WorkerRunError::Queue {
                source,
                failed_requests,
            },
            RecoveryError::TooManyProcessingClaims { maximum } =>
                WorkerRunError::TooManyProcessingClaims { maximum },
            RecoveryError::MultipleProcessingBatches { expected, found } =>
                WorkerRunError::MultipleProcessingBatches { expected, found },
        }
    }

    /// Adds the rejected requests that a journal recorded.
    pub fn with_failed_requests(self, failed_requests: usize) -> (error: WorkerRunError)
        ensures
            error@ == counted(self@, failed_requests),
    {
        let own: usize = match &self {
            RecoveryError::Queue { failed_requests, .. } => *failed_requests,
            _ => 0,
        };
        if failed_requests == 0 || own > 0 {
            self.into_plain()
        } else {
            WorkerRunError::StartupRecovery { source: self, failed_requests }
        }
    }
}

/// What a recovery failure is reported as.
pub open spec fn recovery_message(failure: RecoveryFailure) -> Seq<char> {
    match failure {
        RecoveryError::Queue { source, .. } => "Worker queue operation failed: "@ + source,
        RecoveryError::TooManyProcessingClaims { maximum } =>
            "interrupted processing exceeds the configured "@ + decimal(maximum as nat)
                + "-request bound"@,
        RecoveryError::MultipleProcessingBatches { expected, found } =>
            "interrupted processing names batches `"@ + ulid_text(expected.value) + "` and `"@
                + ulid_text(found.value) + "`"@,
    }
}

/// What a failure is reported as.
pub open spec fn run_message(failure: RunFailure) -> Seq<char> {
    match failure {
        WorkerRunError::Queue { source, .. } => "Worker queue operation failed: "@ + source,
        WorkerRunError::Processor { source, .. } => "Worker batch processing failed: "@
            + processor_message(source),
        WorkerRunError::StartupRecovery { source, .. } => "Worker startup recovery failed: "@
            + recovery_message(source),
        WorkerRunError::ReplicationThread(reason) => "Git replication thread could not start: "@
            + reason,
        WorkerRunError::TooManyProcessingClaims { maximum } => recovery_message(
            RecoveryError::TooManyProcessingClaims { maximum },
        ),
        WorkerRunError::MultipleProcessingBatches { expected, found } => recovery_message(
            RecoveryError::MultipleProcessingBatches { expected, found },
        ),
        WorkerRunError::TransactionBatchMismatch { processing, repository, .. } =>
            "processing batch `"@ + ulid_text(processing.value)
                + "` does not match repository batch `"@ + ulid_text(repository.value) + "`"@,
        WorkerRunError::MissingProcessingClaims { batch_id, .. } =>
            "preparing repository batch `"@ + ulid_text(batch_id.value)
                + "` has no processing claims"@,
        WorkerRunError::RecoveryRequired =>
            "Worker runtime requires startup recovery after a failed processing cycle"@,
    }
}

fn too_many(maximum: usize) -> (text: String)
    ensures
        text@ == recovery_message(RecoveryError::TooManyProcessingClaims { maximum }),
{
    join3(
        "interrupted processing exceeds the configured ",
        decimal_text(maximum as u64).as_str(),
        "-request bound",
    )
}

fn several(expected: BatchId, found: BatchId) -> (text: String)
    ensures
        text@ == recovery_message(RecoveryError::MultipleProcessingBatches { expected, found }),
{
    join5(
        "interrupted processing names batches `",
        expected.text().as_str(),
        "` and `",
        found.text().as_str(),
        "`",
    )
}

impl RecoveryError {
    /// What the failure is reported as.
    pub fn message(&self) -> (text: String)
        ensures
            text@ == recovery_message(self@),
    {
        match self {
            RecoveryError::Queue { source, .. } => join2(
                "Worker queue operation failed: ",
                source.as_str(),
            ),
            RecoveryError::TooManyProcessingClaims { maximum } => too_many(*maximum),
            RecoveryError::MultipleProcessingBatches { expected, found } => several(
                *expected,
                *found,
            ),
        }
    }
}

impl WorkerRunError {
    /// Returns requests durably rejected before this cycle failed.
    pub fn failed_requests(&self) -> (count: usize)
        ensures
            count == rejected(self@),
    {
        match self {
            WorkerRunError::Queue { failed_requests, .. } => *failed_requests,
            WorkerRunError::Processor { failed_requests, .. } => *failed_requests,
            WorkerRunError::StartupRecovery { failed_requests, .. } => *failed_requests,
            WorkerRunError::TransactionBatchMismatch { failed_requests, .. } => *failed_requests,
            WorkerRunError::MissingProcessingClaims { failed_requests, .. } => *failed_requests,
            _ => 0,
        }
    }

    /// What the failure is reported as.
    pub fn message(&self) -> (text: String)
        ensures
            text@ == run_message(self@),
    {
        match self {
            WorkerRunError::Queue { source, .. } => join2(
                "Worker queue operation failed: ",
                source.as_str(),
            ),
            WorkerRunError::Processor { source, .. } => join2(
                "Worker batch processing failed: ",
                source.message().as_str(),
            ),
            WorkerRunError::StartupRecovery { source, .. } => join2(
                "Worker startup recovery failed: ",
                source.message().as_str(),
            ),
            WorkerRunError::ReplicationThread(reason) => join2(
                "Git replication thread could not start: ",
                reason.as_str(),
            ),
            WorkerRunError::TooManyProcessingClaims { maximum } => too_many(*maximum),
            WorkerRunError::MultipleProcessingBatches { expected, found } => several(
                *expected,
                *found,
            ),
            WorkerRunError::TransactionBatchMismatch { processing, repository, .. } => join5(
                "processing batch `",
                processing.text().as_str(),
                "` does not match repository batch `",
                repository.text().as_str(),
                "`",
            ),
            WorkerRunError::MissingProcessingClaims { batch_id, .. } => join3(
                "preparing repository batch `",
                batch_id.text().as_str(),
                "` has no processing claims",
            ),
            WorkerRunError::RecoveryRequired =>
                "Worker runtime requires startup recovery after a failed processing cycle".to_owned(),
        }
    }
}

} // verus!
