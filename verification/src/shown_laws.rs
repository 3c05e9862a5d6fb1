//! What is shown of values, of listed trees and of failures, field by field.
use crate::apply::AppliedFileMove;
use crate::changes::components_of;
use crate::document::DocumentLocation;
use crate::fields::{ends_with, split, words};
use crate::git_error::{GitFailure, GitTransactionError};
use crate::git_text::{is_object_id, ObjectId};
use crate::history::document_entry;
use crate::index_store::{ActiveSearchIndex, PreparedSearchIndex};
use crate::journal::{BatchCommitOutcome, JournalState, TransactionJournal};
use crate::processor::BatchProcessorError;
use crate::read::AttachmentRecord;
use crate::replication::{ConfiguredRemote, ReplicationState};
use crate::repository::{
    binding_of, directories_bytes, filled_fields, position, tree_object, DirectoryBinding,
};
use crate::run_error::{counted, RecoveryError, RecoveryFailure, RunFailure, WorkerRunError};
use crate::runtime::{
    cycled, poll_begun, run_begun, Cycle, CycleActionView, CycleOutcome, CycleReply, PollSettings,
    RuntimeView, WorkerPollOutcome,
};
use crate::search_fields::{FieldEntry, FilterClause};
use crate::startup::{
    startup_stepped, InterruptibleStart, StartupActionView, StartupPhase, StartupReply,
    StartupState,
};
use crate::status::{ActiveReleaseStatus, PublicationStatus, QueueStatus};
use crate::topology::{opened_problem, OpenedTopology};
use vstd::bytes::{lemma_auto_spec_u64_to_from_le_bytes, spec_u64_to_le_bytes};
use vstd::prelude::*;
use vstd::utf8::{decode_utf8, encode_utf8, valid_utf8};

verus! {

/// Journals and outcomes are seen as they are.
pub proof fn journals_are_seen_as_they_are(
    journal: TransactionJournal,
    state: JournalState,
    outcome: BatchCommitOutcome,
)
    ensures
        journal@.batch_id == journal.batch_id,
        journal@.queue_identity == journal.queue_identity,
        journal@.base_commit == journal.base_commit,
        journal@.claims == journal.claims@,
        journal@.claim_failures == journal.claim_failures,
        journal@.state == journal.state@,
        state is Preparing <==> state@ is Preparing,
        state matches JournalState::NoChanges { failures } ==> (state@ matches
            JournalState::NoChanges { failures: seen } && seen == failures@),
        state matches JournalState::Committed { commit, successful, failures, publication_started }
            ==> (state@ matches JournalState::Committed {
            commit: made,
            successful: kept,
            failures: seen,
            publication_started: started,
        } && made == commit && kept == successful@ && seen == failures@ && started
            == publication_started),
        outcome matches BatchCommitOutcome::NoChanges { failures } ==> (outcome@ matches
            BatchCommitOutcome::NoChanges { failures: seen } && seen == failures@),
        outcome matches BatchCommitOutcome::Committed { commit, successful, failures } ==> (
        outcome@ matches BatchCommitOutcome::Committed {
            commit: made,
            successful: kept,
            failures: seen,
        } && made == commit && kept == successful@ && seen == failures@),
{
}

/// Statuses and what is recorded of replications are seen as they are.
pub proof fn statuses_are_seen_as_they_are(
    queue: QueueStatus,
    release: ActiveReleaseStatus,
    publication: PublicationStatus,
    state: ReplicationState,
    remote: ConfiguredRemote,
)
    ensures
        queue@.pending == queue.pending,
        queue@.processing == queue.processing,
        queue@.completed == queue.completed,
        queue@.failed == queue.failed,
        queue@.worker_active == queue.worker_active,
        queue@.snapshot_exact == queue.snapshot_exact,
        queue.oldest_pending_at matches Some(oldest) ==> queue@.oldest_pending_at == Some(oldest@),
        queue.oldest_pending_at is None <==> queue@.oldest_pending_at is None,
        release@.release_id == release.release_id@,
        release@.commit == release.commit@,
        publication@.official_commit == publication.official_commit@,
        publication@.synchronized == publication.synchronized,
        publication.active_release matches Some(active) ==> publication@.active_release == Some(
            active@,
        ),
        publication.active_release is None <==> publication@.active_release is None,
        state@.schema_version == state.schema_version,
        state@.remote == state.remote@,
        state@.branch == state.branch@,
        state@.remote_fingerprint == state.remote_fingerprint,
        state@.consecutive_failures == state.consecutive_failures,
        state@.retry_at == state.retry_at,
        state.replicated_commit matches Some(commit) ==> state@.replicated_commit == Some(commit@),
        state.replicated_commit is None <==> state@.replicated_commit is None,
        remote@.fingerprint == remote.fingerprint,
        remote@.url == remote.url@,
        remote@.sha256 == remote.sha256,
{
}

/// Paths, places, moves, attachments, indexes and what is indexed are seen as they are.
pub proof fn places_are_seen_as_they_are(
    location: DocumentLocation,
    moved: AppliedFileMove,
    attachment: AttachmentRecord,
    prepared: PreparedSearchIndex,
    active: ActiveSearchIndex,
    entry: FieldEntry,
    clause: FilterClause,
)
    ensures
        location@.document_type == location.document_type,
        location@.archived == location.archived,
        location.project matches Some(project) ==> location@.project == Some(project@),
        location.project is None <==> location@.project is None,
        moved@.source == moved.source@,
        moved@.destination == moved.destination@,
        attachment@.relative_path == attachment.relative_path@,
        attachment@.byte_length == attachment.byte_length,
        prepared@.generation_id == prepared.generation_id@,
        prepared@.commit == prepared.commit@,
        active@.generation_id == active.generation_id@,
        active@.commit == active.commit@,
        entry@.field == entry.field,
        entry@.value == entry.value@,
        clause@.required == clause.required,
        clause@.field == clause.field,
        clause@.value == clause.value@,
{
}

/// A failed cycle says what failed and how many requests were rejected before. Behind an
/// observation the runtime stays as ready as it was; behind anything else it needs recovery, and
/// one that does begins nothing.
pub proof fn failed_cycles_say_what_failed(
    runtime: RuntimeView,
    settings: PollSettings,
    batch_id: crate::ids::BatchId,
    source: String,
    error: BatchProcessorError,
    failed_requests: usize,
)
    ensures
        runtime.cycle is Observing ==> {
            let step = cycled(runtime, CycleReply::QueueFailed { source, failed_requests });
            &&& step.0.ready == runtime.ready
            &&& step.1 == CycleActionView::Finish(
                Err(WorkerRunError::Queue { source: source@, failed_requests }),
            )
        },
        runtime.cycle is Claiming ==> {
            let step = cycled(runtime, CycleReply::QueueFailed { source, failed_requests });
            &&& !step.0.ready
            &&& step.1 == CycleActionView::Finish(
                Err(WorkerRunError::Queue { source: source@, failed_requests }),
            )
        },
        runtime.cycle matches Cycle::Processing { claim, failed_requests: rejected } ==> {
            let step = cycled(runtime, CycleReply::ProcessorFailed(error));
            &&& !step.0.ready
            &&& step.1 == CycleActionView::Finish(
                Err(WorkerRunError::Processor { source: error@, failed_requests: rejected }),
            )
        },
        runtime.cycle matches Cycle::Claiming(claim) ==> claim.reason is Some ==> {
            let pausing = cycled(runtime, CycleReply::StillClaiming { failed_requests });
            let stopped = cycled(pausing.0, CycleReply::Stop(true));
            &&& pausing.1 is PollStop
            &&& stopped.1 == CycleActionView::Finish(
                Ok(CycleOutcome::Poll(WorkerPollOutcome::Stopped { failed_requests })),
            )
            &&& !stopped.0.ready
            &&& cycled(pausing.0, CycleReply::Stop(false)).1 == (CycleActionView::Claim {
                claim,
                entries: runtime.limits.spec_scan_entries(),
                requests: runtime.limits.spec_requests(),
            })
        },
        !runtime.ready ==> {
            let refused = CycleActionView::Finish(Err(WorkerRunError::RecoveryRequired));
            &&& poll_begun(runtime, settings).1 == refused
            &&& run_begun(runtime, batch_id).1 == refused
        },
{
}

/// A failed or stopped startup says so, with the requests that were rejected before: its own or
/// those that the journal recorded.
pub proof fn failed_startups_say_what_failed(
    state: StartupState,
    source: String,
    error: BatchProcessorError,
    failed_requests: usize,
)
    ensures
        ({
            let queue = StartupActionView::Finish(
                Err(WorkerRunError::Queue { source: source@, failed_requests }),
            );
            let step = startup_stepped(
                state,
                StartupReply::QueueFailed { source, failed_requests },
            );
            &&& state.phase is Opening ==> step.1 == queue
            &&& state.phase is Requeueing ==> step.1 == queue
            &&& state.phase is Scanning && (state.summary_failures == 0 || failed_requests > 0)
                ==> step.1 == queue
            &&& state.phase is Scanning && state.summary_failures > 0 && failed_requests == 0
                ==> step.1 == StartupActionView::Finish(
                Err(
                    WorkerRunError::StartupRecovery {
                        source: RecoveryError::Queue { source: source@, failed_requests },
                        failed_requests: state.summary_failures,
                    },
                ),
            )
        }),
        ({
            let step = startup_stepped(state, StartupReply::ProcessorFailed(error));
            let failed = |count: usize|
                step.1 == StartupActionView::Finish(
                    Err(WorkerRunError::Processor { source: error@, failed_requests: count }),
                );
            &&& state.phase is Summarizing ==> failed(0)
            &&& state.phase is Discovering ==> failed(state.summary_failures)
            &&& state.phase matches StartupPhase::Processing { claim_failures, .. } ==> failed(
                claim_failures,
            )
            &&& state.phase matches StartupPhase::Recovering { claim_failures, .. } ==> failed(
                claim_failures,
            )
        }),
        ({
            let step = startup_stepped(state, StartupReply::Stop(true));
            let stopped = |count: usize|
                step.1 == StartupActionView::Finish(
                    Ok(InterruptibleStart::Stopped { failed_requests: count }),
                );
            &&& state.phase is Scanned ==> stopped(state.summary_failures)
            &&& state.phase is Returning ==> stopped(0)
            &&& state.phase is Discovered && state.transaction is None ==> stopped(0)
        }),
{
}

/// The number of rejected requests is told once: a failure that has one of its own tells it, and
/// any other tells that of the journal, where there is one.
pub proof fn rejections_are_told_once(failure: RecoveryFailure, journaled: usize)
    ensures
        failure matches RecoveryError::Queue { source, failed_requests } ==> {
            &&& failed_requests > 0 || journaled == 0 ==> counted(failure, journaled) == (
            RunFailure::Queue { source, failed_requests })
            &&& failed_requests == 0 && journaled > 0 ==> counted(failure, journaled) == (
            RunFailure::StartupRecovery { source: failure, failed_requests: journaled })
        },
        failure matches RecoveryError::TooManyProcessingClaims { maximum } ==> {
            &&& journaled == 0 ==> counted(failure, journaled) == (
            RunFailure::TooManyProcessingClaims { maximum })
            &&& journaled > 0 ==> counted(failure, journaled) == (RunFailure::StartupRecovery {
                source: failure,
                failed_requests: journaled,
            })
        },
        failure matches RecoveryError::MultipleProcessingBatches { expected, found } ==> {
            &&& journaled == 0 ==> counted(failure, journaled) == (
            RunFailure::MultipleProcessingBatches { expected, found })
            &&& journaled > 0 ==> counted(failure, journaled) == (RunFailure::StartupRecovery {
                source: failure,
                failed_requests: journaled,
            })
        },
{
}

proof fn positions_are_first<A>(items: Seq<A>, item: A, from: int)
    requires
        0 <= from,
    ensures
        position(items, item, from) matches Some(at) ==> from <= at < items.len() && items[at]
            == item && forall|i: int| from <= i < at ==> #[trigger] items[i] != item,
        position(items, item, from) is None ==> forall|i: int|
            from <= i < items.len() ==> #[trigger] items[i] != item,
    decreases items.len() - from,
{
    if from < items.len() {
        positions_are_first(items, item, from + 1);
    }
}

/// Whether an entry names an object at a path, with its first tab at a position.
pub open spec fn names_object(
    record: Seq<char>,
    tab: int,
    path: Seq<Seq<char>>,
    object: ObjectId,
) -> bool {
    let head = words(record.take(tab));
    &&& 0 <= tab < record.len()
    &&& record[tab] == '\u{9}'
    &&& !record.take(tab).contains('\u{9}')
    &&& head.len() == 3
    &&& head[1] == "blob"@
    &&& is_object_id(head[2])
    &&& object == ObjectId::named(head[2])
    &&& components_of(record.skip(tab + 1)) == path
}

/// A listed tree has an object at a path where it lists one entry for it: a mode, the word `blob`
/// and the name of the object, then a tab and the path. Without an entry it has none there, and
/// anything else cannot be read.
pub proof fn listed_trees_name_objects(output: Seq<u8>, path: Seq<Seq<char>>)
    ensures
        ({
            let records = filled_fields(output);
            let found = tree_object(output, path);
            &&& records.len() == 0 <==> found == Ok::<Option<ObjectId>, GitFailure>(None)
            &&& found matches Ok(Some(object)) ==> {
                &&& records.len() == 1
                &&& valid_utf8(records[0])
                &&& exists|tab: int| #[trigger]
                    names_object(decode_utf8(records[0]), tab, path, object)
            }
            &&& found is Err ==> found == Err::<Option<ObjectId>, GitFailure>(
                GitTransactionError::InvalidGitOutput,
            )
        }),
{
    let records = filled_fields(output);
    if records.len() == 1 && valid_utf8(records[0]) {
        let record = decode_utf8(records[0]);
        positions_are_first(record, '\u{9}', 0);
        if let Some(tab) = position(record, '\u{9}', 0) {
            assert(!record.take(tab).contains('\u{9}')) by {
                if record.take(tab).contains('\u{9}') {
                    let i = choose|i: int|
                        0 <= i < record.take(tab).len() && record.take(tab)[i] == '\u{9}';
                    assert(record[i] == '\u{9}');
                }
            }
            if let Ok(Some(object)) = tree_object(output, path) {
                assert(names_object(record, tab, path, object));
            }
        }
    }
}

/// An entry of a tree of the past holds a document where its path, behind a tab, ends in `.md`, and
/// before the tab it is said to be a plain file. A document that is anything else cannot be read.
pub proof fn past_entries_name_documents(entry: Seq<u8>, tab: int)
    requires
        valid_utf8(entry),
        0 <= tab < decode_utf8(entry).len(),
        decode_utf8(entry)[tab] == '\u{9}',
        forall|i: int| 0 <= i < tab ==> #[trigger] decode_utf8(entry)[i] != '\u{9}',
    ensures
        ({
            let text = decode_utf8(entry);
            let head = split(text.take(tab), ' ');
            let path = text.skip(tab + 1);
            let plain = head.len() >= 3 && head[0] == "100644"@ && head[1] == "blob"@;
            &&& !ends_with(path, ".md"@) ==> document_entry(entry) == Ok::<
                Option<(Seq<char>, Seq<char>)>,
                (),
            >(None)
            &&& ends_with(path, ".md"@) && plain ==> document_entry(entry) == Ok::<
                Option<(Seq<char>, Seq<char>)>,
                (),
            >(Some((head[2], path)))
            &&& ends_with(path, ".md"@) && !plain ==> document_entry(entry) is Err
        }),
{
    let text = decode_utf8(entry);
    positions_are_first(text, '\u{9}', 0);
}

/// What was pinned can be used together exactly where every part of it was attested and no storage
/// directory is or lies in another one or a trusted input, or holds it.
#[verifier::spinoff_prover]
#[verifier::rlimit(40)]
pub proof fn attested_parts_are_used_together(facts: OpenedTopology)
    ensures
        opened_problem(facts) is None <==> {
            let apart = |i: int, j: int|
                !facts.nesting.within(i, j) && !facts.nesting.within(j, i);
            &&& facts.repository is None
            &&& facts.releases is None
            &&& facts.queue is None
            &&& facts.quartz is None
            &&& apart(0, 1) && apart(0, 2) && apart(0, 3) && apart(0, 4) && apart(0, 5)
            &&& apart(0, 6) && apart(1, 2) && apart(1, 3) && apart(1, 4) && apart(1, 5)
            &&& apart(1, 6) && apart(2, 3) && apart(2, 4) && apart(2, 5) && apart(2, 6)
            &&& apart(3, 4) && apart(3, 5) && apart(3, 6) && apart(4, 5) && apart(4, 6)
        },
{
    reveal_with_fuel(crate::topology::storage_pair, 22);
    reveal_with_fuel(crate::topology::trusted_pair, 22);
}

/// A binding tells directories apart: under the same paths, another device, another inode or
/// another branch gives another binding.
pub proof fn bindings_tell_directories_apart(
    first: Seq<DirectoryBinding>,
    second: Seq<DirectoryBinding>,
    branch: Seq<char>,
    other: Seq<char>,
)
    requires
        first.len() == second.len(),
        forall|i: int| 0 <= i < first.len() ==> (#[trigger] first[i]).path@ == second[i].path@,
        binding_of(first, branch) == binding_of(second, other),
    ensures
        branch == other,
        forall|i: int|
            0 <= i < first.len() ==> (#[trigger] first[i]).device == second[i].device
                && first[i].inode == second[i].inode,
{
    let head = encode_utf8("agent-knowledge-repository-binding-v2\u{0}"@);
    let one = directories_bytes(first, first.len());
    let two = directories_bytes(second, second.len());
    directories_are_as_long(first, second, first.len());
    let left = binding_of(first, branch);
    let right = binding_of(second, other);
    let start = head.len() as int;
    let end = (head.len() + one.len()) as int;
    assert(left.subrange(start, end) =~= one);
    assert(right.subrange(start, end) =~= two);
    assert(left.skip(end) =~= encode_utf8(branch));
    assert(right.skip(end) =~= encode_utf8(other));
    vstd::utf8::encode_utf8_decode_utf8(branch);
    vstd::utf8::encode_utf8_decode_utf8(other);
    directories_are_told_apart(first, second, first.len());
}

proof fn directories_are_as_long(
    first: Seq<DirectoryBinding>,
    second: Seq<DirectoryBinding>,
    count: nat,
)
    requires
        count <= first.len() == second.len(),
        forall|i: int| 0 <= i < first.len() ==> (#[trigger] first[i]).path@ == second[i].path@,
    ensures
        directories_bytes(first, count).len() == directories_bytes(second, count).len(),
    decreases count,
{
    lemma_auto_spec_u64_to_from_le_bytes();
    if count > 0 {
        directories_are_as_long(first, second, (count - 1) as nat);
        assert(first[count - 1].path@ == second[count - 1].path@);
    }
}

proof fn directories_are_told_apart(
    first: Seq<DirectoryBinding>,
    second: Seq<DirectoryBinding>,
    count: nat,
)
    requires
        count <= first.len() == second.len(),
        forall|i: int| 0 <= i < first.len() ==> (#[trigger] first[i]).path@ == second[i].path@,
        directories_bytes(first, count) == directories_bytes(second, count),
    ensures
        forall|i: int|
            0 <= i < count ==> (#[trigger] first[i]).device == second[i].device && first[i].inode
                == second[i].inode,
    decreases count,
{
    lemma_auto_spec_u64_to_from_le_bytes();
    if count > 0 {
        let before = (count - 1) as nat;
        directories_are_as_long(first, second, before);
        let one = directories_bytes(first, before);
        let two = directories_bytes(second, before);
        let a = first[count - 1];
        let b = second[count - 1];
        let left = directories_bytes(first, count);
        let right = directories_bytes(second, count);
        assert(a.path@ == b.path@);
        assert(left.take(one.len() as int) =~= one);
        assert(right.take(two.len() as int) =~= two);
        directories_are_told_apart(first, second, before);
        let at = (one.len() + a.path@.len() + 1) as int;
        assert(left.subrange(at, at + 8) =~= spec_u64_to_le_bytes(a.device));
        assert(right.subrange(at, at + 8) =~= spec_u64_to_le_bytes(b.device));
        assert(left.subrange(at + 8, at + 16) =~= spec_u64_to_le_bytes(a.inode));
        assert(right.subrange(at + 8, at + 16) =~= spec_u64_to_le_bytes(b.inode));
    }
}

} // verus!
