//! When stores are opened, pinned, read back in time, finalized and reported on, said of what was
//! observed.
use crate::finalize::{final_problem, ActiveCommit, FinalFacts};
use crate::git_error::{GitFailure, GitTransactionError};
use crate::git_output::{config_is_safe, version_in};
use crate::git_text::{printed_object, printed_text, ObjectId};
use crate::history::{
    document_at, document_entry, entry_document, found_in, is_full_name, one_entry, with_document,
    Ancestry, EntryRead, FoundView, HistoryHalt, HistoryReader, HistoryWork,
};
use crate::ids::{is_ulid, revision_of, ulid_text, BatchId, DocumentId, Revision};
use crate::changes::components_of;
use crate::index::{ContentPolicy, DecodedDocument, NameRules, RecordView};
use crate::journal::{
    accepted, outcome_of, BatchCommitOutcome, JournalView, OutcomeView, StoredTransactionJournal,
};
use crate::opening::{opening, ConfigFacts, OpenFacts, OpenSettings, Opening, OpeningView};
use crate::path::optional_text;
use crate::read::is_past;
use crate::read_error::{CommittedReadError, ReadFailure};
use crate::repository::{
    filled_fields, unfinished_from, LayoutFacts, RepositoryTransaction, StoredBinding,
};
use crate::status::{
    compared, summarized, DurableReplicationStatus, QueueOverview, ReplicationStatus,
    ReplicationStatusView, StatusFailure,
};
use crate::store::{
    pinned_commit, store_opening, PinFacts, PinObservation, Pinning, SharedLock, StoreFacts,
    StoreObservation, StoreOpening, StoreSettings,
};
use vstd::prelude::*;
use vstd::utf8::{decode_utf8, valid_utf8};

verus! {

/// The journal of a batch is removed exactly where all is done: it can be read, is of this batch
/// and this queue and belongs to its commit, it records the outcome that is given, the queue was
/// reconciled, the commit is official and its release is active, or nothing was committed and the
/// branch still stands where it stood, and neither a worktree nor a reference is left.
pub proof fn finished_batches_are_finalized(
    batch_id: BatchId,
    facts: FinalFacts,
    outcome: OutcomeView,
)
    ensures
        final_problem(batch_id, facts, outcome) is None <==> {
            &&& facts.journal matches Ok(Some(stored))
            &&& accepted(stored, batch_id) matches Ok(journal)
            &&& facts.queue_identity matches Ok(queue_identity)
            &&& journal.queue_identity == queue_identity
            &&& journal.state is Committed ==> (facts.commit matches Ok(commit)
                && crate::commit_message::commit_problem(journal, commit) is None)
            &&& outcome_of(journal) == Ok::<OutcomeView, GitFailure>(outcome)
            &&& facts.reconciled
            &&& outcome matches BatchCommitOutcome::Committed { commit, .. } ==> {
                &&& facts.release matches Ok(ActiveCommit::Active(active)) && active == commit
                &&& facts.official matches Ok(official) && official == commit
            }
            &&& outcome is NoChanges ==> {
                &&& facts.release matches Ok(ActiveCommit::NoStore)
                &&& facts.official matches Ok(official) && official == journal.base_commit
            }
            &&& facts.worktree matches Ok(left) && !left
            &&& facts.reference matches Ok(kept) && kept is None
        },
{
}

/// A queue is reported as it was observed, each count under its own name.
pub proof fn queues_are_reported_as_observed(overview: QueueOverview)
    ensures
        summarized(overview) matches Ok(status) ==> {
            &&& status.pending == overview.pending
            &&& status.processing == overview.processing
            &&& status.completed == overview.completed
            &&& status.failed == overview.failed
            &&& status.worker_active == overview.worker_active
            &&& status.snapshot_exact == overview.snapshot_exact
            &&& status.oldest_pending_at is Some <==> overview.oldest_pending_at is Some
            &&& overview.oldest_pending_at matches Some(oldest) ==> oldest.spec_rfc3339() == Ok::<
                Seq<char>,
                Seq<char>,
            >(status.oldest_pending_at->0)
        },
        summarized(overview) is Err <==> (overview.oldest_pending_at matches Some(oldest)
            && oldest.spec_rfc3339() is Err),
{
}

/// A replication is reported as never attempted where nothing is recorded of it, as current where
/// the official commit is the one recorded, and as lagging otherwise, with what is recorded.
pub proof fn replications_are_reported_as_recorded(
    remote: Seq<char>,
    branch: Seq<char>,
    durable: Option<DurableReplicationStatus>,
    official_commit: Seq<char>,
)
    ensures
        ({
            let status = compared(remote, branch, durable, official_commit);
            let recorded = optional_text(durable->0.replicated_commit);
            let current = durable is Some && recorded == Some(official_commit);
            &&& durable is None ==> status == Ok::<ReplicationStatusView, StatusFailure>(
                ReplicationStatus::NotAttempted { remote, branch },
            )
            &&& current ==> status == Ok::<ReplicationStatusView, StatusFailure>(
                ReplicationStatus::Current { remote, branch, commit: official_commit },
            )
            &&& durable is Some && !current && durable->0.retry_at is None ==> status == Ok::<
                ReplicationStatusView,
                StatusFailure,
            >(
                ReplicationStatus::Lagging {
                    remote,
                    branch,
                    official_commit,
                    replicated_commit: recorded,
                    consecutive_failures: durable->0.consecutive_failures,
                    retry_at: None,
                },
            )
            &&& durable is Some && !current ==> (durable->0.retry_at matches Some(retry_at) ==> (
            retry_at.spec_rfc3339() matches Ok(text) ==> status == Ok::<
                ReplicationStatusView,
                StatusFailure,
            >(
                ReplicationStatus::Lagging {
                    remote,
                    branch,
                    official_commit,
                    replicated_commit: recorded,
                    consecutive_failures: durable->0.consecutive_failures,
                    retry_at: Some(text),
                },
            )))
        }),
{
}

/// Whether a Git is new enough: of the version 2.36 or of a later one.
pub open spec fn is_new_enough(output: Seq<u8>) -> bool {
    version_in(output) matches Some((major, minor)) && (major > 2 || major == 2 && minor >= 36)
}

/// Whether the configuration of a repository is one of a plain bare repository.
pub open spec fn is_plainly_configured(configuration: ConfigFacts) -> bool {
    &&& config_is_safe(configuration.keys@)
    &&& printed_text(configuration.bare@) == Some("true"@)
    &&& printed_text(configuration.filemode@) == Some("true"@)
}

/// Whether a worktree belongs to a bare repository and has a branch checked out.
pub open spec fn is_laid_out(layout: LayoutFacts, branch: Seq<char>) -> bool {
    &&& printed_text(layout.bare@) == Some("true"@)
    &&& printed_text(layout.inside@) == Some("true"@)
    &&& layout.top_level
    &&& layout.common_directory
    &&& printed_text(layout.symbolic_head@) == Some("refs/heads/"@ + branch)
}

/// Whether a branch can be named: by something without controls.
pub open spec fn is_nameable(branch: Seq<char>) -> bool {
    branch.len() > 0 && !crate::git_text::has_control(branch)
}

/// A store is opened exactly where Git is new enough, both directories are real and lie apart, the
/// branch can be named, the repository is plainly configured and laid out for the branch, and the
/// deadline has not passed before or after. It is opened at the reference of the branch.
pub proof fn sound_stores_are_opened(settings: StoreSettings, facts: StoreFacts)
    ensures
        ({
            let branch = settings.official_branch@;
            let opened = store_opening(settings, facts);
            let sound = {
                &&& !(settings.deadline matches Some(deadline) && facts.begun >= deadline)
                &&& facts.version matches Some(version) && is_new_enough(version@)
                &&& facts.git_directory == Some(true)
                &&& facts.content_root == Some(true)
                &&& facts.paths matches Some((repository, content)) && !repository@.is_prefix_of(
                    content@,
                ) && !content@.is_prefix_of(repository@)
                &&& is_nameable(branch)
                &&& facts.branch_name
                &&& facts.configuration matches Some(configuration) && is_plainly_configured(
                    configuration,
                )
                &&& facts.layout matches Some((layout, finished)) && is_laid_out(layout, branch)
                    && !(settings.deadline matches Some(deadline) && finished >= deadline)
            };
            &&& sound ==> opened == Ok::<StoreOpening<Seq<char>>, ReadFailure>(
                StoreOpening::Opened("refs/heads/"@ + branch),
            )
            &&& !sound ==> !(opened matches Ok(StoreOpening::Opened(_)))
        }),
{
}

/// A commit is pinned exactly where the shared lock was taken, the directories are still those that
/// were opened, the deadline has not passed, the repository is plainly configured and laid out,
/// nothing is changed in the content, and the official commit is the one that is checked out.
pub proof fn settled_commits_are_pinned(
    branch: Seq<char>,
    deadline: Option<u64>,
    facts: PinFacts,
    commit: ObjectId,
)
    ensures
        pinned_commit("refs/heads/"@ + branch, deadline, facts) == Ok::<Pinning, ReadFailure>(
            Pinning::Pinned(commit),
        ) <==> {
            &&& facts.lock matches Some(SharedLock::Taken)
            &&& facts.storage matches Some((same, now)) && same && !(deadline matches Some(deadline)
                && now >= deadline)
            &&& facts.configuration matches Some(configuration) && is_plainly_configured(
                configuration,
            )
            &&& facts.layout matches Some(layout) && is_laid_out(layout, branch)
            &&& facts.status matches Some(status) && status@.len() == 0
            &&& facts.official matches Some(official) && printed_object(official@) == Some(commit)
            &&& facts.checked_out matches Some(checked_out) && printed_object(checked_out@) == Some(
                commit,
            )
        },
{
}

/// A repository is opened exactly where Git is new enough, all directories are real and lie apart,
/// the branch can be named, the repository is plainly configured and laid out for the branch, and
/// both places hold its own binding, which is not too long.
pub proof fn sound_repositories_are_opened(settings: OpenSettings, facts: OpenFacts)
    ensures
        ({
            let branch = settings.official_branch@;
            let reference = "refs/heads/"@ + branch;
            let binding = crate::repository::binding_of(facts.directories->0@, reference);
            let opened = opening(settings, facts);
            let sound = {
                &&& facts.version matches Some(version) && is_new_enough(version@)
                &&& facts.git_directory == Some(true)
                &&& facts.canonical_worktree == Some(true)
                &&& facts.work_root == Some(true)
                &&& is_nameable(branch)
                &&& facts.branch_name
                &&& facts.configuration matches Some(configuration) && is_plainly_configured(
                    configuration,
                )
                &&& facts.layout matches Some(layout) && is_laid_out(layout, branch)
                &&& facts.paths matches Some(paths) && {
                    let repository = paths.git_directory@;
                    let content = paths.canonical_worktree@;
                    let work = paths.work_root@;
                    &&& !repository.is_prefix_of(content) && !content.is_prefix_of(repository)
                    &&& !repository.is_prefix_of(work) && !work.is_prefix_of(repository)
                    &&& !content.is_prefix_of(work) && !work.is_prefix_of(content)
                }
                &&& facts.directories is Some
            };
            let first = facts.repository_binding matches Some(StoredBinding::Bytes(bytes))
                && bytes@ == binding;
            let second = facts.work_root_binding matches Some(StoredBinding::Bytes(bytes))
                && bytes@ == binding;
            let short = binding.len() <= 65_536;
            &&& sound && short && first && second ==> opened == Ok::<OpeningView, GitFailure>(
                Opening::Opened { official_ref: reference },
            )
            &&& sound && short && facts.repository_binding == Some(StoredBinding::Missing) ==> (opened matches Ok(Opening::Bind { place, binding: written }) && place
                == crate::opening::BindingPlace::Repository && written == binding)
            &&& sound && short && first && facts.work_root_binding == Some(
                StoredBinding::Missing,
            ) ==> (opened matches Ok(Opening::Bind { place, binding: written }) && place
                == crate::opening::BindingPlace::WorkRoot && written == binding)
            &&& opened matches Ok(Opening::Opened { .. }) ==> sound && short && first && second
        }),
{
}

/// Whether a name is that of a journal.
pub open spec fn is_journal(name: Option<Seq<char>>) -> bool {
    name matches Some(text) && crate::fields::ends_with(text, ".json"@)
}

/// An unfinished transaction is the one that the only journal records, under the name of its batch:
/// without a journal there is none, and with a second one there is no telling.
pub proof fn unfinished_work_is_journaled(
    names: Seq<Option<Seq<char>>>,
    stored: Option<StoredTransactionJournal>,
    queue_identity: Revision,
)
    ensures
        unfinished_from(names, stored, queue_identity, 0, None) matches Ok(None) <==> forall|i: int|
            0 <= i < names.len() ==> #[trigger] names[i] is Some && !is_journal(names[i]),
        unfinished_from(names, stored, queue_identity, 0, None) matches Ok(Some(transaction)) ==> {
            let batch_id = match transaction {
                RepositoryTransaction::Preparing { batch_id, .. } => batch_id,
                RepositoryTransaction::Recoverable { batch_id, .. } => batch_id,
            };
            let claim_failures = match transaction {
                RepositoryTransaction::Preparing { claim_failures, .. } => claim_failures,
                RepositoryTransaction::Recoverable { claim_failures, .. } => claim_failures,
            };
            &&& exists|i: int|
                0 <= i < names.len() && #[trigger] names[i] == Some(
                    ulid_text(batch_id.value) + ".json"@,
                ) && forall|j: int|
                    0 <= j < names.len() && j != i ==> !is_journal(#[trigger] names[j])
            &&& stored matches Some(found)
            &&& accepted(found, batch_id) matches Ok(journal)
            &&& journal.queue_identity == queue_identity
            &&& journal.claim_failures == claim_failures
            &&& journal.state is Preparing <==> transaction is Preparing
        },
{
    journals_are_looked_through(names, stored, queue_identity, 0, None);
}

proof fn journals_are_looked_through(
    names: Seq<Option<Seq<char>>>,
    stored: Option<StoredTransactionJournal>,
    queue_identity: Revision,
    next: int,
    found: Option<RepositoryTransaction>,
)
    requires
        0 <= next,
        found matches Some(transaction) ==> is_left(transaction, stored, queue_identity),
    ensures
        unfinished_from(names, stored, queue_identity, next, found) matches Ok(None) <==> found is None && forall|i: int|
            next <= i < names.len() ==> #[trigger] names[i] is Some && !is_journal(names[i]),
        unfinished_from(names, stored, queue_identity, next, found) matches Ok(Some(transaction))
            ==> is_left(transaction, stored, queue_identity) && (found is Some ==> found == Some(
            transaction,
        ) && forall|i: int| next <= i < names.len() ==> !is_journal(#[trigger] names[i])) && (
        found is None ==> exists|i: int|
            next <= i < names.len() && #[trigger] names[i] == Some(
                ulid_text(transaction.spec_batch_id().value) + ".json"@,
            ) && forall|j: int|
                next <= j < names.len() && j != i ==> !is_journal(#[trigger] names[j])),
    decreases names.len() - next,
{
    if next < names.len() {
        if let Some(name) = names[next] {
            if !crate::fields::ends_with(name, ".json"@) {
                journals_are_looked_through(names, stored, queue_identity, next + 1, found);
            } else {
                let suffix = ".json"@;
                let text = name.take(name.len() - suffix.len());
                if is_ulid(text) && crate::repository::named_batch(text) is Some && found is None {
                    let batch_id = crate::repository::named_batch(text)->0;
                    assert(name =~= text + suffix) by {
                        assert(name.subrange(name.len() - suffix.len(), name.len() as int)
                            =~= suffix);
                    }
                    if let Ok(transaction) = crate::repository::recorded(
                        stored,
                        batch_id,
                        queue_identity,
                    ) {
                        journals_are_looked_through(
                            names,
                            stored,
                            queue_identity,
                            next + 1,
                            Some(transaction),
                        );
                        assert(names[next] == Some(ulid_text(batch_id.value) + ".json"@));
                    }
                }
            }
        }
    }
}

/// Whether a stored journal of a queue leaves a transaction.
spec fn is_left(
    transaction: RepositoryTransaction,
    stored: Option<StoredTransactionJournal>,
    queue_identity: Revision,
) -> bool {
    &&& stored matches Some(found)
    &&& accepted(found, transaction.spec_batch_id()) matches Ok(journal)
    &&& journal.queue_identity == queue_identity
    &&& journal.claim_failures == transaction.spec_claim_failures()
    &&& journal.state is Preparing <==> transaction is Preparing
    &&& journal.batch_id == transaction.spec_batch_id()
}

/// Whether a historical entry holds a document as it was read.
pub open spec fn held_then(
    entry: Seq<u8>,
    read: EntryRead,
    record: RecordView,
    markdown: Seq<char>,
) -> bool {
    &&& document_entry(entry) matches Ok(Some((object, path)))
    &&& read.blob matches Some(blob)
    &&& blob.decoded matches DecodedDocument::Decoded { metadata, .. }
    &&& record.metadata == metadata@
    &&& record.relative_path == components_of(path)
    &&& record.revision == revision_of(blob.bytes@)
    &&& record.byte_length == blob.bytes@.len()
    &&& valid_utf8(blob.bytes@)
    &&& markdown == decode_utf8(blob.bytes@)
}

/// Whether a historical entry was read and holds a document of an identity.
pub open spec fn names_document(entry: Seq<u8>, read: EntryRead, id: DocumentId) -> bool {
    &&& document_entry(entry) matches Ok(Some(_))
    &&& read.blob matches Some(blob)
    &&& blob.decoded matches DecodedDocument::Decoded { metadata, .. }
    &&& metadata.document_id == id
}

/// A document of the past is given as the tree of that commit held it: the one document of that
/// identity, with the metadata, the revision and the text of the bytes that were read. Where none
/// is given, none of the documents has that identity, and all were read.
pub proof fn past_documents_are_given_as_held(
    reader: HistoryReader,
    commit: Seq<char>,
    ancestry: Ancestry,
    names: NameRules,
    id: DocumentId,
    listing: Seq<u8>,
    reads: Seq<EntryRead>,
)
    ensures
        ({
            let entries = filled_fields(listing);
            let found = document_at(reader, commit, ancestry, names, id, listing, reads).0;
            &&& found matches Ok(Some((record, markdown))) ==> record.metadata.document_id == id
                && exists|k: int|
                0 <= k < entries.len() && held_then(
                    #[trigger] entries[k],
                    reads[k],
                    record,
                    markdown,
                ) && forall|j: int|
                    0 <= j < entries.len() && j != k ==> !names_document(
                        #[trigger] entries[j],
                        reads[j],
                        id,
                    )
            &&& found matches Ok(None) ==> forall|j: int|
                0 <= j < entries.len() ==> !names_document(#[trigger] entries[j], reads[j], id)
            &&& found is Ok ==> ancestry is Ancestor && is_full_name(commit, reader.anchor)
        }),
{
    let entries = filled_fields(listing);
    trees_are_looked_through(
        reader.policy,
        names,
        id,
        entries,
        reads,
        0,
        reader.work,
        None,
    );
}

proof fn trees_are_looked_through(
    policy: ContentPolicy,
    names: NameRules,
    id: DocumentId,
    entries: Seq<Seq<u8>>,
    reads: Seq<EntryRead>,
    at: int,
    work: HistoryWork,
    found: FoundView,
)
    requires
        0 <= at,
    ensures
        ({
            let result = found_in(policy, names, id, entries, reads, at, work, found).0;
            &&& found is Some && result is Ok ==> result->Ok_0 == found && forall|j: int|
                at <= j < entries.len() ==> !names_document(#[trigger] entries[j], reads[j], id)
            &&& found is None && result == Ok::<FoundView, HistoryHalt<ReadFailure>>(None) ==> forall|
                j: int,
            |
                at <= j < entries.len() ==> !names_document(#[trigger] entries[j], reads[j], id)
            &&& found is None ==> (result matches Ok(Some((record, markdown))) ==> {
                &&& record.metadata.document_id == id
                &&& exists|k: int|
                    at <= k < entries.len() && held_then(
                        #[trigger] entries[k],
                        reads[k],
                        record,
                        markdown,
                    ) && forall|j: int|
                        at <= j < entries.len() && j != k ==> !names_document(
                            #[trigger] entries[j],
                            reads[j],
                            id,
                        )
            })
        }),
    decreases entries.len() - at,
{
    if at < entries.len() && at < reads.len() && !is_past(policy.scan_deadline, reads[at].now)
        && one_entry(work).entries <= policy.maximum_entry_count {
        match document_entry(entries[at]) {
            Err(()) => {},
            Ok(None) => {
                trees_are_looked_through(
                    policy,
                    names,
                    id,
                    entries,
                    reads,
                    at + 1,
                    one_entry(work),
                    found,
                );
            },
            Ok(Some((object, path))) => {
                if let Some(blob) = reads[at].blob {
                    let (read, done) = entry_document(policy, names, path, blob, one_entry(work));
                    if let Ok(record) = read {
                        if let Ok(more) = with_document(found, id, record, blob.bytes@) {
                            trees_are_looked_through(
                                policy,
                                names,
                                id,
                                entries,
                                reads,
                                at + 1,
                                done,
                                more,
                            );
                            if record.metadata.document_id == id {
                                assert(blob.bytes@.len() == blob.bytes.len());
                                assert(held_then(
                                    entries[at],
                                    reads[at],
                                    record,
                                    decode_utf8(blob.bytes@),
                                ));
                            }
                        }
                    }
                }
            },
        }
    }
}

/// What was not observed yet of a store is asked for in turn, and what is wrong is refused as what
/// it is, as soon as it is observed.
pub proof fn stores_are_observed_in_turn(settings: StoreSettings, facts: StoreFacts)
    requires
        !(settings.deadline matches Some(deadline) && facts.begun >= deadline),
    ensures
        ({
            let step = store_opening(settings, facts);
            let branch = settings.official_branch@;
            let asks = |observation: StoreObservation|
                step == Ok::<StoreOpening<Seq<char>>, ReadFailure>(
                    StoreOpening::Observe(observation),
                );
            let fails = |failure: ReadFailure|
                step == Err::<StoreOpening<Seq<char>>, ReadFailure>(failure);
            let version = facts.version matches Some(version) && is_new_enough(version@);
            let repository = version && facts.git_directory == Some(true);
            let content = repository && facts.content_root == Some(true);
            let apart = content && (facts.paths matches Some((one, other)) && !one@.is_prefix_of(
                other@,
            ) && !other@.is_prefix_of(one@));
            let nameable = apart && is_nameable(branch);
            let configured = nameable && facts.branch_name && (facts.configuration matches Some(
                configuration,
            ) && is_plainly_configured(configuration));
            &&& facts.version is None ==> asks(StoreObservation::Version)
            &&& version && facts.git_directory is None ==> asks(StoreObservation::GitDirectory)
            &&& version && facts.git_directory == Some(false) ==> fails(
                CommittedReadError::Repository(
                    GitTransactionError::InvalidDirectory(settings.git_directory@),
                ),
            )
            &&& repository && facts.content_root is None ==> asks(StoreObservation::ContentRoot)
            &&& repository && facts.content_root == Some(false) ==> fails(
                CommittedReadError::Repository(
                    GitTransactionError::InvalidDirectory(settings.content_root@),
                ),
            )
            &&& content && facts.paths is None ==> asks(StoreObservation::Paths)
            &&& content && facts.paths is Some && !apart ==> fails(
                CommittedReadError::OverlappingPaths,
            )
            &&& apart && !nameable ==> fails(CommittedReadError::InvalidOfficialBranch)
            &&& nameable && !facts.branch_name ==> asks(StoreObservation::BranchName)
            &&& nameable && facts.branch_name && facts.configuration is None ==> asks(
                StoreObservation::Configuration,
            )
            &&& configured && facts.layout is None ==> asks(StoreObservation::Layout)
        }),
{
}

/// What was not observed yet of a commit that is to be pinned is asked for in turn, and what is
/// wrong is refused as what it is.
pub proof fn pins_are_observed_in_turn(branch: Seq<char>, deadline: Option<u64>, facts: PinFacts)
    ensures
        ({
            let step = pinned_commit("refs/heads/"@ + branch, deadline, facts);
            let asks = |observation: PinObservation|
                step == Ok::<Pinning, ReadFailure>(Pinning::Observe(observation));
            let fails = |failure: ReadFailure| step == Err::<Pinning, ReadFailure>(failure);
            let locked = facts.lock matches Some(SharedLock::Taken);
            let same = locked && (facts.storage matches Some((same, now)) && same);
            let timely = same && (facts.storage matches Some((_, now)) && !(deadline matches Some(
                deadline,
            ) && now >= deadline));
            let configured = timely && (facts.configuration matches Some(configuration)
                && is_plainly_configured(configuration));
            let laid_out = configured && (facts.layout matches Some(layout) && is_laid_out(
                layout,
                branch,
            ));
            let clean = laid_out && (facts.status matches Some(status) && status@.len() == 0);
            &&& facts.lock is None ==> asks(PinObservation::Lock)
            &&& facts.lock matches Some(SharedLock::Held) ==> fails(CommittedReadError::Busy)
            &&& facts.lock matches Some(SharedLock::Failed(reason)) ==> fails(
                CommittedReadError::Io(reason@),
            )
            &&& locked && facts.storage is None ==> asks(PinObservation::Storage)
            &&& locked && facts.storage is Some && !same ==> fails(
                CommittedReadError::StorageReplaced,
            )
            &&& same && !timely ==> fails(CommittedReadError::OperationDeadlineExceeded)
            &&& timely && facts.configuration is None ==> asks(PinObservation::Configuration)
            &&& configured && facts.layout is None ==> asks(PinObservation::Layout)
            &&& laid_out && facts.status is None ==> asks(PinObservation::Status)
            &&& laid_out && facts.status is Some && !clean ==> fails(
                CommittedReadError::Repository(GitTransactionError::CanonicalWorktreeDirty),
            )
            &&& clean && facts.official is None ==> asks(PinObservation::Official)
            &&& clean ==> (facts.official matches Some(output) ==> (printed_object(
                output@,
            ) matches Some(official) ==> {
                &&& facts.checked_out is None ==> asks(PinObservation::CheckedOut)
                &&& facts.checked_out matches Some(found) ==> (printed_object(
                    found@,
                ) matches Some(checked_out) ==> checked_out != official ==> fails(
                    CommittedReadError::CanonicalOutOfDate { official, checked_out },
                ))
            }))
        }),
{
}

/// A journal that has to stay says why: it is missing, it is of another queue, outcome or
/// reconciliation, its publication is not complete, or something is left to be removed.
pub proof fn unfinished_batches_say_why(
    batch_id: BatchId,
    facts: FinalFacts,
    outcome: OutcomeView,
    journal: JournalView,
    identity: Revision,
    stored: StoredTransactionJournal,
)
    ensures
        ({
            let problem = final_problem(batch_id, facts, outcome);
            let read = facts.journal == Ok::<
                Option<StoredTransactionJournal>,
                GitTransactionError,
            >(Some(stored)) && accepted(stored, batch_id) == Ok::<JournalView, GitFailure>(journal)
                && facts.queue_identity == Ok::<Revision, GitTransactionError>(identity);
            let own = read && journal.queue_identity == identity;
            let bound = own && (journal.state is Committed ==> (facts.commit matches Ok(commit)
                && crate::commit_message::commit_problem(journal, commit) is None));
            let same = bound && outcome_of(journal) == Ok::<OutcomeView, GitFailure>(outcome)
                && facts.reconciled;
            let published = match outcome {
                BatchCommitOutcome::Committed { commit, .. } => facts.release == Ok::<
                    ActiveCommit,
                    GitTransactionError,
                >(ActiveCommit::Active(commit)) && facts.official == Ok::<
                    ObjectId,
                    GitTransactionError,
                >(commit),
                BatchCommitOutcome::NoChanges { .. } => facts.release == Ok::<
                    ActiveCommit,
                    GitTransactionError,
                >(ActiveCommit::NoStore) && facts.official == Ok::<ObjectId, GitTransactionError>(
                    journal.base_commit,
                ),
            };
            &&& facts.journal == Ok::<Option<StoredTransactionJournal>, GitTransactionError>(None)
                ==> problem == Some(GitFailure::JournalMissing)
            &&& read && !own ==> problem == Some(GitFailure::JournalMismatch)
            &&& bound && outcome_of(journal) is Ok && !same ==> problem == Some(
                GitFailure::JournalMismatch,
            )
            &&& same && !published && facts.release is Ok && facts.official is Ok ==> problem
                == Some(GitFailure::PublicationIncomplete)
            &&& same && published && facts.worktree == Ok::<bool, GitTransactionError>(true)
                ==> problem == Some(GitFailure::JournalState)
            &&& same && published && facts.worktree == Ok::<bool, GitTransactionError>(false) && (
            facts.reference matches Ok(Some(_))) ==> problem == Some(GitFailure::JournalState)
        }),
{
}

} // verus!
