//! Storage of derived search indexes: immutable generations, and one that is selected.
use crate::ids::{fresh_ulid, is_ulid, read_ulid, ulid_text, ulid_text_is_ulid, BatchId};
use crate::search_error::{SearchIndexStoreError, StoreFailure};
use crate::text::{characters, join2, join3, join4, same_text, slice_text};
use vstd::prelude::*;
use vstd::string::*;

verus! {

/// An immutable persistent search index ready for selection.
#[derive(Debug)]
pub struct PreparedSearchIndex<T = String> {
    /// The unique immutable generation.
    pub generation_id: T,
    /// The exact commit represented by the index.
    pub commit: T,
}

/// A prepared index with its texts as sequences.
pub type PreparedView = PreparedSearchIndex<Seq<char>>;

impl View for PreparedSearchIndex {
    type V = PreparedView;

    open spec fn view(&self) -> PreparedView {
        PreparedSearchIndex { generation_id: self.generation_id@, commit: self.commit@ }
    }
}

impl PreparedSearchIndex {
    /// Returns the unique immutable generation identifier.
    pub fn generation_id(&self) -> (text: &str)
        ensures
            text@ == self@.generation_id,
    {
        self.generation_id.as_str()
    }

    /// Returns the exact Git commit represented by the index.
    pub fn commit(&self) -> (text: &str)
        ensures
            text@ == self@.commit,
    {
        self.commit.as_str()
    }
}

/// The validated search index selected by `current`.
#[derive(Debug)]
pub struct ActiveSearchIndex<T = String> {
    /// The unique immutable generation.
    pub generation_id: T,
    /// The exact commit represented by the index.
    pub commit: T,
}

/// A selected index with its texts as sequences.
pub type ActiveView = ActiveSearchIndex<Seq<char>>;

impl View for ActiveSearchIndex {
    type V = ActiveView;

    open spec fn view(&self) -> ActiveView {
        ActiveSearchIndex { generation_id: self.generation_id@, commit: self.commit@ }
    }
}

impl ActiveSearchIndex {
    /// Returns the unique immutable generation identifier.
    pub fn generation_id(&self) -> (text: &str)
        ensures
            text@ == self@.generation_id,
    {
        self.generation_id.as_str()
    }

    /// Returns the exact Git commit represented by the index.
    pub fn commit(&self) -> (text: &str)
        ensures
            text@ == self@.commit,
    {
        self.commit.as_str()
    }
}

/// Whether a generation is named after a commit: the commit, a hyphen and a ULID.
pub open spec fn is_generation(generation_id: Seq<char>, commit: Seq<char>) -> bool {
    &&& generation_id.len() > commit.len()
    &&& generation_id.take(commit.len() as int) == commit
    &&& generation_id[commit.len() as int] == '-'
    &&& is_ulid(generation_id.skip(commit.len() as int + 1))
}

/// Whether characters begin with those of a text.
fn begins_with(chars: &Vec<char>, text: &Vec<char>) -> (result: bool)
    ensures
        result == (chars@.len() >= text@.len() && chars@.take(text@.len() as int) == text@),
{
    if chars.len() < text.len() {
        return false;
    }
    let mut i: usize = 0;
    while i < text.len()
        invariant
            i <= text@.len() <= chars@.len(),
            forall|j: int| 0 <= j < i ==> chars@[j] == text@[j],
        decreases text@.len() - i,
    {
        if chars[i] != text[i] {
            assert(chars@.take(text@.len() as int)[i as int] != text@[i as int]);
            return false;
        }
        i += 1;
    }
    assert(chars@.take(text@.len() as int) =~= text@);
    true
}

/// Checks that a generation is named after a commit.
pub fn validate_generation_id(generation_id: &str, commit: &str) -> (result: Result<
    (),
    SearchIndexStoreError,
>)
    ensures
        result is Ok <==> is_generation(generation_id@, commit@),
        result matches Err(error) ==> error@ == StoreFailure::InvalidGeneration,
{
    let chars = characters(generation_id);
    let expected = characters(commit);
    let length: usize = chars.len();
    let count: usize = expected.len();
    if length <= count || !begins_with(&chars, &expected) || chars[count] != '-' {
        return Err(SearchIndexStoreError::InvalidGeneration);
    }
    let suffix = slice_text(&chars, count + 1, length);
    assert(suffix@ =~= generation_id@.skip(commit@.len() as int + 1));
    match read_ulid(suffix.as_str()) {
        Some(_) => Ok(()),
        None => Err(SearchIndexStoreError::InvalidGeneration),
    }
}

/// The name of a generation.
pub open spec fn generation_name(commit: Seq<char>, unique: u128) -> Seq<char> {
    commit + "-"@ + ulid_text(unique)
}

/// Names a generation after a commit and a unique number.
pub fn generation_id(commit: &str, unique: u128) -> (name: String)
    ensures
        name@ == generation_name(commit@, unique),
{
    join3(commit, "-", (BatchId { value: unique }).text().as_str())
}

/// Every name that is made for a generation of a commit is valid for that commit.
pub proof fn generations_are_named_after_commits(commit: Seq<char>, unique: u128)
    ensures
        is_generation(generation_name(commit, unique), commit),
{
    reveal_strlit("-");
    ulid_text_is_ulid(unique);
    let name = generation_name(commit, unique);
    assert(name.take(commit.len() as int) =~= commit);
    assert(name.skip(commit.len() as int + 1) =~= ulid_text(unique));
}

/// One component of the target of a link.
#[derive(Debug)]
pub enum TargetComponent {
    /// A name.
    Name(String),
    /// A name that is no text.
    Unreadable,
    /// A root, a prefix, or a reference to the same or the parent directory.
    Other,
}

/// The generation that a target selects: exactly one name below the directory of generations.
pub open spec fn target_generation(target: Seq<TargetComponent>) -> Option<Seq<char>> {
    if target.len() == 2 && (target[0] matches TargetComponent::Name(directory) && directory@
        == "by-id"@) {
        match target[1] {
            TargetComponent::Name(generation) => Some(generation@),
            _ => None,
        }
    } else {
        None
    }
}

/// Reads the generation that a target selects.
pub fn generation_from_target(target: &Vec<TargetComponent>) -> (result: Result<
    String,
    SearchIndexStoreError,
>)
    ensures
        result is Ok <==> target_generation(target@) is Some,
        match result {
            Ok(generation) => target_generation(target@) == Some(generation@),
            Err(error) => error@ == StoreFailure::InvalidCurrentEntry,
        },
{
    if target.len() != 2 {
        return Err(SearchIndexStoreError::InvalidCurrentEntry);
    }
    match &target[0] {
        TargetComponent::Name(directory) => {
            if !same_text(directory.as_str(), "by-id") {
                return Err(SearchIndexStoreError::InvalidCurrentEntry);
            }
        },
        _ => {
            return Err(SearchIndexStoreError::InvalidCurrentEntry);
        },
    }
    match &target[1] {
        TargetComponent::Name(generation) => Ok(generation.clone()),
        _ => Err(SearchIndexStoreError::InvalidCurrentEntry),
    }
}

/// What stands at `current`.
#[derive(Debug)]
pub enum CurrentEntry {
    /// Nothing.
    Absent,
    /// It could not be inspected.
    Unreadable(String),
    /// Something other than a link.
    Other,
    /// A link whose target could not be read.
    UnreadableLink(String),
    /// A link with its target.
    Link(Vec<TargetComponent>),
}

/// The generation that `current` selects, if it selects any.
pub open spec fn current_generation(entry: CurrentEntry) -> Result<Option<Seq<char>>, StoreFailure> {
    match entry {
        CurrentEntry::Absent => Ok(None),
        CurrentEntry::Unreadable(reason) => Err(SearchIndexStoreError::Io(reason@)),
        CurrentEntry::Other => Err(SearchIndexStoreError::InvalidCurrentEntry),
        CurrentEntry::UnreadableLink(reason) => Err(SearchIndexStoreError::Io(reason@)),
        CurrentEntry::Link(target) => match target_generation(target@) {
            None => Err(SearchIndexStoreError::InvalidCurrentEntry),
            Some(generation) => Ok(Some(generation)),
        },
    }
}

/// Reads the generation that `current` selects.
pub fn selected_generation(entry: CurrentEntry) -> (result: Result<
    Option<String>,
    SearchIndexStoreError,
>)
    ensures
        (match result {
            Ok(Some(generation)) => Ok(Some(generation@)),
            Ok(None) => Ok(None),
            Err(error) => Err(error@),
        }) == current_generation(entry),
{
    match entry {
        CurrentEntry::Absent => Ok(None),
        CurrentEntry::Unreadable(reason) => Err(SearchIndexStoreError::Io(reason)),
        CurrentEntry::Other => Err(SearchIndexStoreError::InvalidCurrentEntry),
        CurrentEntry::UnreadableLink(reason) => Err(SearchIndexStoreError::Io(reason)),
        CurrentEntry::Link(target) => match generation_from_target(&target) {
            Ok(generation) => Ok(Some(generation)),
            Err(error) => Err(error),
        },
    }
}

/// Whether a failure of the selected index comes from derived data alone, so that it can be set
/// aside and built again.
pub open spec fn is_recoverable(failure: StoreFailure) -> bool {
    failure is Search || failure is InvalidGeneration || failure is GenerationCommitMismatch
        || failure is InvalidCurrentEntry
}

/// Whether a failure of the selected index comes from derived data alone.
pub fn recoverable_active_error(error: &SearchIndexStoreError) -> (result: bool)
    ensures
        result == is_recoverable(error@),
{
    match error {
        SearchIndexStoreError::Search(_) => true,
        SearchIndexStoreError::InvalidGeneration => true,
        SearchIndexStoreError::GenerationCommitMismatch => true,
        SearchIndexStoreError::InvalidCurrentEntry => true,
        _ => false,
    }
}

/// Checks that all directories of the store are on one filesystem.
pub fn validate_common_filesystem(root: u64, by_id: u64, staging: u64) -> (result: Result<
    (),
    SearchIndexStoreError,
>)
    ensures
        result is Ok <==> by_id == root && staging == root,
        result matches Err(error) ==> error@ == StoreFailure::CrossFilesystemStorage,
{
    if by_id != root || staging != root {
        return Err(SearchIndexStoreError::CrossFilesystemStorage);
    }
    Ok(())
}

/// What is wanted of the store.
#[derive(Debug)]
pub enum StoreTask<T = String> {
    /// The selected index.
    Read,
    /// The selected index; if its derived data are corrupt, they are set aside.
    Recover,
    /// An index of a commit.
    Prepare {
        /// The commit.
        commit: T,
    },
    /// The selection of an index.
    Activate {
        /// The generation.
        generation_id: T,
        /// Its commit.
        commit: T,
    },
}

/// A task with its texts as sequences.
pub type TaskView = StoreTask<Seq<char>>;

impl View for StoreTask {
    type V = TaskView;

    open spec fn view(&self) -> TaskView {
        match *self {
            StoreTask::Read => StoreTask::Read,
            StoreTask::Recover => StoreTask::Recover,
            StoreTask::Prepare { commit } => StoreTask::Prepare { commit: commit@ },
            StoreTask::Activate { generation_id, commit } => StoreTask::Activate {
                generation_id: generation_id@,
                commit: commit@,
            },
        }
    }
}

/// How often the selected index was looked up before.
#[derive(Clone, Copy, Debug, PartialEq, Eq, Structural)]
pub enum Round {
    /// Never.
    First,
    /// Once.
    Second,
    /// Twice.
    Third,
}

/// Where work on the store stands.
#[derive(Debug)]
pub enum StorePhase<T = String> {
    /// The writer's lock is being taken.
    Locking,
    /// The storage is being checked for the first time under the lock.
    Checking,
    /// The storage is being checked for a look-up.
    LookupChecking(Round),
    /// `current` is being read for a look-up.
    LookupReading(Round),
    /// A generation is being opened for a look-up.
    LookupOpening(Round, T),
    /// A generation is being built.
    Building,
    /// It is being moved to its place.
    Promoting,
    /// It is being opened in its place.
    Reopening,
    /// The storage is being checked once more.
    Rechecking,
    /// A generation is being opened before it is selected.
    Verifying,
    /// The selection is being made durable again.
    Syncing,
    /// `current` is being replaced.
    Selecting,
    /// The storage is being checked after that.
    SelectChecking,
    /// `current` is being inspected before it is set aside.
    Inspecting,
    /// `current` is being set aside.
    MovingCurrent(Option<T>),
    /// The generation that it selected is being set aside.
    MovingGeneration,
    /// The storage is being checked after that.
    QuarantineChecking,
    /// The lock is being released.
    Releasing,
    /// Nothing is left to do.
    Ended,
}

/// A phase with its texts as sequences.
pub type PhaseView = StorePhase<Seq<char>>;

impl View for StorePhase {
    type V = PhaseView;

    open spec fn view(&self) -> PhaseView {
        match *self {
            StorePhase::Locking => StorePhase::Locking,
            StorePhase::Checking => StorePhase::Checking,
            StorePhase::LookupChecking(round) => StorePhase::LookupChecking(round),
            StorePhase::LookupReading(round) => StorePhase::LookupReading(round),
            StorePhase::LookupOpening(round, generation) => StorePhase::LookupOpening(
                round,
                generation@,
            ),
            StorePhase::Building => StorePhase::Building,
            StorePhase::Promoting => StorePhase::Promoting,
            StorePhase::Reopening => StorePhase::Reopening,
            StorePhase::Rechecking => StorePhase::Rechecking,
            StorePhase::Verifying => StorePhase::Verifying,
            StorePhase::Syncing => StorePhase::Syncing,
            StorePhase::Selecting => StorePhase::Selecting,
            StorePhase::SelectChecking => StorePhase::SelectChecking,
            StorePhase::Inspecting => StorePhase::Inspecting,
            StorePhase::MovingCurrent(generation) => StorePhase::MovingCurrent(
                match generation {
                    Some(generation) => Some(generation@),
                    None => None,
                },
            ),
            StorePhase::MovingGeneration => StorePhase::MovingGeneration,
            StorePhase::QuarantineChecking => StorePhase::QuarantineChecking,
            StorePhase::Releasing => StorePhase::Releasing,
            StorePhase::Ended => StorePhase::Ended,
        }
    }
}

/// What came of work on the store.
#[derive(Debug)]
pub enum StoreOutcome<T = String> {
    /// The selected index, if there is one.
    Active(Option<ActiveSearchIndex<T>>),
    /// A prepared index.
    Prepared(PreparedSearchIndex<T>),
}

/// An outcome with its texts as sequences.
pub type StoreOutcomeView = StoreOutcome<Seq<char>>;

impl View for StoreOutcome {
    type V = StoreOutcomeView;

    open spec fn view(&self) -> StoreOutcomeView {
        match *self {
            StoreOutcome::Active(Some(active)) => StoreOutcome::Active(Some(active@)),
            StoreOutcome::Active(None) => StoreOutcome::Active(None),
            StoreOutcome::Prepared(prepared) => StoreOutcome::Prepared(prepared@),
        }
    }
}

/// What is done next.
#[derive(Debug)]
pub enum StoreAction<T = String, E = SearchIndexStoreError, O = StoreOutcome> {
    /// Take the writer's lock.
    Lock,
    /// Check the pinned directories and their filesystem.
    CheckStorage,
    /// Inspect `current`.
    ReadCurrent,
    /// Open a generation in its place.
    OpenGeneration {
        /// The generation.
        generation_id: T,
    },
    /// Build a generation in staging.
    Build {
        /// The generation.
        generation_id: T,
    },
    /// Move a built generation to its place.
    Promote {
        /// The generation.
        generation_id: T,
    },
    /// Replace `current` by a link to a generation, through a temporary entry.
    Select {
        /// The generation.
        generation_id: T,
        /// The temporary entry.
        temporary: T,
    },
    /// Make the root directory durable.
    SyncRoot,
    /// Set `current` aside in staging.
    MoveCurrent {
        /// The name that it gets.
        name: T,
    },
    /// Set a generation aside in staging, if it exists.
    MoveGeneration {
        /// The generation.
        generation_id: T,
        /// The name that it gets.
        name: T,
    },
    /// Release the writer's lock.
    Unlock,
    /// Nothing: the work has ended.
    Finish(Result<O, E>),
}

/// An action with its texts as sequences.
pub type StoreActionView = StoreAction<Seq<char>, StoreFailure, StoreOutcomeView>;

impl View for StoreAction {
    type V = StoreActionView;

    open spec fn view(&self) -> StoreActionView {
        match *self {
            StoreAction::Lock => StoreAction::Lock,
            StoreAction::CheckStorage => StoreAction::CheckStorage,
            StoreAction::ReadCurrent => StoreAction::ReadCurrent,
            StoreAction::OpenGeneration { generation_id } => StoreAction::OpenGeneration {
                generation_id: generation_id@,
            },
            StoreAction::Build { generation_id } => StoreAction::Build {
                generation_id: generation_id@,
            },
            StoreAction::Promote { generation_id } => StoreAction::Promote {
                generation_id: generation_id@,
            },
            StoreAction::Select { generation_id, temporary } => StoreAction::Select {
                generation_id: generation_id@,
                temporary: temporary@,
            },
            StoreAction::SyncRoot => StoreAction::SyncRoot,
            StoreAction::MoveCurrent { name } => StoreAction::MoveCurrent { name: name@ },
            StoreAction::MoveGeneration { generation_id, name } => StoreAction::MoveGeneration {
                generation_id: generation_id@,
                name: name@,
            },
            StoreAction::Unlock => StoreAction::Unlock,
            StoreAction::Finish(Ok(outcome)) => StoreAction::Finish(Ok(outcome@)),
            StoreAction::Finish(Err(error)) => StoreAction::Finish(Err(error@)),
        }
    }
}

/// What came of an action.
#[derive(Debug)]
pub enum StoreReply {
    /// It was done.
    Done,
    /// It failed.
    Failed(SearchIndexStoreError),
    /// What stands at `current`.
    Current(CurrentEntry),
    /// The commit of the index that was opened or built.
    Commit(String),
}

/// Work on the store.
#[derive(Debug)]
pub struct StoreWork<T = String> {
    /// What is wanted.
    pub task: StoreTask<T>,
    /// A number that no other work has.
    pub unique: u128,
    /// Where the work stands.
    pub phase: StorePhase<T>,
}

/// Work with its texts as sequences.
pub type WorkView = StoreWork<Seq<char>>;

impl View for StoreWork {
    type V = WorkView;

    open spec fn view(&self) -> WorkView {
        StoreWork { task: self.task@, unique: self.unique, phase: self.phase@ }
    }
}

/// Work and what it does next.
pub type StoreStep = (WorkView, StoreActionView);

/// Work that goes on in a phase.
pub open spec fn go_on(work: WorkView, phase: PhaseView, action: StoreActionView) -> StoreStep {
    (StoreWork { phase, ..work }, action)
}

/// Work that ends.
pub open spec fn end(work: WorkView, result: Result<StoreOutcomeView, StoreFailure>) -> StoreStep {
    go_on(work, StorePhase::Ended, StoreAction::Finish(result))
}

/// Work that looks up the selected index.
pub open spec fn look_up(work: WorkView, round: Round) -> StoreStep {
    go_on(work, StorePhase::LookupChecking(round), StoreAction::CheckStorage)
}

/// What a look-up finds in an opened index.
pub open spec fn found(generation_id: Seq<char>, commit: Seq<char>) -> Result<
    Option<ActiveView>,
    StoreFailure,
> {
    if is_generation(generation_id, commit) {
        Ok(Some(ActiveSearchIndex { generation_id, commit }))
    } else {
        Err(SearchIndexStoreError::InvalidGeneration)
    }
}

/// The outcome of a look-up that is all that was wanted.
pub open spec fn active_outcome(result: Result<Option<ActiveView>, StoreFailure>) -> Result<
    StoreOutcomeView,
    StoreFailure,
> {
    match result {
        Ok(active) => Ok(StoreOutcome::Active(active)),
        Err(failure) => Err(failure),
    }
}

/// How work goes on once the selected index was looked up.
pub open spec fn looked_up(
    work: WorkView,
    round: Round,
    result: Result<Option<ActiveView>, StoreFailure>,
) -> StoreStep {
    match work.task {
        StoreTask::Read => end(work, active_outcome(result)),
        StoreTask::Recover => match (round, result) {
            (Round::First, Err(failure)) => if is_recoverable(failure) {
                go_on(work, StorePhase::Locking, StoreAction::Lock)
            } else {
                end(work, Err(failure))
            },
            (Round::Second, Err(failure)) => if is_recoverable(failure) {
                go_on(work, StorePhase::Inspecting, StoreAction::ReadCurrent)
            } else {
                end(work, Err(failure))
            },
            (Round::Second, Ok(_)) => go_on(work, StorePhase::Releasing, StoreAction::Unlock),
            _ => end(work, active_outcome(result)),
        },
        StoreTask::Prepare { commit } => match result {
            Err(failure) => end(work, Err(failure)),
            Ok(active) => if active matches Some(index) && index.commit == commit {
                end(
                    work,
                    Ok(
                        StoreOutcome::Prepared(
                            PreparedSearchIndex { generation_id: active->0.generation_id, commit },
                        ),
                    ),
                )
            } else {
                go_on(
                    work,
                    StorePhase::Building,
                    StoreAction::Build { generation_id: generation_name(commit, work.unique) },
                )
            },
        },
        StoreTask::Activate { generation_id, commit } => match result {
            Err(failure) => end(work, Err(failure)),
            Ok(active) => {
                let wanted = Some(ActiveSearchIndex { generation_id, commit });
                match round {
                    Round::First => if active == wanted {
                        go_on(work, StorePhase::Syncing, StoreAction::SyncRoot)
                    } else {
                        go_on(
                            work,
                            StorePhase::Selecting,
                            StoreAction::Select {
                                generation_id,
                                temporary: ".current-"@ + ulid_text(work.unique),
                            },
                        )
                    },
                    _ => if active is None {
                        end(work, Err(SearchIndexStoreError::InvalidCurrentEntry))
                    } else if active == wanted {
                        end(work, Ok(StoreOutcome::Active(active)))
                    } else {
                        end(work, Err(SearchIndexStoreError::ActivationConflict))
                    },
                }
            },
        },
    }
}

/// How work begins.
pub open spec fn work_begun(task: TaskView, unique: u128) -> StoreStep {
    let work = StoreWork { task, unique, phase: StorePhase::Ended };
    match task {
        StoreTask::Read => look_up(work, Round::First),
        StoreTask::Recover => look_up(work, Round::First),
        _ => go_on(work, StorePhase::Locking, StoreAction::Lock),
    }
}

/// How work goes on once the storage was checked under the lock.
pub open spec fn checked(work: WorkView) -> StoreStep {
    match work.task {
        StoreTask::Read => look_up(work, Round::First),
        StoreTask::Recover => look_up(work, Round::Second),
        StoreTask::Prepare { .. } => look_up(work, Round::First),
        StoreTask::Activate { generation_id, commit } => if is_generation(generation_id, commit) {
            go_on(work, StorePhase::Verifying, StoreAction::OpenGeneration { generation_id })
        } else {
            end(work, Err(SearchIndexStoreError::InvalidGeneration))
        },
    }
}

/// The generation and the commit that work is about.
pub open spec fn subject(work: WorkView) -> (Seq<char>, Seq<char>) {
    match work.task {
        StoreTask::Prepare { commit } => (generation_name(commit, work.unique), commit),
        StoreTask::Activate { generation_id, commit } => (generation_id, commit),
        _ => (Seq::empty(), Seq::empty()),
    }
}

/// How work goes on after a reply. A reply that does not fit ends the work.
pub open spec fn work_stepped(work: WorkView, reply: StoreReply) -> StoreStep {
    let (generation_id, commit) = subject(work);
    match (work.phase, reply) {
        (StorePhase::LookupChecking(round), StoreReply::Failed(error)) => looked_up(
            work,
            round,
            Err(error@),
        ),
        (StorePhase::LookupOpening(round, _), StoreReply::Failed(error)) => looked_up(
            work,
            round,
            Err(error@),
        ),
        (StorePhase::Ended, _) => end(work, Err(SearchIndexStoreError::InvalidStorage)),
        (_, StoreReply::Failed(error)) => end(work, Err(error@)),
        (StorePhase::Locking, StoreReply::Done) => go_on(
            work,
            StorePhase::Checking,
            StoreAction::CheckStorage,
        ),
        (StorePhase::Checking, StoreReply::Done) => checked(work),
        (StorePhase::LookupChecking(round), StoreReply::Done) => go_on(
            work,
            StorePhase::LookupReading(round),
            StoreAction::ReadCurrent,
        ),
        (StorePhase::LookupReading(round), StoreReply::Current(entry)) => match current_generation(
            entry,
        ) {
            Err(failure) => looked_up(work, round, Err(failure)),
            Ok(None) => looked_up(work, round, Ok(None)),
            Ok(Some(selected)) => go_on(
                work,
                StorePhase::LookupOpening(round, selected),
                StoreAction::OpenGeneration { generation_id: selected },
            ),
        },
        (StorePhase::LookupOpening(round, selected), StoreReply::Commit(opened)) => looked_up(
            work,
            round,
            found(selected, opened@),
        ),
        (StorePhase::Building, StoreReply::Commit(built)) => if built@ == commit {
            go_on(work, StorePhase::Promoting, StoreAction::Promote { generation_id })
        } else {
            end(work, Err(SearchIndexStoreError::GenerationCommitMismatch))
        },
        (StorePhase::Promoting, StoreReply::Done) => go_on(
            work,
            StorePhase::Reopening,
            StoreAction::OpenGeneration { generation_id },
        ),
        (StorePhase::Reopening, StoreReply::Commit(opened)) => if opened@ == commit {
            go_on(work, StorePhase::Rechecking, StoreAction::CheckStorage)
        } else {
            end(work, Err(SearchIndexStoreError::GenerationCommitMismatch))
        },
        (StorePhase::Rechecking, StoreReply::Done) => end(
            work,
            Ok(StoreOutcome::Prepared(PreparedSearchIndex { generation_id, commit })),
        ),
        (StorePhase::Verifying, StoreReply::Commit(opened)) => if opened@ == commit {
            look_up(work, Round::First)
        } else {
            end(work, Err(SearchIndexStoreError::GenerationCommitMismatch))
        },
        (StorePhase::Syncing, StoreReply::Done) => end(
            work,
            Ok(StoreOutcome::Active(Some(ActiveSearchIndex { generation_id, commit }))),
        ),
        (StorePhase::Selecting, StoreReply::Done) => go_on(
            work,
            StorePhase::SelectChecking,
            StoreAction::CheckStorage,
        ),
        (StorePhase::SelectChecking, StoreReply::Done) => look_up(work, Round::Second),
        (StorePhase::Inspecting, StoreReply::Current(entry)) => match entry {
            CurrentEntry::Absent => go_on(work, StorePhase::Releasing, StoreAction::Unlock),
            CurrentEntry::Unreadable(reason) => end(work, Err(SearchIndexStoreError::Io(reason@))),
            _ => go_on(
                work,
                StorePhase::MovingCurrent(
                    match current_generation(entry) {
                        Ok(selected) => selected,
                        Err(_) => None,
                    },
                ),
                StoreAction::MoveCurrent { name: "invalid-current-"@ + ulid_text(work.unique) },
            ),
        },
        (StorePhase::MovingCurrent(None), StoreReply::Done) => go_on(
            work,
            StorePhase::QuarantineChecking,
            StoreAction::CheckStorage,
        ),
        (StorePhase::MovingCurrent(Some(selected)), StoreReply::Done) => go_on(
            work,
            StorePhase::MovingGeneration,
            StoreAction::MoveGeneration {
                generation_id: selected,
                name: "invalid-generation-"@ + selected + "-"@ + ulid_text(work.unique),
            },
        ),
        (StorePhase::MovingGeneration, StoreReply::Done) => go_on(
            work,
            StorePhase::QuarantineChecking,
            StoreAction::CheckStorage,
        ),
        (StorePhase::QuarantineChecking, StoreReply::Done) => go_on(
            work,
            StorePhase::Releasing,
            StoreAction::Unlock,
        ),
        (StorePhase::Releasing, StoreReply::Done) => look_up(work, Round::Third),
        _ => end(work, Err(SearchIndexStoreError::InvalidStorage)),
    }
}

/// The view of the result of a look-up.
pub open spec fn lookup_view(
    result: Result<Option<ActiveSearchIndex>, SearchIndexStoreError>,
) -> Result<Option<ActiveView>, StoreFailure> {
    match result {
        Ok(Some(active)) => Ok(Some(active@)),
        Ok(None) => Ok(None),
        Err(error) => Err(error@),
    }
}

impl StoreWork {
    /// Begins work under a number that no other work has.
    pub fn begin(task: StoreTask) -> (result: (StoreWork, StoreAction))
        ensures
            (result.0@, result.1@) == work_begun(task@, result.0.unique),
    {
        let unique: u128 = fresh_ulid();
        StoreWork::begin_with(task, unique)
    }

    /// Begins work under a given number.
    pub fn begin_with(task: StoreTask, unique: u128) -> (result: (StoreWork, StoreAction))
        ensures
            (result.0@, result.1@) == work_begun(task@, unique),
    {
        let looks = match &task {
            StoreTask::Read => true,
            StoreTask::Recover => true,
            _ => false,
        };
        let work = StoreWork { task, unique, phase: StorePhase::Ended };
        if looks {
            work.look_up(Round::First)
        } else {
            work.go_on(StorePhase::Locking, StoreAction::Lock)
        }
    }

    fn go_on(self, phase: StorePhase, action: StoreAction) -> (result: (StoreWork, StoreAction))
        ensures
            (result.0@, result.1@) == go_on(self@, phase@, action@),
    {
        (StoreWork { task: self.task, unique: self.unique, phase }, action)
    }

    fn fail(self, error: SearchIndexStoreError) -> (result: (StoreWork, StoreAction))
        ensures
            (result.0@, result.1@) == end(self@, Err(error@)),
    {
        self.go_on(StorePhase::Ended, StoreAction::Finish(Err(error)))
    }

    fn succeed(self, outcome: StoreOutcome) -> (result: (StoreWork, StoreAction))
        ensures
            (result.0@, result.1@) == end(self@, Ok(outcome@)),
    {
        self.go_on(StorePhase::Ended, StoreAction::Finish(Ok(outcome)))
    }

    fn look_up(self, round: Round) -> (result: (StoreWork, StoreAction))
        ensures
            (result.0@, result.1@) == look_up(self@, round),
    {
        self.go_on(StorePhase::LookupChecking(round), StoreAction::CheckStorage)
    }

    fn end_lookup(self, lookup: Result<Option<ActiveSearchIndex>, SearchIndexStoreError>) -> (result:
        (StoreWork, StoreAction))
        ensures
            (result.0@, result.1@) == end(self@, active_outcome(lookup_view(lookup))),
    {
        match lookup {
            Ok(active) => self.succeed(StoreOutcome::Active(active)),
            Err(error) => self.fail(error),
        }
    }

    fn subject(&self) -> (result: (String, String))
        ensures
            (result.0@, result.1@) == subject(self@),
    {
        match &self.task {
            StoreTask::Prepare { commit } => (
                generation_id(commit.as_str(), self.unique),
                commit.clone(),
            ),
            StoreTask::Activate { generation_id, commit } => (
                generation_id.clone(),
                commit.clone(),
            ),
            _ => {
                let empty = String::new();
                let other = String::new();
                assert(empty@ =~= Seq::<char>::empty());
                assert(other@ =~= Seq::<char>::empty());
                (empty, other)
            },
        }
    }

    fn unique_text(&self) -> (text: String)
        ensures
            text@ == ulid_text(self@.unique),
    {
        (BatchId { value: self.unique }).text()
    }

    fn recover_with(
        self,
        round: Round,
        lookup: Result<Option<ActiveSearchIndex>, SearchIndexStoreError>,
    ) -> (result: (StoreWork, StoreAction))
        requires
            self.task is Recover,
        ensures
            (result.0@, result.1@) == looked_up(self@, round, lookup_view(lookup)),
    {
        match lookup {
            Ok(active) => match round {
                Round::Second => self.go_on(StorePhase::Releasing, StoreAction::Unlock),
                _ => self.end_lookup(Ok(active)),
            },
            Err(error) => {
                let recoverable = recoverable_active_error(&error);
                match round {
                    Round::First => if recoverable {
                        self.go_on(StorePhase::Locking, StoreAction::Lock)
                    } else {
                        self.fail(error)
                    },
                    Round::Second => if recoverable {
                        self.go_on(StorePhase::Inspecting, StoreAction::ReadCurrent)
                    } else {
                        self.fail(error)
                    },
                    Round::Third => self.fail(error),
                }
            },
        }
    }

    fn prepare_with(
        self,
        round: Round,
        lookup: Result<Option<ActiveSearchIndex>, SearchIndexStoreError>,
    ) -> (result: (StoreWork, StoreAction))
        requires
            self.task is Prepare,
        ensures
            (result.0@, result.1@) == looked_up(self@, round, lookup_view(lookup)),
    {
        let (generation_id, commit) = self.subject();
        match lookup {
            Err(error) => self.fail(error),
            Ok(Some(active)) => {
                if same_text(active.commit.as_str(), commit.as_str()) {
                    self.succeed(
                        StoreOutcome::Prepared(
                            PreparedSearchIndex { generation_id: active.generation_id, commit },
                        ),
                    )
                } else {
                    self.go_on(StorePhase::Building, StoreAction::Build { generation_id })
                }
            },
            Ok(None) => self.go_on(StorePhase::Building, StoreAction::Build { generation_id }),
        }
    }

    fn activate_with(
        self,
        round: Round,
        lookup: Result<Option<ActiveSearchIndex>, SearchIndexStoreError>,
    ) -> (result: (StoreWork, StoreAction))
        requires
            self.task is Activate,
        ensures
            (result.0@, result.1@) == looked_up(self@, round, lookup_view(lookup)),
    {
        let (generation_id, commit) = self.subject();
        let active = match lookup {
            Err(error) => {
                return self.fail(error);
            },
            Ok(active) => active,
        };
        let wanted = match &active {
            Some(index) => same_text(index.generation_id.as_str(), generation_id.as_str())
                && same_text(index.commit.as_str(), commit.as_str()),
            None => false,
        };
        match round {
            Round::First => if wanted {
                self.go_on(StorePhase::Syncing, StoreAction::SyncRoot)
            } else {
                let temporary = join2(".current-", self.unique_text().as_str());
                self.go_on(
                    StorePhase::Selecting,
                    StoreAction::Select { generation_id, temporary },
                )
            },
            _ => if active.is_none() {
                self.fail(SearchIndexStoreError::InvalidCurrentEntry)
            } else if wanted {
                self.succeed(StoreOutcome::Active(active))
            } else {
                self.fail(SearchIndexStoreError::ActivationConflict)
            },
        }
    }

    fn with_lookup(
        self,
        round: Round,
        lookup: Result<Option<ActiveSearchIndex>, SearchIndexStoreError>,
    ) -> (result: (StoreWork, StoreAction))
        ensures
            (result.0@, result.1@) == looked_up(self@, round, lookup_view(lookup)),
    {
        match &self.task {
            StoreTask::Read => self.end_lookup(lookup),
            StoreTask::Recover => self.recover_with(round, lookup),
            StoreTask::Prepare { .. } => self.prepare_with(round, lookup),
            StoreTask::Activate { .. } => self.activate_with(round, lookup),
        }
    }

    fn check_done(self) -> (result: (StoreWork, StoreAction))
        ensures
            (result.0@, result.1@) == checked(self@),
    {
        let (generation_id, commit) = self.subject();
        match &self.task {
            StoreTask::Recover => self.look_up(Round::Second),
            StoreTask::Activate { .. } => match validate_generation_id(
                generation_id.as_str(),
                commit.as_str(),
            ) {
                Ok(()) => self.go_on(
                    StorePhase::Verifying,
                    StoreAction::OpenGeneration { generation_id },
                ),
                Err(error) => self.fail(error),
            },
            _ => self.look_up(Round::First),
        }
    }

    /// A reply to a look-up, if the work is in one.
    fn step_lookup(self, reply: StoreReply) -> (result: (StoreWork, StoreAction))
        requires
            self.phase is LookupChecking || self.phase is LookupReading
                || self.phase is LookupOpening,
        ensures
            (result.0@, result.1@) == work_stepped(self@, reply),
    {
        let mut work = self;
        let mut phase = StorePhase::Ended;
        std::mem::swap(&mut work.phase, &mut phase);
        match (phase, reply) {
            (StorePhase::LookupChecking(round), StoreReply::Failed(error)) => work.with_lookup(
                round,
                Err(error),
            ),
            (StorePhase::LookupOpening(round, _), StoreReply::Failed(error)) => work.with_lookup(
                round,
                Err(error),
            ),
            (_, StoreReply::Failed(error)) => work.fail(error),
            (StorePhase::LookupChecking(round), StoreReply::Done) => work.go_on(
                StorePhase::LookupReading(round),
                StoreAction::ReadCurrent,
            ),
            (StorePhase::LookupReading(round), StoreReply::Current(entry)) =>
                match selected_generation(entry) {
                    Err(error) => work.with_lookup(round, Err(error)),
                    Ok(None) => work.with_lookup(round, Ok(None)),
                    Ok(Some(selected)) => {
                        let generation_id = selected.clone();
                        work.go_on(
                            StorePhase::LookupOpening(round, selected),
                            StoreAction::OpenGeneration { generation_id },
                        )
                    },
                },
            (StorePhase::LookupOpening(round, selected), StoreReply::Commit(opened)) =>
                match validate_generation_id(selected.as_str(), opened.as_str()) {
                    Err(error) => work.with_lookup(round, Err(error)),
                    Ok(()) => work.with_lookup(
                        round,
                        Ok(Some(ActiveSearchIndex { generation_id: selected, commit: opened })),
                    ),
                },
            _ => work.fail(SearchIndexStoreError::InvalidStorage),
        }
    }

    fn step_recovery(self, reply: StoreReply) -> (result: (StoreWork, StoreAction))
        requires
            self.phase is Inspecting || self.phase is MovingCurrent
                || self.phase is MovingGeneration || self.phase is QuarantineChecking
                || self.phase is Releasing,
        ensures
            (result.0@, result.1@) == work_stepped(self@, reply),
    {
        let mut work = self;
        let mut phase = StorePhase::Ended;
        std::mem::swap(&mut work.phase, &mut phase);
        match (phase, reply) {
            (_, StoreReply::Failed(error)) => work.fail(error),
            (StorePhase::Inspecting, StoreReply::Current(entry)) => match entry {
                CurrentEntry::Absent => work.go_on(StorePhase::Releasing, StoreAction::Unlock),
                CurrentEntry::Unreadable(reason) => work.fail(SearchIndexStoreError::Io(reason)),
                other => {
                    let selected = match selected_generation(other) {
                        Ok(selected) => selected,
                        Err(_) => None,
                    };
                    let name = join2("invalid-current-", work.unique_text().as_str());
                    work.go_on(
                        StorePhase::MovingCurrent(selected),
                        StoreAction::MoveCurrent { name },
                    )
                },
            },
            (StorePhase::MovingCurrent(None), StoreReply::Done) => work.go_on(
                StorePhase::QuarantineChecking,
                StoreAction::CheckStorage,
            ),
            (StorePhase::MovingCurrent(Some(generation_id)), StoreReply::Done) => {
                let name = join4(
                    "invalid-generation-",
                    generation_id.as_str(),
                    "-",
                    work.unique_text().as_str(),
                );
                work.go_on(
                    StorePhase::MovingGeneration,
                    StoreAction::MoveGeneration { generation_id, name },
                )
            },
            (StorePhase::MovingGeneration, StoreReply::Done) => work.go_on(
                StorePhase::QuarantineChecking,
                StoreAction::CheckStorage,
            ),
            (StorePhase::QuarantineChecking, StoreReply::Done) => work.go_on(
                StorePhase::Releasing,
                StoreAction::Unlock,
            ),
            (StorePhase::Releasing, StoreReply::Done) => work.look_up(Round::Third),
            _ => work.fail(SearchIndexStoreError::InvalidStorage),
        }
    }

    /// Decides what comes after a reply.
    pub fn step(self, reply: StoreReply) -> (result: (StoreWork, StoreAction))
        ensures
            (result.0@, result.1@) == work_stepped(self@, reply),
    {
        match &self.phase {
            StorePhase::LookupChecking(_) | StorePhase::LookupReading(_)
            | StorePhase::LookupOpening(_, _) => {
                return self.step_lookup(reply);
            },
            StorePhase::Inspecting | StorePhase::MovingCurrent(_) | StorePhase::MovingGeneration
            | StorePhase::QuarantineChecking | StorePhase::Releasing => {
                return self.step_recovery(reply);
            },
            _ => {},
        }
        let (generation_id, commit) = self.subject();
        let mut work = self;
        let mut phase = StorePhase::Ended;
        std::mem::swap(&mut work.phase, &mut phase);
        match (phase, reply) {
            (StorePhase::Ended, _) => work.fail(SearchIndexStoreError::InvalidStorage),
            (_, StoreReply::Failed(error)) => work.fail(error),
            (StorePhase::Locking, StoreReply::Done) => work.go_on(
                StorePhase::Checking,
                StoreAction::CheckStorage,
            ),
            (StorePhase::Checking, StoreReply::Done) => work.check_done(),
            (StorePhase::Building, StoreReply::Commit(built)) => if same_text(
                built.as_str(),
                commit.as_str(),
            ) {
                work.go_on(StorePhase::Promoting, StoreAction::Promote { generation_id })
            } else {
                work.fail(SearchIndexStoreError::GenerationCommitMismatch)
            },
            (StorePhase::Promoting, StoreReply::Done) => work.go_on(
                StorePhase::Reopening,
                StoreAction::OpenGeneration { generation_id },
            ),
            (StorePhase::Reopening, StoreReply::Commit(opened)) => if same_text(
                opened.as_str(),
                commit.as_str(),
            ) {
                work.go_on(StorePhase::Rechecking, StoreAction::CheckStorage)
            } else {
                work.fail(SearchIndexStoreError::GenerationCommitMismatch)
            },
            (StorePhase::Rechecking, StoreReply::Done) => work.succeed(
                StoreOutcome::Prepared(PreparedSearchIndex { generation_id, commit }),
            ),
            (StorePhase::Verifying, StoreReply::Commit(opened)) => if same_text(
                opened.as_str(),
                commit.as_str(),
            ) {
                work.look_up(Round::First)
            } else {
                work.fail(SearchIndexStoreError::GenerationCommitMismatch)
            },
            (StorePhase::Syncing, StoreReply::Done) => work.succeed(
                StoreOutcome::Active(Some(ActiveSearchIndex { generation_id, commit })),
            ),
            (StorePhase::Selecting, StoreReply::Done) => work.go_on(
                StorePhase::SelectChecking,
                StoreAction::CheckStorage,
            ),
            (StorePhase::SelectChecking, StoreReply::Done) => work.look_up(Round::Second),
            _ => work.fail(SearchIndexStoreError::InvalidStorage),
        }
    }
}

/// Work after the first `count` replies, and what it does next.
pub open spec fn worked(task: TaskView, unique: u128, replies: Seq<StoreReply>, count: nat) -> StoreStep
    decreases count,
{
    if count == 0 {
        work_begun(task, unique)
    } else {
        work_stepped(worked(task, unique, replies, (count - 1) as nat).0, replies[count - 1])
    }
}

pub(crate) open spec fn in_lookup(phase: PhaseView, round: Round) -> bool {
    phase == StorePhase::<Seq<char>>::LookupChecking(round) || phase
        == StorePhase::<Seq<char>>::LookupReading(round) || (phase matches
        StorePhase::LookupOpening(actual, _) && actual == round)
}

/// Whether a task can stand in a phase.
pub(crate) open spec fn suits(work: WorkView) -> bool {
    work.phase is Ended || match work.task {
        StoreTask::Read => in_lookup(work.phase, Round::First),
        StoreTask::Recover => in_lookup(work.phase, Round::First) || in_lookup(
            work.phase,
            Round::Second,
        ) || in_lookup(work.phase, Round::Third) || work.phase is Locking || work.phase is Checking
            || work.phase is Inspecting || work.phase is MovingCurrent
            || work.phase is MovingGeneration || work.phase is QuarantineChecking
            || work.phase is Releasing,
        StoreTask::Prepare { .. } => in_lookup(work.phase, Round::First) || work.phase is Locking
            || work.phase is Checking || work.phase is Building || work.phase is Promoting
            || work.phase is Reopening || work.phase is Rechecking,
        StoreTask::Activate { .. } => in_lookup(work.phase, Round::First) || in_lookup(
            work.phase,
            Round::Second,
        ) || work.phase is Locking || work.phase is Checking || work.phase is Verifying
            || work.phase is Syncing || work.phase is Selecting || work.phase is SelectChecking,
    }
}

pub(crate) proof fn work_suits(task: TaskView, unique: u128, replies: Seq<StoreReply>, count: nat)
    ensures
        suits(worked(task, unique, replies, count).0),
        worked(task, unique, replies, count).0.task == task,
        worked(task, unique, replies, count).0.unique == unique,
    decreases count,
{
    if count > 0 {
        work_suits(task, unique, replies, (count - 1) as nat);
    }
}

/// Work that ends well gives what was wanted: an activated index is exactly the requested one, a
/// prepared one has the requested commit and a generation named after it, and so has a selected one
/// that was read or recovered.
pub proof fn finished_work_gives_what_was_wanted(
    task: TaskView,
    unique: u128,
    replies: Seq<StoreReply>,
    count: nat,
)
    ensures
        worked(task, unique, replies, count).1 matches StoreAction::Finish(Ok(outcome))
            ==> match task {
            StoreTask::Activate { generation_id, commit } => outcome == StoreOutcome::Active(
                Some(ActiveSearchIndex { generation_id, commit }),
            ),
            StoreTask::Prepare { commit } => outcome matches StoreOutcome::Prepared(prepared)
                && prepared.commit == commit && is_generation(prepared.generation_id, commit),
            _ => outcome matches StoreOutcome::Active(active) && (active matches Some(index)
                ==> is_generation(index.generation_id, index.commit)),
        },
{
    if let StoreTask::Prepare { commit } = task {
        generations_are_named_after_commits(commit, unique);
    }
    if count > 0 {
        work_suits(task, unique, replies, (count - 1) as nat);
    }
}

/// Whether a generation was opened with a commit before a point of the work.
pub open spec fn was_opened(
    task: TaskView,
    unique: u128,
    replies: Seq<StoreReply>,
    count: nat,
    generation_id: Seq<char>,
    commit: Seq<char>,
) -> bool {
    exists|k: nat|
        k < count && #[trigger] worked(task, unique, replies, k).1
            == StoreActionView::OpenGeneration { generation_id } && (replies[k as int] matches
            StoreReply::Commit(opened) && opened@ == commit)
}

proof fn activation_opens(
    generation_id: Seq<char>,
    commit: Seq<char>,
    unique: u128,
    replies: Seq<StoreReply>,
    count: nat,
)
    ensures
        ({
            let task = StoreTask::Activate { generation_id, commit };
            let (work, action) = worked(task, unique, replies, count);
            &&& work.phase is Verifying ==> action == StoreActionView::OpenGeneration {
                generation_id,
            }
            &&& work.phase is Ended || work.phase is Locking || work.phase is Checking
                || work.phase is Verifying || (was_opened(
                task,
                unique,
                replies,
                count,
                generation_id,
                commit,
            ) && is_generation(generation_id, commit))
            &&& work.phase is Verifying ==> is_generation(generation_id, commit)
        }),
    decreases count,
{
    if count > 0 {
        let task = StoreTask::Activate { generation_id, commit };
        let before = (count - 1) as nat;
        activation_opens(generation_id, commit, unique, replies, before);
        work_suits(task, unique, replies, before);
        let (work, action) = worked(task, unique, replies, before);
        if was_opened(task, unique, replies, before, generation_id, commit) {
            let k = choose|k: nat|
                k < before && #[trigger] worked(task, unique, replies, k).1
                    == StoreActionView::OpenGeneration { generation_id } && (
                replies[k as int] matches StoreReply::Commit(opened) && opened@ == commit);
            assert(k < count && worked(task, unique, replies, k).1
                == StoreActionView::OpenGeneration { generation_id });
            assert(was_opened(task, unique, replies, count, generation_id, commit));
        } else if work.phase is Verifying && worked(task, unique, replies, count).0.phase !is Ended {
            assert(worked(task, unique, replies, before).1 == StoreActionView::OpenGeneration {
                generation_id,
            });
            assert(was_opened(task, unique, replies, count, generation_id, commit));
        }
    }
}

/// `current` is only ever replaced by a generation that is named after its commit and that was
/// opened with that commit before.
pub proof fn selected_indexes_were_opened(
    task: TaskView,
    unique: u128,
    replies: Seq<StoreReply>,
    count: nat,
)
    ensures
        worked(task, unique, replies, count).1 matches StoreAction::Select { generation_id, .. }
            ==> (task matches StoreTask::Activate { generation_id: wanted, commit }
            && generation_id == wanted && is_generation(wanted, commit) && was_opened(
            task,
            unique,
            replies,
            count,
            wanted,
            commit,
        )),
{
    work_suits(task, unique, replies, count);
    if count > 0 {
        work_suits(task, unique, replies, (count - 1) as nat);
    }
    if let StoreTask::Activate { generation_id, commit } = task {
        activation_opens(generation_id, commit, unique, replies, count);
    }
}

/// The selected index is set aside only after it was found corrupt in its derived data.
pub proof fn only_corrupt_indexes_are_set_aside(work: WorkView, reply: StoreReply)
    ensures
        work_stepped(work, reply).0.phase is Inspecting ==> work.task is Recover && (match (
            work.phase,
            reply,
        ) {
            (_, StoreReply::Failed(error)) => is_recoverable(error@),
            (StorePhase::LookupReading(_), StoreReply::Current(entry)) => current_generation(
                entry,
            ) matches Err(failure) && is_recoverable(failure),
            (StorePhase::LookupOpening(_, selected), StoreReply::Commit(opened)) => !is_generation(
                selected,
                opened@,
            ),
            _ => false,
        }),
        work_stepped(work, reply).1 is MoveCurrent ==> work.phase is Inspecting,
{
}

} // verus!
