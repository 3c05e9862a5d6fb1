//! The read boundary over the official repository and its content tree.
use crate::git_error::{GitFailure, GitTransactionError};
use crate::git_text::{holds_control, parse_object_id, printed_object, ObjectId};
use crate::opening::{
    ensure_supported_git, is_branch_name, reference_of, version_problem, ConfigFacts,
};
use crate::path::ContentPath;
use crate::read::{deadline_passed, is_past};
use crate::read_error::{CommittedReadError, ReadFailure};
use crate::repository::{
    config_problem, layout_problem, overlap, validate_local_git_config, validate_repository_layout,
    LayoutFacts,
};
use crate::text::{characters, join2};
use vstd::prelude::*;
use vstd::string::*;

verus! {

/// The configured directories and branch of a committed store.
#[derive(Debug)]
pub struct StoreSettings {
    /// The repository, as shown.
    pub git_directory: String,
    /// The content root, as shown.
    pub content_root: String,
    /// The official branch.
    pub official_branch: String,
    /// Optional absolute deadline, as a clock reading.
    pub deadline: Option<u64>,
}

/// What has to be observed next of a committed store that is being opened.
#[derive(Clone, Copy, Debug, PartialEq, Eq, Structural)]
pub enum StoreObservation {
    /// What `git --version` prints.
    Version,
    /// Whether the repository is a real directory.
    GitDirectory,
    /// Whether the content root is a real directory.
    ContentRoot,
    /// The resolved paths of both.
    Paths,
    /// Whether Git accepts the name of the official branch.
    BranchName,
    /// The repository-local configuration.
    Configuration,
    /// What Git prints of the repository and the content root.
    Layout,
}

/// What was observed of a committed store that is being opened.
#[derive(Debug)]
pub struct StoreFacts {
    /// The clock before anything.
    pub begun: u64,
    /// What `git --version` prints.
    pub version: Option<Vec<u8>>,
    /// Whether the repository is a real directory.
    pub git_directory: Option<bool>,
    /// Whether the content root is a real directory.
    pub content_root: Option<bool>,
    /// The resolved repository and the resolved content root.
    pub paths: Option<(ContentPath, ContentPath)>,
    /// Whether Git looked at the name of the official branch; a refusal ends the opening.
    pub branch_name: bool,
    /// The repository-local configuration.
    pub configuration: Option<ConfigFacts>,
    /// What Git prints of the repository and the content root, and the clock after that.
    pub layout: Option<(LayoutFacts, u64)>,
}

/// How the opening of a committed store goes on.
#[derive(Debug)]
pub enum StoreOpening<T = String> {
    /// An observation is needed.
    Observe(StoreObservation),
    /// The store can be read under this official reference.
    Opened(T),
}

impl View for StoreOpening {
    type V = StoreOpening<Seq<char>>;

    open spec fn view(&self) -> StoreOpening<Seq<char>> {
        match *self {
            StoreOpening::Observe(observation) => StoreOpening::Observe(observation),
            StoreOpening::Opened(official_ref) => StoreOpening::Opened(official_ref@),
        }
    }
}

/// A Git failure as a read failure.
pub open spec fn of_repository(failure: GitFailure) -> ReadFailure {
    CommittedReadError::Repository(failure)
}

/// How an opening goes on once both directories were found real.
pub open spec fn store_layout(settings: StoreSettings, facts: StoreFacts) -> Result<
    StoreOpening<Seq<char>>,
    ReadFailure,
> {
    let official_ref = reference_of(settings.official_branch@);
    match facts.paths {
        None => Ok(StoreOpening::Observe(StoreObservation::Paths)),
        Some(paths) => if overlap(paths.0@, paths.1@) {
            Err(CommittedReadError::OverlappingPaths)
        } else if !is_branch_name(settings.official_branch@) {
            Err(CommittedReadError::InvalidOfficialBranch)
        } else if !facts.branch_name {
            Ok(StoreOpening::Observe(StoreObservation::BranchName))
        } else {
            match facts.configuration {
                None => Ok(StoreOpening::Observe(StoreObservation::Configuration)),
                Some(configuration) => if let Some(failure) = config_problem(
                    configuration.keys@,
                    configuration.bare@,
                    configuration.filemode@,
                ) {
                    Err(of_repository(failure))
                } else {
                    match facts.layout {
                        None => Ok(StoreOpening::Observe(StoreObservation::Layout)),
                        Some((layout, finished)) => if let Some(failure) = layout_problem(
                            layout,
                            official_ref,
                        ) {
                            Err(of_repository(failure))
                        } else if is_past(settings.deadline, finished) {
                            Err(CommittedReadError::OperationDeadlineExceeded)
                        } else {
                            Ok(StoreOpening::Opened(official_ref))
                        },
                    }
                },
            }
        },
    }
}

/// How an opening goes on: each observation is asked for only once all before it passed.
pub open spec fn store_opening(settings: StoreSettings, facts: StoreFacts) -> Result<
    StoreOpening<Seq<char>>,
    ReadFailure,
> {
    if is_past(settings.deadline, facts.begun) {
        Err(CommittedReadError::OperationDeadlineExceeded)
    } else {
        match facts.version {
            None => Ok(StoreOpening::Observe(StoreObservation::Version)),
            Some(version) => if let Some(failure) = version_problem(version@) {
                Err(of_repository(failure))
            } else {
                match facts.git_directory {
                    None => Ok(StoreOpening::Observe(StoreObservation::GitDirectory)),
                    Some(false) => Err(
                        of_repository(GitTransactionError::InvalidDirectory(settings.git_directory@)),
                    ),
                    Some(true) => match facts.content_root {
                        None => Ok(StoreOpening::Observe(StoreObservation::ContentRoot)),
                        Some(false) => Err(
                            of_repository(
                                GitTransactionError::InvalidDirectory(settings.content_root@),
                            ),
                        ),
                        Some(true) => store_layout(settings, facts),
                    },
                }
            },
        }
    }
}

fn open_store_layout(settings: &StoreSettings, facts: &StoreFacts) -> (result: Result<
    StoreOpening,
    CommittedReadError,
>)
    ensures
        (match result {
            Ok(step) => Ok(step@),
            Err(error) => Err(error@),
        }) == store_layout(*settings, *facts),
{
    match &facts.paths {
        None => {
            return Ok(StoreOpening::Observe(StoreObservation::Paths));
        },
        Some(paths) => if paths.0.starts_with(&paths.1) || paths.1.starts_with(&paths.0) {
            return Err(CommittedReadError::OverlappingPaths);
        },
    }
    let branch = characters(settings.official_branch.as_str());
    if branch.len() == 0 || holds_control(&branch) {
        return Err(CommittedReadError::InvalidOfficialBranch);
    }
    if !facts.branch_name {
        return Ok(StoreOpening::Observe(StoreObservation::BranchName));
    }
    match &facts.configuration {
        None => {
            return Ok(StoreOpening::Observe(StoreObservation::Configuration));
        },
        Some(configuration) => match validate_local_git_config(
            configuration.keys.as_slice(),
            configuration.bare.as_slice(),
            configuration.filemode.as_slice(),
        ) {
            Err(error) => {
                return Err(CommittedReadError::Repository(error));
            },
            Ok(()) => {},
        },
    }
    let official_ref = join2("refs/heads/", settings.official_branch.as_str());
    match &facts.layout {
        None => Ok(StoreOpening::Observe(StoreObservation::Layout)),
        Some((layout, finished)) => match validate_repository_layout(
            layout,
            official_ref.as_str(),
        ) {
            Err(error) => Err(CommittedReadError::Repository(error)),
            Ok(()) => if deadline_passed(settings.deadline, *finished) {
                Err(CommittedReadError::OperationDeadlineExceeded)
            } else {
                Ok(StoreOpening::Opened(official_ref))
            },
        },
    }
}

/// Decides how the opening of a committed store goes on, from what was observed so far.
pub fn open_until(settings: &StoreSettings, facts: &StoreFacts) -> (result: Result<
    StoreOpening,
    CommittedReadError,
>)
    ensures
        (match result {
            Ok(step) => Ok(step@),
            Err(error) => Err(error@),
        }) == store_opening(*settings, *facts),
{
    if deadline_passed(settings.deadline, facts.begun) {
        return Err(CommittedReadError::OperationDeadlineExceeded);
    }
    match &facts.version {
        None => {
            return Ok(StoreOpening::Observe(StoreObservation::Version));
        },
        Some(version) => match ensure_supported_git(version.as_slice()) {
            Err(error) => {
                return Err(CommittedReadError::Repository(error));
            },
            Ok(()) => {},
        },
    }
    match facts.git_directory {
        None => {
            return Ok(StoreOpening::Observe(StoreObservation::GitDirectory));
        },
        Some(false) => {
            return Err(
                CommittedReadError::Repository(
                    GitTransactionError::InvalidDirectory(settings.git_directory.clone()),
                ),
            );
        },
        Some(true) => {},
    }
    match facts.content_root {
        None => {
            return Ok(StoreOpening::Observe(StoreObservation::ContentRoot));
        },
        Some(false) => {
            return Err(
                CommittedReadError::Repository(
                    GitTransactionError::InvalidDirectory(settings.content_root.clone()),
                ),
            );
        },
        Some(true) => {},
    }
    open_store_layout(settings, facts)
}

/// A store is opened only if both directories are real, apart, and laid out for the branch, and
/// the deadline has not passed.
pub proof fn opened_stores_are_laid_out(settings: StoreSettings, facts: StoreFacts)
    requires
        store_opening(settings, facts) matches Ok(StoreOpening::Opened(_)),
    ensures
        store_opening(settings, facts) == Ok::<_, ReadFailure>(
            StoreOpening::Opened(reference_of(settings.official_branch@)),
        ),
        facts.git_directory == Some(true),
        facts.content_root == Some(true),
        !overlap((facts.paths->0).0@, (facts.paths->0).1@),
        layout_problem((facts.layout->0).0, reference_of(settings.official_branch@)) is None,
        !is_past(settings.deadline, (facts.layout->0).1),
{
}

/// What came of taking the shared content lock.
#[derive(Debug)]
pub enum SharedLock {
    /// It was taken.
    Taken,
    /// A writer holds it.
    Held,
    /// It could not be taken.
    Failed(String),
}

/// What has to be observed next of a committed store that is being pinned.
#[derive(Clone, Copy, Debug, PartialEq, Eq, Structural)]
pub enum PinObservation {
    /// What comes of taking the shared content lock.
    Lock,
    /// Whether both configured directories still name the pinned ones, and the clock after that.
    Storage,
    /// The repository-local configuration.
    Configuration,
    /// What Git prints of the repository and the content root.
    Layout,
    /// The status of the content root, as printed.
    Status,
    /// The official commit, as printed.
    Official,
    /// The commit that the content root has checked out, as printed.
    CheckedOut,
}

/// What was observed of a committed store that is being pinned.
#[derive(Debug)]
pub struct PinFacts {
    /// The shared content lock.
    pub lock: Option<SharedLock>,
    /// Whether both configured directories still name the pinned ones, and the clock after that.
    pub storage: Option<(bool, u64)>,
    /// The repository-local configuration.
    pub configuration: Option<ConfigFacts>,
    /// What Git prints of the repository and the content root.
    pub layout: Option<LayoutFacts>,
    /// The status of the content root, as printed.
    pub status: Option<Vec<u8>>,
    /// The official commit, as printed.
    pub official: Option<Vec<u8>>,
    /// The commit that the content root has checked out, as printed.
    pub checked_out: Option<Vec<u8>>,
}

/// How the pinning of a commit goes on.
#[derive(Clone, Copy, Debug, PartialEq, Eq, Structural)]
pub enum Pinning {
    /// An observation is needed.
    Observe(PinObservation),
    /// The official commit is checked out.
    Pinned(ObjectId),
}

/// How a pinning goes on once the storage was found as it was opened.
pub open spec fn pinned_layout(official_ref: Seq<char>, facts: PinFacts) -> Result<
    Pinning,
    ReadFailure,
> {
    match facts.configuration {
        None => Ok(Pinning::Observe(PinObservation::Configuration)),
        Some(configuration) => if let Some(failure) = config_problem(
            configuration.keys@,
            configuration.bare@,
            configuration.filemode@,
        ) {
            Err(of_repository(failure))
        } else {
            match facts.layout {
                None => Ok(Pinning::Observe(PinObservation::Layout)),
                Some(layout) => if let Some(failure) = layout_problem(layout, official_ref) {
                    Err(of_repository(failure))
                } else {
                    match facts.status {
                        None => Ok(Pinning::Observe(PinObservation::Status)),
                        Some(status) => if status@.len() > 0 {
                            Err(of_repository(GitTransactionError::CanonicalWorktreeDirty))
                        } else {
                            pinned_commits(facts)
                        },
                    }
                },
            }
        },
    }
}

/// How a pinning goes on once the content was found clean: content and official branch must
/// agree on one commit.
pub open spec fn pinned_commits(facts: PinFacts) -> Result<Pinning, ReadFailure> {
    match facts.official {
        None => Ok(Pinning::Observe(PinObservation::Official)),
        Some(official) => match printed_object(official@) {
            None => Err(of_repository(GitTransactionError::InvalidGitOutput)),
            Some(official) => match facts.checked_out {
                None => Ok(Pinning::Observe(PinObservation::CheckedOut)),
                Some(checked_out) => match printed_object(checked_out@) {
                    None => Err(of_repository(GitTransactionError::InvalidGitOutput)),
                    Some(checked_out) => if official == checked_out {
                        Ok(Pinning::Pinned(official))
                    } else {
                        Err(CommittedReadError::CanonicalOutOfDate { official, checked_out })
                    },
                },
            },
        },
    }
}

/// How a pinning goes on: each observation is asked for only once all before it passed.
pub open spec fn pinned_commit(
    official_ref: Seq<char>,
    deadline: Option<u64>,
    facts: PinFacts,
) -> Result<Pinning, ReadFailure> {
    match facts.lock {
        None => Ok(Pinning::Observe(PinObservation::Lock)),
        Some(SharedLock::Held) => Err(CommittedReadError::Busy),
        Some(SharedLock::Failed(reason)) => Err(CommittedReadError::Io(reason@)),
        Some(SharedLock::Taken) => match facts.storage {
            None => Ok(Pinning::Observe(PinObservation::Storage)),
            Some((same, now)) => if !same {
                Err(CommittedReadError::StorageReplaced)
            } else if is_past(deadline, now) {
                Err(CommittedReadError::OperationDeadlineExceeded)
            } else {
                pinned_layout(official_ref, facts)
            },
        },
    }
}

fn pin_commits(facts: &PinFacts) -> (result: Result<Pinning, CommittedReadError>)
    ensures
        (match result {
            Ok(step) => Ok(step),
            Err(error) => Err(error@),
        }) == pinned_commits(*facts),
{
    let official = match &facts.official {
        None => {
            return Ok(Pinning::Observe(PinObservation::Official));
        },
        Some(official) => parse_object_id(official.as_slice()),
    };
    let official = match official {
        None => {
            return Err(CommittedReadError::Repository(GitTransactionError::InvalidGitOutput));
        },
        Some(official) => official,
    };
    match &facts.checked_out {
        None => Ok(Pinning::Observe(PinObservation::CheckedOut)),
        Some(checked_out) => match parse_object_id(checked_out.as_slice()) {
            None => Err(CommittedReadError::Repository(GitTransactionError::InvalidGitOutput)),
            Some(checked_out) => if official == checked_out {
                Ok(Pinning::Pinned(official))
            } else {
                Err(CommittedReadError::CanonicalOutOfDate { official, checked_out })
            },
        },
    }
}

fn pin_layout(official_ref: &str, facts: &PinFacts) -> (result: Result<
    Pinning,
    CommittedReadError,
>)
    ensures
        (match result {
            Ok(step) => Ok(step),
            Err(error) => Err(error@),
        }) == pinned_layout(official_ref@, *facts),
{
    match &facts.configuration {
        None => {
            return Ok(Pinning::Observe(PinObservation::Configuration));
        },
        Some(configuration) => match validate_local_git_config(
            configuration.keys.as_slice(),
            configuration.bare.as_slice(),
            configuration.filemode.as_slice(),
        ) {
            Err(error) => {
                return Err(CommittedReadError::Repository(error));
            },
            Ok(()) => {},
        },
    }
    match &facts.layout {
        None => {
            return Ok(Pinning::Observe(PinObservation::Layout));
        },
        Some(layout) => match validate_repository_layout(layout, official_ref) {
            Err(error) => {
                return Err(CommittedReadError::Repository(error));
            },
            Ok(()) => {},
        },
    }
    match &facts.status {
        None => Ok(Pinning::Observe(PinObservation::Status)),
        Some(status) => if status.len() > 0 {
            Err(CommittedReadError::Repository(GitTransactionError::CanonicalWorktreeDirty))
        } else {
            pin_commits(facts)
        },
    }
}

/// Decides how the pinning of the official commit that canonical content has checked out goes
/// on, from what was observed so far.
pub fn pin_current_commit(official_ref: &str, deadline: Option<u64>, facts: &PinFacts) -> (result:
    Result<Pinning, CommittedReadError>)
    ensures
        (match result {
            Ok(step) => Ok(step),
            Err(error) => Err(error@),
        }) == pinned_commit(official_ref@, deadline, *facts),
{
    match &facts.lock {
        None => {
            return Ok(Pinning::Observe(PinObservation::Lock));
        },
        Some(SharedLock::Held) => {
            return Err(CommittedReadError::Busy);
        },
        Some(SharedLock::Failed(reason)) => {
            return Err(CommittedReadError::Io(reason.clone()));
        },
        Some(SharedLock::Taken) => {},
    }
    match facts.storage {
        None => {
            return Ok(Pinning::Observe(PinObservation::Storage));
        },
        Some((same, now)) => {
            if !same {
                return Err(CommittedReadError::StorageReplaced);
            }
            if deadline_passed(deadline, now) {
                return Err(CommittedReadError::OperationDeadlineExceeded);
            }
        },
    }
    pin_layout(official_ref, facts)
}

/// A pinned commit is official, checked out, and clean, under the shared lock.
pub proof fn pinned_commits_are_official(
    official_ref: Seq<char>,
    deadline: Option<u64>,
    facts: PinFacts,
)
    ensures
        pinned_commit(official_ref, deadline, facts) matches Ok(Pinning::Pinned(commit)) ==> {
            &&& facts.lock == Some(SharedLock::Taken)
            &&& (facts.storage->0).0
            &&& printed_object(facts.official->0@) == Some(commit)
            &&& printed_object(facts.checked_out->0@) == Some(commit)
            &&& facts.status->0@.len() == 0
            &&& layout_problem(facts.layout->0, official_ref) is None
        },
{
}

} // verus!
