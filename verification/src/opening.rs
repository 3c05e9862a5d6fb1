//! What must hold of a repository before it is written to.
use crate::git_error::{GitFailure, GitTransactionError};
use crate::git_output::{parse_git_version, supported_version, version_in};
use crate::git_text::{has_control, holds_control, trim, trimmed};
use crate::path::ContentPath;
use crate::repository::{
    binding_of, config_problem, ensure_binding, is_bound, layout_problem, nonoverlapping_paths,
    overlap, repository_binding, validate_local_git_config, validate_repository_layout,
    DirectoryBinding, LayoutFacts, StoredBinding, MAXIMUM_BINDING_BYTES,
};
use crate::text::{characters, join2, lossy, lossy_text, slice_text};
use vstd::prelude::*;
use vstd::string::*;

verus! {

/// One observation that opening a repository needs.
#[derive(Clone, Copy, Debug, PartialEq, Eq, Structural)]
pub enum Observation {
    /// What `git --version` prints.
    Version,
    /// Whether the repository is a real directory.
    GitDirectory,
    /// Whether Git accepts the name of the official branch.
    BranchName,
    /// The repository-local configuration.
    Configuration,
    /// Whether the canonical worktree is a real directory.
    CanonicalWorktree,
    /// Whether the work root is a real directory or could be made one.
    WorkRoot,
    /// What Git prints of the repository and the worktree.
    Layout,
    /// The resolved paths of the three directories.
    Paths,
    /// The pinned directories, with the writer locks held.
    Directories,
    /// The binding that the repository stores.
    RepositoryBinding,
    /// The binding that the work root stores.
    WorkRootBinding,
}

/// Printed repository-local configuration.
#[derive(Debug)]
pub struct ConfigFacts {
    /// The keys, each ended by a zero byte.
    pub keys: Vec<u8>,
    /// Whether the repository is bare, as printed.
    pub bare: Vec<u8>,
    /// Whether file modes are kept, as printed.
    pub filemode: Vec<u8>,
}

/// Three resolved paths.
#[derive(Debug)]
pub struct ResolvedPaths {
    /// The repository.
    pub git_directory: ContentPath,
    /// The canonical worktree.
    pub canonical_worktree: ContentPath,
    /// The work root.
    pub work_root: ContentPath,
}

/// What was observed so far.
#[derive(Debug)]
pub struct OpenFacts {
    /// What `git --version` prints.
    pub version: Option<Vec<u8>>,
    /// Whether the repository is a real directory.
    pub git_directory: Option<bool>,
    /// Whether Git looked at the name of the official branch; a refusal ends the opening.
    pub branch_name: bool,
    /// The repository-local configuration.
    pub configuration: Option<ConfigFacts>,
    /// Whether the canonical worktree is a real directory.
    pub canonical_worktree: Option<bool>,
    /// Whether the work root is a real directory or could be made one.
    pub work_root: Option<bool>,
    /// What Git prints of the repository and the worktree.
    pub layout: Option<LayoutFacts>,
    /// The resolved paths of the three directories.
    pub paths: Option<ResolvedPaths>,
    /// The pinned directories.
    pub directories: Option<Vec<DirectoryBinding>>,
    /// The binding that the repository stores.
    pub repository_binding: Option<StoredBinding>,
    /// The binding that the work root stores.
    pub work_root_binding: Option<StoredBinding>,
}

/// The configured directories and branch.
#[derive(Debug)]
pub struct OpenSettings {
    /// The repository, as shown.
    pub git_directory: String,
    /// The canonical worktree, as shown.
    pub canonical_worktree: String,
    /// The work root, as shown.
    pub work_root: String,
    /// The official branch.
    pub official_branch: String,
}

/// Where a binding is stored.
#[derive(Clone, Copy, Debug, PartialEq, Eq, Structural)]
pub enum BindingPlace {
    /// In the repository.
    Repository,
    /// In the work root.
    WorkRoot,
}

/// How an opening goes on.
#[derive(Debug)]
pub enum Opening<T = String, B = Vec<u8>> {
    /// An observation is needed.
    Observe(Observation),
    /// The binding has to be stored; it is then what stands in that place.
    Bind {
        /// Where it is stored.
        place: BindingPlace,
        /// The binding of the repository.
        binding: B,
    },
    /// The repository can be written to.
    Opened {
        /// The official reference.
        official_ref: T,
    },
}

/// An opening with its texts as sequences.
pub type OpeningView = Opening<Seq<char>, Seq<u8>>;

impl View for Opening {
    type V = OpeningView;

    open spec fn view(&self) -> OpeningView {
        match *self {
            Opening::Observe(observation) => Opening::Observe(observation),
            Opening::Bind { place, binding } => Opening::Bind { place, binding: binding@ },
            Opening::Opened { official_ref } => Opening::Opened { official_ref: official_ref@ },
        }
    }
}

/// Whether a name can be that of an official branch.
pub open spec fn is_branch_name(name: Seq<char>) -> bool {
    name.len() > 0 && !has_control(name)
}

/// Why an installed version of Git cannot be used.
pub open spec fn version_problem(output: Seq<u8>) -> Option<GitFailure> {
    match version_in(output) {
        None => Some(GitTransactionError::InvalidGitOutput),
        Some((major, minor)) => if major > 2 || (major == 2 && minor >= 36) {
            None
        } else {
            Some(GitTransactionError::UnsupportedGitVersion { found: trimmed(lossy(output)) })
        },
    }
}

/// Checks an installed version of Git.
pub fn ensure_supported_git(output: &[u8]) -> (result: Result<(), GitTransactionError>)
    ensures
        match result {
            Ok(()) => version_problem(output@) is None,
            Err(error) => version_problem(output@) == Some(error@),
        },
{
    match parse_git_version(output) {
        None => Err(GitTransactionError::InvalidGitOutput),
        Some(version) => if supported_version(version) {
            Ok(())
        } else {
            let shown = trim(&characters(lossy_text(output).as_str()));
            let found = slice_text(&shown, 0, shown.len());
            assert(found@ =~= trimmed(lossy(output@)));
            Err(GitTransactionError::UnsupportedGitVersion { found })
        },
    }
}

/// The official reference of a branch.
pub open spec fn reference_of(branch: Seq<char>) -> Seq<char> {
    "refs/heads/"@ + branch
}

/// Whether a binding is yet to be stored.
pub open spec fn binding_step(stored: StoredBinding, binding: Seq<u8>) -> Result<bool, GitFailure> {
    if binding.len() > MAXIMUM_BINDING_BYTES {
        Err(GitTransactionError::RepositoryBindingMismatch)
    } else if stored is Missing {
        Ok(true)
    } else if is_bound(stored, binding) {
        Ok(false)
    } else {
        Err(GitTransactionError::RepositoryBindingMismatch)
    }
}

/// How an opening goes on once the directories are pinned: the binding is stored where it is
/// missing, first in the repository and then in the work root, and refused where another stands.
pub open spec fn bound_opening(
    official_ref: Seq<char>,
    directories: Seq<DirectoryBinding>,
    facts: OpenFacts,
) -> Result<OpeningView, GitFailure> {
    let binding = binding_of(directories, official_ref);
    match facts.repository_binding {
        None => Ok(Opening::Observe(Observation::RepositoryBinding)),
        Some(repository) => match binding_step(repository, binding) {
            Err(failure) => Err(failure),
            Ok(true) => Ok(Opening::Bind { place: BindingPlace::Repository, binding }),
            Ok(false) => match facts.work_root_binding {
                None => Ok(Opening::Observe(Observation::WorkRootBinding)),
                Some(work_root) => match binding_step(work_root, binding) {
                    Err(failure) => Err(failure),
                    Ok(true) => Ok(Opening::Bind { place: BindingPlace::WorkRoot, binding }),
                    Ok(false) => Ok(Opening::Opened { official_ref }),
                },
            },
        },
    }
}

/// How an opening goes on once the directories are known to be real.
pub open spec fn layout_opening(official_ref: Seq<char>, facts: OpenFacts) -> Result<
    OpeningView,
    GitFailure,
> {
    match facts.layout {
        None => Ok(Opening::Observe(Observation::Layout)),
        Some(layout) => if let Some(failure) = layout_problem(layout, official_ref) {
            Err(failure)
        } else {
            match facts.paths {
                None => Ok(Opening::Observe(Observation::Paths)),
                Some(paths) => if overlap(paths.git_directory@, paths.canonical_worktree@)
                    || overlap(paths.git_directory@, paths.work_root@) || overlap(
                    paths.canonical_worktree@,
                    paths.work_root@,
                ) {
                    Err(GitTransactionError::OverlappingRepositoryPaths)
                } else {
                    match facts.directories {
                        None => Ok(Opening::Observe(Observation::Directories)),
                        Some(directories) => bound_opening(official_ref, directories@, facts),
                    }
                },
            }
        },
    }
}

/// How an opening goes on once Git and the repository are known.
pub open spec fn directory_opening(settings: OpenSettings, facts: OpenFacts) -> Result<
    OpeningView,
    GitFailure,
> {
    if !is_branch_name(settings.official_branch@) {
        Err(GitTransactionError::InvalidOfficialBranch)
    } else if !facts.branch_name {
        Ok(Opening::Observe(Observation::BranchName))
    } else {
        match facts.configuration {
            None => Ok(Opening::Observe(Observation::Configuration)),
            Some(configuration) => if let Some(failure) = config_problem(
                configuration.keys@,
                configuration.bare@,
                configuration.filemode@,
            ) {
                Err(failure)
            } else {
                match facts.canonical_worktree {
                    None => Ok(Opening::Observe(Observation::CanonicalWorktree)),
                    Some(false) => Err(
                        GitTransactionError::InvalidDirectory(settings.canonical_worktree@),
                    ),
                    Some(true) => match facts.work_root {
                        None => Ok(Opening::Observe(Observation::WorkRoot)),
                        Some(false) => Err(
                            GitTransactionError::InvalidDirectory(settings.work_root@),
                        ),
                        Some(true) => layout_opening(
                            reference_of(settings.official_branch@),
                            facts,
                        ),
                    },
                }
            },
        }
    }
}

/// How an opening goes on: the first observation that is missing, the first thing that is wrong,
/// the binding that is yet to be stored, or the reference under which the repository is written.
pub open spec fn opening(settings: OpenSettings, facts: OpenFacts) -> Result<
    OpeningView,
    GitFailure,
> {
    match facts.version {
        None => Ok(Opening::Observe(Observation::Version)),
        Some(version) => if let Some(failure) = version_problem(version@) {
            Err(failure)
        } else {
            match facts.git_directory {
                None => Ok(Opening::Observe(Observation::GitDirectory)),
                Some(false) => Err(GitTransactionError::InvalidDirectory(settings.git_directory@)),
                Some(true) => directory_opening(settings, facts),
            }
        },
    }
}

/// Goes on with the bindings.
fn open_bound(
    official_ref: String,
    directories: &Vec<DirectoryBinding>,
    facts: &OpenFacts,
) -> (result: Result<Opening, GitTransactionError>)
    ensures
        (match result {
            Ok(step) => Ok(step@),
            Err(error) => Err(error@),
        }) == bound_opening(official_ref@, directories@, *facts),
{
    let binding = repository_binding(directories, official_ref.as_str());
    match &facts.repository_binding {
        None => {
            return Ok(Opening::Observe(Observation::RepositoryBinding));
        },
        Some(stored) => match ensure_binding(stored, &binding) {
            Err(error) => {
                return Err(error);
            },
            Ok(true) => {
                return Ok(Opening::Bind { place: BindingPlace::Repository, binding });
            },
            Ok(false) => {},
        },
    }
    match &facts.work_root_binding {
        None => Ok(Opening::Observe(Observation::WorkRootBinding)),
        Some(stored) => match ensure_binding(stored, &binding) {
            Err(error) => Err(error),
            Ok(true) => Ok(Opening::Bind { place: BindingPlace::WorkRoot, binding }),
            Ok(false) => Ok(Opening::Opened { official_ref }),
        },
    }
}

/// Goes on with the layout.
fn open_layout(official_ref: String, facts: &OpenFacts) -> (result: Result<
    Opening,
    GitTransactionError,
>)
    ensures
        (match result {
            Ok(step) => Ok(step@),
            Err(error) => Err(error@),
        }) == layout_opening(official_ref@, *facts),
{
    match &facts.layout {
        None => {
            return Ok(Opening::Observe(Observation::Layout));
        },
        Some(layout) => match validate_repository_layout(layout, official_ref.as_str()) {
            Err(error) => {
                return Err(error);
            },
            Ok(()) => {},
        },
    }
    match &facts.paths {
        None => {
            return Ok(Opening::Observe(Observation::Paths));
        },
        Some(paths) => {
            if !nonoverlapping_paths(
                &paths.git_directory,
                &paths.canonical_worktree,
                &paths.work_root,
            ) {
                return Err(GitTransactionError::OverlappingRepositoryPaths);
            }
        },
    }
    match &facts.directories {
        None => Ok(Opening::Observe(Observation::Directories)),
        Some(directories) => open_bound(official_ref, directories, facts),
    }
}

/// Decides how opening a repository goes on from what was observed so far.
pub fn open(settings: &OpenSettings, facts: &OpenFacts) -> (result: Result<
    Opening,
    GitTransactionError,
>)
    ensures
        (match result {
            Ok(step) => Ok(step@),
            Err(error) => Err(error@),
        }) == opening(*settings, *facts),
{
    match &facts.version {
        None => {
            return Ok(Opening::Observe(Observation::Version));
        },
        Some(version) => match ensure_supported_git(version.as_slice()) {
            Err(error) => {
                return Err(error);
            },
            Ok(()) => {},
        },
    }
    match facts.git_directory {
        None => {
            return Ok(Opening::Observe(Observation::GitDirectory));
        },
        Some(false) => {
            return Err(GitTransactionError::InvalidDirectory(settings.git_directory.clone()));
        },
        Some(true) => {},
    }
    let branch = characters(settings.official_branch.as_str());
    if branch.len() == 0 || holds_control(&branch) {
        return Err(GitTransactionError::InvalidOfficialBranch);
    }
    if !facts.branch_name {
        return Ok(Opening::Observe(Observation::BranchName));
    }
    match &facts.configuration {
        None => {
            return Ok(Opening::Observe(Observation::Configuration));
        },
        Some(configuration) => match validate_local_git_config(
            configuration.keys.as_slice(),
            configuration.bare.as_slice(),
            configuration.filemode.as_slice(),
        ) {
            Err(error) => {
                return Err(error);
            },
            Ok(()) => {},
        },
    }
    match facts.canonical_worktree {
        None => {
            return Ok(Opening::Observe(Observation::CanonicalWorktree));
        },
        Some(false) => {
            return Err(GitTransactionError::InvalidDirectory(settings.canonical_worktree.clone()));
        },
        Some(true) => {},
    }
    match facts.work_root {
        None => {
            return Ok(Opening::Observe(Observation::WorkRoot));
        },
        Some(false) => {
            return Err(GitTransactionError::InvalidDirectory(settings.work_root.clone()));
        },
        Some(true) => {},
    }
    open_layout(join2("refs/heads/", settings.official_branch.as_str()), facts)
}

/// A repository is opened only under its own binding, which both the repository and the work root
/// then hold, and every directory was found real, apart from the others, and laid out for the
/// branch.
pub proof fn opened_repositories_are_bound(settings: OpenSettings, facts: OpenFacts)
    requires
        opening(settings, facts) matches Ok(Opening::Opened { .. }),
    ensures
        ({
            let official_ref = reference_of(settings.official_branch@);
            let binding = binding_of(facts.directories->0@, official_ref);
            let paths = facts.paths->0;
            &&& version_problem(facts.version->0@) is None
            &&& is_branch_name(settings.official_branch@)
            &&& facts.git_directory == Some(true)
            &&& facts.canonical_worktree == Some(true)
            &&& facts.work_root == Some(true)
            &&& config_problem(
                facts.configuration->0.keys@,
                facts.configuration->0.bare@,
                facts.configuration->0.filemode@,
            ) is None
            &&& layout_problem(facts.layout->0, official_ref) is None
            &&& !overlap(paths.git_directory@, paths.canonical_worktree@)
            &&& !overlap(paths.git_directory@, paths.work_root@)
            &&& !overlap(paths.canonical_worktree@, paths.work_root@)
            &&& is_bound(facts.repository_binding->0, binding)
            &&& is_bound(facts.work_root_binding->0, binding)
        }),
{
}

} // verus!
