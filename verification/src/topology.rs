//! How the configured directories of a Worker lie to each other.
use crate::apply::PathView;
use crate::git_error::{git_message, GitFailure, GitTransactionError};
use crate::path::{path_views, ContentPath};
use crate::replication::{replication_message, RemoteReplicationError, ReplicationFailure};
use crate::text::{join2, join4, join5};
use vstd::prelude::*;
use vstd::string::*;

verus! {

/// The number of storage directories.
pub const STORAGE_COUNT: usize = 5;

/// The number of storage directories and trusted inputs together.
pub const PATH_COUNT: usize = 7;

/// The configuration field of a path: first the storage directories, then the trusted inputs.
pub open spec fn field_of(index: int) -> Seq<char> {
    if index == 0 {
        "storage.queue_root"@
    } else if index == 1 {
        "storage.repository_root"@
    } else if index == 2 {
        "storage.content_root"@
    } else if index == 3 {
        "storage.work_root"@
    } else if index == 4 {
        "storage.release_root"@
    } else if index == 5 {
        "quartz.program"@
    } else {
        "quartz.integration_root"@
    }
}

/// The configuration field of a path.
pub fn field_name(index: usize) -> (name: &'static str)
    ensures
        name@ == field_of(index as int),
{
    if index == 0 {
        "storage.queue_root"
    } else if index == 1 {
        "storage.repository_root"
    } else if index == 2 {
        "storage.content_root"
    } else if index == 3 {
        "storage.work_root"
    } else if index == 4 {
        "storage.release_root"
    } else if index == 5 {
        "quartz.program"
    } else {
        "quartz.integration_root"
    }
}

/// Which of some paths lie within which others.
#[derive(Debug)]
pub struct Nesting {
    /// For each path and each other, whether the path is the other or lies below it.
    pub rows: Vec<Vec<bool>>,
}

impl Nesting {
    /// Whether a path is another or lies below it.
    pub open spec fn within(self, inner: int, outer: int) -> bool {
        0 <= inner < self.rows@.len() && 0 <= outer < self.rows@[inner]@.len()
            && self.rows@[inner]@[outer]
    }

    /// Whether one of two paths is the other or lies below it.
    pub open spec fn overlapping(self, first: int, second: int) -> bool {
        self.within(first, second) || self.within(second, first)
    }

    fn is_within(&self, inner: usize, outer: usize) -> (result: bool)
        ensures
            result == self.within(inner as int, outer as int),
    {
        inner < self.rows.len() && outer < self.rows[inner].len() && self.rows[inner][outer]
    }

    fn overlap(&self, first: usize, second: usize) -> (result: bool)
        ensures
            result == self.overlapping(first as int, second as int),
    {
        self.is_within(first, second) || self.is_within(second, first)
    }

    /// Compares paths by their components.
    pub fn of_paths(paths: &Vec<ContentPath>) -> (nesting: Nesting)
        ensures
            forall|i: int, j: int|
                0 <= i < paths@.len() && 0 <= j < paths@.len() ==> #[trigger] nesting.within(i, j)
                    == paths@[j]@.is_prefix_of(paths@[i]@),
    {
        let mut rows: Vec<Vec<bool>> = Vec::new();
        let mut i: usize = 0;
        while i < paths.len()
            invariant
                i <= paths@.len(),
                rows@.len() == i,
                forall|k: int, j: int|
                    0 <= k < i && 0 <= j < paths@.len() ==> rows@[k]@.len() == paths@.len() && (
                    #[trigger] rows@[k]@[j]) == paths@[j]@.is_prefix_of(paths@[k]@),
                forall|k: int| 0 <= k < i ==> (#[trigger] rows@[k])@.len() == paths@.len(),
            decreases paths@.len() - i,
        {
            let mut row: Vec<bool> = Vec::new();
            let mut j: usize = 0;
            while j < paths.len()
                invariant
                    i < paths@.len(),
                    j <= paths@.len(),
                    row@.len() == j,
                    forall|l: int|
                        0 <= l < j ==> (#[trigger] row@[l]) == paths@[l]@.is_prefix_of(
                            paths@[i as int]@,
                        ),
                decreases paths@.len() - j,
            {
                row.push(paths[i].starts_with(&paths[j]));
                j += 1;
            }
            rows.push(row);
            i += 1;
        }
        Nesting { rows }
    }
}

/// The first overlapping pair of storage directories, from a pair on.
pub open spec fn storage_pair(nesting: Nesting, i: int, j: int) -> Option<(int, int)>
    decreases STORAGE_COUNT - i, STORAGE_COUNT - j,
{
    if i >= STORAGE_COUNT {
        None
    } else if j >= STORAGE_COUNT {
        storage_pair(nesting, i + 1, i + 2)
    } else if nesting.overlapping(i, j) {
        Some((i, j))
    } else {
        storage_pair(nesting, i, j + 1)
    }
}

/// The first overlapping pair of a storage directory and a trusted input, from a pair on.
pub open spec fn trusted_pair(nesting: Nesting, i: int, j: int) -> Option<(int, int)>
    decreases STORAGE_COUNT - i, PATH_COUNT - j,
{
    if i >= STORAGE_COUNT {
        None
    } else if j >= PATH_COUNT {
        trusted_pair(nesting, i + 1, STORAGE_COUNT as int)
    } else if nesting.overlapping(i, j) {
        Some((i, j))
    } else {
        trusted_pair(nesting, i, j + 1)
    }
}

/// Finds the first overlapping pair of storage directories.
pub fn find_storage_pair(nesting: &Nesting) -> (result: Option<(usize, usize)>)
    ensures
        (match result {
            Some((i, j)) => Some((i as int, j as int)),
            None => None,
        }) == storage_pair(*nesting, 0, 1),
{
    let mut i: usize = 0;
    while i < STORAGE_COUNT
        invariant
            i <= STORAGE_COUNT,
            storage_pair(*nesting, 0, 1) == storage_pair(*nesting, i as int, i + 1),
        decreases STORAGE_COUNT - i,
    {
        let mut j: usize = i + 1;
        while j < STORAGE_COUNT
            invariant
                i < STORAGE_COUNT,
                j <= STORAGE_COUNT,
                storage_pair(*nesting, 0, 1) == storage_pair(*nesting, i as int, j as int),
            decreases STORAGE_COUNT - j,
        {
            if nesting.overlap(i, j) {
                return Some((i, j));
            }
            j += 1;
        }
        i += 1;
    }
    None
}

/// Finds the first overlapping pair of a storage directory and a trusted input.
pub fn find_trusted_pair(nesting: &Nesting) -> (result: Option<(usize, usize)>)
    ensures
        (match result {
            Some((i, j)) => Some((i as int, j as int)),
            None => None,
        }) == trusted_pair(*nesting, 0, STORAGE_COUNT as int),
{
    let mut i: usize = 0;
    while i < STORAGE_COUNT
        invariant
            i <= STORAGE_COUNT,
            trusted_pair(*nesting, 0, STORAGE_COUNT as int) == trusted_pair(
                *nesting,
                i as int,
                STORAGE_COUNT as int,
            ),
        decreases STORAGE_COUNT - i,
    {
        let mut j: usize = STORAGE_COUNT;
        while j < PATH_COUNT
            invariant
                i < STORAGE_COUNT,
                STORAGE_COUNT <= j <= PATH_COUNT,
                trusted_pair(*nesting, 0, STORAGE_COUNT as int) == trusted_pair(
                    *nesting,
                    i as int,
                    j as int,
                ),
            decreases PATH_COUNT - j,
        {
            if nesting.overlap(i, j) {
                return Some((i, j));
            }
            j += 1;
        }
        i += 1;
    }
    None
}

/// Whether no storage directory overlaps another one or a trusted input.
pub open spec fn is_separate(nesting: Nesting) -> bool {
    forall|i: int, j: int|
        0 <= i < STORAGE_COUNT && i < j < PATH_COUNT ==> !#[trigger] nesting.overlapping(i, j)
}

proof fn no_storage_pair(nesting: Nesting, i: int, j: int)
    requires
        0 <= i < j,
        storage_pair(nesting, i, j) is None,
    ensures
        forall|l: int| i < STORAGE_COUNT && j <= l < STORAGE_COUNT ==> !#[trigger]
            nesting.overlapping(i, l),
        forall|k: int, l: int|
            i < k < l && l < STORAGE_COUNT ==> !#[trigger] nesting.overlapping(k, l),
    decreases STORAGE_COUNT - i, STORAGE_COUNT - j,
{
    if i < STORAGE_COUNT {
        if j >= STORAGE_COUNT {
            no_storage_pair(nesting, i + 1, i + 2);
            assert forall|k: int, l: int| i < k < l && l < STORAGE_COUNT implies !#[trigger]
                nesting.overlapping(k, l) by {
                if k == i + 1 {
                    assert(i + 1 < STORAGE_COUNT && i + 2 <= l);
                }
            }
        } else {
            no_storage_pair(nesting, i, j + 1);
        }
    }
}

proof fn no_trusted_pair(nesting: Nesting, i: int, j: int)
    requires
        0 <= i,
        STORAGE_COUNT <= j,
        trusted_pair(nesting, i, j) is None,
    ensures
        forall|l: int| i < STORAGE_COUNT && j <= l < PATH_COUNT ==> !#[trigger]
            nesting.overlapping(i, l),
        forall|k: int, l: int|
            i < k < STORAGE_COUNT && STORAGE_COUNT <= l < PATH_COUNT ==> !#[trigger]
                nesting.overlapping(k, l),
    decreases STORAGE_COUNT - i, PATH_COUNT - j,
{
    if i < STORAGE_COUNT {
        if j >= PATH_COUNT {
            no_trusted_pair(nesting, i + 1, STORAGE_COUNT as int);
        } else {
            no_trusted_pair(nesting, i, j + 1);
        }
    }
}

/// Directories among which no overlapping pair is found are separate.
pub proof fn unpaired_directories_are_separate(nesting: Nesting)
    requires
        storage_pair(nesting, 0, 1) is None,
        trusted_pair(nesting, 0, STORAGE_COUNT as int) is None,
    ensures
        is_separate(nesting),
{
    no_storage_pair(nesting, 0, 1);
    no_trusted_pair(nesting, 0, STORAGE_COUNT as int);
}

/// Failure while opening lifetime-pinned Worker components.
#[allow(inconsistent_fields)]
#[derive(Debug)]
pub enum WorkerOpenError<
    T = String,
    D = &'static str,
    G = GitTransactionError,
    R = RemoteReplicationError,
> {
    /// A configured path could not be resolved against the live filesystem.
    PathResolution {
        /// Configuration field whose path could not be resolved.
        field: D,
        /// Filesystem error returned while resolving the path.
        source: T,
    },
    /// Two configured paths resolve to equal or nested filesystem locations.
    OverlappingPaths {
        /// First conflicting configuration field.
        first: D,
        /// Second conflicting configuration field.
        second: D,
    },
    /// A component could not attest the filesystem object that it pinned.
    Attestation {
        /// Component boundary whose pinned path could not be attested.
        component: D,
        /// Attestation failure.
        source: T,
    },
    /// The repository transaction boundary was invalid.
    Repository(G),
    /// The configured replication could not be opened.
    Replication(R),
    /// The configured Quartz command could not be pinned.
    Quartz(T),
    /// The release store could not be opened.
    Release(T),
    /// The durable queue could not be initialized.
    Queue(T),
}

/// A failure with its texts as sequences.
pub type OpenFailure = WorkerOpenError<Seq<char>, Seq<char>, GitFailure, ReplicationFailure>;

impl View for WorkerOpenError {
    type V = OpenFailure;

    open spec fn view(&self) -> OpenFailure {
        match *self {
            WorkerOpenError::PathResolution { field, source } => WorkerOpenError::PathResolution {
                field: field@,
                source: source@,
            },
            WorkerOpenError::OverlappingPaths { first, second } =>
                WorkerOpenError::OverlappingPaths { first: first@, second: second@ },
            WorkerOpenError::Attestation { component, source } => WorkerOpenError::Attestation {
                component: component@,
                source: source@,
            },
            WorkerOpenError::Repository(error) => WorkerOpenError::Repository(error@),
            WorkerOpenError::Replication(error) => WorkerOpenError::Replication(error@),
            WorkerOpenError::Quartz(reason) => WorkerOpenError::Quartz(reason@),
            WorkerOpenError::Release(reason) => WorkerOpenError::Release(reason@),
            WorkerOpenError::Queue(reason) => WorkerOpenError::Queue(reason@),
        }
    }
}

/// What a failure is reported as.
pub open spec fn open_message(failure: OpenFailure) -> Seq<char> {
    match failure {
        WorkerOpenError::PathResolution { field, source } => "could not resolve Worker path `"@
            + field + "`: "@ + source,
        WorkerOpenError::OverlappingPaths { first, second } => "Worker paths `"@ + first
            + "` and `"@ + second + "` resolve to overlapping locations"@,
        WorkerOpenError::Attestation { component, source } => "could not attest "@ + component
            + ": "@ + source,
        WorkerOpenError::Repository(error) => "could not open repository: "@ + git_message(error),
        WorkerOpenError::Replication(error) => "could not open remote replication: "@
            + replication_message(error),
        WorkerOpenError::Quartz(reason) => "could not open Quartz builder: "@ + reason,
        WorkerOpenError::Release(reason) => "could not open release store: "@ + reason,
        WorkerOpenError::Queue(reason) => "could not open durable queue: "@ + reason,
    }
}

impl WorkerOpenError {
    /// What the failure is reported as.
    pub fn message(&self) -> (text: String)
        ensures
            text@ == open_message(self@),
    {
        match self {
            WorkerOpenError::PathResolution { field, source } => join4(
                "could not resolve Worker path `",
                field,
                "`: ",
                source.as_str(),
            ),
            WorkerOpenError::OverlappingPaths { first, second } => join5(
                "Worker paths `",
                first,
                "` and `",
                second,
                "` resolve to overlapping locations",
            ),
            WorkerOpenError::Attestation { component, source } => join4(
                "could not attest ",
                component,
                ": ",
                source.as_str(),
            ),
            WorkerOpenError::Repository(error) => join2(
                "could not open repository: ",
                error.message().as_str(),
            ),
            WorkerOpenError::Replication(error) => join2(
                "could not open remote replication: ",
                error.message().as_str(),
            ),
            WorkerOpenError::Quartz(reason) => join2(
                "could not open Quartz builder: ",
                reason.as_str(),
            ),
            WorkerOpenError::Release(reason) => join2(
                "could not open release store: ",
                reason.as_str(),
            ),
            WorkerOpenError::Queue(reason) => join2(
                "could not open durable queue: ",
                reason.as_str(),
            ),
        }
    }
}

/// The failure of an overlapping pair.
pub open spec fn pair_failure(pair: (int, int)) -> OpenFailure {
    WorkerOpenError::OverlappingPaths { first: field_of(pair.0), second: field_of(pair.1) }
}

fn overlapping_paths(first: usize, second: usize) -> (error: WorkerOpenError)
    ensures
        error@ == pair_failure((first as int, second as int)),
{
    WorkerOpenError::OverlappingPaths { first: field_name(first), second: field_name(second) }
}

/// What attesting the pinned components gave: nothing, or a failure, for the storage of the
/// repository, of releases and of the queue, and for the Quartz command.
#[derive(Debug)]
pub struct OpenedTopology {
    /// The storage of the repository.
    pub repository: Option<String>,
    /// The storage of releases.
    pub releases: Option<String>,
    /// The storage of the queue.
    pub queue: Option<String>,
    /// The Quartz command.
    pub quartz: Option<String>,
    /// Which attested paths lie within which others.
    pub nesting: Nesting,
}

/// Why pinned components cannot be used together.
pub open spec fn opened_problem(facts: OpenedTopology) -> Option<OpenFailure> {
    if let Some(source) = facts.repository {
        Some(WorkerOpenError::Attestation { component: "repository storage"@, source: source@ })
    } else if let Some(source) = facts.releases {
        Some(WorkerOpenError::Attestation { component: "release storage"@, source: source@ })
    } else if let Some(source) = facts.queue {
        Some(WorkerOpenError::Attestation { component: "queue storage"@, source: source@ })
    } else if let Some(source) = facts.quartz {
        Some(WorkerOpenError::Attestation { component: "Quartz command"@, source: source@ })
    } else if let Some(pair) = storage_pair(facts.nesting, 0, 1) {
        Some(pair_failure(pair))
    } else if let Some(pair) = trusted_pair(facts.nesting, 0, STORAGE_COUNT as int) {
        Some(pair_failure(pair))
    } else {
        None
    }
}

/// Checks that pinned components can be used together.
pub fn validate_opened_topology(facts: &OpenedTopology) -> (result: Result<(), WorkerOpenError>)
    ensures
        (match result {
            Ok(()) => None,
            Err(error) => Some(error@),
        }) == opened_problem(*facts),
        result is Ok ==> is_separate(facts.nesting),
{
    if let Some(source) = &facts.repository {
        return Err(
            WorkerOpenError::Attestation {
                component: "repository storage",
                source: source.clone(),
            },
        );
    }
    if let Some(source) = &facts.releases {
        return Err(
            WorkerOpenError::Attestation { component: "release storage", source: source.clone() },
        );
    }
    if let Some(source) = &facts.queue {
        return Err(
            WorkerOpenError::Attestation { component: "queue storage", source: source.clone() },
        );
    }
    if let Some(source) = &facts.quartz {
        return Err(
            WorkerOpenError::Attestation { component: "Quartz command", source: source.clone() },
        );
    }
    if let Some((i, j)) = find_storage_pair(&facts.nesting) {
        return Err(overlapping_paths(i, j));
    }
    if let Some((i, j)) = find_trusted_pair(&facts.nesting) {
        return Err(overlapping_paths(i, j));
    }
    proof {
        unpaired_directories_are_separate(facts.nesting);
    }
    Ok(())
}

/// What resolving a path against the filesystem gave.
#[derive(Debug)]
pub enum Resolution {
    /// The path as it is resolved.
    Resolved(ContentPath),
    /// Nothing exists there.
    Missing(String),
    /// It could not be resolved.
    Failed(String),
}

/// Why a topology is not decided.
#[derive(Debug)]
pub enum TopologyHalt<E = WorkerOpenError> {
    /// The configured path of a field, less some of its last components, has to be resolved.
    Needs {
        /// The field.
        field: usize,
        /// The number of components left out.
        missing: usize,
    },
    /// The topology is refused.
    Failed(E),
}

/// The halt with its texts as sequences.
pub type HaltView = TopologyHalt<OpenFailure>;

impl View for TopologyHalt {
    type V = HaltView;

    open spec fn view(&self) -> HaltView {
        match *self {
            TopologyHalt::Needs { field, missing } => TopologyHalt::Needs { field, missing },
            TopologyHalt::Failed(error) => TopologyHalt::Failed(error@),
        }
    }
}

/// Where a path leads, although its last components may not exist: the longest part that exists is
/// resolved, and the rest is kept. `missing` components are known not to exist.
pub open spec fn destination(
    field: usize,
    path: PathView,
    resolutions: Seq<Resolution>,
    missing: int,
) -> Result<PathView, HaltView>
    decreases resolutions.len() - missing,
{
    if missing >= resolutions.len() {
        Err(TopologyHalt::Needs { field, missing: missing as usize })
    } else {
        match resolutions[missing] {
            Resolution::Resolved(resolved) => Ok(resolved@ + path.skip(path.len() - missing)),
            Resolution::Missing(source) => if missing >= path.len() {
                Err(
                    TopologyHalt::Failed(
                        WorkerOpenError::PathResolution {
                            field: field_of(field as int),
                            source: source@,
                        },
                    ),
                )
            } else {
                destination(field, path, resolutions, missing + 1)
            },
            Resolution::Failed(source) => Err(
                TopologyHalt::Failed(
                    WorkerOpenError::PathResolution {
                        field: field_of(field as int),
                        source: source@,
                    },
                ),
            ),
        }
    }
}

/// Decides where a path leads, from what was resolved so far.
pub fn resolve_destination(field: usize, path: &ContentPath, resolutions: &Vec<Resolution>) -> (result:
    Result<ContentPath, TopologyHalt>)
    ensures
        (match result {
            Ok(path) => Ok(path@),
            Err(halt) => Err(halt@),
        }) == destination(field, path@, resolutions@, 0),
{
    let mut missing: usize = 0;
    while missing < resolutions.len()
        invariant
            missing <= resolutions@.len(),
            missing <= path@.len(),
            destination(field, path@, resolutions@, 0) == destination(
                field,
                path@,
                resolutions@,
                missing as int,
            ),
        decreases resolutions@.len() - missing,
    {
        match &resolutions[missing] {
            Resolution::Resolved(resolved) => {
                return Ok(path.rebase(path.len() - missing, resolved));
            },
            Resolution::Missing(source) => {
                if missing >= path.len() {
                    return Err(
                        TopologyHalt::Failed(
                            WorkerOpenError::PathResolution {
                                field: field_name(field),
                                source: source.clone(),
                            },
                        ),
                    );
                }
            },
            Resolution::Failed(source) => {
                return Err(
                    TopologyHalt::Failed(
                        WorkerOpenError::PathResolution {
                            field: field_name(field),
                            source: source.clone(),
                        },
                    ),
                );
            },
        }
        missing += 1;
    }
    Err(TopologyHalt::Needs { field, missing })
}

/// The resolutions for a field.
pub open spec fn resolutions_for(resolutions: Seq<Vec<Resolution>>, field: int) -> Seq<Resolution> {
    if 0 <= field < resolutions.len() {
        resolutions[field]@
    } else {
        Seq::empty()
    }
}

/// Where the paths of the fields from one on lead, up to another.
pub open spec fn destinations(
    paths: Seq<PathView>,
    resolutions: Seq<Vec<Resolution>>,
    from: int,
    to: int,
) -> Result<Seq<PathView>, HaltView>
    decreases to - from,
{
    if from >= to {
        Ok(Seq::empty())
    } else {
        match destinations(paths, resolutions, from, to - 1) {
            Err(halt) => Err(halt),
            Ok(earlier) => match destination(
                (to - 1) as usize,
                paths[to - 1],
                resolutions_for(resolutions, to - 1),
                0,
            ) {
                Err(halt) => Err(halt),
                Ok(path) => Ok(earlier.push(path)),
            },
        }
    }
}

proof fn halt_stays(
    paths: Seq<PathView>,
    resolutions: Seq<Vec<Resolution>>,
    from: int,
    to: int,
    end: int,
)
    requires
        from <= to <= end,
        destinations(paths, resolutions, from, to) is Err,
    ensures
        destinations(paths, resolutions, from, end) == destinations(paths, resolutions, from, to),
    decreases end - to,
{
    if to < end {
        halt_stays(paths, resolutions, from, to, end - 1);
    }
}

/// Decides where the paths of some fields lead.
fn resolve_all(
    paths: &Vec<ContentPath>,
    resolutions: &Vec<Vec<Resolution>>,
    from: usize,
    to: usize,
) -> (result: Result<Vec<ContentPath>, TopologyHalt>)
    requires
        from <= to <= paths@.len(),
    ensures
        (match result {
            Ok(resolved) => Ok(path_views(resolved@)),
            Err(halt) => Err(halt@),
        }) == destinations(path_views(paths@), resolutions@, from as int, to as int),
{
    let ghost views = path_views(paths@);
    let nothing: Vec<Resolution> = Vec::new();
    let mut resolved: Vec<ContentPath> = Vec::new();
    let mut field: usize = from;
    assert(path_views(resolved@) =~= Seq::<PathView>::empty());
    assert(nothing@ =~= Seq::<Resolution>::empty());
    while field < to
        invariant
            from <= field <= to <= paths@.len(),
            views == path_views(paths@),
            nothing@ == Seq::<Resolution>::empty(),
            destinations(views, resolutions@, from as int, field as int) == Ok::<
                Seq<PathView>,
                HaltView,
            >(path_views(resolved@)),
        decreases to - field,
    {
        proof {
            if destinations(views, resolutions@, from as int, field + 1) is Err {
                halt_stays(views, resolutions@, from as int, field + 1, to as int);
            }
        }
        assert(views[field as int] == paths@[field as int]@);
        let known = if field < resolutions.len() {
            &resolutions[field]
        } else {
            &nothing
        };
        match resolve_destination(field, &paths[field], known) {
            Err(halt) => {
                return Err(halt);
            },
            Ok(path) => {
                let ghost before = resolved@;
                resolved.push(path);
                assert(path_views(resolved@) =~= path_views(before).push(path@));
            },
        }
        field += 1;
    }
    Ok(resolved)
}

/// Which of some resolved paths lie within which others.
pub open spec fn nesting_of(paths: Seq<PathView>, nesting: Nesting) -> bool {
    forall|i: int, j: int|
        0 <= i < paths.len() && 0 <= j < paths.len() ==> #[trigger] nesting.within(i, j)
            == paths[j].is_prefix_of(paths[i])
}

/// The first overlapping pair of storage directories among resolved paths, from a pair on.
pub open spec fn resolved_pair(paths: Seq<PathView>, i: int, j: int) -> Option<(int, int)>
    decreases STORAGE_COUNT - i, STORAGE_COUNT - j,
{
    if i >= STORAGE_COUNT {
        None
    } else if j >= STORAGE_COUNT {
        resolved_pair(paths, i + 1, i + 2)
    } else if paths[j].is_prefix_of(paths[i]) || paths[i].is_prefix_of(paths[j]) {
        Some((i, j))
    } else {
        resolved_pair(paths, i, j + 1)
    }
}

/// The first overlapping pair of a storage directory and a trusted input among resolved paths,
/// from a pair on.
pub open spec fn resolved_trusted_pair(paths: Seq<PathView>, i: int, j: int) -> Option<(int, int)>
    decreases STORAGE_COUNT - i, PATH_COUNT - j,
{
    if i >= STORAGE_COUNT {
        None
    } else if j >= PATH_COUNT {
        resolved_trusted_pair(paths, i + 1, STORAGE_COUNT as int)
    } else if paths[j].is_prefix_of(paths[i]) || paths[i].is_prefix_of(paths[j]) {
        Some((i, j))
    } else {
        resolved_trusted_pair(paths, i, j + 1)
    }
}

proof fn pairs_agree(paths: Seq<PathView>, nesting: Nesting, i: int, j: int)
    requires
        nesting_of(paths, nesting),
        paths.len() >= STORAGE_COUNT,
        0 <= i,
        0 <= j,
    ensures
        storage_pair(nesting, i, j) == resolved_pair(paths, i, j),
    decreases STORAGE_COUNT - i, STORAGE_COUNT - j,
{
    if i < STORAGE_COUNT {
        if j >= STORAGE_COUNT {
            pairs_agree(paths, nesting, i + 1, i + 2);
        } else {
            assert(nesting.within(i, j) == paths[j].is_prefix_of(paths[i]));
            assert(nesting.within(j, i) == paths[i].is_prefix_of(paths[j]));
            pairs_agree(paths, nesting, i, j + 1);
        }
    }
}

proof fn trusted_pairs_agree(paths: Seq<PathView>, nesting: Nesting, i: int, j: int)
    requires
        nesting_of(paths, nesting),
        paths.len() >= PATH_COUNT,
        0 <= i,
        0 <= j,
    ensures
        trusted_pair(nesting, i, j) == resolved_trusted_pair(paths, i, j),
    decreases STORAGE_COUNT - i, PATH_COUNT - j,
{
    if i < STORAGE_COUNT {
        if j >= PATH_COUNT {
            trusted_pairs_agree(paths, nesting, i + 1, STORAGE_COUNT as int);
        } else {
            assert(nesting.within(i, j) == paths[j].is_prefix_of(paths[i]));
            assert(nesting.within(j, i) == paths[i].is_prefix_of(paths[j]));
            trusted_pairs_agree(paths, nesting, i, j + 1);
        }
    }
}

/// Finds the first overlapping pair of storage directories among paths.
pub fn find_pair(paths: &Vec<ContentPath>) -> (result: Option<(usize, usize)>)
    requires
        paths@.len() >= STORAGE_COUNT,
    ensures
        (match result {
            Some((i, j)) => Some((i as int, j as int)),
            None => None,
        }) == resolved_pair(path_views(paths@), 0, 1),
{
    let nesting = Nesting::of_paths(paths);
    proof {
        let views = path_views(paths@);
        assert forall|i: int, j: int| 0 <= i < views.len() && 0 <= j < views.len() implies
            #[trigger] nesting.within(i, j) == views[j].is_prefix_of(views[i]) by {
            assert(views[i] == paths@[i]@ && views[j] == paths@[j]@);
        }
        pairs_agree(views, nesting, 0, 1);
    }
    find_storage_pair(&nesting)
}

/// Finds the first overlapping pair of a storage directory and a trusted input among paths.
pub fn find_trusted(paths: &Vec<ContentPath>) -> (result: Option<(usize, usize)>)
    requires
        paths@.len() >= PATH_COUNT,
    ensures
        (match result {
            Some((i, j)) => Some((i as int, j as int)),
            None => None,
        }) == resolved_trusted_pair(path_views(paths@), 0, STORAGE_COUNT as int),
{
    let nesting = Nesting::of_paths(paths);
    proof {
        let views = path_views(paths@);
        assert forall|i: int, j: int| 0 <= i < views.len() && 0 <= j < views.len() implies
            #[trigger] nesting.within(i, j) == views[j].is_prefix_of(views[i]) by {
            assert(views[i] == paths@[i]@ && views[j] == paths@[j]@);
        }
        trusted_pairs_agree(views, nesting, 0, STORAGE_COUNT as int);
    }
    find_trusted_pair(&nesting)
}

/// Where the configured paths lead, if no storage directory overlaps another one or a trusted
/// input there.
pub open spec fn resolved_topology(
    paths: Seq<PathView>,
    resolutions: Seq<Vec<Resolution>>,
) -> Result<Seq<PathView>, HaltView> {
    match destinations(paths, resolutions, 0, STORAGE_COUNT as int) {
        Err(halt) => Err(halt),
        Ok(storage) => if let Some(pair) = resolved_pair(storage, 0, 1) {
            Err(TopologyHalt::Failed(pair_failure(pair)))
        } else {
            match destinations(paths, resolutions, STORAGE_COUNT as int, PATH_COUNT as int) {
                Err(halt) => Err(halt),
                Ok(trusted) => if let Some(pair) = resolved_trusted_pair(
                    storage + trusted,
                    0,
                    STORAGE_COUNT as int,
                ) {
                    Err(TopologyHalt::Failed(pair_failure(pair)))
                } else {
                    Ok(storage + trusted)
                },
            }
        },
    }
}

proof fn destinations_count(
    paths: Seq<PathView>,
    resolutions: Seq<Vec<Resolution>>,
    from: int,
    to: int,
)
    requires
        from <= to,
    ensures
        destinations(paths, resolutions, from, to) matches Ok(found) ==> found.len() == to - from,
    decreases to - from,
{
    if from < to {
        destinations_count(paths, resolutions, from, to - 1);
    }
}

/// Decides where the configured paths lead and whether they can be used together, from what was
/// resolved so far.
pub fn validate_resolved_topology(paths: &Vec<ContentPath>, resolutions: &Vec<Vec<Resolution>>) -> (result:
    Result<Vec<ContentPath>, TopologyHalt>)
    requires
        paths@.len() == PATH_COUNT,
    ensures
        (match result {
            Ok(resolved) => Ok(path_views(resolved@)),
            Err(halt) => Err(halt@),
        }) == resolved_topology(path_views(paths@), resolutions@),
{
    let ghost views = path_views(paths@);
    proof {
        destinations_count(views, resolutions@, 0, STORAGE_COUNT as int);
        destinations_count(views, resolutions@, STORAGE_COUNT as int, PATH_COUNT as int);
    }
    let mut resolved = match resolve_all(paths, resolutions, 0, STORAGE_COUNT) {
        Err(halt) => {
            return Err(halt);
        },
        Ok(storage) => storage,
    };
    assert(path_views(resolved@).len() == resolved@.len());
    if let Some((i, j)) = find_pair(&resolved) {
        return Err(TopologyHalt::Failed(overlapping_paths(i, j)));
    }
    let mut trusted = match resolve_all(paths, resolutions, STORAGE_COUNT, PATH_COUNT) {
        Err(halt) => {
            return Err(halt);
        },
        Ok(trusted) => trusted,
    };
    assert(path_views(trusted@).len() == trusted@.len());
    let ghost storage = resolved@;
    let ghost inputs = trusted@;
    resolved.append(&mut trusted);
    assert(path_views(resolved@) =~= path_views(storage) + path_views(inputs));
    if let Some((i, j)) = find_trusted(&resolved) {
        return Err(TopologyHalt::Failed(overlapping_paths(i, j)));
    }
    Ok(resolved)
}

proof fn no_resolved_pair(paths: Seq<PathView>, i: int, j: int)
    requires
        0 <= i < j,
        resolved_pair(paths, i, j) is None,
    ensures
        forall|l: int|
            i < STORAGE_COUNT && j <= l < STORAGE_COUNT ==> !paths[i].is_prefix_of(
                #[trigger] paths[l],
            ) && !paths[l].is_prefix_of(paths[i]),
        forall|k: int, l: int|
            i < k < l && l < STORAGE_COUNT ==> !(#[trigger] paths[k]).is_prefix_of(
                #[trigger] paths[l],
            ) && !paths[l].is_prefix_of(paths[k]),
    decreases STORAGE_COUNT - i, STORAGE_COUNT - j,
{
    if i < STORAGE_COUNT {
        if j >= STORAGE_COUNT {
            no_resolved_pair(paths, i + 1, i + 2);
        } else {
            no_resolved_pair(paths, i, j + 1);
        }
    }
}

proof fn no_resolved_trusted(paths: Seq<PathView>, i: int, j: int)
    requires
        0 <= i,
        STORAGE_COUNT <= j,
        resolved_trusted_pair(paths, i, j) is None,
    ensures
        forall|l: int|
            i < STORAGE_COUNT && j <= l < PATH_COUNT ==> !paths[i].is_prefix_of(
                #[trigger] paths[l],
            ) && !paths[l].is_prefix_of(paths[i]),
        forall|k: int, l: int|
            i < k < STORAGE_COUNT && STORAGE_COUNT <= l < PATH_COUNT ==> !(
            #[trigger] paths[k]).is_prefix_of(#[trigger] paths[l]) && !paths[l].is_prefix_of(
                paths[k],
            ),
    decreases STORAGE_COUNT - i, PATH_COUNT - j,
{
    if i < STORAGE_COUNT {
        if j >= PATH_COUNT {
            no_resolved_trusted(paths, i + 1, STORAGE_COUNT as int);
        } else {
            no_resolved_trusted(paths, i, j + 1);
        }
    }
}

/// In paths without an overlapping pair no storage directory holds or lies in another one or a
/// trusted input.
pub proof fn unpaired_paths_are_separate(paths: Seq<PathView>)
    requires
        resolved_pair(paths, 0, 1) is None,
        resolved_trusted_pair(paths, 0, STORAGE_COUNT as int) is None,
    ensures
        forall|i: int, j: int|
            0 <= i < STORAGE_COUNT && i < j < PATH_COUNT ==> !(#[trigger] paths[i]).is_prefix_of(
                #[trigger] paths[j],
            ) && !paths[j].is_prefix_of(paths[i]),
{
    no_resolved_pair(paths, 0, 1);
    no_resolved_trusted(paths, 0, STORAGE_COUNT as int);
}

proof fn pair_of_first_paths(storage: Seq<PathView>, trusted: Seq<PathView>, i: int, j: int)
    requires
        storage.len() == STORAGE_COUNT,
        0 <= i < j,
    ensures
        resolved_pair(storage + trusted, i, j) == resolved_pair(storage, i, j),
    decreases STORAGE_COUNT - i, STORAGE_COUNT - j,
{
    if i < STORAGE_COUNT {
        if j >= STORAGE_COUNT {
            pair_of_first_paths(storage, trusted, i + 1, i + 2);
        } else {
            pair_of_first_paths(storage, trusted, i, j + 1);
        }
    }
}

/// In an accepted topology no storage directory holds or lies in another one or a trusted input.
pub proof fn accepted_topologies_are_separate(
    paths: Seq<PathView>,
    resolutions: Seq<Vec<Resolution>>,
)
    ensures
        resolved_topology(paths, resolutions) matches Ok(resolved) ==> {
            &&& resolved.len() == PATH_COUNT
            &&& forall|i: int, j: int|
                0 <= i < STORAGE_COUNT && i < j < PATH_COUNT ==> !(
                #[trigger] resolved[i]).is_prefix_of(#[trigger] resolved[j])
                    && !resolved[j].is_prefix_of(resolved[i])
        },
{
    if let Ok(resolved) = resolved_topology(paths, resolutions) {
        destinations_count(paths, resolutions, 0, STORAGE_COUNT as int);
        destinations_count(paths, resolutions, STORAGE_COUNT as int, PATH_COUNT as int);
        let storage = destinations(paths, resolutions, 0, STORAGE_COUNT as int)->Ok_0;
        let trusted = destinations(paths, resolutions, STORAGE_COUNT as int, PATH_COUNT as int)->Ok_0;
        pair_of_first_paths(storage, trusted, 0, 1);
        unpaired_paths_are_separate(storage + trusted);
    }
}

} // verus!
