//! Settings of one Repository Worker process.
use crate::apply::PathView;
use crate::clock::Timestamp;
use crate::fields::{split, split_text};
use crate::path::{holds_text, path_views, texts, ContentPath};
use crate::replication::{is_destination, is_remote_name, is_timing, RemoteReplicationPolicy};
use crate::repository::{is_identity_value, valid_identity_value, GitIdentity};
use crate::schedule::{BatchSchedule, SECOND};
use crate::text::{characters, decimal, decimal_text, join2, join3, join5, same_text};
use crate::topology::{
    field_name, field_of, find_pair, find_trusted, resolved_pair, resolved_trusted_pair,
    unpaired_paths_are_separate, PATH_COUNT, STORAGE_COUNT,
};
use vstd::prelude::*;
use vstd::string::*;

verus! {

/// Worker configuration schema supported by this release.
pub const CURRENT_WORKER_CONFIG_VERSION: u16 = 1;

/// Maximum bytes of a Worker configuration.
pub const MAXIMUM_WORKER_CONFIG_BYTES: u64 = 65_536;

/// Bounded queue scan and batch-size limits for one Worker process.
#[derive(Clone, Copy, Debug, PartialEq, Eq, Structural)]
pub struct WorkerRunLimits {
    maximum_scan_entries: usize,
    maximum_requests: usize,
    maximum_recovery_requests: usize,
}

impl WorkerRunLimits {
    /// Directory entries inspected per scan step.
    pub closed spec fn spec_scan_entries(self) -> usize {
        self.maximum_scan_entries
    }

    /// Claims retained and processed in one batch.
    pub closed spec fn spec_requests(self) -> usize {
        self.maximum_requests
    }

    /// Claims retained during startup.
    pub closed spec fn spec_recovery_requests(self) -> usize {
        self.maximum_recovery_requests
    }

    #[verifier::type_invariant]
    spec fn recovers_its_batches(self) -> bool {
        self.maximum_scan_entries > 0 && 0 < self.maximum_requests
            <= self.maximum_recovery_requests
    }

    /// Creates limits for incremental directory scans and in-memory claims.
    ///
    /// A recovery bound below the new-batch bound is raised to the new-batch bound so every batch
    /// created by this configuration remains recoverable.
    pub fn new(
        maximum_scan_entries: usize,
        maximum_requests: usize,
        maximum_recovery_requests: usize,
    ) -> (limits: Self)
        requires
            maximum_scan_entries > 0,
            maximum_requests > 0,
            maximum_recovery_requests > 0,
        ensures
            limits.spec_scan_entries() == maximum_scan_entries,
            limits.spec_requests() == maximum_requests,
            limits.spec_recovery_requests() == if maximum_recovery_requests < maximum_requests {
                maximum_requests
            } else {
                maximum_recovery_requests
            },
    {
        let recovery: usize = if maximum_recovery_requests < maximum_requests {
            maximum_requests
        } else {
            maximum_recovery_requests
        };
        WorkerRunLimits {
            maximum_scan_entries,
            maximum_requests,
            maximum_recovery_requests: recovery,
        }
    }

    /// Returns the number of directory entries inspected per scan step.
    pub fn maximum_scan_entries(self) -> (result: usize)
        ensures
            result == self.spec_scan_entries(),
            result > 0,
    {
        proof {
            use_type_invariant(&self);
        }
        self.maximum_scan_entries
    }

    /// Returns the maximum claims retained and processed in one batch.
    pub fn maximum_requests(self) -> (result: usize)
        ensures
            result == self.spec_requests(),
            result > 0,
    {
        proof {
            use_type_invariant(&self);
        }
        self.maximum_requests
    }

    /// Returns the stable safety bound for claims retained during startup.
    pub fn maximum_recovery_requests(self) -> (result: usize)
        ensures
            result == self.spec_recovery_requests(),
            result >= self.spec_requests(),
    {
        proof {
            use_type_invariant(&self);
        }
        self.maximum_recovery_requests
    }
}

impl Default for WorkerRunLimits {
    fn default() -> (limits: WorkerRunLimits)
        ensures
            limits.spec_scan_entries() == 1_024,
            limits.spec_requests() == 100,
            limits.spec_recovery_requests() == 10_000,
    {
        WorkerRunLimits::new(1_024, 100, 10_000)
    }
}

/// Configured storage directories.
#[derive(Debug)]
pub struct WireStorage<T = String> {
    /// The durable request queue.
    pub queue_root: T,
    /// The bare repository.
    pub repository_root: T,
    /// The canonical worktree.
    pub content_root: T,
    /// The disposable transaction root.
    pub work_root: T,
    /// The release store.
    pub release_root: T,
}

/// Configured repository.
#[derive(Debug)]
pub struct WireRepository<T = String> {
    /// The official branch.
    pub official_branch: T,
    /// The author's name.
    pub author_name: T,
    /// The author's address.
    pub author_email: T,
    /// Where the official branch is replicated to.
    pub replication: Option<WireReplication<T>>,
}

/// Configured remote replication.
#[derive(Debug)]
pub struct WireReplication<T = String> {
    /// The remote.
    pub remote: T,
    /// The destination branch.
    pub branch: T,
    /// The longest attempt, in seconds.
    pub timeout_seconds: u64,
    /// The delay after the first failure, in seconds.
    pub initial_backoff_seconds: u64,
    /// The longest delay, in seconds.
    pub maximum_backoff_seconds: u64,
}

/// Configured Quartz command.
#[derive(Debug)]
pub struct WireQuartz<T = String> {
    /// The executable.
    pub program: T,
    /// The integration root.
    pub integration_root: T,
    /// The longest run, in seconds.
    pub timeout_seconds: u64,
}

/// Configured batches.
#[derive(Clone, Copy, Debug, PartialEq, Eq, Structural)]
pub struct WireBatch {
    /// The inactivity that closes a batch, in seconds.
    pub debounce_seconds: u64,
    /// The longest wait of a request, in seconds.
    pub maximum_age_seconds: u64,
    /// Directory entries inspected per scan step.
    pub maximum_scan_entries: u64,
    /// Claims of one batch.
    pub maximum_requests: u64,
    /// Claims retained during startup.
    pub maximum_recovery_requests: u64,
}

/// A decoded configuration before it is validated.
#[derive(Debug)]
pub struct WireWorkerConfig<T = String> {
    /// The schema version.
    pub schema_version: u16,
    /// Storage directories.
    pub storage: WireStorage<T>,
    /// The repository.
    pub repository: WireRepository<T>,
    /// The Quartz command.
    pub quartz: WireQuartz<T>,
    /// Batches.
    pub batch: WireBatch,
}

/// A configuration with its texts as sequences.
pub type WireView = WireWorkerConfig<Seq<char>>;

impl View for WireWorkerConfig {
    type V = WireView;

    open spec fn view(&self) -> WireView {
        WireWorkerConfig {
            schema_version: self.schema_version,
            storage: WireStorage {
                queue_root: self.storage.queue_root@,
                repository_root: self.storage.repository_root@,
                content_root: self.storage.content_root@,
                work_root: self.storage.work_root@,
                release_root: self.storage.release_root@,
            },
            repository: WireRepository {
                official_branch: self.repository.official_branch@,
                author_name: self.repository.author_name@,
                author_email: self.repository.author_email@,
                replication: match self.repository.replication {
                    Some(replication) => Some(
                        WireReplication {
                            remote: replication.remote@,
                            branch: replication.branch@,
                            timeout_seconds: replication.timeout_seconds,
                            initial_backoff_seconds: replication.initial_backoff_seconds,
                            maximum_backoff_seconds: replication.maximum_backoff_seconds,
                        },
                    ),
                    None => None,
                },
            },
            quartz: WireQuartz {
                program: self.quartz.program@,
                integration_root: self.quartz.integration_root@,
                timeout_seconds: self.quartz.timeout_seconds,
            },
            batch: self.batch,
        }
    }
}

/// Invalid Worker configuration input.
#[allow(inconsistent_fields)]
#[derive(Debug)]
pub enum WorkerConfigError<T = String, D = &'static str> {
    /// The configuration file could not be read.
    Io(T),
    /// The configured path did not name a regular file.
    InvalidFileType,
    /// The configuration exceeded the fixed parser input bound.
    FileTooLarge {
        /// Maximum accepted configuration bytes.
        maximum: u64,
    },
    /// The configuration was not UTF-8.
    InvalidUtf8,
    /// YAML decoding or strict schema validation failed.
    InvalidYaml(T),
    /// The configuration schema version is unsupported.
    UnsupportedSchemaVersion {
        /// Version found in the file.
        found: u16,
    },
    /// A path was relative, non-normalized, or an unsafe root.
    InvalidPath {
        /// Invalid configuration field.
        field: D,
    },
    /// Two configured storage or trusted-input paths were equal or nested.
    OverlappingPaths {
        /// First conflicting field.
        first: D,
        /// Second conflicting field.
        second: D,
    },
    /// A scalar or collection limit was invalid.
    InvalidValue {
        /// Invalid configuration field.
        field: D,
    },
}

/// A failure with its texts as sequences.
pub type ConfigFailure = WorkerConfigError<Seq<char>, Seq<char>>;

impl View for WorkerConfigError {
    type V = ConfigFailure;

    open spec fn view(&self) -> ConfigFailure {
        match *self {
            WorkerConfigError::Io(reason) => WorkerConfigError::Io(reason@),
            WorkerConfigError::InvalidFileType => WorkerConfigError::InvalidFileType,
            WorkerConfigError::FileTooLarge { maximum } => WorkerConfigError::FileTooLarge {
                maximum,
            },
            WorkerConfigError::InvalidUtf8 => WorkerConfigError::InvalidUtf8,
            WorkerConfigError::InvalidYaml(reason) => WorkerConfigError::InvalidYaml(reason@),
            WorkerConfigError::UnsupportedSchemaVersion { found } =>
                WorkerConfigError::UnsupportedSchemaVersion { found },
            WorkerConfigError::InvalidPath { field } => WorkerConfigError::InvalidPath {
                field: field@,
            },
            WorkerConfigError::OverlappingPaths { first, second } =>
                WorkerConfigError::OverlappingPaths { first: first@, second: second@ },
            WorkerConfigError::InvalidValue { field } => WorkerConfigError::InvalidValue {
                field: field@,
            },
        }
    }
}

/// What a failure is reported as.
pub open spec fn config_message(failure: ConfigFailure) -> Seq<char> {
    match failure {
        WorkerConfigError::Io(reason) => "could not read Worker configuration: "@ + reason,
        WorkerConfigError::InvalidFileType => "Worker configuration must be a regular file"@,
        WorkerConfigError::FileTooLarge { maximum } => "Worker configuration exceeds "@ + decimal(
            maximum as nat,
        ) + " bytes"@,
        WorkerConfigError::InvalidUtf8 => "Worker configuration must be UTF-8"@,
        WorkerConfigError::InvalidYaml(reason) => "invalid Worker configuration: "@ + reason,
        WorkerConfigError::UnsupportedSchemaVersion { found } =>
            "unsupported Worker configuration schema version "@ + decimal(found as nat),
        WorkerConfigError::InvalidPath { field } => "Worker configuration path `"@ + field
            + "` must be absolute and normalized"@,
        WorkerConfigError::OverlappingPaths { first, second } => "Worker paths `"@ + first
            + "` and `"@ + second + "` must not overlap"@,
        WorkerConfigError::InvalidValue { field } => "Worker configuration value `"@ + field
            + "` is invalid"@,
    }
}

impl WorkerConfigError {
    /// What the failure is reported as.
    pub fn message(&self) -> (text: String)
        ensures
            text@ == config_message(self@),
    {
        match self {
            WorkerConfigError::Io(reason) => join2(
                "could not read Worker configuration: ",
                reason.as_str(),
            ),
            WorkerConfigError::InvalidFileType =>
                "Worker configuration must be a regular file".to_owned(),
            WorkerConfigError::FileTooLarge { maximum } => join3(
                "Worker configuration exceeds ",
                decimal_text(*maximum).as_str(),
                " bytes",
            ),
            WorkerConfigError::InvalidUtf8 => "Worker configuration must be UTF-8".to_owned(),
            WorkerConfigError::InvalidYaml(reason) => join2(
                "invalid Worker configuration: ",
                reason.as_str(),
            ),
            WorkerConfigError::UnsupportedSchemaVersion { found } => join2(
                "unsupported Worker configuration schema version ",
                decimal_text(*found as u64).as_str(),
            ),
            WorkerConfigError::InvalidPath { field } => join3(
                "Worker configuration path `",
                field,
                "` must be absolute and normalized",
            ),
            WorkerConfigError::OverlappingPaths { first, second } => join5(
                "Worker paths `",
                first,
                "` and `",
                second,
                "` must not overlap",
            ),
            WorkerConfigError::InvalidValue { field } => join3(
                "Worker configuration value `",
                field,
                "` is invalid",
            ),
        }
    }
}

/// Whether a part of a path is one of its components: nothing and a single point are not.
pub open spec fn is_component(part: Seq<char>) -> bool {
    part.len() > 0 && part != "."@
}

/// The components of a path of the host, whose separator is a slash.
pub open spec fn host_components(text: Seq<char>) -> PathView {
    split(text, '/').filter(|part: Seq<char>| is_component(part))
}

/// Reads the components of a path of the host.
pub fn host_path(text: &str) -> (path: ContentPath)
    ensures
        path@ == host_components(text@),
{
    let parts = split_text(text, '/');
    let ghost views = split(text@, '/');
    let ghost holds = |part: Seq<char>| is_component(part);
    let mut path = ContentPath::root();
    let mut i: usize = 0;
    assert(views.take(0).filter(holds) =~= Seq::<Seq<char>>::empty()) by {
        reveal(Seq::filter);
    }
    while i < parts.len()
        invariant
            i <= parts@.len(),
            views == texts(parts@),
            holds == (|part: Seq<char>| is_component(part)),
            path@ == views.take(i as int).filter(holds),
        decreases parts@.len() - i,
    {
        assert(views[i as int] == parts@[i as int]@);
        proof {
            reveal(Seq::filter);
            assert(views.take(i + 1).drop_last() =~= views.take(i as int));
        }
        if !same_text(parts[i].as_str(), ".") {
            path = path.join(parts[i].as_str());
        }
        i += 1;
    }
    assert(views.take(views.len() as int) =~= views);
    path
}

/// Whether a path is absolute and normalized, and names something below the root: none of its
/// parts is a single point or goes up.
pub open spec fn is_usable_path(text: Seq<char>) -> bool {
    &&& text.len() > 0 && text[0] == '/'
    &&& host_components(text).len() > 0
    &&& !split(text, '/').contains("."@)
    &&& !split(text, '/').contains(".."@)
}

/// Reads a path that is absolute and normalized, and names something below the root.
fn usable_path(text: &str) -> (result: Option<ContentPath>)
    ensures
        result is Some <==> is_usable_path(text@),
        result matches Some(path) ==> path@ == host_components(text@),
{
    let chars = characters(text);
    let parts = split_text(text, '/');
    let path = host_path(text);
    if chars.len() == 0 || chars[0] != '/' || path.len() == 0 || holds_text(&parts, ".")
        || holds_text(&parts, "..") {
        return None;
    }
    Some(path)
}

/// The configured paths in the order of their fields.
pub open spec fn configured_paths(wire: WireView) -> Seq<Seq<char>> {
    seq![
        wire.storage.queue_root,
        wire.storage.repository_root,
        wire.storage.content_root,
        wire.storage.work_root,
        wire.storage.release_root,
        wire.quartz.program,
        wire.quartz.integration_root,
    ]
}

/// The components of each configured path.
pub open spec fn configured_components(wire: WireView) -> Seq<PathView> {
    configured_paths(wire).map_values(|text: Seq<char>| host_components(text))
}

/// The first unusable path among those of some fields.
pub open spec fn unusable_from(texts: Seq<Seq<char>>, from: int, to: int) -> Option<int>
    decreases to - from,
{
    if from >= to {
        None
    } else if !is_usable_path(texts[from]) {
        Some(from)
    } else {
        unusable_from(texts, from + 1, to)
    }
}

/// A refused value.
pub open spec fn invalid(field: Seq<char>) -> Option<ConfigFailure> {
    Some(WorkerConfigError::InvalidValue { field })
}

/// Why configured paths are refused.
pub open spec fn path_problem(wire: WireView) -> Option<ConfigFailure> {
    let texts = configured_paths(wire);
    let paths = configured_components(wire);
    if let Some(at) = unusable_from(texts, 0, STORAGE_COUNT as int) {
        Some(WorkerConfigError::InvalidPath { field: field_of(at) })
    } else if let Some((i, j)) = resolved_pair(paths, 0, 1) {
        Some(WorkerConfigError::OverlappingPaths { first: field_of(i), second: field_of(j) })
    } else if let Some(at) = unusable_from(texts, STORAGE_COUNT as int, PATH_COUNT as int) {
        Some(WorkerConfigError::InvalidPath { field: field_of(at) })
    } else if let Some((i, j)) = resolved_trusted_pair(paths, 0, STORAGE_COUNT as int) {
        Some(WorkerConfigError::OverlappingPaths { first: field_of(i), second: field_of(j) })
    } else {
        None
    }
}

/// What the clocks of the process can reach.
#[derive(Clone, Copy, Debug)]
pub struct ConfigClock {
    /// The present.
    pub now: Timestamp,
    /// Whether the monotonic clock can be advanced by the configured timeout of Quartz.
    pub timeout_fits: bool,
    /// Whether the monotonic clock can be advanced by the configured replication spans.
    pub replication_fits: bool,
}

/// A number of seconds in nanoseconds.
pub open spec fn span_of(seconds: u64) -> u128 {
    (seconds * SECOND) as u128
}

/// Whether configured replication can be used.
pub open spec fn is_replication(
    replication: WireReplication<Seq<char>>,
    clock: ConfigClock,
) -> bool {
    &&& is_remote_name(replication.remote)
    &&& is_destination(replication.branch)
    &&& is_timing(
        span_of(replication.timeout_seconds),
        span_of(replication.initial_backoff_seconds),
        span_of(replication.maximum_backoff_seconds),
        clock.now,
        clock.replication_fits,
    )
}

/// Why a configuration is refused.
pub open spec fn config_problem(wire: WireView, clock: ConfigClock) -> Option<ConfigFailure> {
    if wire.schema_version != CURRENT_WORKER_CONFIG_VERSION {
        Some(WorkerConfigError::UnsupportedSchemaVersion { found: wire.schema_version })
    } else if path_problem(wire) is Some {
        path_problem(wire)
    } else if !is_identity_value(wire.repository.official_branch) {
        invalid("repository.official_branch"@)
    } else if !is_identity_value(wire.repository.author_name) || !is_identity_value(
        wire.repository.author_email,
    ) {
        invalid("repository author identity"@)
    } else if wire.repository.replication is Some && !is_replication(
        wire.repository.replication->0,
        clock,
    ) {
        invalid("repository.replication"@)
    } else if wire.quartz.timeout_seconds == 0 || !clock.timeout_fits {
        invalid("quartz.timeout_seconds"@)
    } else if wire.batch.debounce_seconds == 0 || wire.batch.debounce_seconds > i64::MAX {
        invalid("batch.debounce_seconds"@)
    } else if wire.batch.maximum_age_seconds == 0 || wire.batch.maximum_age_seconds > i64::MAX {
        invalid("batch.maximum_age_seconds"@)
    } else if wire.batch.maximum_scan_entries == 0 || wire.batch.maximum_scan_entries
        > usize::MAX {
        invalid("batch.maximum_scan_entries"@)
    } else if wire.batch.maximum_requests == 0 || wire.batch.maximum_requests > usize::MAX {
        invalid("batch.maximum_requests"@)
    } else if wire.batch.maximum_recovery_requests == 0 || wire.batch.maximum_recovery_requests
        > usize::MAX || wire.batch.maximum_recovery_requests < wire.batch.maximum_requests {
        invalid("batch.maximum_recovery_requests"@)
    } else {
        None
    }
}

/// Checks the size of a configuration before it is decoded.
pub fn check_config_length(length: u64) -> (result: Result<(), WorkerConfigError>)
    ensures
        result is Ok <==> length <= MAXIMUM_WORKER_CONFIG_BYTES,
        result matches Err(error) ==> error@ == (ConfigFailure::FileTooLarge {
            maximum: MAXIMUM_WORKER_CONFIG_BYTES,
        }),
{
    if length > MAXIMUM_WORKER_CONFIG_BYTES {
        return Err(
            WorkerConfigError::FileTooLarge { maximum: MAXIMUM_WORKER_CONFIG_BYTES },
        );
    }
    Ok(())
}

/// Validated, side-effect-free settings for one Repository Worker process.
#[derive(Debug)]
pub struct WorkerSettings {
    /// Storage directories.
    pub storage: WireStorage,
    /// The official branch.
    pub official_branch: String,
    /// The fixed commit author.
    pub identity: GitIdentity,
    /// The policy of remote replication, where it is configured.
    pub replication: Option<RemoteReplicationPolicy>,
    /// The trusted Quartz executable.
    pub quartz_program: String,
    /// The trusted Quartz integration root.
    pub quartz_integration_root: String,
    /// The longest run of Quartz, in seconds.
    pub quartz_timeout: u64,
    /// Batch-closing thresholds.
    pub schedule: BatchSchedule,
    /// Bounded-scan and batch-size limits.
    pub limits: WorkerRunLimits,
}

/// Whether settings are those of a configuration.
pub open spec fn settings_of(settings: WorkerSettings, wire: WireView) -> bool {
    &&& settings.storage.queue_root@ == wire.storage.queue_root
    &&& settings.storage.repository_root@ == wire.storage.repository_root
    &&& settings.storage.content_root@ == wire.storage.content_root
    &&& settings.storage.work_root@ == wire.storage.work_root
    &&& settings.storage.release_root@ == wire.storage.release_root
    &&& settings.official_branch@ == wire.repository.official_branch
    &&& settings.identity.spec_name() == wire.repository.author_name
    &&& settings.identity.spec_email() == wire.repository.author_email
    &&& match (settings.replication, wire.repository.replication) {
        (Some(policy), Some(replication)) => {
            &&& policy.spec_remote() == replication.remote
            &&& policy.spec_branch() == replication.branch
            &&& policy.spec_timeout() == span_of(replication.timeout_seconds)
            &&& policy.spec_initial_backoff() == span_of(replication.initial_backoff_seconds)
            &&& policy.spec_maximum_backoff() == span_of(replication.maximum_backoff_seconds)
        },
        (None, None) => true,
        _ => false,
    }
    &&& settings.quartz_program@ == wire.quartz.program
    &&& settings.quartz_integration_root@ == wire.quartz.integration_root
    &&& settings.quartz_timeout == wire.quartz.timeout_seconds
    &&& settings.schedule.spec_debounce() == wire.batch.debounce_seconds * SECOND
    &&& settings.schedule.spec_maximum_age() == wire.batch.maximum_age_seconds * SECOND
    &&& settings.limits.spec_scan_entries() == wire.batch.maximum_scan_entries
    &&& settings.limits.spec_requests() == wire.batch.maximum_requests
    &&& settings.limits.spec_recovery_requests() == wire.batch.maximum_recovery_requests
}

/// Reads the paths of some fields.
fn read_paths(strings: &Vec<&String>, from: usize, to: usize, paths: &mut Vec<ContentPath>) -> (result:
    Result<(), WorkerConfigError>)
    requires
        from <= to <= strings@.len(),
    ensures
        ({
            let texts = strings@.map_values(|string: &String| string@);
            match unusable_from(texts, from as int, to as int) {
                Some(at) => result matches Err(error) && error@ == (ConfigFailure::InvalidPath {
                    field: field_of(at),
                }),
                None => result is Ok && path_views(final(paths)@) == path_views(old(paths)@)
                    + texts.subrange(from as int, to as int).map_values(
                    |text: Seq<char>| host_components(text),
                ),
            }
        }),
{
    let ghost texts = strings@.map_values(|string: &String| string@);
    let ghost earlier = path_views(paths@);
    let mut at: usize = from;
    assert(path_views(paths@) =~= earlier + texts.subrange(from as int, from as int).map_values(
        |text: Seq<char>| host_components(text),
    ));
    while at < to
        invariant
            from <= at <= to <= strings@.len(),
            texts == strings@.map_values(|string: &String| string@),
            unusable_from(texts, from as int, to as int) == unusable_from(
                texts,
                at as int,
                to as int,
            ),
            path_views(paths@) == earlier + texts.subrange(from as int, at as int).map_values(
                |text: Seq<char>| host_components(text),
            ),
        decreases to - at,
    {
        assert(texts[at as int] == strings@[at as int]@);
        match usable_path(strings[at].as_str()) {
            None => {
                return Err(WorkerConfigError::InvalidPath { field: field_name(at) });
            },
            Some(path) => {
                let ghost before = paths@;
                paths.push(path);
                assert(path_views(paths@) =~= path_views(before).push(path@));
                assert(path_views(paths@) =~= earlier + texts.subrange(
                    from as int,
                    at + 1,
                ).map_values(|text: Seq<char>| host_components(text)));
            },
        }
        at += 1;
    }
    Ok(())
}

/// Checks the configured paths.
fn check_paths(wire: &WireWorkerConfig) -> (result: Result<(), WorkerConfigError>)
    ensures
        (match result {
            Ok(()) => None,
            Err(error) => Some(error@),
        }) == path_problem(wire@),
{
    let strings: Vec<&String> = vec![
        &wire.storage.queue_root,
        &wire.storage.repository_root,
        &wire.storage.content_root,
        &wire.storage.work_root,
        &wire.storage.release_root,
        &wire.quartz.program,
        &wire.quartz.integration_root,
    ];
    let ghost texts = strings@.map_values(|string: &String| string@);
    let ghost views = configured_components(wire@);
    assert(texts =~= configured_paths(wire@));
    let mut paths: Vec<ContentPath> = Vec::new();
    match read_paths(&strings, 0, STORAGE_COUNT, &mut paths) {
        Err(error) => {
            return Err(error);
        },
        Ok(()) => {},
    }
    proof {
        assert(path_views(paths@) =~= views.take(STORAGE_COUNT as int));
        assert(paths@.len() == path_views(paths@).len());
        pair_of_taken_paths(views, STORAGE_COUNT as int, 0, 1);
    }
    if let Some((i, j)) = find_pair(&paths) {
        return Err(
            WorkerConfigError::OverlappingPaths { first: field_name(i), second: field_name(j) },
        );
    }
    match read_paths(&strings, STORAGE_COUNT, PATH_COUNT, &mut paths) {
        Err(error) => {
            return Err(error);
        },
        Ok(()) => {},
    }
    proof {
        assert(path_views(paths@) =~= views);
        assert(paths@.len() == path_views(paths@).len());
    }
    if let Some((i, j)) = find_trusted(&paths) {
        return Err(
            WorkerConfigError::OverlappingPaths { first: field_name(i), second: field_name(j) },
        );
    }
    Ok(())
}

proof fn pair_of_taken_paths(paths: Seq<PathView>, count: int, i: int, j: int)
    requires
        STORAGE_COUNT <= count <= paths.len(),
        0 <= i < j,
    ensures
        resolved_pair(paths.take(count), i, j) == resolved_pair(paths, i, j),
    decreases STORAGE_COUNT - i, STORAGE_COUNT - j,
{
    if i < STORAGE_COUNT {
        if j >= STORAGE_COUNT {
            pair_of_taken_paths(paths, count, i + 1, i + 2);
        } else {
            pair_of_taken_paths(paths, count, i, j + 1);
        }
    }
}

fn span(seconds: u64) -> (nanoseconds: u128)
    ensures
        nanoseconds == span_of(seconds),
{
    seconds as u128 * 1_000_000_000
}

fn refuse<R>(field: &'static str) -> (result: Result<R, WorkerConfigError>)
    ensures
        result matches Err(error) && Some(error@) == invalid(field@),
{
    Err(WorkerConfigError::InvalidValue { field })
}

impl WorkerSettings {
    /// Validates a decoded configuration.
    pub fn try_from_wire(wire: WireWorkerConfig, clock: ConfigClock) -> (result: Result<
        WorkerSettings,
        WorkerConfigError,
    >)
        ensures
            match result {
                Ok(settings) => config_problem(wire@, clock) is None && settings_of(
                    settings,
                    wire@,
                ),
                Err(error) => config_problem(wire@, clock) == Some(error@),
            },
    {
        if wire.schema_version != CURRENT_WORKER_CONFIG_VERSION {
            return Err(
                WorkerConfigError::UnsupportedSchemaVersion { found: wire.schema_version },
            );
        }
        match check_paths(&wire) {
            Err(error) => {
                return Err(error);
            },
            Ok(()) => {},
        }
        if !valid_identity_value(wire.repository.official_branch.as_str()) {
            return refuse("repository.official_branch");
        }
        let identity = match GitIdentity::new(
            wire.repository.author_name.as_str(),
            wire.repository.author_email.as_str(),
        ) {
            Err(_) => {
                return refuse("repository author identity");
            },
            Ok(identity) => identity,
        };
        let replication = match &wire.repository.replication {
            Some(replication) => match RemoteReplicationPolicy::new(
                replication.remote.as_str(),
                replication.branch.as_str(),
                span(replication.timeout_seconds),
                span(replication.initial_backoff_seconds),
                span(replication.maximum_backoff_seconds),
                &clock.now,
                clock.replication_fits,
            ) {
                Err(_) => {
                    return refuse("repository.replication");
                },
                Ok(policy) => Some(policy),
            },
            None => None,
        };
        if wire.quartz.timeout_seconds == 0 || !clock.timeout_fits {
            return refuse("quartz.timeout_seconds");
        }
        let batch = wire.batch;
        if batch.debounce_seconds == 0 || batch.debounce_seconds > i64::MAX as u64 {
            return refuse("batch.debounce_seconds");
        }
        if batch.maximum_age_seconds == 0 || batch.maximum_age_seconds > i64::MAX as u64 {
            return refuse("batch.maximum_age_seconds");
        }
        let schedule = match BatchSchedule::new(
            batch.debounce_seconds as i128 * SECOND,
            batch.maximum_age_seconds as i128 * SECOND,
        ) {
            Err(_) => {
                return refuse("batch schedule");
            },
            Ok(schedule) => schedule,
        };
        let most: u64 = usize::MAX as u64;
        if batch.maximum_scan_entries == 0 || batch.maximum_scan_entries > most {
            return refuse("batch.maximum_scan_entries");
        }
        if batch.maximum_requests == 0 || batch.maximum_requests > most {
            return refuse("batch.maximum_requests");
        }
        if batch.maximum_recovery_requests == 0 || batch.maximum_recovery_requests > most
            || batch.maximum_recovery_requests < batch.maximum_requests {
            return refuse("batch.maximum_recovery_requests");
        }
        Ok(
            WorkerSettings {
                storage: wire.storage,
                official_branch: wire.repository.official_branch,
                identity,
                replication,
                quartz_program: wire.quartz.program,
                quartz_integration_root: wire.quartz.integration_root,
                quartz_timeout: wire.quartz.timeout_seconds,
                schedule,
                limits: WorkerRunLimits::new(
                    batch.maximum_scan_entries as usize,
                    batch.maximum_requests as usize,
                    batch.maximum_recovery_requests as usize,
                ),
            },
        )
    }
}

impl WorkerSettings {
    /// Returns the durable request queue root.
    pub fn queue_root(&self) -> (text: &str)
        ensures
            text@ == self.storage.queue_root@,
    {
        self.storage.queue_root.as_str()
    }

    /// Returns the bare Git repository root.
    pub fn repository_root(&self) -> (text: &str)
        ensures
            text@ == self.storage.repository_root@,
    {
        self.storage.repository_root.as_str()
    }

    /// Returns the canonical committed content worktree.
    pub fn content_root(&self) -> (text: &str)
        ensures
            text@ == self.storage.content_root@,
    {
        self.storage.content_root.as_str()
    }

    /// Returns the disposable repository transaction root.
    pub fn work_root(&self) -> (text: &str)
        ensures
            text@ == self.storage.work_root@,
    {
        self.storage.work_root.as_str()
    }

    /// Returns the immutable release store root.
    pub fn release_root(&self) -> (text: &str)
        ensures
            text@ == self.storage.release_root@,
    {
        self.storage.release_root.as_str()
    }

    /// Returns the official Git branch name.
    pub fn official_branch(&self) -> (text: &str)
        ensures
            text@ == self.official_branch@,
    {
        self.official_branch.as_str()
    }

    /// Returns the trusted Quartz executable path.
    pub fn quartz_program(&self) -> (text: &str)
        ensures
            text@ == self.quartz_program@,
    {
        self.quartz_program.as_str()
    }

    /// Returns the trusted Quartz integration root.
    pub fn quartz_integration_root(&self) -> (text: &str)
        ensures
            text@ == self.quartz_integration_root@,
    {
        self.quartz_integration_root.as_str()
    }

    /// Returns the fixed commit author identity.
    pub fn identity(&self) -> (identity: &GitIdentity)
        ensures
            *identity == self.identity,
    {
        &self.identity
    }

    /// Returns the policy of remote replication, where it is configured.
    pub fn replication(&self) -> (policy: Option<&RemoteReplicationPolicy>)
        ensures
            match (policy, self.replication) {
                (Some(policy), Some(own)) => *policy == own,
                (None, None) => true,
                _ => false,
            },
    {
        self.replication.as_ref()
    }

    /// Returns the maximum duration of one Quartz invocation, in seconds.
    pub fn quartz_timeout(&self) -> (seconds: u64)
        ensures
            seconds == self.quartz_timeout,
    {
        self.quartz_timeout
    }

    /// Returns the validated batch-closing thresholds.
    pub fn schedule(&self) -> (schedule: BatchSchedule)
        ensures
            schedule == self.schedule,
    {
        self.schedule
    }

    /// Returns the validated bounded-scan and batch-size limits.
    pub fn limits(&self) -> (limits: WorkerRunLimits)
        ensures
            limits == self.limits,
    {
        self.limits
    }
}

/// In an accepted configuration every path is absolute, and no storage directory holds or lies in
/// another one or a trusted input.
pub proof fn accepted_paths_are_separate(wire: WireView, clock: ConfigClock)
    requires
        config_problem(wire, clock) is None,
    ensures
        forall|i: int|
            0 <= i < PATH_COUNT ==> is_usable_path(#[trigger] configured_paths(wire)[i]),
        forall|i: int, j: int|
            0 <= i < STORAGE_COUNT && i < j < PATH_COUNT ==> !(
            #[trigger] configured_components(wire)[i]).is_prefix_of(
                #[trigger] configured_components(wire)[j],
            ) && !configured_components(wire)[j].is_prefix_of(configured_components(wire)[i]),
{
    all_usable(configured_paths(wire), 0, STORAGE_COUNT as int);
    all_usable(configured_paths(wire), STORAGE_COUNT as int, PATH_COUNT as int);
    unpaired_paths_are_separate(configured_components(wire));
}

proof fn all_usable(texts: Seq<Seq<char>>, from: int, to: int)
    requires
        unusable_from(texts, from, to) is None,
    ensures
        forall|i: int| from <= i < to ==> is_usable_path(#[trigger] texts[i]),
    decreases to - from,
{
    if from < to {
        all_usable(texts, from + 1, to);
    }
}

} // verus!
