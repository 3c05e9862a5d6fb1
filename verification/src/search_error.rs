//! Failures of derived search indexes.
use crate::ids::{ulid_text, DocumentId};
use crate::read_error::{read_message, CommittedReadError, ReadFailure};
use crate::text::{decimal, decimal_text, join2, join3, join4, join5};
use vstd::prelude::*;
use vstd::string::*;

verus! {

/// Failure while building or querying a Tantivy-derived search index.
#[allow(inconsistent_fields)]
#[derive(Debug)]
pub enum TantivySearchError<T = String, C = CommittedReadError> {
    /// Reading the exact committed Markdown snapshot failed.
    Committed(C),
    /// Tantivy failed to build, commit, read, or query its index.
    Engine(T),
    /// Filesystem I/O for a persistent index failed.
    Io(T),
    /// The persistent index manifest was absent, malformed, or unsupported.
    InvalidDiskManifest,
    /// The persistent Tantivy schema did not match this software release.
    DiskSchemaMismatch,
    /// The manifest commit did not match Tantivy's own commit payload.
    DiskCommitMismatch,
    /// The persistent manifest and Tantivy index reported different sizes.
    DiskDocumentCountMismatch {
        /// Document count recorded after the index build.
        manifest: u64,
        /// Live documents observed after reopening Tantivy.
        index: u64,
    },
    /// The user-facing Tantivy query syntax was invalid.
    Query(T),
    /// The query was empty after trimming.
    EmptyQuery,
    /// The query exceeded the configured character bound.
    QueryTooLong {
        /// Maximum accepted Unicode scalar values.
        maximum: usize,
        /// Supplied Unicode scalar values.
        actual: usize,
    },
    /// The requested result limit was zero.
    InvalidResultLimit,
    /// The index and supplied snapshot represent different commits.
    SnapshotCommitMismatch {
        /// Commit represented by the index.
        index: T,
        /// Commit represented by the supplied snapshot.
        snapshot: T,
    },
    /// One hit did not contain its required stored document identity.
    MissingDocumentId,
    /// One hit contained a malformed stored document identity.
    InvalidDocumentId,
    /// One valid stored identity was absent from the matching snapshot.
    UnknownDocumentId {
        /// Identity missing from the committed snapshot.
        document_id: DocumentId,
    },
}

/// A failure with its texts as sequences.
pub type SearchFailure = TantivySearchError<Seq<char>, ReadFailure>;

impl View for TantivySearchError {
    type V = SearchFailure;

    open spec fn view(&self) -> SearchFailure {
        match *self {
            TantivySearchError::Committed(source) => TantivySearchError::Committed(source@),
            TantivySearchError::Engine(reason) => TantivySearchError::Engine(reason@),
            TantivySearchError::Io(reason) => TantivySearchError::Io(reason@),
            TantivySearchError::InvalidDiskManifest => TantivySearchError::InvalidDiskManifest,
            TantivySearchError::DiskSchemaMismatch => TantivySearchError::DiskSchemaMismatch,
            TantivySearchError::DiskCommitMismatch => TantivySearchError::DiskCommitMismatch,
            TantivySearchError::DiskDocumentCountMismatch { manifest, index } => TantivySearchError::DiskDocumentCountMismatch { manifest, index },
            TantivySearchError::Query(reason) => TantivySearchError::Query(reason@),
            TantivySearchError::EmptyQuery => TantivySearchError::EmptyQuery,
            TantivySearchError::QueryTooLong { maximum, actual } => TantivySearchError::QueryTooLong { maximum, actual },
            TantivySearchError::InvalidResultLimit => TantivySearchError::InvalidResultLimit,
            TantivySearchError::SnapshotCommitMismatch { index, snapshot } => TantivySearchError::SnapshotCommitMismatch { index: index@, snapshot: snapshot@ },
            TantivySearchError::MissingDocumentId => TantivySearchError::MissingDocumentId,
            TantivySearchError::InvalidDocumentId => TantivySearchError::InvalidDocumentId,
            TantivySearchError::UnknownDocumentId { document_id } => TantivySearchError::UnknownDocumentId { document_id },
        }
    }
}

/// What a failure is reported as.
pub open spec fn search_message(failure: SearchFailure) -> Seq<char> {
    match failure {
        TantivySearchError::Committed(source) => "committed search input failed: "@ + read_message(source),
        TantivySearchError::Engine(reason) => "Tantivy search index failed: "@ + reason,
        TantivySearchError::Io(reason) => "persistent search index I/O failed: "@ + reason,
        TantivySearchError::InvalidDiskManifest => "persistent search index manifest is invalid"@,
        TantivySearchError::DiskSchemaMismatch => "persistent search index schema is incompatible"@,
        TantivySearchError::DiskCommitMismatch => "persistent search index commit binding is inconsistent"@,
        TantivySearchError::DiskDocumentCountMismatch { manifest, index } => "persistent search index has "@ + decimal(index as nat) + " documents; manifest records "@ + decimal(manifest as nat),
        TantivySearchError::Query(reason) => "search query is invalid: "@ + reason,
        TantivySearchError::EmptyQuery => "search query must not be empty"@,
        TantivySearchError::QueryTooLong { maximum, actual } => "search query has "@ + decimal(actual as nat) + " characters; maximum is "@ + decimal(maximum as nat),
        TantivySearchError::InvalidResultLimit => "maximum results must be positive"@,
        TantivySearchError::SnapshotCommitMismatch { index, snapshot } => "search index commit `"@ + index + "` does not match snapshot commit `"@ + snapshot + "`"@,
        TantivySearchError::MissingDocumentId => "search hit has no stored document identity"@,
        TantivySearchError::InvalidDocumentId => "search hit has an invalid stored document identity"@,
        TantivySearchError::UnknownDocumentId { document_id } => "search hit document `"@ + ulid_text(document_id.value) + "` is absent from the committed snapshot"@,
    }
}

impl TantivySearchError {
    /// What the failure is reported as.
    pub fn message(&self) -> (text: String)
        ensures
            text@ == search_message(self@),
    {
        let text = match self {
            TantivySearchError::Committed(source) => join2("committed search input failed: ", source.message().as_str()),
            TantivySearchError::Engine(reason) => join2("Tantivy search index failed: ", reason.as_str()),
            TantivySearchError::Io(reason) => join2("persistent search index I/O failed: ", reason.as_str()),
            TantivySearchError::InvalidDiskManifest => "persistent search index manifest is invalid".to_owned(),
            TantivySearchError::DiskSchemaMismatch => "persistent search index schema is incompatible".to_owned(),
            TantivySearchError::DiskCommitMismatch => "persistent search index commit binding is inconsistent".to_owned(),
            TantivySearchError::DiskDocumentCountMismatch { manifest, index } => join4("persistent search index has ", decimal_text(*index).as_str(), " documents; manifest records ", decimal_text(*manifest).as_str()),
            TantivySearchError::Query(reason) => join2("search query is invalid: ", reason.as_str()),
            TantivySearchError::EmptyQuery => "search query must not be empty".to_owned(),
            TantivySearchError::QueryTooLong { maximum, actual } => join4("search query has ", decimal_text(*actual as u64).as_str(), " characters; maximum is ", decimal_text(*maximum as u64).as_str()),
            TantivySearchError::InvalidResultLimit => "maximum results must be positive".to_owned(),
            TantivySearchError::SnapshotCommitMismatch { index, snapshot } => join5("search index commit `", index.as_str(), "` does not match snapshot commit `", snapshot.as_str(), "`"),
            TantivySearchError::MissingDocumentId => "search hit has no stored document identity".to_owned(),
            TantivySearchError::InvalidDocumentId => "search hit has an invalid stored document identity".to_owned(),
            TantivySearchError::UnknownDocumentId { document_id } => join3("search hit document `", document_id.text().as_str(), "` is absent from the committed snapshot"),
        };
        assert(text@ =~= search_message(self@));
        text
    }
}

/// Failure while preparing, selecting, or validating derived search indexes.
#[allow(inconsistent_fields)]
#[derive(Debug)]
pub enum SearchIndexStoreError<T = String, S = TantivySearchError> {
    /// Filesystem I/O failed.
    Io(T),
    /// A pinned path operation failed.
    Pinned(T),
    /// A pinned storage identity or mount binding changed.
    Attestation(T),
    /// Tantivy index construction or validation failed.
    Search(S),
    /// Another writer owns this search index store.
    Busy,
    /// A fixed storage path was not a real directory.
    InvalidStorage,
    /// Staging and immutable generations are on different filesystems.
    CrossFilesystemStorage,
    /// A generation identifier was malformed or disagreed with its index.
    InvalidGeneration,
    /// The index payload disagreed with the expected committed snapshot.
    GenerationCommitMismatch,
    /// `current` was not the expected relative generation symlink.
    InvalidCurrentEntry,
    /// Selection completed but did not resolve to the requested generation.
    ActivationConflict,
    /// Atomic symbolic-link replacement is unavailable on this platform.
    UnsupportedPlatform,
}

/// A failure with its texts as sequences.
pub type StoreFailure = SearchIndexStoreError<Seq<char>, SearchFailure>;

impl View for SearchIndexStoreError {
    type V = StoreFailure;

    open spec fn view(&self) -> StoreFailure {
        match *self {
            SearchIndexStoreError::Io(reason) => SearchIndexStoreError::Io(reason@),
            SearchIndexStoreError::Pinned(reason) => SearchIndexStoreError::Pinned(reason@),
            SearchIndexStoreError::Attestation(reason) => SearchIndexStoreError::Attestation(reason@),
            SearchIndexStoreError::Search(source) => SearchIndexStoreError::Search(source@),
            SearchIndexStoreError::Busy => SearchIndexStoreError::Busy,
            SearchIndexStoreError::InvalidStorage => SearchIndexStoreError::InvalidStorage,
            SearchIndexStoreError::CrossFilesystemStorage => SearchIndexStoreError::CrossFilesystemStorage,
            SearchIndexStoreError::InvalidGeneration => SearchIndexStoreError::InvalidGeneration,
            SearchIndexStoreError::GenerationCommitMismatch => SearchIndexStoreError::GenerationCommitMismatch,
            SearchIndexStoreError::InvalidCurrentEntry => SearchIndexStoreError::InvalidCurrentEntry,
            SearchIndexStoreError::ActivationConflict => SearchIndexStoreError::ActivationConflict,
            SearchIndexStoreError::UnsupportedPlatform => SearchIndexStoreError::UnsupportedPlatform,
        }
    }
}

/// What a failure is reported as.
pub open spec fn store_message(failure: StoreFailure) -> Seq<char> {
    match failure {
        SearchIndexStoreError::Io(reason) => "search index storage I/O failed: "@ + reason,
        SearchIndexStoreError::Pinned(reason) => "search index storage pin failed: "@ + reason,
        SearchIndexStoreError::Attestation(reason) => "search index storage binding changed: "@ + reason,
        SearchIndexStoreError::Search(source) => "search index validation failed: "@ + search_message(source),
        SearchIndexStoreError::Busy => "search index storage is busy"@,
        SearchIndexStoreError::InvalidStorage => "search index storage layout is invalid"@,
        SearchIndexStoreError::CrossFilesystemStorage => "search index storage spans multiple filesystems"@,
        SearchIndexStoreError::InvalidGeneration => "search index generation identifier is invalid"@,
        SearchIndexStoreError::GenerationCommitMismatch => "search index generation commit is inconsistent"@,
        SearchIndexStoreError::InvalidCurrentEntry => "search index current entry is invalid"@,
        SearchIndexStoreError::ActivationConflict => "search index activation did not select its generation"@,
        SearchIndexStoreError::UnsupportedPlatform => "search index activation is unsupported on this platform"@,
    }
}

impl SearchIndexStoreError {
    /// What the failure is reported as.
    pub fn message(&self) -> (text: String)
        ensures
            text@ == store_message(self@),
    {
        let text = match self {
            SearchIndexStoreError::Io(reason) => join2("search index storage I/O failed: ", reason.as_str()),
            SearchIndexStoreError::Pinned(reason) => join2("search index storage pin failed: ", reason.as_str()),
            SearchIndexStoreError::Attestation(reason) => join2("search index storage binding changed: ", reason.as_str()),
            SearchIndexStoreError::Search(source) => join2("search index validation failed: ", source.message().as_str()),
            SearchIndexStoreError::Busy => "search index storage is busy".to_owned(),
            SearchIndexStoreError::InvalidStorage => "search index storage layout is invalid".to_owned(),
            SearchIndexStoreError::CrossFilesystemStorage => "search index storage spans multiple filesystems".to_owned(),
            SearchIndexStoreError::InvalidGeneration => "search index generation identifier is invalid".to_owned(),
            SearchIndexStoreError::GenerationCommitMismatch => "search index generation commit is inconsistent".to_owned(),
            SearchIndexStoreError::InvalidCurrentEntry => "search index current entry is invalid".to_owned(),
            SearchIndexStoreError::ActivationConflict => "search index activation did not select its generation".to_owned(),
            SearchIndexStoreError::UnsupportedPlatform => "search index activation is unsupported on this platform".to_owned(),
        };
        assert(text@ =~= store_message(self@));
        text
    }
}

} // verus!
