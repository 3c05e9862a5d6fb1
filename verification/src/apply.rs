//! Planning: what one complete request changes in a content tree, decided before anything changes.
use crate::clock::Timestamp;
use crate::document::{
    archive_document_path, archive_path, bundle_path, copy_optional, create_document_path,
    document_path, moved_part, same_optional, DocumentLocation, DocumentMetadata, DocumentStatus,
    DocumentType,
};
use crate::fields::first_match;
use crate::ids::{
    revision, revision_of, revision_text, ulid_text, DocumentId, RequestId, Revision,
    SessionId,
};
use crate::index::{
    index_message, lookup, ContentIndex, ContentIndexError, ContentPolicy, DecodedDocument,
    FileRead, IndexFailure,
};
use crate::markdown::{body_of, frame, framed, markdown_body};
use crate::path::{holds_path, joined, optional_text, path_views, same_texts, slashed, ContentPath};
use crate::text::{copy_bytes, join2, join3, join4, join7, same_text};
use std::collections::HashMap;
use vstd::prelude::*;
use vstd::string::*;
use vstd::utf8::encode_utf8;

verus! {

broadcast use vstd::std_specs::hash::group_hash_axioms;

/// A path as the sequence of its component names.
pub type PathView = Seq<Seq<char>>;

/// Metadata with its texts as sequences.
pub type MetadataView = DocumentMetadata<Seq<char>, Seq<Seq<char>>>;

/// One change that a request asks for.
#[allow(inconsistent_fields)]
#[derive(Debug)]
pub enum Operation<T = String> {
    /// Creates a document from a payload file.
    CreateDocument {
        /// Identity of the new document.
        document_id: DocumentId,
        /// Payload path of the Markdown.
        content: T,
    },
    /// Replaces the Markdown of a document by a payload file.
    UpdateDocument {
        /// Identity of the document.
        document_id: DocumentId,
        /// Revision that the client has seen.
        expected_revision: Revision,
        /// Payload path of the Markdown.
        content: T,
    },
    /// Moves a document to another classification.
    MoveDocument {
        /// Identity of the document.
        document_id: DocumentId,
        /// Revision that the client has seen.
        expected_revision: Revision,
        /// Destination project, if any.
        project: Option<T>,
        /// Destination kind.
        document_type: DocumentType,
    },
    /// Moves a document to the archive.
    ArchiveDocument {
        /// Identity of the document.
        document_id: DocumentId,
        /// Revision that the client has seen.
        expected_revision: Revision,
    },
    /// Adds a payload file beside a document.
    AddAttachment {
        /// Identity of the document.
        document_id: DocumentId,
        /// Payload path of the attachment.
        source: T,
        /// Name of the attachment.
        name: T,
    },
}

/// A payload file as it was validated.
#[derive(Debug)]
pub struct PayloadFile {
    /// Path below the payload directory.
    pub path: String,
    /// Length in bytes.
    pub byte_length: u64,
    /// Revision of the exact bytes.
    pub revision: Revision,
}

/// One validated change request.
#[derive(Debug)]
pub struct ChangeRequest {
    /// Identity of the request.
    pub request_id: RequestId,
    /// Project of the request, if any.
    pub project: Option<String>,
    /// Kind of documents that the request changes.
    pub document_type: DocumentType,
    /// Time at which the client made the request.
    pub created_at: Timestamp,
    /// Time at which the queue accepted the request, if it did.
    pub accepted_at: Option<Timestamp>,
    /// The changes, in order.
    pub operations: Vec<Operation>,
    /// The payload files.
    pub payload: Vec<PayloadFile>,
}

impl ChangeRequest {
    /// The time at which the changes take place: the acceptance, or else the creation.
    pub open spec fn time(self) -> Timestamp {
        match self.accepted_at {
            Some(accepted) => accepted,
            None => self.created_at,
        }
    }

    /// The time at which the changes take place.
    pub fn operation_time(&self) -> (result: Timestamp)
        ensures
            result == self.time(),
    {
        match self.accepted_at {
            Some(accepted) => accepted,
            None => self.created_at,
        }
    }
}

/// What was seen at a destination.
#[derive(Debug)]
pub enum Probe {
    /// Nothing stands there.
    Absent,
    /// Something stands there.
    Present,
    /// Looking failed, for the given reason.
    Failed(String),
}

/// What encoding metadata gave.
#[derive(Debug)]
pub enum Encoding {
    /// The encoded front matter.
    Encoded(String),
    /// Encoding failed, for the given reason.
    Failed(String),
}

/// What reading one payload file gave.
#[derive(Debug)]
pub struct PayloadRead {
    /// Payload path.
    pub path: String,
    /// What reading gave.
    pub read: FileRead,
}

/// What reading one canonical document gave.
#[derive(Debug)]
pub struct DocumentRead {
    /// Path relative to the content root.
    pub path: ContentPath,
    /// What reading gave.
    pub read: FileRead,
}

/// What looking at one destination gave.
#[derive(Debug)]
pub struct DestinationProbe {
    /// Path relative to the content root.
    pub path: ContentPath,
    /// What was seen.
    pub probe: Probe,
}

/// What decoding the front matter of exact bytes gave.
#[derive(Debug)]
pub struct Decoding {
    /// The bytes.
    pub bytes: Vec<u8>,
    /// What decoding gave.
    pub decoded: DecodedDocument,
}

/// What encoding exact metadata gave.
#[derive(Debug)]
pub struct MetadataEncoding {
    /// The metadata.
    pub metadata: DocumentMetadata,
    /// What encoding gave.
    pub encoding: Encoding,
}

/// What has been observed so far. Of several observations of one thing the first counts.
#[derive(Debug)]
pub struct Facts {
    /// Payload files that were read.
    pub payload: Vec<PayloadRead>,
    /// Canonical documents that were read.
    pub documents: Vec<DocumentRead>,
    /// Destinations that were looked at.
    pub destinations: Vec<DestinationProbe>,
    /// Front matter that was decoded.
    pub decodings: Vec<Decoding>,
    /// Metadata that was encoded.
    pub encodings: Vec<MetadataEncoding>,
}

/// An observation that planning cannot go on without.
#[derive(Debug)]
pub enum Need<P = ContentPath, T = String, B = Vec<u8>, M = DocumentMetadata> {
    /// Read a payload file, up to one byte past its validated length.
    Payload(T),
    /// Read a canonical document, up to one byte past the Markdown limit.
    Document(P),
    /// Look whether something stands at a destination.
    Destination(P),
    /// Decode the front matter of these bytes.
    Decoding(B),
    /// Encode this metadata.
    Encoding(M),
}

/// A need with its texts as sequences.
pub type NeedView = Need<PathView, Seq<char>, Seq<u8>, MetadataView>;

impl View for Need {
    type V = NeedView;

    open spec fn view(&self) -> NeedView {
        match *self {
            Need::Payload(path) => Need::Payload(path@),
            Need::Document(path) => Need::Document(path@),
            Need::Destination(path) => Need::Destination(path@),
            Need::Decoding(bytes) => Need::Decoding(bytes@),
            Need::Encoding(metadata) => Need::Encoding(metadata@),
        }
    }
}

/// A deterministic request-application or transient filesystem failure.
#[allow(inconsistent_fields)]
#[derive(Debug)]
pub enum ApplyError<P = ContentPath, T = String, I = ContentIndexError, D = &'static str> {
    /// The client request time was later than its durable queue acceptance.
    RequestCreatedAfterAcceptance,
    /// The base content tree was invalid.
    ContentIndex(I),
    /// The resulting content tree was invalid.
    ResultingContent(I),
    /// A requested document did not exist.
    DocumentNotFound {
        /// Missing identity.
        document_id: DocumentId,
    },
    /// A created document identity already existed.
    DocumentIdConflict {
        /// Conflicting identity.
        document_id: DocumentId,
    },
    /// An optimistic revision precondition failed.
    RevisionConflict {
        /// Conflicting identity.
        document_id: DocumentId,
        /// Client-supplied revision.
        expected: Revision,
        /// Current content revision.
        actual: Revision,
    },
    /// An operation violated document type or lifecycle policy.
    OperationForbidden {
        /// Affected identity.
        document_id: DocumentId,
        /// Stable implementation detail.
        detail: D,
    },
    /// A derived document or attachment destination already existed.
    DestinationExists {
        /// Conflicting relative content path.
        path: P,
    },
    /// A referenced Markdown payload could not be decoded.
    InvalidPayloadDocument {
        /// Payload-relative path.
        path: T,
        /// Decode failure.
        source: T,
    },
    /// A referenced Markdown payload had invalid shared metadata.
    InvalidPayloadMetadata {
        /// Payload-relative path.
        path: T,
        /// Validation failure.
        source: T,
    },
    /// The accepted package no longer matched its claim-time validation.
    ClaimPackageChanged,
    /// Canonical content changed after the base index was built.
    ContentChangedDuringApply,
    /// Worker-generated front matter could not be encoded.
    MetadataEncoding(T),
    /// Live accepted-package revalidation failed.
    PackageValidation(T),
    /// A filesystem operation failed.
    Io(T),
}

/// A failure with its texts as sequences.
pub type ApplyFailure = ApplyError<PathView, Seq<char>, IndexFailure, Seq<char>>;

impl View for ApplyError {
    type V = ApplyFailure;

    open spec fn view(&self) -> ApplyFailure {
        match *self {
            ApplyError::RequestCreatedAfterAcceptance => ApplyError::RequestCreatedAfterAcceptance,
            ApplyError::ContentIndex(error) => ApplyError::ContentIndex(error@),
            ApplyError::ResultingContent(error) => ApplyError::ResultingContent(error@),
            ApplyError::DocumentNotFound { document_id } => ApplyError::DocumentNotFound {
                document_id,
            },
            ApplyError::DocumentIdConflict { document_id } => ApplyError::DocumentIdConflict {
                document_id,
            },
            ApplyError::RevisionConflict { document_id, expected, actual } =>
                ApplyError::RevisionConflict { document_id, expected, actual },
            ApplyError::OperationForbidden { document_id, detail } =>
                ApplyError::OperationForbidden { document_id, detail: detail@ },
            ApplyError::DestinationExists { path } => ApplyError::DestinationExists { path: path@ },
            ApplyError::InvalidPayloadDocument { path, source } =>
                ApplyError::InvalidPayloadDocument { path: path@, source: source@ },
            ApplyError::InvalidPayloadMetadata { path, source } =>
                ApplyError::InvalidPayloadMetadata { path: path@, source: source@ },
            ApplyError::ClaimPackageChanged => ApplyError::ClaimPackageChanged,
            ApplyError::ContentChangedDuringApply => ApplyError::ContentChangedDuringApply,
            ApplyError::MetadataEncoding(source) => ApplyError::MetadataEncoding(source@),
            ApplyError::PackageValidation(source) => ApplyError::PackageValidation(source@),
            ApplyError::Io(source) => ApplyError::Io(source@),
        }
    }
}

/// Why planning stops.
#[derive(Debug)]
pub enum Halt<N = Need, E = ApplyError> {
    /// An observation is missing; planning starts anew once it is made.
    Needs(N),
    /// The request cannot be applied.
    Failed(E),
}

/// A halt with its texts as sequences.
pub type HaltView = Halt<NeedView, ApplyFailure>;

impl View for Halt {
    type V = HaltView;

    open spec fn view(&self) -> HaltView {
        match *self {
            Halt::Needs(need) => Halt::Needs(need@),
            Halt::Failed(error) => Halt::Failed(error@),
        }
    }
}

/// One change to a content tree.
#[allow(inconsistent_fields)]
#[derive(Debug)]
pub enum PlannedMutation<P = ContentPath, B = Vec<u8>> {
    /// Writes a file that must not exist.
    WriteNew {
        /// Path relative to the content root.
        relative_path: P,
        /// The bytes.
        bytes: B,
    },
    /// Replaces the bytes of a file.
    Replace {
        /// Path relative to the content root.
        relative_path: P,
        /// The bytes.
        bytes: B,
    },
    /// Moves a file or directory.
    Move {
        /// Source path relative to the content root.
        source: P,
        /// Destination path relative to the content root.
        destination: P,
    },
}

/// A change with its path and bytes as sequences.
pub type MutationView = PlannedMutation<PathView, Seq<u8>>;

impl View for PlannedMutation {
    type V = MutationView;

    open spec fn view(&self) -> MutationView {
        match *self {
            PlannedMutation::WriteNew { relative_path, bytes } => PlannedMutation::WriteNew {
                relative_path: relative_path@,
                bytes: bytes@,
            },
            PlannedMutation::Replace { relative_path, bytes } => PlannedMutation::Replace {
                relative_path: relative_path@,
                bytes: bytes@,
            },
            PlannedMutation::Move { source, destination } => PlannedMutation::Move {
                source: source@,
                destination: destination@,
            },
        }
    }
}

/// The changes of a list, with their paths and bytes as sequences.
pub open spec fn mutation_views(plan: Seq<PlannedMutation>) -> Seq<MutationView> {
    plan.map_values(|mutation: PlannedMutation| mutation@)
}

/// A document as it stands at some point of a plan.
#[derive(Debug)]
pub struct VirtualDocument<P = ContentPath, L = DocumentLocation, B = Vec<u8>> {
    /// Path relative to the content root.
    pub relative_path: P,
    /// Classification.
    pub location: L,
    /// Creation time.
    pub created: Timestamp,
    /// Last update, if any.
    pub updated: Option<Timestamp>,
    /// Lifecycle status.
    pub status: DocumentStatus,
    /// Revision of the Markdown.
    pub revision: Revision,
    /// The Markdown.
    pub markdown: B,
}

/// A virtual document with its texts as sequences.
pub type VirtualView = VirtualDocument<PathView, DocumentLocation<Seq<char>>, Seq<u8>>;

impl View for VirtualDocument {
    type V = VirtualView;

    open spec fn view(&self) -> VirtualView {
        VirtualDocument {
            relative_path: self.relative_path@,
            location: self.location@,
            created: self.created,
            updated: self.updated,
            status: self.status,
            revision: self.revision,
            markdown: self.markdown@,
        }
    }
}

impl Clone for VirtualDocument {
    fn clone(&self) -> (copy: Self)
        ensures
            copy@ == self@,
    {
        VirtualDocument {
            relative_path: self.relative_path.clone(),
            location: self.location.clone(),
            created: self.created,
            updated: self.updated,
            status: self.status,
            revision: self.revision,
            markdown: copy_bytes(&self.markdown),
        }
    }
}

/// Whether two optional times are written alike.
fn same_moment(left: &Option<Timestamp>, right: &Option<Timestamp>) -> (same: bool)
    ensures
        same == (*left == *right),
{
    match (left, right) {
        (Some(a), Some(b)) => *a == *b,
        (None, None) => true,
        _ => false,
    }
}

/// Whether two optional session identities are the same.
pub fn same_session(left: &Option<SessionId>, right: &Option<SessionId>) -> (same: bool)
    ensures
        same == (*left == *right),
{
    match (left, right) {
        (Some(a), Some(b)) => *a == *b,
        (None, None) => true,
        _ => false,
    }
}

/// Whether two metadata values agree in every field.
pub fn same_metadata(left: &DocumentMetadata, right: &DocumentMetadata) -> (same: bool)
    ensures
        same == (left@ == right@),
{
    left.schema_version == right.schema_version && left.document_id == right.document_id
        && same_text(left.title.as_str(), right.title.as_str()) && left.created == right.created
        && same_moment(&left.updated, &right.updated) && same_optional(&left.node, &right.node)
        && same_optional(&left.agent, &right.agent) && same_session(&left.session, &right.session)
        && left.request_id == right.request_id && same_texts(&left.tags, &right.tags)
        && left.status == right.status
}

/// The refusal of an operation on a document.
pub open spec fn forbidden(document_id: DocumentId, detail: Seq<char>) -> HaltView {
    Halt::Failed(ApplyError::OperationForbidden { document_id, detail })
}

/// The bytes of a payload file. They must be those that were validated.
pub open spec fn payload_bytes(request: ChangeRequest, facts: Facts, path: Seq<char>) -> Result<
    Seq<u8>,
    HaltView,
> {
    match first_match(request.payload@, |file: PayloadFile| file.path@ == path, 0) {
        None => Err(Halt::Failed(ApplyError::ClaimPackageChanged)),
        Some(validated) => match first_match(
            facts.payload@,
            |read: PayloadRead| read.path@ == path,
            0,
        ) {
            None => Err(Halt::Needs(Need::Payload(path))),
            Some(at) => match facts.payload@[at].read {
                FileRead::Failed(reason) => Err(Halt::Failed(ApplyError::Io(reason@))),
                FileRead::Bytes(bytes) => if bytes@.len()
                    != request.payload@[validated].byte_length || revision_of(bytes@)
                    != request.payload@[validated].revision {
                    Err(Halt::Failed(ApplyError::ClaimPackageChanged))
                } else {
                    Ok(bytes@)
                },
            },
        },
    }
}

/// What decoding the front matter of exact bytes gave.
pub open spec fn decoding(facts: Facts, bytes: Seq<u8>) -> Result<DecodedDocument, HaltView> {
    match first_match(facts.decodings@, |decoding: Decoding| decoding.bytes@ == bytes, 0) {
        None => Err(Halt::Needs(Need::Decoding(bytes))),
        Some(at) => Ok(facts.decodings@[at].decoded),
    }
}

/// The metadata of a Markdown payload, which must be valid.
pub open spec fn payload_metadata(facts: Facts, bytes: Seq<u8>, path: Seq<char>) -> Result<
    MetadataView,
    HaltView,
> {
    match decoding(facts, bytes) {
        Err(halt) => Err(halt),
        Ok(DecodedDocument::Malformed(source)) => Err(
            Halt::Failed(ApplyError::InvalidPayloadDocument { path, source: source@ }),
        ),
        Ok(DecodedDocument::Decoded { metadata, common_violation, violations: _ }) =>
            match common_violation {
                Some(source) => Err(
                    Halt::Failed(ApplyError::InvalidPayloadMetadata { path, source: source@ }),
                ),
                None => Ok(metadata@),
            },
    }
}

/// The Markdown of a canonical document, which must be that of the index.
pub open spec fn canonical_markdown(
    facts: Facts,
    path: PathView,
    maximum: u64,
    expected: Revision,
) -> Result<Seq<u8>, HaltView> {
    match first_match(facts.documents@, |read: DocumentRead| read.path@ == path, 0) {
        None => Err(Halt::Needs(Need::Document(path))),
        Some(at) => match facts.documents@[at].read {
            FileRead::Failed(reason) => Err(Halt::Failed(ApplyError::Io(reason@))),
            FileRead::Bytes(bytes) => if bytes@.len() > maximum || revision_of(bytes@)
                != expected {
                Err(Halt::Failed(ApplyError::ContentChangedDuringApply))
            } else {
                Ok(bytes@)
            },
        },
    }
}

/// The destinations of a plan with one more, which must be new to the plan and to the tree.
pub open spec fn reserved(facts: Facts, destinations: Seq<PathView>, path: PathView) -> Result<
    Seq<PathView>,
    HaltView,
> {
    if destinations.contains(path) {
        Err(Halt::Failed(ApplyError::DestinationExists { path }))
    } else {
        match first_match(facts.destinations@, |probe: DestinationProbe| probe.path@ == path, 0) {
            None => Err(Halt::Needs(Need::Destination(path))),
            Some(at) => match facts.destinations@[at].probe {
                Probe::Absent => Ok(destinations.push(path)),
                Probe::Present => Err(Halt::Failed(ApplyError::DestinationExists { path })),
                Probe::Failed(reason) => Err(Halt::Failed(ApplyError::Io(reason@))),
            },
        }
    }
}

/// The metadata of a document once it is archived.
pub open spec fn archived_metadata(
    metadata: MetadataView,
    request_id: RequestId,
    archived_at: Timestamp,
) -> MetadataView {
    DocumentMetadata {
        updated: Some(archived_at),
        request_id,
        status: DocumentStatus::Archived,
        ..metadata
    }
}

/// Selects the encoding of exact metadata.
pub open spec fn encodes(metadata: MetadataView) -> spec_fn(MetadataEncoding) -> bool {
    |encoding: MetadataEncoding| encoding.metadata@ == metadata
}

/// The Markdown of a document once it is archived: new front matter before the same body. The
/// archive time must follow the last change.
pub open spec fn archived_bytes(
    facts: Facts,
    bytes: Seq<u8>,
    maximum: u64,
    request_id: RequestId,
    archived_at: Timestamp,
) -> Result<Seq<u8>, HaltView> {
    let changed = Err(Halt::Failed(ApplyError::ContentChangedDuringApply));
    if bytes.len() > maximum {
        changed
    } else {
        match decoding(facts, bytes) {
            Err(halt) => Err(halt),
            Ok(DecodedDocument::Malformed(_)) => changed,
            Ok(DecodedDocument::Decoded { metadata, common_violation: _, violations: _ }) =>
                if archived_at.instant() <= metadata@.last_change().instant() {
                    Err(
                        forbidden(
                            metadata.document_id,
                            "archive time must follow the previous document update"@,
                        ),
                    )
                } else {
                    let replaced = archived_metadata(metadata@, request_id, archived_at);
                    match body_of(bytes) {
                        None => changed,
                        Some(body) => match first_match(
                            facts.encodings@,
                            encodes(replaced),
                            0,
                        ) {
                            None => Err(Halt::Needs(Need::Encoding(replaced))),
                            Some(at) => match facts.encodings@[at].encoding {
                                Encoding::Failed(reason) => Err(
                                    Halt::Failed(ApplyError::MetadataEncoding(reason@)),
                                ),
                                Encoding::Encoded(text) => Ok(
                                    framed(encode_utf8(text@), body),
                                ),
                            },
                        },
                    }
                },
        }
    }
}

/// A plan under construction.
pub struct Draft {
    /// The changes so far.
    pub plan: Seq<MutationView>,
    /// The documents that the plan has touched, as they stand.
    pub documents: Map<u128, VirtualView>,
    /// The destinations that the plan has taken.
    pub destinations: Seq<PathView>,
}

/// What planning one request goes by.
#[derive(Clone, Copy)]
pub struct Setting<'a> {
    /// The request.
    pub request: &'a ChangeRequest,
    /// The index of the base content.
    pub index: &'a ContentIndex,
    /// Limits on the content.
    pub policy: &'a ContentPolicy,
    /// What has been observed.
    pub facts: &'a Facts,
}

/// A document as it stands: as the plan left it, or else as the index has it.
pub open spec fn resolved(draft: Draft, setting: Setting, document_id: DocumentId) -> Result<
    VirtualView,
    HaltView,
> {
    if draft.documents.contains_key(document_id.value) {
        Ok(draft.documents[document_id.value])
    } else {
        match lookup(setting.index@, document_id) {
            None => Err(Halt::Failed(ApplyError::DocumentNotFound { document_id })),
            Some(record) => match canonical_markdown(
                *setting.facts,
                record.relative_path,
                setting.policy.maximum_markdown_bytes,
                record.revision,
            ) {
                Err(halt) => Err(halt),
                Ok(markdown) => Ok(
                    VirtualDocument {
                        relative_path: record.relative_path,
                        location: record.location,
                        created: record.metadata.created,
                        updated: record.metadata.updated,
                        status: record.metadata.status,
                        revision: record.revision,
                        markdown,
                    },
                ),
            },
        }
    }
}

/// A document as it stands, which must have the revision that the client has seen.
pub open spec fn unchanged(
    draft: Draft,
    setting: Setting,
    document_id: DocumentId,
    expected: Revision,
) -> Result<VirtualView, HaltView> {
    match resolved(draft, setting, document_id) {
        Err(halt) => Err(halt),
        Ok(document) => if document.revision != expected {
            Err(
                Halt::Failed(
                    ApplyError::RevisionConflict {
                        document_id,
                        expected,
                        actual: document.revision,
                    },
                ),
            )
        } else {
            Ok(document)
        },
    }
}

/// Why the classification of a request does not allow it to change a document.
pub open spec fn classification_problem(document: VirtualView, request: ChangeRequest) -> Option<
    Seq<char>,
> {
    if document.location.document_type != request.document_type || document.location.project
        != optional_text(request.project) {
        Some("request classification differs from canonical content"@)
    } else {
        None
    }
}

/// Why a request may not change anything of a document.
pub open spec fn access_problem(document: VirtualView, request: ChangeRequest) -> Option<
    Seq<char>,
> {
    if document.location.archived {
        Some("archived documents cannot be modified"@)
    } else {
        classification_problem(document, request)
    }
}

/// Why a request may not replace the Markdown of a document.
pub open spec fn mutation_problem(document: VirtualView, request: ChangeRequest) -> Option<
    Seq<char>,
> {
    if access_problem(document, request) is Some {
        access_problem(document, request)
    } else if document.location.document_type == DocumentType::Log {
        Some("logs are append-only"@)
    } else if document.status != DocumentStatus::Active {
        Some("only active documents are mutable"@)
    } else {
        None
    }
}

/// Why a document may not be moved or archived.
pub open spec fn movement_problem(document: VirtualView) -> Option<Seq<char>> {
    if document.location.archived {
        Some("document is already archived"@)
    } else if document.location.document_type == DocumentType::Log
        || document.location.document_type == DocumentType::Index {
        Some("logs and index documents cannot be moved or archived"@)
    } else if document.status != DocumentStatus::Active {
        Some("only active documents can be moved or archived"@)
    } else {
        None
    }
}

/// Why new metadata may not replace that of a document.
pub open spec fn replacement_problem(
    document: VirtualView,
    metadata: MetadataView,
    time: Timestamp,
) -> Option<Seq<char>> {
    let previous = match document.updated {
        Some(updated) => updated,
        None => document.created,
    };
    if metadata.created.instant() != document.created.instant() {
        Some("document creation time is immutable"@)
    } else if metadata.status == DocumentStatus::Archived {
        Some("archive status requires an archive operation"@)
    } else {
        match metadata.updated {
            None => Some("updated documents require an update time"@),
            Some(updated) => if updated.instant() > time.instant() {
                Some("document update time cannot follow request acceptance"@)
            } else if updated.instant() <= previous.instant() {
                Some("document update time must increase"@)
            } else {
                None
            },
        }
    }
}

/// Why a document may not be created with the given metadata.
pub open spec fn creation_problem(metadata: MetadataView, time: Timestamp) -> Option<Seq<char>> {
    if metadata.created.instant() > time.instant() || (metadata.updated matches Some(updated)
        && updated.instant() > time.instant()) {
        Some("document timestamps cannot follow request acceptance"@)
    } else if metadata.status == DocumentStatus::Archived {
        Some("documents cannot be created with archived status"@)
    } else {
        None
    }
}

/// Why a document may not be moved to the given classification.
pub open spec fn destination_problem(
    request: ChangeRequest,
    project: Option<Seq<char>>,
    document_type: DocumentType,
) -> Option<Seq<char>> {
    if document_type != request.document_type || project != optional_text(request.project) {
        Some("move destination differs from request classification"@)
    } else if document_type == DocumentType::Log || document_type == DocumentType::Index {
        Some("documents cannot be moved into log or index classification"@)
    } else {
        None
    }
}

/// The plan after a document is created.
pub open spec fn after_create(
    draft: Draft,
    setting: Setting,
    document_id: DocumentId,
    content: Seq<char>,
) -> Result<Draft, HaltView> {
    let request = *setting.request;
    if draft.documents.contains_key(document_id.value) || lookup(
        setting.index@,
        document_id,
    ) is Some {
        Err(Halt::Failed(ApplyError::DocumentIdConflict { document_id }))
    } else {
        match payload_bytes(request, *setting.facts, content) {
            Err(halt) => Err(halt),
            Ok(bytes) => match payload_metadata(*setting.facts, bytes, content) {
                Err(halt) => Err(halt),
                Ok(metadata) => match creation_problem(metadata, request.time()) {
                    Some(detail) => Err(forbidden(document_id, detail)),
                    None => {
                        let location = DocumentLocation {
                            document_type: request.document_type,
                            project: optional_text(request.project),
                            archived: false,
                        };
                        let path = document_path(location, metadata.created, document_id);
                        match reserved(
                            *setting.facts,
                            draft.destinations,
                            moved_part(path, request.document_type),
                        ) {
                            Err(halt) => Err(halt),
                            Ok(destinations) => Ok(
                                Draft {
                                    plan: draft.plan.push(
                                        PlannedMutation::WriteNew { relative_path: path, bytes },
                                    ),
                                    documents: draft.documents.insert(
                                        document_id.value,
                                        VirtualDocument {
                                            relative_path: path,
                                            location,
                                            created: metadata.created,
                                            updated: metadata.updated,
                                            status: metadata.status,
                                            revision: revision_of(bytes),
                                            markdown: bytes,
                                        },
                                    ),
                                    destinations,
                                },
                            ),
                        }
                    },
                },
            },
        }
    }
}

/// The plan after the Markdown of a document is replaced.
pub open spec fn after_update(
    draft: Draft,
    setting: Setting,
    document_id: DocumentId,
    expected: Revision,
    content: Seq<char>,
) -> Result<Draft, HaltView> {
    let request = *setting.request;
    match unchanged(draft, setting, document_id, expected) {
        Err(halt) => Err(halt),
        Ok(document) => match mutation_problem(document, request) {
            Some(detail) => Err(forbidden(document_id, detail)),
            None => match payload_bytes(request, *setting.facts, content) {
                Err(halt) => Err(halt),
                Ok(bytes) => match payload_metadata(*setting.facts, bytes, content) {
                    Err(halt) => Err(halt),
                    Ok(metadata) => match replacement_problem(document, metadata, request.time()) {
                        Some(detail) => Err(forbidden(document_id, detail)),
                        None => Ok(
                            Draft {
                                plan: draft.plan.push(
                                    PlannedMutation::Replace {
                                        relative_path: document.relative_path,
                                        bytes,
                                    },
                                ),
                                documents: draft.documents.insert(
                                    document_id.value,
                                    VirtualDocument {
                                        status: metadata.status,
                                        updated: metadata.updated,
                                        revision: revision_of(bytes),
                                        markdown: bytes,
                                        ..document
                                    },
                                ),
                                ..draft
                            },
                        ),
                    },
                },
            },
        },
    }
}

/// The plan after a document is moved to another classification.
pub open spec fn after_move(
    draft: Draft,
    setting: Setting,
    document_id: DocumentId,
    expected: Revision,
    project: Option<Seq<char>>,
    document_type: DocumentType,
) -> Result<Draft, HaltView> {
    match destination_problem(*setting.request, project, document_type) {
        Some(detail) => Err(forbidden(document_id, detail)),
        None => match unchanged(draft, setting, document_id, expected) {
            Err(halt) => Err(halt),
            Ok(document) => match movement_problem(document) {
                Some(detail) => Err(forbidden(document_id, detail)),
                None => {
                    let location = DocumentLocation { document_type, project, archived: false };
                    let destination = document_path(location, document.created, document_id);
                    match reserved(
                        *setting.facts,
                        draft.destinations,
                        moved_part(destination, document_type),
                    ) {
                        Err(halt) => Err(halt),
                        Ok(destinations) => Ok(
                            Draft {
                                plan: draft.plan.push(
                                    PlannedMutation::Move {
                                        source: moved_part(
                                            document.relative_path,
                                            document.location.document_type,
                                        ),
                                        destination: moved_part(destination, document_type),
                                    },
                                ),
                                documents: draft.documents.insert(
                                    document_id.value,
                                    VirtualDocument {
                                        relative_path: destination,
                                        location,
                                        ..document
                                    },
                                ),
                                destinations,
                            },
                        ),
                    }
                },
            },
        },
    }
}

/// The plan after a document is archived.
pub open spec fn after_archive(
    draft: Draft,
    setting: Setting,
    document_id: DocumentId,
    expected: Revision,
) -> Result<Draft, HaltView> {
    let request = *setting.request;
    match unchanged(draft, setting, document_id, expected) {
        Err(halt) => Err(halt),
        Ok(document) => match classification_problem(document, request) {
            Some(detail) => Err(forbidden(document_id, detail)),
            None => match movement_problem(document) {
                Some(detail) => Err(forbidden(document_id, detail)),
                None => {
                    let document_type = document.location.document_type;
                    let destination = archive_path(
                        document.relative_path,
                        document.location,
                        document_id,
                    );
                    match reserved(
                        *setting.facts,
                        draft.destinations,
                        moved_part(destination, document_type),
                    ) {
                        Err(halt) => Err(halt),
                        Ok(destinations) => match archived_bytes(
                            *setting.facts,
                            document.markdown,
                            setting.policy.maximum_markdown_bytes,
                            request.request_id,
                            request.time(),
                        ) {
                            Err(halt) => Err(halt),
                            Ok(bytes) => Ok(
                                Draft {
                                    plan: draft.plan.push(
                                        PlannedMutation::Replace {
                                            relative_path: document.relative_path,
                                            bytes,
                                        },
                                    ).push(
                                        PlannedMutation::Move {
                                            source: moved_part(
                                                document.relative_path,
                                                document_type,
                                            ),
                                            destination: moved_part(destination, document_type),
                                        },
                                    ),
                                    documents: draft.documents.insert(
                                        document_id.value,
                                        VirtualDocument {
                                            relative_path: destination,
                                            location: DocumentLocation {
                                                archived: true,
                                                ..document.location
                                            },
                                            status: DocumentStatus::Archived,
                                            updated: Some(request.time()),
                                            revision: revision_of(bytes),
                                            markdown: bytes,
                                            ..document
                                        },
                                    ),
                                    destinations,
                                },
                            ),
                        },
                    }
                },
            },
        },
    }
}

/// The path of an attachment beside a document.
pub open spec fn attachment_path(document: PathView, name: Seq<char>) -> PathView {
    joined(
        if document.len() == 0 {
            document
        } else {
            document.drop_last()
        },
        name,
    )
}

/// The plan after an attachment is added beside a document.
pub open spec fn after_attachment(
    draft: Draft,
    setting: Setting,
    document_id: DocumentId,
    source: Seq<char>,
    name: Seq<char>,
) -> Result<Draft, HaltView> {
    let request = *setting.request;
    match resolved(draft, setting, document_id) {
        Err(halt) => Err(halt),
        Ok(document) => match access_problem(document, request) {
            Some(detail) => Err(forbidden(document_id, detail)),
            None => if document.status != DocumentStatus::Active {
                Err(forbidden(document_id, "attachments require an active document"@))
            } else {
                let path = attachment_path(document.relative_path, name);
                match reserved(*setting.facts, draft.destinations, path) {
                    Err(halt) => Err(halt),
                    Ok(destinations) => match payload_bytes(request, *setting.facts, source) {
                        Err(halt) => Err(halt),
                        Ok(bytes) => Ok(
                            Draft {
                                plan: draft.plan.push(
                                    PlannedMutation::WriteNew { relative_path: path, bytes },
                                ),
                                documents: draft.documents.insert(document_id.value, document),
                                destinations,
                            },
                        ),
                    },
                }
            },
        },
    }
}

/// The plan after one operation.
pub open spec fn after_operation(draft: Draft, setting: Setting, operation: Operation) -> Result<
    Draft,
    HaltView,
> {
    match operation {
        Operation::CreateDocument { document_id, content } => after_create(
            draft,
            setting,
            document_id,
            content@,
        ),
        Operation::UpdateDocument { document_id, expected_revision, content } => after_update(
            draft,
            setting,
            document_id,
            expected_revision,
            content@,
        ),
        Operation::MoveDocument { document_id, expected_revision, project, document_type } =>
            after_move(
            draft,
            setting,
            document_id,
            expected_revision,
            optional_text(project),
            document_type,
        ),
        Operation::ArchiveDocument { document_id, expected_revision } => after_archive(
            draft,
            setting,
            document_id,
            expected_revision,
        ),
        Operation::AddAttachment { document_id, source, name } => after_attachment(
            draft,
            setting,
            document_id,
            source@,
            name@,
        ),
    }
}

/// The plan after the operations of a request from `next` on.
pub open spec fn after_operations(draft: Draft, setting: Setting, next: int) -> Result<
    Draft,
    HaltView,
>
    decreases setting.request.operations@.len() - next,
{
    if next >= setting.request.operations@.len() {
        Ok(draft)
    } else {
        match after_operation(draft, setting, setting.request.operations@[next]) {
            Err(halt) => Err(halt),
            Ok(later) => after_operations(later, setting, next + 1),
        }
    }
}

/// A plan with nothing in it.
pub open spec fn empty_draft() -> Draft {
    Draft { plan: Seq::empty(), documents: Map::empty(), destinations: Seq::empty() }
}

/// The complete plan of a request: all its operations in order, or the first reason against it.
pub open spec fn planned(setting: Setting) -> Result<Seq<MutationView>, HaltView> {
    if setting.request.created_at.instant() > setting.request.time().instant() {
        Err(Halt::Failed(ApplyError::RequestCreatedAfterAcceptance))
    } else {
        match after_operations(empty_draft(), setting, 0) {
            Err(halt) => Err(halt),
            Ok(draft) => Ok(draft.plan),
        }
    }
}

/// A result with its halt as sequences.
spec fn halted<A>(result: Result<A, HaltView>, halt: Halt) -> bool {
    result == Err::<A, HaltView>(halt@)
}

/// Finds the validated payload file with a path.
fn find_payload(files: &Vec<PayloadFile>, path: &str) -> (result: Option<usize>)
    ensures
        result is Some <==> first_match(
            files@,
            |file: PayloadFile| file.path@ == path@,
            0,
        ) is Some,
        result matches Some(at) ==> at < files@.len() && first_match(
            files@,
            |file: PayloadFile| file.path@ == path@,
            0,
        ) == Some(at as int),
{
    let ghost holds = |file: PayloadFile| file.path@ == path@;
    let mut i: usize = 0;
    while i < files.len()
        invariant
            i <= files@.len(),
            holds == (|file: PayloadFile| file.path@ == path@),
            first_match(files@, holds, 0) == first_match(files@, holds, i as int),
        decreases files@.len() - i,
    {
        if same_text(files[i].path.as_str(), path) {
            return Some(i);
        }
        i += 1;
    }
    None
}

impl Facts {
    /// Finds what reading a payload file gave.
    fn payload_read(&self, path: &str) -> (result: Option<&FileRead>)
        ensures
            match first_match(self.payload@, |read: PayloadRead| read.path@ == path@, 0) {
                Some(at) => 0 <= at < self.payload@.len() && result == Some(&self.payload@[at].read),
                None => result is None,
            },
    {
        let ghost holds = |read: PayloadRead| read.path@ == path@;
        let mut i: usize = 0;
        while i < self.payload.len()
            invariant
                i <= self.payload@.len(),
                holds == (|read: PayloadRead| read.path@ == path@),
                first_match(self.payload@, holds, 0) == first_match(self.payload@, holds, i as int),
            decreases self.payload@.len() - i,
        {
            if same_text(self.payload[i].path.as_str(), path) {
                return Some(&self.payload[i].read);
            }
            i += 1;
        }
        None
    }

    /// Finds what reading a canonical document gave.
    fn document_read(&self, path: &ContentPath) -> (result: Option<&FileRead>)
        ensures
            match first_match(self.documents@, |read: DocumentRead| read.path@ == path@, 0) {
                Some(at) => 0 <= at < self.documents@.len() && result == Some(
                    &self.documents@[at].read,
                ),
                None => result is None,
            },
    {
        let ghost holds = |read: DocumentRead| read.path@ == path@;
        let mut i: usize = 0;
        while i < self.documents.len()
            invariant
                i <= self.documents@.len(),
                holds == (|read: DocumentRead| read.path@ == path@),
                first_match(self.documents@, holds, 0) == first_match(
                    self.documents@,
                    holds,
                    i as int,
                ),
            decreases self.documents@.len() - i,
        {
            if self.documents[i].path.same(path) {
                return Some(&self.documents[i].read);
            }
            i += 1;
        }
        None
    }

    /// Finds what looking at a destination gave.
    fn destination_probe(&self, path: &ContentPath) -> (result: Option<&Probe>)
        ensures
            match first_match(
                self.destinations@,
                |probe: DestinationProbe| probe.path@ == path@,
                0,
            ) {
                Some(at) => 0 <= at < self.destinations@.len() && result == Some(
                    &self.destinations@[at].probe,
                ),
                None => result is None,
            },
    {
        let ghost holds = |probe: DestinationProbe| probe.path@ == path@;
        let mut i: usize = 0;
        while i < self.destinations.len()
            invariant
                i <= self.destinations@.len(),
                holds == (|probe: DestinationProbe| probe.path@ == path@),
                first_match(self.destinations@, holds, 0) == first_match(
                    self.destinations@,
                    holds,
                    i as int,
                ),
            decreases self.destinations@.len() - i,
        {
            if self.destinations[i].path.same(path) {
                return Some(&self.destinations[i].probe);
            }
            i += 1;
        }
        None
    }

    /// Finds what decoding exact bytes gave.
    fn decoding(&self, bytes: &Vec<u8>) -> (result: Result<&DecodedDocument, Halt>)
        ensures
            match result {
                Ok(decoded) => decoding(*self, bytes@) == Ok::<DecodedDocument, HaltView>(*decoded),
                Err(halt) => halted(decoding(*self, bytes@), halt),
            },
    {
        let ghost holds = |decoding: Decoding| decoding.bytes@ == bytes@;
        let mut i: usize = 0;
        while i < self.decodings.len()
            invariant
                i <= self.decodings@.len(),
                holds == (|decoding: Decoding| decoding.bytes@ == bytes@),
                first_match(self.decodings@, holds, 0) == first_match(
                    self.decodings@,
                    holds,
                    i as int,
                ),
            decreases self.decodings@.len() - i,
        {
            if same_bytes(&self.decodings[i].bytes, bytes) {
                return Ok(&self.decodings[i].decoded);
            }
            i += 1;
        }
        Err(Halt::Needs(Need::Decoding(copy_bytes(bytes))))
    }

    /// Finds what encoding exact metadata gave.
    fn encoding(&self, metadata: &DocumentMetadata) -> (result: Option<&Encoding>)
        ensures
            match first_match(
                self.encodings@,
                encodes(metadata@),
                0,
            ) {
                Some(at) => 0 <= at < self.encodings@.len() && result == Some(
                    &self.encodings@[at].encoding,
                ),
                None => result is None,
            },
    {
        let ghost holds = encodes(metadata@);
        let mut i: usize = 0;
        while i < self.encodings.len()
            invariant
                i <= self.encodings@.len(),
                holds == encodes(metadata@),
                first_match(self.encodings@, holds, 0) == first_match(
                    self.encodings@,
                    holds,
                    i as int,
                ),
            decreases self.encodings@.len() - i,
        {
            if same_metadata(&self.encodings[i].metadata, metadata) {
                return Some(&self.encodings[i].encoding);
            }
            i += 1;
        }
        None
    }
}

/// Whether two byte vectors hold the same bytes.
pub fn same_bytes(left: &Vec<u8>, right: &Vec<u8>) -> (same: bool)
    ensures
        same == (left@ == right@),
{
    if left.len() != right.len() {
        return false;
    }
    let mut i: usize = 0;
    while i < left.len()
        invariant
            i <= left@.len() == right@.len(),
            forall|j: int| 0 <= j < i ==> left@[j] == right@[j],
        decreases left@.len() - i,
    {
        if left[i] != right[i] {
            return false;
        }
        i += 1;
    }
    assert(left@ =~= right@);
    true
}

/// Reads a payload file out of what has been observed.
fn read_payload(request: &ChangeRequest, facts: &Facts, path: &str) -> (result: Result<
    Vec<u8>,
    Halt,
>)
    ensures
        match result {
            Ok(bytes) => payload_bytes(*request, *facts, path@) == Ok::<Seq<u8>, HaltView>(bytes@),
            Err(halt) => halted(payload_bytes(*request, *facts, path@), halt),
        },
{
    let validated: usize = match find_payload(&request.payload, path) {
        Some(at) => at,
        None => {
            return Err(Halt::Failed(ApplyError::ClaimPackageChanged));
        },
    };
    match facts.payload_read(path) {
        None => Err(Halt::Needs(Need::Payload(path.to_owned()))),
        Some(FileRead::Failed(reason)) => Err(Halt::Failed(ApplyError::Io(reason.clone()))),
        Some(FileRead::Bytes(bytes)) => {
            if bytes.len() as u64 != request.payload[validated].byte_length || revision(
                bytes.as_slice(),
            ) != request.payload[validated].revision {
                Err(Halt::Failed(ApplyError::ClaimPackageChanged))
            } else {
                Ok(copy_bytes(bytes))
            }
        },
    }
}

/// Reads the metadata of a Markdown payload out of what has been observed.
fn decode_payload_metadata(facts: &Facts, bytes: &Vec<u8>, path: &str) -> (result: Result<
    DocumentMetadata,
    Halt,
>)
    ensures
        match result {
            Ok(metadata) => payload_metadata(*facts, bytes@, path@) == Ok::<MetadataView, HaltView>(
                metadata@,
            ),
            Err(halt) => halted(payload_metadata(*facts, bytes@, path@), halt),
        },
{
    match facts.decoding(bytes) {
        Err(halt) => Err(halt),
        Ok(DecodedDocument::Malformed(source)) => Err(
            Halt::Failed(
                ApplyError::InvalidPayloadDocument { path: path.to_owned(), source: source.clone() },
            ),
        ),
        Ok(DecodedDocument::Decoded { metadata, common_violation, violations: _ }) => {
            match common_violation {
                Some(source) => Err(
                    Halt::Failed(
                        ApplyError::InvalidPayloadMetadata {
                            path: path.to_owned(),
                            source: source.clone(),
                        },
                    ),
                ),
                None => Ok(metadata.clone()),
            }
        },
    }
}

/// Reads a canonical document out of what has been observed.
fn read_canonical_markdown(
    facts: &Facts,
    path: &ContentPath,
    maximum: u64,
    expected: Revision,
) -> (result: Result<Vec<u8>, Halt>)
    ensures
        match result {
            Ok(bytes) => canonical_markdown(*facts, path@, maximum, expected) == Ok::<
                Seq<u8>,
                HaltView,
            >(bytes@),
            Err(halt) => halted(canonical_markdown(*facts, path@, maximum, expected), halt),
        },
{
    match facts.document_read(path) {
        None => Err(Halt::Needs(Need::Document(path.clone()))),
        Some(FileRead::Failed(reason)) => Err(Halt::Failed(ApplyError::Io(reason.clone()))),
        Some(FileRead::Bytes(bytes)) => {
            if bytes.len() as u64 > maximum || revision(bytes.as_slice()) != expected {
                Err(Halt::Failed(ApplyError::ContentChangedDuringApply))
            } else {
                Ok(copy_bytes(bytes))
            }
        },
    }
}

/// Builds the Markdown of a document once it is archived.
fn archived_markdown(
    facts: &Facts,
    bytes: &Vec<u8>,
    maximum: u64,
    request_id: RequestId,
    archived_at: Timestamp,
) -> (result: Result<Vec<u8>, Halt>)
    ensures
        match result {
            Ok(archived) => archived_bytes(*facts, bytes@, maximum, request_id, archived_at)
                == Ok::<Seq<u8>, HaltView>(archived@),
            Err(halt) => halted(
                archived_bytes(*facts, bytes@, maximum, request_id, archived_at),
                halt,
            ),
        },
{
    if bytes.len() as u64 > maximum {
        return Err(Halt::Failed(ApplyError::ContentChangedDuringApply));
    }
    let decoded = match facts.decoding(bytes) {
        Err(halt) => {
            return Err(halt);
        },
        Ok(decoded) => decoded,
    };
    match decoded {
        DecodedDocument::Malformed(_) => Err(Halt::Failed(ApplyError::ContentChangedDuringApply)),
        DecodedDocument::Decoded { metadata, common_violation: _, violations: _ } => {
            if !archived_at.after(&metadata.changed_at()) {
                return Err(
                    Halt::Failed(
                        ApplyError::OperationForbidden {
                            document_id: metadata.document_id,
                            detail: "archive time must follow the previous document update",
                        },
                    ),
                );
            }
            let mut replaced = metadata.clone();
            replaced.updated = Some(archived_at);
            replaced.request_id = request_id;
            replaced.status = DocumentStatus::Archived;
            assert(replaced@ == archived_metadata(metadata@, request_id, archived_at));
            let body = match markdown_body(bytes.as_slice()) {
                Some(body) => body,
                None => {
                    return Err(Halt::Failed(ApplyError::ContentChangedDuringApply));
                },
            };
            match facts.encoding(&replaced) {
                None => Err(Halt::Needs(Need::Encoding(replaced))),
                Some(Encoding::Failed(reason)) => Err(
                    Halt::Failed(ApplyError::MetadataEncoding(reason.clone())),
                ),
                Some(Encoding::Encoded(text)) => {
                    let front_matter = text.as_str().as_bytes();
                    assert(front_matter@ == encode_utf8(text@));
                    Ok(frame(front_matter, body.as_slice()))
                },
            }
        },
    }
}

/// A plan under construction.
struct Planner<'a> {
    setting: Setting<'a>,
    time: Timestamp,
    plan: Vec<PlannedMutation>,
    documents: HashMap<u128, VirtualDocument>,
    destinations: Vec<ContentPath>,
}

impl<'a> View for Planner<'a> {
    type V = Draft;

    closed spec fn view(&self) -> Draft {
        Draft {
            plan: mutation_views(self.plan@),
            documents: self.documents@.map_values(|document: VirtualDocument| document@),
            destinations: path_views(self.destinations@),
        }
    }
}

/// Refuses an operation on a document.
fn refuse<A>(document_id: DocumentId, detail: &'static str) -> (result: Result<A, Halt>)
    ensures
        result matches Err(halt) && halt@ == forbidden(document_id, detail@),
{
    Err(Halt::Failed(ApplyError::OperationForbidden { document_id, detail }))
}

/// Whether the classification of a request allows it to change a document.
fn require_classification(document: &VirtualDocument, request: &ChangeRequest) -> (result: Result<
    (),
    &'static str,
>)
    ensures
        match result {
            Ok(()) => classification_problem(document@, *request) is None,
            Err(detail) => classification_problem(document@, *request) == Some(detail@),
        },
{
    if document.location.document_type != request.document_type || !same_optional(
        &document.location.project,
        &request.project,
    ) {
        return Err("request classification differs from canonical content");
    }
    Ok(())
}

/// Whether a request may change anything of a document.
fn require_accessible(document: &VirtualDocument, request: &ChangeRequest) -> (result: Result<
    (),
    &'static str,
>)
    ensures
        match result {
            Ok(()) => access_problem(document@, *request) is None,
            Err(detail) => access_problem(document@, *request) == Some(detail@),
        },
{
    if document.location.archived {
        return Err("archived documents cannot be modified");
    }
    require_classification(document, request)
}

/// Whether a request may replace the Markdown of a document.
fn require_mutable(document: &VirtualDocument, request: &ChangeRequest) -> (result: Result<
    (),
    &'static str,
>)
    ensures
        match result {
            Ok(()) => mutation_problem(document@, *request) is None,
            Err(detail) => mutation_problem(document@, *request) == Some(detail@),
        },
{
    if let Err(detail) = require_accessible(document, request) {
        return Err(detail);
    }
    if document.location.document_type == DocumentType::Log {
        return Err("logs are append-only");
    }
    if document.status != DocumentStatus::Active {
        return Err("only active documents are mutable");
    }
    Ok(())
}

/// Whether a document may be moved or archived.
fn require_movable(document: &VirtualDocument) -> (result: Result<(), &'static str>)
    ensures
        match result {
            Ok(()) => movement_problem(document@) is None,
            Err(detail) => movement_problem(document@) == Some(detail@),
        },
{
    if document.location.archived {
        return Err("document is already archived");
    }
    if document.location.document_type == DocumentType::Log || document.location.document_type
        == DocumentType::Index {
        return Err("logs and index documents cannot be moved or archived");
    }
    if document.status != DocumentStatus::Active {
        return Err("only active documents can be moved or archived");
    }
    Ok(())
}

/// Whether new metadata may replace that of a document.
fn require_replacement(
    document: &VirtualDocument,
    metadata: &DocumentMetadata,
    time: &Timestamp,
) -> (result: Result<(), &'static str>)
    ensures
        match result {
            Ok(()) => replacement_problem(document@, metadata@, *time) is None,
            Err(detail) => replacement_problem(document@, metadata@, *time) == Some(detail@),
        },
{
    if !metadata.created.same_instant(&document.created) {
        return Err("document creation time is immutable");
    }
    if metadata.status == DocumentStatus::Archived {
        return Err("archive status requires an archive operation");
    }
    let previous = match document.updated {
        Some(updated) => updated,
        None => document.created,
    };
    match metadata.updated {
        None => Err("updated documents require an update time"),
        Some(updated) => {
            if updated.after(time) {
                Err("document update time cannot follow request acceptance")
            } else if !updated.after(&previous) {
                Err("document update time must increase")
            } else {
                Ok(())
            }
        },
    }
}

/// Whether a document may be created with the given metadata.
fn require_creatable(metadata: &DocumentMetadata, time: &Timestamp) -> (result: Result<
    (),
    &'static str,
>)
    ensures
        match result {
            Ok(()) => creation_problem(metadata@, *time) is None,
            Err(detail) => creation_problem(metadata@, *time) == Some(detail@),
        },
{
    let late = match metadata.updated {
        Some(updated) => updated.after(time),
        None => false,
    };
    if metadata.created.after(time) || late {
        return Err("document timestamps cannot follow request acceptance");
    }
    if metadata.status == DocumentStatus::Archived {
        return Err("documents cannot be created with archived status");
    }
    Ok(())
}

/// What one step of planning stands for.
spec fn advanced(result: Result<(), Halt>, after: Draft, expected: Result<Draft, HaltView>) -> bool {
    match result {
        Ok(()) => expected == Ok::<Draft, HaltView>(after),
        Err(halt) => halted(expected, halt),
    }
}

impl<'a> Planner<'a> {
    /// Whether the time is that of the request.
    spec fn wf(self) -> bool {
        self.time == self.setting.request.time()
    }

    /// Whether a later state of planning goes by the same setting.
    spec fn follows(self, earlier: Self) -> bool {
        self.setting == earlier.setting && self.time == earlier.time
    }

    /// Adds one change.
    fn add(&mut self, mutation: PlannedMutation)
        ensures
            final(self)@ == (Draft { plan: old(self)@.plan.push(mutation@), ..old(self)@ }),
            final(self).follows(*old(self)),
    {
        self.plan.push(mutation);
        assert(mutation_views(self.plan@) =~= mutation_views(old(self).plan@).push(mutation@));
    }

    /// Records how a document stands.
    fn record(&mut self, document_id: DocumentId, document: VirtualDocument)
        ensures
            final(self)@ == (Draft {
                documents: old(self)@.documents.insert(document_id.value, document@),
                ..old(self)@
            }),
            final(self).follows(*old(self)),
    {
        self.documents.insert(document_id.value, document);
        assert(self@.documents =~= old(self)@.documents.insert(document_id.value, document@));
    }

    /// Takes a destination, which must be new to the plan and to the tree.
    fn reserve_new_destination(&mut self, path: &ContentPath) -> (result: Result<(), Halt>)
        ensures
            match result {
                Ok(()) => reserved(*old(self).setting.facts, old(self)@.destinations, path@)
                    == Ok::<Seq<PathView>, HaltView>(final(self)@.destinations),
                Err(halt) => halted(
                    reserved(*old(self).setting.facts, old(self)@.destinations, path@),
                    halt,
                ),
            },
            final(self)@.plan == old(self)@.plan,
            final(self)@.documents == old(self)@.documents,
            final(self).follows(*old(self)),
    {
        if holds_path(&self.destinations, path) {
            return Err(Halt::Failed(ApplyError::DestinationExists { path: path.clone() }));
        }
        match self.setting.facts.destination_probe(path) {
            None => Err(Halt::Needs(Need::Destination(path.clone()))),
            Some(Probe::Present) => Err(
                Halt::Failed(ApplyError::DestinationExists { path: path.clone() }),
            ),
            Some(Probe::Failed(reason)) => Err(Halt::Failed(ApplyError::Io(reason.clone()))),
            Some(Probe::Absent) => {
                self.destinations.push(path.clone());
                assert(path_views(self.destinations@) =~= path_views(old(self).destinations@).push(
                    path@,
                ));
                Ok(())
            },
        }
    }

    /// Finds how a document stands.
    fn resolve_document(&self, document_id: DocumentId) -> (result: Result<VirtualDocument, Halt>)
        ensures
            match result {
                Ok(document) => resolved(self@, self.setting, document_id) == Ok::<
                    VirtualView,
                    HaltView,
                >(document@),
                Err(halt) => halted(resolved(self@, self.setting, document_id), halt),
            },
    {
        if let Some(document) = self.documents.get(&document_id.value) {
            return Ok(document.clone());
        }
        let record = match self.setting.index.get(document_id) {
            Some(record) => record,
            None => {
                return Err(Halt::Failed(ApplyError::DocumentNotFound { document_id }));
            },
        };
        match read_canonical_markdown(
            self.setting.facts,
            &record.relative_path,
            self.setting.policy.maximum_markdown_bytes,
            record.revision,
        ) {
            Err(halt) => Err(halt),
            Ok(markdown) => Ok(
                VirtualDocument {
                    relative_path: record.relative_path.clone(),
                    location: record.location.clone(),
                    created: record.metadata.created,
                    updated: record.metadata.updated,
                    status: record.metadata.status,
                    revision: record.revision,
                    markdown,
                },
            ),
        }
    }

    /// Finds how a document stands, which must have the revision that the client has seen.
    fn require_revision(&self, document_id: DocumentId, expected: Revision) -> (result: Result<
        VirtualDocument,
        Halt,
    >)
        ensures
            match result {
                Ok(document) => unchanged(self@, self.setting, document_id, expected) == Ok::<
                    VirtualView,
                    HaltView,
                >(document@),
                Err(halt) => halted(unchanged(self@, self.setting, document_id, expected), halt),
            },
    {
        let document = match self.resolve_document(document_id) {
            Ok(document) => document,
            Err(halt) => {
                return Err(halt);
            },
        };
        if document.revision != expected {
            return Err(
                Halt::Failed(
                    ApplyError::RevisionConflict {
                        document_id,
                        expected,
                        actual: document.revision,
                    },
                ),
            );
        }
        Ok(document)
    }

    /// Plans the creation of a document.
    fn create(&mut self, document_id: DocumentId, content: &str) -> (result: Result<(), Halt>)
        requires
            old(self).wf(),
        ensures
            advanced(
                result,
                final(self)@,
                after_create(old(self)@, old(self).setting, document_id, content@),
            ),
            final(self).follows(*old(self)),
    {
        let request = self.setting.request;
        if self.documents.contains_key(&document_id.value) || self.setting.index.get(
            document_id,
        ).is_some() {
            return Err(Halt::Failed(ApplyError::DocumentIdConflict { document_id }));
        }
        let bytes = match read_payload(request, self.setting.facts, content) {
            Ok(bytes) => bytes,
            Err(halt) => {
                return Err(halt);
            },
        };
        let metadata = match decode_payload_metadata(self.setting.facts, &bytes, content) {
            Ok(metadata) => metadata,
            Err(halt) => {
                return Err(halt);
            },
        };
        if let Err(detail) = require_creatable(&metadata, &self.time) {
            return refuse(document_id, detail);
        }
        let path = create_document_path(
            &request.project,
            request.document_type,
            &metadata.created,
            document_id,
        );
        if let Err(halt) = self.reserve_new_destination(
            &bundle_path(&path, request.document_type),
        ) {
            return Err(halt);
        }
        self.add(
            PlannedMutation::WriteNew { relative_path: path.clone(), bytes: copy_bytes(&bytes) },
        );
        let exact = revision(bytes.as_slice());
        self.record(
            document_id,
            VirtualDocument {
                relative_path: path,
                location: DocumentLocation {
                    document_type: request.document_type,
                    project: copy_optional(&request.project),
                    archived: false,
                },
                created: metadata.created,
                updated: metadata.updated,
                status: metadata.status,
                revision: exact,
                markdown: bytes,
            },
        );
        Ok(())
    }

    /// Plans the replacement of the Markdown of a document.
    fn update(&mut self, document_id: DocumentId, expected: Revision, content: &str) -> (result:
        Result<(), Halt>)
        requires
            old(self).wf(),
        ensures
            advanced(
                result,
                final(self)@,
                after_update(old(self)@, old(self).setting, document_id, expected, content@),
            ),
            final(self).follows(*old(self)),
    {
        let request = self.setting.request;
        let mut document = match self.require_revision(document_id, expected) {
            Ok(document) => document,
            Err(halt) => {
                return Err(halt);
            },
        };
        if let Err(detail) = require_mutable(&document, request) {
            return refuse(document_id, detail);
        }
        let bytes = match read_payload(request, self.setting.facts, content) {
            Ok(bytes) => bytes,
            Err(halt) => {
                return Err(halt);
            },
        };
        let metadata = match decode_payload_metadata(self.setting.facts, &bytes, content) {
            Ok(metadata) => metadata,
            Err(halt) => {
                return Err(halt);
            },
        };
        if let Err(detail) = require_replacement(&document, &metadata, &self.time) {
            return refuse(document_id, detail);
        }
        self.add(
            PlannedMutation::Replace {
                relative_path: document.relative_path.clone(),
                bytes: copy_bytes(&bytes),
            },
        );
        document.status = metadata.status;
        document.updated = metadata.updated;
        document.revision = revision(bytes.as_slice());
        document.markdown = bytes;
        self.record(document_id, document);
        Ok(())
    }

    /// Plans the move of a document to another classification.
    fn relocate(
        &mut self,
        document_id: DocumentId,
        expected: Revision,
        project: &Option<String>,
        document_type: DocumentType,
    ) -> (result: Result<(), Halt>)
        requires
            old(self).wf(),
        ensures
            advanced(
                result,
                final(self)@,
                after_move(
                    old(self)@,
                    old(self).setting,
                    document_id,
                    expected,
                    optional_text(*project),
                    document_type,
                ),
            ),
            final(self).follows(*old(self)),
    {
        let request = self.setting.request;
        if document_type != request.document_type || !same_optional(project, &request.project) {
            return refuse(document_id, "move destination differs from request classification");
        }
        if document_type == DocumentType::Log || document_type == DocumentType::Index {
            return refuse(
                document_id,
                "documents cannot be moved into log or index classification",
            );
        }
        let mut document = match self.require_revision(document_id, expected) {
            Ok(document) => document,
            Err(halt) => {
                return Err(halt);
            },
        };
        if let Err(detail) = require_movable(&document) {
            return refuse(document_id, detail);
        }
        let destination = create_document_path(
            project,
            document_type,
            &document.created,
            document_id,
        );
        let source_bundle = bundle_path(&document.relative_path, document.location.document_type);
        let destination_bundle = bundle_path(&destination, document_type);
        if let Err(halt) = self.reserve_new_destination(&destination_bundle) {
            return Err(halt);
        }
        self.add(
            PlannedMutation::Move { source: source_bundle, destination: destination_bundle },
        );
        document.relative_path = destination;
        document.location = DocumentLocation {
            document_type,
            project: copy_optional(project),
            archived: false,
        };
        self.record(document_id, document);
        Ok(())
    }

    /// Plans the archiving of a document.
    fn archive(&mut self, document_id: DocumentId, expected: Revision) -> (result: Result<
        (),
        Halt,
    >)
        requires
            old(self).wf(),
        ensures
            advanced(
                result,
                final(self)@,
                after_archive(old(self)@, old(self).setting, document_id, expected),
            ),
            final(self).follows(*old(self)),
    {
        let request = self.setting.request;
        let mut document = match self.require_revision(document_id, expected) {
            Ok(document) => document,
            Err(halt) => {
                return Err(halt);
            },
        };
        if let Err(detail) = require_classification(&document, request) {
            return refuse(document_id, detail);
        }
        if let Err(detail) = require_movable(&document) {
            return refuse(document_id, detail);
        }
        let document_type = document.location.document_type;
        let destination = archive_document_path(
            &document.relative_path,
            &document.location,
            document_id,
        );
        let destination_bundle = bundle_path(&destination, document_type);
        if let Err(halt) = self.reserve_new_destination(&destination_bundle) {
            return Err(halt);
        }
        let archived = match archived_markdown(
            self.setting.facts,
            &document.markdown,
            self.setting.policy.maximum_markdown_bytes,
            request.request_id,
            self.time,
        ) {
            Ok(archived) => archived,
            Err(halt) => {
                return Err(halt);
            },
        };
        self.add(
            PlannedMutation::Replace {
                relative_path: document.relative_path.clone(),
                bytes: copy_bytes(&archived),
            },
        );
        self.add(
            PlannedMutation::Move {
                source: bundle_path(&document.relative_path, document_type),
                destination: destination_bundle,
            },
        );
        document.relative_path = destination;
        document.location.archived = true;
        document.status = DocumentStatus::Archived;
        document.updated = Some(self.time);
        document.revision = revision(archived.as_slice());
        document.markdown = archived;
        self.record(document_id, document);
        Ok(())
    }

    /// Plans the addition of an attachment.
    fn attach(&mut self, document_id: DocumentId, source: &str, name: &str) -> (result: Result<
        (),
        Halt,
    >)
        requires
            old(self).wf(),
        ensures
            advanced(
                result,
                final(self)@,
                after_attachment(old(self)@, old(self).setting, document_id, source@, name@),
            ),
            final(self).follows(*old(self)),
    {
        let request = self.setting.request;
        let document = match self.resolve_document(document_id) {
            Ok(document) => document,
            Err(halt) => {
                return Err(halt);
            },
        };
        if let Err(detail) = require_accessible(&document, request) {
            return refuse(document_id, detail);
        }
        if document.status != DocumentStatus::Active {
            return refuse(document_id, "attachments require an active document");
        }
        let directory = match document.relative_path.parent() {
            Some(parent) => parent,
            None => document.relative_path.clone(),
        };
        let path = directory.join(name);
        if let Err(halt) = self.reserve_new_destination(&path) {
            return Err(halt);
        }
        let bytes = match read_payload(request, self.setting.facts, source) {
            Ok(bytes) => bytes,
            Err(halt) => {
                return Err(halt);
            },
        };
        self.add(PlannedMutation::WriteNew { relative_path: path, bytes });
        self.record(document_id, document);
        Ok(())
    }

    /// Plans one operation.
    fn operate(&mut self, operation: &Operation) -> (result: Result<(), Halt>)
        requires
            old(self).wf(),
        ensures
            advanced(
                result,
                final(self)@,
                after_operation(old(self)@, old(self).setting, *operation),
            ),
            final(self).follows(*old(self)),
    {
        match operation {
            Operation::CreateDocument { document_id, content } => self.create(
                *document_id,
                content.as_str(),
            ),
            Operation::UpdateDocument { document_id, expected_revision, content } => self.update(
                *document_id,
                *expected_revision,
                content.as_str(),
            ),
            Operation::MoveDocument { document_id, expected_revision, project, document_type } =>
                self.relocate(*document_id, *expected_revision, project, *document_type),
            Operation::ArchiveDocument { document_id, expected_revision } => self.archive(
                *document_id,
                *expected_revision,
            ),
            Operation::AddAttachment { document_id, source, name } => self.attach(
                *document_id,
                source.as_str(),
                name.as_str(),
            ),
        }
    }
}

/// Plans one complete request against a content index.
///
/// All deterministic preconditions are checked before the first change: the result is the
/// complete list of changes, or the first reason against the request, or the first observation
/// that is missing.
pub fn build_plan(
    request: &ChangeRequest,
    index: &ContentIndex,
    policy: &ContentPolicy,
    facts: &Facts,
) -> (result: Result<Vec<PlannedMutation>, Halt>)
    ensures
        (match result {
            Ok(plan) => Ok(mutation_views(plan@)),
            Err(halt) => Err(halt@),
        }) == planned((Setting { request, index, policy, facts })),
{
    let time = request.operation_time();
    if request.created_at.after(&time) {
        return Err(Halt::Failed(ApplyError::RequestCreatedAfterAcceptance));
    }
    let setting = Setting { request, index, policy, facts };
    let mut planner = Planner {
        setting,
        time,
        plan: Vec::new(),
        documents: HashMap::new(),
        destinations: Vec::new(),
    };
    proof {
        assert(planner@.plan =~= empty_draft().plan);
        assert(planner@.documents =~= empty_draft().documents);
        assert(planner@.destinations =~= empty_draft().destinations);
    }
    let mut next: usize = 0;
    while next < request.operations.len()
        invariant
            next <= request.operations@.len(),
            planner.wf(),
            planner.setting == setting,
            setting.request == request,
            request.created_at.instant() <= request.time().instant(),
            after_operations(empty_draft(), setting, 0) == after_operations(
                planner@,
                setting,
                next as int,
            ),
            setting == (Setting { request, index, policy, facts }),
        decreases request.operations@.len() - next,
    {
        if let Err(halt) = planner.operate(&request.operations[next]) {
            return Err(halt);
        }
        next += 1;
    }
    Ok(planner.plan)
}

/// What a failure is reported as.
pub open spec fn apply_message(failure: ApplyFailure) -> Seq<char> {
    match failure {
        ApplyError::RequestCreatedAfterAcceptance => "request creation time cannot follow queue acceptance"@,
        ApplyError::ContentIndex(error) => "base content is invalid: "@ + index_message(error),
        ApplyError::ResultingContent(error) => "resulting content is invalid: "@ + index_message(error),
        ApplyError::DocumentNotFound { document_id } => "document `"@ + ulid_text(document_id.value) + "` was not found"@,
        ApplyError::DocumentIdConflict { document_id } => "document ID `"@ + ulid_text(document_id.value) + "` already exists"@,
        ApplyError::RevisionConflict { document_id, expected, actual } => "document `"@ + ulid_text(document_id.value) + "` revision conflict: expected `"@ + revision_text(expected) + "`, found `"@ + revision_text(actual) + "`"@,
        ApplyError::OperationForbidden { document_id, detail } => "operation on document `"@ + ulid_text(document_id.value) + "` is forbidden: "@ + detail,
        ApplyError::DestinationExists { path } => "destination `"@ + slashed(path) + "` already exists"@,
        ApplyError::InvalidPayloadDocument { path, source } => "payload `"@ + path + "` is invalid: "@ + source,
        ApplyError::InvalidPayloadMetadata { path, source } => "payload `"@ + path + "` metadata is invalid: "@ + source,
        ApplyError::ClaimPackageChanged => "claimed package changed after claim-time validation"@,
        ApplyError::ContentChangedDuringApply => "canonical content changed while applying a request"@,
        ApplyError::MetadataEncoding(source) => "generated document metadata could not be encoded: "@ + source,
        ApplyError::PackageValidation(source) => "claimed package revalidation failed: "@ + source,
        ApplyError::Io(source) => "content mutation I/O failed: "@ + source,
    }
}

/// A stable code that a client is told for a failed request.
#[derive(Clone, Copy, Debug, PartialEq, Eq, Structural)]
pub enum ErrorCode {
    /// The request itself is not acceptable.
    InvalidRequest,
    /// A document does not exist.
    DocumentNotFound,
    /// A document exists already.
    DocumentIdConflict,
    /// A document has changed since the client saw it.
    RevisionConflict,
    /// The operation is not allowed.
    OperationForbidden,
    /// The resulting content would not be valid.
    ContentValidationFailed,
    /// The front matter of a payload is not acceptable.
    InvalidFrontMatter,
}

/// The code that a client is told for a failure. A failure that is not the fault of the request
/// has none.
pub open spec fn error_code(failure: ApplyFailure) -> Option<ErrorCode> {
    match failure {
        ApplyError::RequestCreatedAfterAcceptance => Some(ErrorCode::InvalidRequest),
        ApplyError::DocumentNotFound { .. } => Some(ErrorCode::DocumentNotFound),
        ApplyError::DocumentIdConflict { .. } => Some(ErrorCode::DocumentIdConflict),
        ApplyError::RevisionConflict { .. } => Some(ErrorCode::RevisionConflict),
        ApplyError::OperationForbidden { .. } => Some(ErrorCode::OperationForbidden),
        ApplyError::DestinationExists { .. } => Some(ErrorCode::OperationForbidden),
        ApplyError::ResultingContent(error) => if error is Io {
            None
        } else {
            Some(ErrorCode::ContentValidationFailed)
        },
        ApplyError::InvalidPayloadDocument { .. } => Some(ErrorCode::InvalidFrontMatter),
        ApplyError::InvalidPayloadMetadata { .. } => Some(ErrorCode::InvalidFrontMatter),
        _ => None,
    }
}

impl ApplyError {
    /// What the failure is reported as.
    pub fn message(&self) -> (text: String)
        ensures
            text@ == apply_message(self@),
    {
        let text = match self {
            ApplyError::RequestCreatedAfterAcceptance => "request creation time cannot follow queue acceptance".to_owned(),
            ApplyError::ContentIndex(error) => join2("base content is invalid: ", error.message().as_str()),
            ApplyError::ResultingContent(error) => join2("resulting content is invalid: ", error.message().as_str()),
            ApplyError::DocumentNotFound { document_id } => join3("document `", document_id.text().as_str(), "` was not found"),
            ApplyError::DocumentIdConflict { document_id } => join3("document ID `", document_id.text().as_str(), "` already exists"),
            ApplyError::RevisionConflict { document_id, expected, actual } => join7("document `", document_id.text().as_str(), "` revision conflict: expected `", expected.text().as_str(), "`, found `", actual.text().as_str(), "`"),
            ApplyError::OperationForbidden { document_id, detail } => join4("operation on document `", document_id.text().as_str(), "` is forbidden: ", detail),
            ApplyError::DestinationExists { path } => join3("destination `", path.text().as_str(), "` already exists"),
            ApplyError::InvalidPayloadDocument { path, source } => join4("payload `", path.as_str(), "` is invalid: ", source.as_str()),
            ApplyError::InvalidPayloadMetadata { path, source } => join4("payload `", path.as_str(), "` metadata is invalid: ", source.as_str()),
            ApplyError::ClaimPackageChanged => "claimed package changed after claim-time validation".to_owned(),
            ApplyError::ContentChangedDuringApply => "canonical content changed while applying a request".to_owned(),
            ApplyError::MetadataEncoding(source) => join2("generated document metadata could not be encoded: ", source.as_str()),
            ApplyError::PackageValidation(source) => join2("claimed package revalidation failed: ", source.as_str()),
            ApplyError::Io(source) => join2("content mutation I/O failed: ", source.as_str()),
        };
        assert(text@ =~= apply_message(self@));
        text
    }

    /// The code that a client is told for the failure, if it is the fault of the request.
    pub fn request_error_code(&self) -> (code: Option<ErrorCode>)
        ensures
            code == error_code(self@),
    {
        match self {
            ApplyError::RequestCreatedAfterAcceptance => Some(ErrorCode::InvalidRequest),
            ApplyError::DocumentNotFound { .. } => Some(ErrorCode::DocumentNotFound),
            ApplyError::DocumentIdConflict { .. } => Some(ErrorCode::DocumentIdConflict),
            ApplyError::RevisionConflict { .. } => Some(ErrorCode::RevisionConflict),
            ApplyError::OperationForbidden { .. } => Some(ErrorCode::OperationForbidden),
            ApplyError::DestinationExists { .. } => Some(ErrorCode::OperationForbidden),
            ApplyError::ResultingContent(ContentIndexError::Io(_)) => None,
            ApplyError::ResultingContent(_) => Some(ErrorCode::ContentValidationFailed),
            ApplyError::InvalidPayloadDocument { .. } => Some(ErrorCode::InvalidFrontMatter),
            ApplyError::InvalidPayloadMetadata { .. } => Some(ErrorCode::InvalidFrontMatter),
            ApplyError::ContentIndex(_) | ApplyError::ClaimPackageChanged
            | ApplyError::ContentChangedDuringApply | ApplyError::MetadataEncoding(_)
            | ApplyError::PackageValidation(_) | ApplyError::Io(_) => None,
        }
    }
}

/// The move of one file.
#[derive(Debug)]
pub struct AppliedFileMove<P = ContentPath> {
    /// Source path relative to the content root.
    pub source: P,
    /// Destination path relative to the content root.
    pub destination: P,
}

impl View for AppliedFileMove {
    type V = AppliedFileMove<PathView>;

    open spec fn view(&self) -> AppliedFileMove<PathView> {
        AppliedFileMove { source: self.source@, destination: self.destination@ }
    }
}

/// The moves of a list, with their paths as sequences.
pub open spec fn move_views(moves: Seq<AppliedFileMove>) -> Seq<AppliedFileMove<PathView>> {
    moves.map_values(|each: AppliedFileMove| each@)
}

/// What was seen at a path that moves.
#[derive(Clone, Copy, Debug, PartialEq, Eq, Structural)]
pub enum MovedKind {
    /// A regular file.
    File,
    /// A directory.
    Directory,
    /// Anything else.
    Special,
}

/// The gathering of the single files that move with a file or directory.
#[derive(Debug)]
pub struct FileMoves {
    source: ContentPath,
    destination: ContentPath,
    maximum: usize,
    directories: Vec<ContentPath>,
    moves: Vec<AppliedFileMove>,
}

/// Whether a file moves from below one path to the same place below another.
pub open spec fn moves_along(
    each: AppliedFileMove<PathView>,
    source: PathView,
    destination: PathView,
) -> bool {
    &&& source.is_prefix_of(each.source)
    &&& each.destination == destination + each.source.skip(source.len() as int)
}

impl FileMoves {
    /// The path that moves.
    pub closed spec fn spec_source(self) -> PathView {
        self.source@
    }

    /// The path to which it moves.
    pub closed spec fn spec_destination(self) -> PathView {
        self.destination@
    }

    /// The most directories and files that may be gathered.
    pub closed spec fn spec_maximum(self) -> usize {
        self.maximum
    }

    /// The directories that are still to be listed.
    pub closed spec fn pending(self) -> Seq<PathView> {
        path_views(self.directories@)
    }

    /// The moves gathered so far.
    pub closed spec fn gathered(self) -> Seq<AppliedFileMove<PathView>> {
        move_views(self.moves@)
    }

    /// Whether every file moves to the same place below the destination as it had below the
    /// source.
    pub open spec fn wf(self) -> bool {
        forall|i: int|
            0 <= i < self.gathered().len() ==> moves_along(
                #[trigger] self.gathered()[i],
                self.spec_source(),
                self.spec_destination(),
            )
    }

    /// Starts gathering at the path that moves. A file moves alone; a directory is still to be
    /// listed.
    pub fn start(
        source: &ContentPath,
        destination: &ContentPath,
        kind: MovedKind,
        maximum: usize,
    ) -> (result: Result<FileMoves, ApplyError>)
        ensures
            result matches Err(error) ==> error@ == ApplyFailure::ContentChangedDuringApply && kind
                == MovedKind::Special,
            result matches Ok(state) ==> {
                &&& state.spec_source() == source@
                &&& state.spec_destination() == destination@
                &&& state.spec_maximum() == maximum
                &&& kind == MovedKind::File ==> state.pending().len() == 0 && state.gathered()
                    == seq![AppliedFileMove { source: source@, destination: destination@ }]
                &&& kind == MovedKind::Directory ==> state.pending() == seq![source@]
                    && state.gathered().len() == 0
                &&& kind != MovedKind::Special
                &&& state.wf()
            },
    {
        let mut directories: Vec<ContentPath> = Vec::new();
        let mut moves: Vec<AppliedFileMove> = Vec::new();
        if kind == MovedKind::File {
            moves.push(
                AppliedFileMove { source: source.clone(), destination: destination.clone() },
            );
            assert(moves@[0]@.source.skip(source@.len() as int) =~= Seq::<Seq<char>>::empty());
            assert(destination@ + Seq::<Seq<char>>::empty() =~= destination@);
            assert(source@.subrange(0, source@.len() as int) =~= source@);
            assert(move_views(moves@) =~= seq![
                AppliedFileMove { source: source@, destination: destination@ },
            ]);
        } else if kind == MovedKind::Directory {
            directories.push(source.clone());
            assert(path_views(directories@) =~= seq![source@]);
        } else {
            return Err(ApplyError::ContentChangedDuringApply);
        }
        Ok(
            FileMoves {
                source: source.clone(),
                destination: destination.clone(),
                maximum,
                directories,
                moves,
            },
        )
    }

    /// Takes the directory that is to be listed next.
    pub fn next_directory(&mut self) -> (result: Option<ContentPath>)
        requires
            old(self).wf(),
        ensures
            final(self).wf(),
            old(self).pending().len() == 0 <==> result is None,
            result matches Some(path) ==> path@ == old(self).pending().last() && final(self).pending() == old(self).pending().drop_last(),
            result is None ==> final(self).pending() == old(self).pending(),
            final(self).gathered() == old(self).gathered(),
            final(self).spec_source() == old(self).spec_source(),
            final(self).spec_destination() == old(self).spec_destination(),
            final(self).spec_maximum() == old(self).spec_maximum(),
    {
        let result = self.directories.pop();
        assert(result is Some ==> self.pending() =~= old(self).pending().drop_last());
        assert(self.gathered() == old(self).gathered());
        result
    }

    /// Takes in one entry of a listed directory. Content that is not below the source, that is
    /// too much, or that is neither file nor directory has changed since it was indexed.
    pub fn add_entry(&mut self, directory: &ContentPath, name: &str, kind: MovedKind) -> (result:
        Result<(), ApplyError>)
        requires
            old(self).wf(),
        ensures
            final(self).wf(),
            result matches Err(error) ==> error@ == ApplyFailure::ContentChangedDuringApply,
            result is Ok <==> {
                &&& old(self).pending().len() + old(self).gathered().len() < old(self).spec_maximum()
                &&& kind == MovedKind::Directory || (kind == MovedKind::File && old(self).spec_source().is_prefix_of(joined(directory@, name@)))
            },
            result is Ok && kind == MovedKind::Directory ==> final(self).pending() == old(self).pending().push(joined(directory@, name@)) && final(self).gathered() == old(self).gathered(),
            result is Ok && kind == MovedKind::File ==> final(self).pending() == old(self).pending()
                && final(self).gathered() == old(self).gathered().push(
                AppliedFileMove {
                    source: joined(directory@, name@),
                    destination: old(self).spec_destination() + joined(directory@, name@).skip(
                        old(self).spec_source().len() as int,
                    ),
                },
            ),
            final(self).spec_source() == old(self).spec_source(),
            final(self).spec_destination() == old(self).spec_destination(),
            final(self).spec_maximum() == old(self).spec_maximum(),
    {
        let path = directory.join(name);
        if self.directories.len() >= self.maximum || self.moves.len() >= self.maximum
            - self.directories.len() {
            return Err(ApplyError::ContentChangedDuringApply);
        }
        if kind == MovedKind::Directory {
            let ghost before = self.pending();
            self.directories.push(path);
            assert(self.pending() =~= before.push(path@));
            Ok(())
        } else if kind == MovedKind::File {
            if !path.starts_with(&self.source) {
                return Err(ApplyError::ContentChangedDuringApply);
            }
            let destination = path.rebase(self.source.len(), &self.destination);
            let ghost before = self.gathered();
            let added = AppliedFileMove { source: path, destination };
            assert(moves_along(added@, self.source@, self.destination@));
            self.moves.push(added);
            assert(self.gathered() =~= before.push(added@));
            Ok(())
        } else {
            Err(ApplyError::ContentChangedDuringApply)
        }
    }

    /// Ends the gathering. Every file moves to the same place below the destination as it had
    /// below the source.
    pub fn finish(self) -> (moves: Vec<AppliedFileMove>)
        requires
            self.wf(),
        ensures
            move_views(moves@) == self.gathered(),
            forall|i: int|
                0 <= i < moves@.len() ==> moves_along(
                    #[trigger] move_views(moves@)[i],
                    self.spec_source(),
                    self.spec_destination(),
                ),
    {
        assert(move_views(self.moves@) == self.gathered());
        self.moves
    }
}

/// Result of applying one complete request to an isolated content tree.
#[derive(Debug)]
pub struct ApplyOutcome {
    operations_applied: usize,
    file_moves: Vec<AppliedFileMove>,
}

impl ApplyOutcome {
    /// The number of request operations applied.
    pub closed spec fn spec_operations_applied(self) -> usize {
        self.operations_applied
    }

    /// The moves of single files, in order.
    pub closed spec fn spec_file_moves(self) -> Seq<AppliedFileMove<PathView>> {
        move_views(self.file_moves@)
    }

    /// The outcome of a request that was applied as a whole.
    pub fn new(request: &ChangeRequest, file_moves: Vec<AppliedFileMove>) -> (outcome: Self)
        ensures
            outcome.spec_operations_applied() == request.operations@.len(),
            outcome.spec_file_moves() == move_views(file_moves@),
    {
        ApplyOutcome { operations_applied: request.operations.len(), file_moves }
    }

    /// Returns the number of request operations applied.
    pub fn operations_applied(&self) -> (result: usize)
        ensures
            result == self.spec_operations_applied(),
    {
        self.operations_applied
    }

    /// Returns the moves of single files, in order.
    pub fn file_moves(&self) -> (result: &Vec<AppliedFileMove>)
        ensures
            move_views(result@) == self.spec_file_moves(),
    {
        &self.file_moves
    }
}

} // verus!
