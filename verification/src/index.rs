//! The content index: every document of one content tree, found by its identity.
use crate::document::{
    canonical_document_path, category_round_trip, category_type, document_path, parse_category,
    DocumentLocation, DocumentMetadata, DocumentStatus, DocumentType,
};
use crate::ids::{revision, revision_of, revision_text, ulid_text, DocumentId, Revision};
use crate::path::{holds_path, holds_text, optional_text, path_views, slashed, texts, ContentPath};
use crate::read::{attachment_views, AttachmentRecord, AttachmentView};
use crate::text::{
    before, bytes_before, copy_bytes, decimal, decimal_text, join2, join3, join4, join6, join7, lossy,
    lossy_text, utf8_text,
};
use std::collections::HashMap;
use vstd::prelude::*;
use vstd::string::*;
use vstd::utf8::{decode_utf8, valid_utf8};

verus! {

broadcast use vstd::std_specs::hash::group_hash_axioms;

/// Limits used while indexing one committed content tree.
#[derive(Clone, Copy, Debug, PartialEq, Eq, Structural)]
pub struct ContentPolicy {
    /// Maximum files and directories below the content root.
    pub maximum_entry_count: usize,
    /// Maximum bytes in one Markdown document.
    pub maximum_markdown_bytes: u64,
    /// Maximum aggregate Markdown bytes inspected while building the index.
    pub maximum_total_markdown_bytes: u64,
    /// Maximum bytes in one Markdown front matter section.
    pub maximum_front_matter_bytes: usize,
    /// Optional reading of the monotonic clock at which one index scan must stop.
    pub scan_deadline: Option<u64>,
}

impl Default for ContentPolicy {
    fn default() -> (policy: Self)
        ensures
            policy.maximum_entry_count == 1_000_000,
            policy.maximum_markdown_bytes == 33_554_432,
            policy.maximum_total_markdown_bytes == 8_589_934_592,
            policy.maximum_front_matter_bytes == 65_536,
            policy.scan_deadline is None,
    {
        ContentPolicy {
            maximum_entry_count: 1_000_000,
            maximum_markdown_bytes: 33_554_432,
            maximum_total_markdown_bytes: 8_589_934_592,
            maximum_front_matter_bytes: 65_536,
            scan_deadline: None,
        }
    }
}

/// Limits on attachments.
#[derive(Clone, Copy, Debug, PartialEq, Eq, Structural)]
pub struct PackageLimits {
    /// Maximum bytes in one attachment.
    pub maximum_file_bytes: u64,
    /// Maximum components in one attachment path.
    pub maximum_path_components: usize,
}

/// The names that occur in a content tree and are acceptable in each role.
#[derive(Debug)]
pub struct NameRules {
    /// Names that are project identities.
    pub projects: Vec<String>,
    /// Names that are attachment names.
    pub attachments: Vec<String>,
    /// Names with an allowed attachment type.
    pub attachment_types: Vec<String>,
    /// Slashed paths that are payload paths.
    pub payload_paths: Vec<String>,
}

impl NameRules {
    /// Whether a name is a project identity.
    pub open spec fn is_project(self, name: Seq<char>) -> bool {
        texts(self.projects@).contains(name)
    }

    /// Whether a name is an attachment name.
    pub open spec fn is_attachment(self, name: Seq<char>) -> bool {
        texts(self.attachments@).contains(name)
    }

    /// Whether a name has an allowed attachment type.
    pub open spec fn has_allowed_type(self, name: Seq<char>) -> bool {
        texts(self.attachment_types@).contains(name)
    }

    /// Whether a slashed path is a payload path.
    pub open spec fn is_payload_path(self, path: Seq<char>) -> bool {
        texts(self.payload_paths@).contains(path)
    }
}

/// One reason why metadata is not valid for a kind of document.
#[derive(Debug)]
pub struct TypeViolation {
    /// The kind for which the metadata is not valid.
    pub document_type: DocumentType,
    /// The reason.
    pub reason: String,
}

/// What decoding the front matter of exact bytes gave.
#[derive(Debug)]
pub enum DecodedDocument {
    /// The front matter could not be decoded, for the given reason.
    Malformed(String),
    /// The front matter was decoded.
    Decoded {
        /// The decoded metadata.
        metadata: DocumentMetadata,
        /// Why the metadata is not valid for any kind, if so.
        common_violation: Option<String>,
        /// The kinds for which the metadata is not valid.
        violations: Vec<TypeViolation>,
    },
}

/// The first reason, in list order, why metadata is not valid for a kind.
pub open spec fn violation_of(violations: Seq<TypeViolation>, document_type: DocumentType) -> Option<
    Seq<char>,
>
    decreases violations.len(),
{
    if violations.len() == 0 {
        None
    } else if violations[0].document_type == document_type {
        Some(violations[0].reason@)
    } else {
        violation_of(violations.skip(1), document_type)
    }
}

/// The first reason why metadata is not valid for a kind.
fn find_violation(violations: &Vec<TypeViolation>, document_type: DocumentType) -> (result: Option<
    String,
>)
    ensures
        optional_text(result) == violation_of(violations@, document_type),
{
    let mut i: usize = 0;
    assert(violations@.skip(0) =~= violations@);
    while i < violations.len()
        invariant
            i <= violations@.len(),
            violation_of(violations@, document_type) == violation_of(
                violations@.skip(i as int),
                document_type,
            ),
        decreases violations@.len() - i,
    {
        assert(violations@.skip(i as int).skip(1) =~= violations@.skip(i + 1));
        if violations[i].document_type == document_type {
            return Some(violations[i].reason.clone());
        }
        i += 1;
    }
    None
}

/// What reading a file gave.
#[derive(Debug)]
pub enum FileRead {
    /// Reading failed, for the given reason.
    Failed(String),
    /// The bytes, read up to one byte past the caller's limit.
    Bytes(Vec<u8>),
}

/// What was observed of one regular file.
#[derive(Debug)]
pub struct FileFacts {
    /// Permission bits.
    pub mode: u32,
    /// Number of hard links.
    pub links: u64,
    /// Length in bytes.
    pub length: u64,
    /// The contents; only those of Markdown files are looked at.
    pub read: FileRead,
    /// The decoded front matter of the contents.
    pub decoded: DecodedDocument,
}

/// What was observed of one directory entry.
#[derive(Debug)]
pub enum EntryFacts {
    /// A directory; its entries are the children.
    Directory,
    /// A directory that could not be listed, for the given reason.
    Unlisted(String),
    /// A regular file.
    File(FileFacts),
    /// A link or another special entry.
    Special,
    /// An entry that could not be inspected, for the given reason.
    Unreadable(String),
}

/// One entry of a content tree.
#[derive(Debug)]
pub struct ContentEntry {
    /// The raw name.
    pub name: Vec<u8>,
    /// Reading of the monotonic clock when the entry was reached.
    pub observed_at: u64,
    /// Reading of the monotonic clock before a directory was listed.
    pub listed_at: u64,
    /// What was observed.
    pub facts: EntryFacts,
    /// The entries of a directory, in any order.
    pub children: Vec<ContentEntry>,
}

/// Indexed identity and revision for one canonical Markdown document.
#[derive(Debug)]
pub struct DocumentRecord<P = ContentPath, L = DocumentLocation, M = DocumentMetadata> {
    /// The document path relative to the content root.
    pub relative_path: P,
    /// The classification derived from the canonical directory.
    pub location: L,
    /// The decoded document metadata.
    pub metadata: M,
    /// The revision of the exact Markdown bytes.
    pub revision: Revision,
    /// The number of Markdown bytes.
    pub byte_length: u64,
}

/// A record with its texts as character sequences.
pub type RecordView = DocumentRecord<
    Seq<Seq<char>>,
    DocumentLocation<Seq<char>>,
    DocumentMetadata<Seq<char>, Seq<Seq<char>>>,
>;

impl View for DocumentRecord {
    type V = RecordView;

    open spec fn view(&self) -> RecordView {
        DocumentRecord {
            relative_path: self.relative_path@,
            location: self.location@,
            metadata: self.metadata@,
            revision: self.revision,
            byte_length: self.byte_length,
        }
    }
}

impl Clone for DocumentRecord {
    fn clone(&self) -> (copy: Self)
        ensures
            copy@ == self@,
    {
        DocumentRecord {
            relative_path: self.relative_path.clone(),
            location: self.location.clone(),
            metadata: self.metadata.clone(),
            revision: self.revision,
            byte_length: self.byte_length,
        }
    }
}

impl DocumentRecord {
    /// Returns the document path relative to the content root.
    pub fn relative_path(&self) -> (result: &ContentPath)
        ensures
            result@ == self@.relative_path,
    {
        &self.relative_path
    }

    /// Returns the classification derived from the canonical directory.
    pub fn location(&self) -> (result: &DocumentLocation)
        ensures
            result@ == self@.location,
    {
        &self.location
    }

    /// Returns the decoded document metadata.
    pub fn metadata(&self) -> (result: &DocumentMetadata)
        ensures
            result@ == self@.metadata,
    {
        &self.metadata
    }

    /// Returns the SHA-256 revision of the exact Markdown bytes.
    pub fn revision(&self) -> (result: Revision)
        ensures
            result == self@.revision,
    {
        self.revision
    }

    /// Returns the number of Markdown bytes.
    pub fn byte_length(&self) -> (result: u64)
        ensures
            result == self@.byte_length,
    {
        self.byte_length
    }
}

/// A canonical content hierarchy or index construction failure.
#[allow(inconsistent_fields)]
#[derive(Debug)]
pub enum ContentIndexError<P = ContentPath, T = String, B = Vec<u8>> {
    /// A filesystem operation failed.
    Io(T),
    /// The configured content root was not a real directory.
    InvalidRoot,
    /// A content path was not valid UTF-8: the raw name of an entry of a directory.
    InvalidPathEncoding {
        /// The directory.
        directory: P,
        /// The raw name.
        name: B,
    },
    /// A Markdown path did not follow the canonical classification layout.
    InvalidDocumentPath(P),
    /// A symbolic link or other special filesystem entry was present.
    InvalidEntryType(P),
    /// A regular file had an executable mode bit.
    ExecutableFile(P),
    /// A regular file had more than one hard link.
    HardLinkedFile(P),
    /// A non-Markdown file used a disallowed extension.
    UnsupportedAttachment(P),
    /// An attachment path did not use safe visible components.
    InvalidAttachmentPath(P),
    /// One attachment exceeded the configured per-file byte limit.
    AttachmentTooLarge {
        /// Attachment path relative to the content root.
        path: P,
        /// Configured maximum bytes.
        maximum: u64,
        /// Observed bytes.
        actual: u64,
    },
    /// An attachment was neither beside a document nor in project assets.
    OrphanAttachment(P),
    /// Front-matter archive status disagreed with the canonical directory.
    ArchiveStatusMismatch(P),
    /// The hierarchy exceeded the configured entry limit.
    EntryLimitExceeded {
        /// Configured maximum entries.
        maximum: usize,
    },
    /// A Markdown document exceeded the configured byte limit.
    MarkdownTooLarge {
        /// Document path relative to the content root.
        path: P,
        /// Configured maximum bytes.
        maximum: u64,
        /// Observed bytes.
        actual: u64,
    },
    /// Aggregate Markdown bytes exceeded the configured index-work bound.
    MarkdownByteLimitExceeded {
        /// Configured maximum aggregate bytes.
        maximum: u64,
    },
    /// The configured absolute index-scan deadline expired.
    ScanDeadlineExceeded,
    /// Markdown front matter could not be decoded safely.
    InvalidDocument {
        /// Document path relative to the content root.
        path: P,
        /// Decoding failure.
        source: T,
    },
    /// Typed document metadata violated a shared invariant.
    InvalidMetadata {
        /// Document path relative to the content root.
        path: P,
        /// Validation failure.
        source: T,
    },
    /// Two Markdown files declared the same permanent identity.
    DuplicateDocumentId {
        /// Duplicated identity.
        document_id: DocumentId,
        /// First path in deterministic traversal order.
        first_path: P,
        /// Second path in deterministic traversal order.
        second_path: P,
    },
}

/// A failure with its paths and texts as sequences.
pub type IndexFailure = ContentIndexError<Seq<Seq<char>>, Seq<char>, Seq<u8>>;

impl View for ContentIndexError {
    type V = IndexFailure;

    open spec fn view(&self) -> IndexFailure {
        match *self {
            ContentIndexError::Io(source) => ContentIndexError::Io(source@),
            ContentIndexError::InvalidRoot => ContentIndexError::InvalidRoot,
            ContentIndexError::InvalidPathEncoding { directory, name } =>
                ContentIndexError::InvalidPathEncoding { directory: directory@, name: name@ },
            ContentIndexError::InvalidDocumentPath(path) => ContentIndexError::InvalidDocumentPath(
                path@,
            ),
            ContentIndexError::InvalidEntryType(path) => ContentIndexError::InvalidEntryType(path@),
            ContentIndexError::ExecutableFile(path) => ContentIndexError::ExecutableFile(path@),
            ContentIndexError::HardLinkedFile(path) => ContentIndexError::HardLinkedFile(path@),
            ContentIndexError::UnsupportedAttachment(path) =>
                ContentIndexError::UnsupportedAttachment(path@),
            ContentIndexError::InvalidAttachmentPath(path) =>
                ContentIndexError::InvalidAttachmentPath(path@),
            ContentIndexError::AttachmentTooLarge { path, maximum, actual } =>
                ContentIndexError::AttachmentTooLarge { path: path@, maximum, actual },
            ContentIndexError::OrphanAttachment(path) => ContentIndexError::OrphanAttachment(path@),
            ContentIndexError::ArchiveStatusMismatch(path) =>
                ContentIndexError::ArchiveStatusMismatch(path@),
            ContentIndexError::EntryLimitExceeded { maximum } =>
                ContentIndexError::EntryLimitExceeded { maximum },
            ContentIndexError::MarkdownTooLarge { path, maximum, actual } =>
                ContentIndexError::MarkdownTooLarge { path: path@, maximum, actual },
            ContentIndexError::MarkdownByteLimitExceeded { maximum } =>
                ContentIndexError::MarkdownByteLimitExceeded { maximum },
            ContentIndexError::ScanDeadlineExceeded => ContentIndexError::ScanDeadlineExceeded,
            ContentIndexError::InvalidDocument { path, source } =>
                ContentIndexError::InvalidDocument { path: path@, source: source@ },
            ContentIndexError::InvalidMetadata { path, source } =>
                ContentIndexError::InvalidMetadata { path: path@, source: source@ },
            ContentIndexError::DuplicateDocumentId { document_id, first_path, second_path } =>
                ContentIndexError::DuplicateDocumentId {
                    document_id,
                    first_path: first_path@,
                    second_path: second_path@,
                },
        }
    }
}

/// The classification of a document path, where it has one.
///
/// An index page stands at the root of the store or of a project. Other documents stand below the
/// directory of their kind: in a project, in the inbox, or in an archive.
pub open spec fn classified(path: Seq<Seq<char>>, names: NameRules) -> Option<
    DocumentLocation<Seq<char>>,
> {
    let ends = path.len() > 0 && path.last() == "index.md"@;
    if !ends {
        None
    } else if path.len() == 1 {
        Some(DocumentLocation { document_type: DocumentType::Index, project: None, archived: false })
    } else if path.len() == 3 && path[0] == "projects"@ {
        if names.is_project(path[1]) {
            Some(
                DocumentLocation {
                    document_type: DocumentType::Index,
                    project: Some(path[1]),
                    archived: false,
                },
            )
        } else {
            None
        }
    } else if path.len() >= 6 && path[0] == "projects"@ && path[2] == "archive"@ {
        in_category(path[3], Some(path[1]), true, names)
    } else if path.len() >= 5 && path[0] == "projects"@ {
        in_category(path[2], Some(path[1]), false, names)
    } else if path.len() >= 4 && path[0] == "inbox"@ {
        in_category(path[1], None, false, names)
    } else if path.len() >= 4 && path[0] == "archive"@ {
        in_category(path[1], None, true, names)
    } else {
        None
    }
}

/// The classification below a directory of one kind: both the directory name and the project
/// must be acceptable.
pub open spec fn in_category(
    name: Seq<char>,
    project: Option<Seq<char>>,
    archived: bool,
    names: NameRules,
) -> Option<DocumentLocation<Seq<char>>> {
    match (category_type(name), project) {
        (Some(document_type), None) => Some(DocumentLocation { document_type, project, archived }),
        (Some(document_type), Some(project_name)) => if names.is_project(project_name) {
            Some(DocumentLocation { document_type, project, archived })
        } else {
            None
        },
        (None, _) => None,
    }
}

/// The classification below a directory of one kind.
fn locate(
    name: &String,
    project: Option<&String>,
    archived: bool,
    names: &NameRules,
) -> (result: Option<DocumentLocation>)
    ensures
        result is Some <==> in_category(
            name@,
            (match project {
                Some(project) => Some(project@),
                None => None,
            }),
            archived,
            *names,
        ) is Some,
        result matches Some(location) ==> in_category(
            name@,
            (match project {
                Some(project) => Some(project@),
                None => None,
            }),
            archived,
            *names,
        ) == Some(location@),
{
    match (parse_category(name.as_str()), project) {
        (Some(document_type), None) => Some(
            DocumentLocation { document_type, project: None, archived },
        ),
        (Some(document_type), Some(project)) => {
            if holds_text(&names.projects, project.as_str()) {
                Some(DocumentLocation { document_type, project: Some(project.clone()), archived })
            } else {
                None
            }
        },
        (None, _) => None,
    }
}

/// The classification of a document path.
pub fn classify_document_path(path: &ContentPath, names: &NameRules) -> (result: Result<
    DocumentLocation,
    ContentIndexError,
>)
    ensures
        result is Ok <==> classified(path@, *names) is Some,
        result matches Ok(location) ==> classified(path@, *names) == Some(location@),
        result matches Err(error) ==> error@ == IndexFailure::InvalidDocumentPath(path@),
{
    let count: usize = path.len();
    let found;
    if count == 0 || !path.component_is(count - 1, "index.md") {
        found = None;
    } else if count == 1 {
        found = Some(
            DocumentLocation { document_type: DocumentType::Index, project: None, archived: false },
        );
    } else if count == 3 && path.component_is(0, "projects") {
        let project = path.component(1);
        if holds_text(&names.projects, project.as_str()) {
            found = Some(
                DocumentLocation {
                    document_type: DocumentType::Index,
                    project: Some(project.clone()),
                    archived: false,
                },
            );
        } else {
            found = None;
        }
    } else if count >= 6 && path.component_is(0, "projects") && path.component_is(2, "archive") {
        found = locate(path.component(3), Some(path.component(1)), true, names);
    } else if count >= 5 && path.component_is(0, "projects") {
        found = locate(path.component(2), Some(path.component(1)), false, names);
    } else if count >= 4 && path.component_is(0, "inbox") {
        found = locate(path.component(1), None, false, names);
    } else if count >= 4 && path.component_is(0, "archive") {
        found = locate(path.component(1), None, true, names);
    } else {
        found = None;
    }
    match found {
        Some(location) => Ok(location),
        None => Err(ContentIndexError::InvalidDocumentPath(path.clone())),
    }
}

/// The only path of a document classifies it as that path was made: for index pages outside the
/// archive and for every other document, with a project name that is acceptable.
pub proof fn canonical_paths_classify_back(
    location: DocumentLocation<Seq<char>>,
    metadata: DocumentMetadata<Seq<char>, Seq<Seq<char>>>,
    names: NameRules,
)
    requires
        location.document_type == DocumentType::Index ==> !location.archived,
        location.project matches Some(project) ==> names.is_project(project) && project.len() > 0,
    ensures
        classified(document_path(location, metadata.created, metadata.document_id), names) == Some(
            location,
        ),
{
    reveal_strlit("index.md");
    reveal_strlit("projects");
    reveal_strlit("archive");
    reveal_strlit("inbox");
    assert("projects"@[0] == 'p');
    assert("archive"@[0] == 'a');
    assert("inbox"@[0] == 'i');
    if location.document_type != DocumentType::Index {
        category_round_trip(location.document_type);
    }
}

/// Whether a file name has the Markdown extension.
pub open spec fn is_markdown(name: Seq<char>) -> bool {
    name.len() > 3 && name.skip(name.len() - 3) == ".md"@
}

/// Whether a file name has the Markdown extension.
pub fn markdown_name(name: &String) -> (result: bool)
    ensures
        result == is_markdown(name@),
{
    proof {
        reveal_strlit(".md");
    }
    let chars = crate::text::characters(name.as_str());
    let n: usize = chars.len();
    if n <= 3 {
        return false;
    }
    let result = chars[n - 3] == '.' && chars[n - 2] == 'm' && chars[n - 1] == 'd';
    proof {
        let tail = name@.skip(n - 3);
        assert(tail[0] == chars@[n - 3] && tail[1] == chars@[n - 2] && tail[2] == chars@[n - 1]);
        if result {
            assert(tail =~= ".md"@);
        }
    }
    result
}

/// What inspecting one regular file gave.
#[derive(Debug)]
pub enum Inspected<R = DocumentRecord> {
    /// An attachment.
    Attachment,
    /// A document, and the Markdown bytes counted up to and with it.
    Document {
        /// The record of the document.
        record: R,
        /// Aggregate Markdown bytes.
        total: u64,
    },
}

/// What inspecting a Markdown file gives, once its contents are read and decoded.
pub open spec fn document_found(
    path: Seq<Seq<char>>,
    bytes: Seq<u8>,
    decoded: DecodedDocument,
    names: NameRules,
) -> Result<RecordView, IndexFailure> {
    match (decoded, classified(path, names)) {
        (DecodedDocument::Malformed(reason), _) => Err(
            ContentIndexError::InvalidDocument { path, source: reason@ },
        ),
        (_, None) => Err(ContentIndexError::InvalidDocumentPath(path)),
        (DecodedDocument::Decoded { metadata, common_violation: _, violations }, Some(location)) =>
            if path != document_path(location, metadata.created, metadata.document_id) {
                Err(ContentIndexError::InvalidDocumentPath(path))
            } else if location.archived != (metadata.status == DocumentStatus::Archived) {
                Err(ContentIndexError::ArchiveStatusMismatch(path))
            } else {
                match violation_of(violations@, location.document_type) {
                    Some(source) => Err(ContentIndexError::InvalidMetadata { path, source }),
                    None => Ok(
                        DocumentRecord {
                            relative_path: path,
                            location,
                            metadata: metadata@,
                            revision: revision_of(bytes),
                            byte_length: bytes.len() as u64,
                        },
                    ),
                }
            },
    }
}

/// What inspecting one regular file gives, with `total` Markdown bytes counted before it.
pub open spec fn file_found(
    path: Seq<Seq<char>>,
    file: FileFacts,
    total: u64,
    policy: ContentPolicy,
    limits: PackageLimits,
    names: NameRules,
) -> Result<Inspected<RecordView>, IndexFailure> {
    if file.mode & 0o111 != 0 {
        Err(ContentIndexError::ExecutableFile(path))
    } else if file.links > 1 {
        Err(ContentIndexError::HardLinkedFile(path))
    } else if !is_markdown(path.last()) {
        if file.length > limits.maximum_file_bytes {
            Err(
                ContentIndexError::AttachmentTooLarge {
                    path,
                    maximum: limits.maximum_file_bytes,
                    actual: file.length,
                },
            )
        } else if !names.has_allowed_type(path.last()) {
            Err(ContentIndexError::UnsupportedAttachment(path))
        } else {
            Ok(Inspected::Attachment)
        }
    } else if file.length > policy.maximum_markdown_bytes {
        Err(
            ContentIndexError::MarkdownTooLarge {
                path,
                maximum: policy.maximum_markdown_bytes,
                actual: file.length,
            },
        )
    } else if total + file.length > policy.maximum_total_markdown_bytes {
        Err(
            ContentIndexError::MarkdownByteLimitExceeded {
                maximum: policy.maximum_total_markdown_bytes,
            },
        )
    } else {
        match file.read {
            FileRead::Failed(reason) => Err(ContentIndexError::Io(reason@)),
            FileRead::Bytes(bytes) => if bytes@.len() > policy.maximum_markdown_bytes {
                Err(
                    ContentIndexError::MarkdownTooLarge {
                        path,
                        maximum: policy.maximum_markdown_bytes,
                        actual: bytes@.len() as u64,
                    },
                )
            } else {
                match document_found(path, bytes@, file.decoded, names) {
                    Err(failure) => Err(failure),
                    Ok(record) => Ok(
                        Inspected::Document { record, total: (total + file.length) as u64 },
                    ),
                }
            },
        }
    }
}

/// What a result of inspecting a file stands for.
pub open spec fn inspected_view(result: Result<Inspected, ContentIndexError>) -> Result<
    Inspected<RecordView>,
    IndexFailure,
> {
    match result {
        Ok(Inspected::Attachment) => Ok(Inspected::Attachment),
        Ok(Inspected::Document { record, total }) => Ok(
            Inspected::Document { record: record@, total },
        ),
        Err(error) => Err(error@),
    }
}

/// Inspects one Markdown file whose contents are read and decoded.
pub(crate) fn inspect_document(
    path: &ContentPath,
    bytes: &Vec<u8>,
    decoded: &DecodedDocument,
    names: &NameRules,
) -> (result: Result<DocumentRecord, ContentIndexError>)
    ensures
        (match result {
            Ok(record) => Ok(record@),
            Err(error) => Err(error@),
        }) == document_found(path@, bytes@, *decoded, *names),
{
    match decoded {
        DecodedDocument::Malformed(reason) => Err(
            ContentIndexError::InvalidDocument { path: path.clone(), source: reason.clone() },
        ),
        DecodedDocument::Decoded { metadata, common_violation: _, violations } => {
            let location = match classify_document_path(path, names) {
                Ok(location) => location,
                Err(error) => {
                    return Err(error);
                },
            };
            if !canonical_document_path(&location, metadata).same(path) {
                return Err(ContentIndexError::InvalidDocumentPath(path.clone()));
            }
            if location.archived != (metadata.status == DocumentStatus::Archived) {
                return Err(ContentIndexError::ArchiveStatusMismatch(path.clone()));
            }
            match find_violation(violations, location.document_type) {
                Some(source) => Err(
                    ContentIndexError::InvalidMetadata { path: path.clone(), source },
                ),
                None => Ok(
                    DocumentRecord {
                        relative_path: path.clone(),
                        location,
                        metadata: metadata.clone(),
                        revision: revision(bytes.as_slice()),
                        byte_length: bytes.len() as u64,
                    },
                ),
            }
        },
    }
}

/// Inspects one regular file, with `total` Markdown bytes counted before it.
pub fn inspect_file(
    path: &ContentPath,
    file: &FileFacts,
    total: u64,
    policy: &ContentPolicy,
    limits: &PackageLimits,
    names: &NameRules,
) -> (result: Result<Inspected, ContentIndexError>)
    requires
        path@.len() > 0,
    ensures
        inspected_view(result) == file_found(path@, *file, total, *policy, *limits, *names),
{
    if file.mode & 0o111 != 0 {
        return Err(ContentIndexError::ExecutableFile(path.clone()));
    }
    if file.links > 1 {
        return Err(ContentIndexError::HardLinkedFile(path.clone()));
    }
    let name = path.component(path.len() - 1);
    if !markdown_name(name) {
        if file.length > limits.maximum_file_bytes {
            return Err(
                ContentIndexError::AttachmentTooLarge {
                    path: path.clone(),
                    maximum: limits.maximum_file_bytes,
                    actual: file.length,
                },
            );
        }
        if !holds_text(&names.attachment_types, name.as_str()) {
            return Err(ContentIndexError::UnsupportedAttachment(path.clone()));
        }
        return Ok(Inspected::Attachment);
    }
    if file.length > policy.maximum_markdown_bytes {
        return Err(
            ContentIndexError::MarkdownTooLarge {
                path: path.clone(),
                maximum: policy.maximum_markdown_bytes,
                actual: file.length,
            },
        );
    }
    let sum: u64 = match total.checked_add(file.length) {
        Some(sum) if sum <= policy.maximum_total_markdown_bytes => sum,
        _ => {
            return Err(
                ContentIndexError::MarkdownByteLimitExceeded {
                    maximum: policy.maximum_total_markdown_bytes,
                },
            );
        },
    };
    match &file.read {
        FileRead::Failed(reason) => Err(ContentIndexError::Io(reason.clone())),
        FileRead::Bytes(bytes) => {
            if bytes.len() as u64 > policy.maximum_markdown_bytes {
                return Err(
                    ContentIndexError::MarkdownTooLarge {
                        path: path.clone(),
                        maximum: policy.maximum_markdown_bytes,
                        actual: bytes.len() as u64,
                    },
                );
            }
            match inspect_document(path, bytes, &file.decoded, names) {
                Ok(record) => Ok(Inspected::Document { record, total: sum }),
                Err(error) => Err(error),
            }
        },
    }
}

/// The records of a list, with their texts as sequences.
pub open spec fn record_views(records: Seq<DocumentRecord>) -> Seq<RecordView> {
    records.map_values(|record: DocumentRecord| record@)
}

/// The last position at which a list holds a document.
pub open spec fn position(records: Seq<RecordView>, document_id: DocumentId) -> Option<int>
    decreases records.len(),
{
    if records.len() == 0 {
        None
    } else if records.last().metadata.document_id == document_id {
        Some(records.len() - 1)
    } else {
        position(records.drop_last(), document_id)
    }
}

proof fn position_is_in_range(records: Seq<RecordView>, document_id: DocumentId)
    ensures
        position(records, document_id) matches Some(i) ==> 0 <= i < records.len()
            && records[i].metadata.document_id == document_id,
        position(records, document_id) is None ==> forall|i: int|
            0 <= i < records.len() ==> (#[trigger] records[i]).metadata.document_id != document_id,
    decreases records.len(),
{
    if records.len() > 0 {
        position_is_in_range(records.drop_last(), document_id);
        if position(records, document_id) is None {
            assert forall|i: int| 0 <= i < records.len() implies (
            #[trigger] records[i]).metadata.document_id != document_id by {
                if i < records.len() - 1 {
                    assert(records[i] == records.drop_last()[i]);
                }
            }
        }
    }
}

/// Whether a table finds a document at its position in a list, or not at all.
pub open spec fn finds(
    records: Seq<RecordView>,
    positions: Map<u128, usize>,
    document_id: DocumentId,
) -> bool {
    match position(records, document_id) {
        Some(i) => positions.contains_key(document_id.value) && positions[document_id.value] == i,
        None => !positions.contains_key(document_id.value),
    }
}

/// Whether a table finds every document of a list, and no other, at its position.
pub open spec fn finds_all(records: Seq<RecordView>, positions: Map<u128, usize>) -> bool {
    forall|document_id: DocumentId| #[trigger] finds(records, positions, document_id)
}

/// Whether every identity of a list occurs in it once.
pub open spec fn distinct(records: Seq<RecordView>) -> bool {
    forall|i: int, j: int|
        0 <= i < j < records.len() ==> (#[trigger] records[i]).metadata.document_id != (
        #[trigger] records[j]).metadata.document_id
}

/// Whether a record stands at the only path for its classification and metadata, is classified by
/// that path, and is marked as archived exactly where it stands in an archive.
pub open spec fn is_canonical(record: RecordView, names: NameRules) -> bool {
    &&& classified(record.relative_path, names) == Some(record.location)
    &&& record.relative_path == document_path(
        record.location,
        record.metadata.created,
        record.metadata.document_id,
    )
    &&& record.location.archived == (record.metadata.status == DocumentStatus::Archived)
}

/// What a scan of a content tree has gathered.
pub struct Gathered {
    /// The documents, in the order in which they were met.
    pub records: Seq<RecordView>,
    /// The attachments, in the order in which they were met.
    pub attachments: Seq<Seq<Seq<char>>>,
    /// The number of entries met.
    pub entries: int,
    /// The number of Markdown bytes met.
    pub total: u64,
}

/// The rules of a scan.
#[derive(Clone, Copy)]
pub struct ScanRules<'a> {
    /// Limits on the content tree.
    pub policy: &'a ContentPolicy,
    /// Limits on attachments.
    pub limits: &'a PackageLimits,
    /// Acceptable names.
    pub names: &'a NameRules,
}

impl<'a> ScanRules<'a> {
    /// Whether a reading of the monotonic clock is past the deadline.
    pub open spec fn expired(self, reading: u64) -> bool {
        self.policy.scan_deadline matches Some(deadline) && reading >= deadline
    }

    /// Whether a reading of the monotonic clock is past the deadline.
    fn has_expired(&self, reading: u64) -> (result: bool)
        ensures
            result == self.expired(reading),
    {
        match self.policy.scan_deadline {
            Some(deadline) => reading >= deadline,
            None => false,
        }
    }
}

/// What is gathered once a record is added: an identity may occur only once.
pub open spec fn with_record(gathered: Gathered, record: RecordView, total: u64) -> Result<
    Gathered,
    IndexFailure,
> {
    match position(gathered.records, record.metadata.document_id) {
        Some(first) => Err(
            ContentIndexError::DuplicateDocumentId {
                document_id: record.metadata.document_id,
                first_path: gathered.records[first].relative_path,
                second_path: record.relative_path,
            },
        ),
        None => Ok(Gathered { records: gathered.records.push(record), total, ..gathered }),
    }
}

/// What is gathered once one entry of a directory is visited.
pub open spec fn visited(
    gathered: Gathered,
    directory: Seq<Seq<char>>,
    entry: ContentEntry,
    rules: ScanRules,
) -> Result<Gathered, IndexFailure> {
    let counted = Gathered { entries: gathered.entries + 1, ..gathered };
    let path = directory.push(decode_utf8(entry.name@));
    if rules.expired(entry.observed_at) {
        Err(ContentIndexError::ScanDeadlineExceeded)
    } else if !valid_utf8(entry.name@) {
        Err(ContentIndexError::InvalidPathEncoding { directory, name: entry.name@ })
    } else {
        match entry.facts {
            EntryFacts::Directory => Ok(counted),
            EntryFacts::Unlisted(_) => Ok(counted),
            EntryFacts::Special => Err(ContentIndexError::InvalidEntryType(path)),
            EntryFacts::Unreadable(reason) => Err(ContentIndexError::Io(reason@)),
            EntryFacts::File(file) => match file_found(
                path,
                file,
                gathered.total,
                *rules.policy,
                *rules.limits,
                *rules.names,
            ) {
                Err(failure) => Err(failure),
                Ok(Inspected::Attachment) => Ok(
                    Gathered { attachments: counted.attachments.push(path), ..counted },
                ),
                Ok(Inspected::Document { record, total }) => with_record(counted, record, total),
            },
        }
    }
}

/// The raw name of the repository metadata: `.git`.
pub open spec fn repository_name() -> Seq<u8> {
    seq![46u8, 103u8, 105u8, 116u8]
}

/// The entries among the first `count` that a scan looks at, in the byte order of their names.
/// The repository metadata at the content root is passed over.
pub open spec fn visiting_order(children: Seq<ContentEntry>, root: bool, count: nat) -> Seq<int>
    decreases count,
{
    if count == 0 {
        Seq::empty()
    } else {
        let earlier = visiting_order(children, root, (count - 1) as nat);
        if root && children[count - 1].name@ == repository_name() {
            earlier
        } else {
            inserted(children, earlier, count - 1)
        }
    }
}

/// The order with one more entry, behind all that do not come after it.
pub open spec fn inserted(children: Seq<ContentEntry>, order: Seq<int>, entry: int) -> Seq<int>
    decreases order.len(),
{
    if order.len() > 0 && bytes_before(children[entry].name@, children[order.last()].name@, 0) {
        inserted(children, order.drop_last(), entry).push(order.last())
    } else {
        order.push(entry)
    }
}

/// What is gathered once the entries of a directory from position `next` on are visited.
pub open spec fn visited_all(
    gathered: Gathered,
    directory: Seq<Seq<char>>,
    children: Seq<ContentEntry>,
    order: Seq<int>,
    next: int,
    rules: ScanRules,
) -> Result<Gathered, IndexFailure>
    decreases order.len() - next,
{
    if next >= order.len() {
        Ok(gathered)
    } else {
        match visited(gathered, directory, children[order[next]], rules) {
            Err(failure) => Err(failure),
            Ok(after) => visited_all(after, directory, children, order, next + 1, rules),
        }
    }
}

/// What is gathered once a directory and all below it are scanned: first its own entries, then
/// its subdirectories, each in the byte order of their names.
pub open spec fn scanned(
    gathered: Gathered,
    directory: Seq<Seq<char>>,
    node: ContentEntry,
    rules: ScanRules,
) -> Result<Gathered, IndexFailure>
    decreases node, node.children@.len() + 1,
{
    let order = visiting_order(node.children@, directory.len() == 0, node.children@.len());
    if rules.expired(node.listed_at) {
        Err(ContentIndexError::ScanDeadlineExceeded)
    } else if let EntryFacts::Unlisted(reason) = node.facts {
        Err(ContentIndexError::Io(reason@))
    } else if gathered.entries + order.len() > rules.policy.maximum_entry_count {
        Err(
            ContentIndexError::EntryLimitExceeded { maximum: rules.policy.maximum_entry_count },
        )
    } else {
        match visited_all(gathered, directory, node.children@, order, 0, rules) {
            Err(failure) => Err(failure),
            Ok(after) => descended(after, directory, node, order, 0, rules),
        }
    }
}

/// What is gathered once the subdirectories from position `next` on are scanned.
pub open spec fn descended(
    gathered: Gathered,
    directory: Seq<Seq<char>>,
    node: ContentEntry,
    order: Seq<int>,
    next: int,
    rules: ScanRules,
) -> Result<Gathered, IndexFailure>
    decreases
            node,
            (if 0 <= next <= order.len() && order.len() <= node.children@.len() {
                order.len() - next
            } else {
                0
            }),
{
    if next < 0 || next >= order.len() || order.len() > node.children@.len() || !(0 <= order[next]
        < node.children@.len()) {
        Ok(gathered)
    } else {
        let child = node.children@[order[next]];
        let after = if valid_utf8(child.name@) && (child.facts is Directory
            || child.facts is Unlisted) {
            scanned(gathered, directory.push(decode_utf8(child.name@)), child, rules)
        } else {
            Ok(gathered)
        };
        match after {
            Err(failure) => Err(failure),
            Ok(after) => descended(after, directory, node, order, next + 1, rules),
        }
    }
}

/// What a scan of a content tree has gathered.
struct Scan {
    records: Vec<DocumentRecord>,
    positions: HashMap<u128, usize>,
    attachments: Vec<ContentPath>,
    entries: usize,
    total: u64,
}

impl View for Scan {
    type V = Gathered;

    closed spec fn view(&self) -> Gathered {
        Gathered {
            records: record_views(self.records@),
            attachments: path_views(self.attachments@),
            entries: self.entries as int,
            total: self.total,
        }
    }
}

/// Whether an entry is the repository metadata.
fn is_repository_metadata(name: &Vec<u8>) -> (result: bool)
    ensures
        result == (name@ == repository_name()),
{
    let result = name.len() == 4 && name[0] == 46 && name[1] == 103 && name[2] == 105 && name[3]
        == 116;
    if result {
        assert(name@ =~= repository_name());
    }
    result
}

proof fn inserted_at(children: Seq<ContentEntry>, order: Seq<int>, entry: int, at: int)
    requires
        0 <= at <= order.len(),
        forall|i: int|
            at <= i < order.len() ==> bytes_before(
                children[entry].name@,
                children[#[trigger] order[i]].name@,
                0,
            ),
        at > 0 ==> !bytes_before(children[entry].name@, children[order[at - 1]].name@, 0),
    ensures
        inserted(children, order, entry) == order.insert(at, entry),
    decreases order.len(),
{
    if at < order.len() {
        assert(bytes_before(children[entry].name@, children[order[order.len() - 1]].name@, 0));
        inserted_at(children, order.drop_last(), entry, at);
        assert(inserted(children, order, entry) =~= order.insert(at, entry));
    } else {
        assert(order.push(entry) =~= order.insert(at, entry));
    }
}

pub(crate) proof fn visiting_order_is_in_range(children: Seq<ContentEntry>, root: bool, count: nat)
    requires
        count <= children.len(),
    ensures
        visiting_order(children, root, count).len() <= count,
        forall|i: int|
            0 <= i < visiting_order(children, root, count).len() ==> 0 <= #[trigger] visiting_order(
                children,
                root,
                count,
            )[i] < count,
    decreases count,
{
    if count > 0 {
        let earlier = visiting_order(children, root, (count - 1) as nat);
        visiting_order_is_in_range(children, root, (count - 1) as nat);
        inserted_is_in_range(children, earlier, count - 1, count as int);
    }
}

proof fn inserted_is_in_range(
    children: Seq<ContentEntry>,
    order: Seq<int>,
    entry: int,
    bound: int,
)
    requires
        0 <= entry < bound,
        forall|i: int| 0 <= i < order.len() ==> 0 <= #[trigger] order[i] < bound,
    ensures
        inserted(children, order, entry).len() == order.len() + 1,
        forall|i: int|
            0 <= i <= order.len() ==> 0 <= #[trigger] inserted(children, order, entry)[i] < bound,
    decreases order.len(),
{
    if order.len() > 0 {
        inserted_is_in_range(children, order.drop_last(), entry, bound);
    }
}

/// The entries of a directory that a scan looks at, in the byte order of their names.
fn ordered(children: &Vec<ContentEntry>, root: bool) -> (order: Vec<usize>)
    ensures
        order@.map_values(|i: usize| i as int) == visiting_order(
            children@,
            root,
            children@.len(),
        ),
        order@.len() <= children@.len(),
        forall|i: int| 0 <= i < order@.len() ==> #[trigger] order@[i] < children@.len(),
{
    let mut order: Vec<usize> = Vec::new();
    let mut count: usize = 0;
    assert(order@.map_values(|i: usize| i as int) =~= visiting_order(children@, root, 0));
    while count < children.len()
        invariant
            count <= children@.len(),
            order@.map_values(|i: usize| i as int) == visiting_order(
                children@,
                root,
                count as nat,
            ),
        decreases children@.len() - count,
    {
        let ghost earlier = visiting_order(children@, root, count as nat);
        proof {
            visiting_order_is_in_range(children@, root, count as nat);
            assert(earlier.len() == order@.len());
        }
        if !(root && is_repository_metadata(&children[count].name)) {
            let mut at: usize = order.len();
            while at > 0 && before(
                children[count].name.as_slice(),
                children[order[at - 1]].name.as_slice(),
            )
                invariant
                    at <= order@.len(),
                    count < children@.len(),
                    order@.map_values(|i: usize| i as int) == earlier,
                    forall|i: int| 0 <= i < earlier.len() ==> 0 <= #[trigger] earlier[i] < count,
                    forall|i: int|
                        at <= i < earlier.len() ==> bytes_before(
                            children@[count as int].name@,
                            children@[#[trigger] earlier[i]].name@,
                            0,
                        ),
                    forall|i: int| 0 <= i < order@.len() ==> earlier[i] == #[trigger] order@[i],
                decreases at,
            {
                assert(earlier[at - 1] == order@[at - 1]);
                at -= 1;
            }
            proof {
                if at > 0 {
                    assert(earlier[at - 1] == order@[at - 1]);
                }
                inserted_at(children@, earlier, count as int, at as int);
            }
            order.insert(at, count);
            assert(order@.map_values(|i: usize| i as int) =~= earlier.insert(
                at as int,
                count as int,
            ));
        }
        count += 1;
    }
    proof {
        visiting_order_is_in_range(children@, root, children@.len());
        let all = visiting_order(children@, root, children@.len());
        assert forall|i: int| 0 <= i < order@.len() implies #[trigger] order@[i]
            < children@.len() by {
            assert(all[i] == order@[i]);
        }
    }
    order
}

impl Scan {
    /// Whether the table finds every record, no identity occurs twice and all records are
    /// canonical.
    spec fn wf(self, names: NameRules) -> bool {
        &&& finds_all(record_views(self.records@), self.positions@)
        &&& distinct(record_views(self.records@))
        &&& forall|i: int|
            0 <= i < self.records@.len() ==> is_canonical(
                #[trigger] record_views(self.records@)[i],
                names,
            )
        &&& forall|i: int|
            0 <= i < self.attachments@.len() ==> (#[trigger] self.attachments@[i])@.len() > 0
    }

    /// Adds a record, unless its identity is taken.
    fn add_record(&mut self, record: DocumentRecord, total: u64, names: &NameRules) -> (result:
        Result<(), ContentIndexError>)
        requires
            old(self).wf(*names),
            is_canonical(record@, *names),
        ensures
            match result {
                Ok(()) => final(self).wf(*names) && with_record(old(self)@, record@, total) == Ok::<
                    Gathered,
                    IndexFailure,
                >(final(self)@),
                Err(error) => with_record(old(self)@, record@, total) == Err::<
                    Gathered,
                    IndexFailure,
                >(error@),
            },
    {
        let document_id = record.metadata.document_id;
        proof {
            position_is_in_range(record_views(self.records@), document_id);
            assert(finds(record_views(self.records@), self.positions@, document_id));
        }
        if let Some(first) = self.positions.get(&document_id.value) {
            return Err(
                ContentIndexError::DuplicateDocumentId {
                    document_id,
                    first_path: self.records[*first].relative_path.clone(),
                    second_path: record.relative_path,
                },
            );
        }
        let ghost earlier = record_views(self.records@);
        let at: usize = self.records.len();
        self.positions.insert(document_id.value, at);
        self.records.push(record);
        self.total = total;
        proof {
            let later = record_views(self.records@);
            assert(later =~= earlier.push(record@));
            assert(later.drop_last() =~= earlier);
            assert forall|other: DocumentId| #[trigger] finds(later, self.positions@, other) by {
                assert(finds(earlier, old(self).positions@, other));
                assert(other.value == document_id.value ==> other == document_id);
            }
        }
        Ok(())
    }
}

/// What a step of a scan stands for.
spec fn step_is(
    result: Result<(), ContentIndexError>,
    after: Gathered,
    expected: Result<Gathered, IndexFailure>,
) -> bool {
    match result {
        Ok(()) => expected == Ok::<Gathered, IndexFailure>(after),
        Err(error) => expected == Err::<Gathered, IndexFailure>(error@),
    }
}

impl Scan {
    /// Visits one entry of a directory.
    fn visit(&mut self, directory: &ContentPath, entry: &ContentEntry, rules: ScanRules) -> (result:
        Result<(), ContentIndexError>)
        requires
            old(self).wf(*rules.names),
            old(self).entries < usize::MAX,
        ensures
            step_is(result, final(self)@, visited(old(self)@, directory@, *entry, rules)),
            result is Ok ==> final(self).wf(*rules.names),
            result is Ok ==> final(self).entries == old(self).entries + 1,
    {
        if rules.has_expired(entry.observed_at) {
            return Err(ContentIndexError::ScanDeadlineExceeded);
        }
        self.entries += 1;
        let name = match utf8_text(entry.name.as_slice()) {
            Some(name) => name,
            None => {
                return Err(
                    ContentIndexError::InvalidPathEncoding {
                        directory: directory.clone(),
                        name: copy_bytes(&entry.name),
                    },
                );
            },
        };
        proof {
            vstd::utf8::encode_utf8_decode_utf8(name@);
        }
        let path = directory.child(name);
        match &entry.facts {
            EntryFacts::Directory => Ok(()),
            EntryFacts::Unlisted(_) => Ok(()),
            EntryFacts::Special => Err(ContentIndexError::InvalidEntryType(path)),
            EntryFacts::Unreadable(reason) => Err(ContentIndexError::Io(reason.clone())),
            EntryFacts::File(file) => {
                match inspect_file(&path, file, self.total, rules.policy, rules.limits, rules.names) {
                    Err(error) => Err(error),
                    Ok(Inspected::Attachment) => {
                        let ghost before = self.attachments@;
                        self.attachments.push(path);
                        assert(path_views(self.attachments@) =~= path_views(before).push(path@));
                        Ok(())
                    },
                    Ok(Inspected::Document { record, total }) => self.add_record(
                        record,
                        total,
                        rules.names,
                    ),
                }
            },
        }
    }

    /// Scans a directory and all below it.
    #[verifier::loop_isolation(false)]
    fn scan(&mut self, directory: &ContentPath, node: &ContentEntry, rules: ScanRules) -> (result:
        Result<(), ContentIndexError>)
        requires
            old(self).wf(*rules.names),
        ensures
            step_is(result, final(self)@, scanned(old(self)@, directory@, *node, rules)),
            result is Ok ==> final(self).wf(*rules.names),
        decreases node, 1int,
    {
        if rules.has_expired(node.listed_at) {
            return Err(ContentIndexError::ScanDeadlineExceeded);
        }
        if let EntryFacts::Unlisted(reason) = &node.facts {
            return Err(ContentIndexError::Io(reason.clone()));
        }
        let order = ordered(&node.children, directory.len() == 0);
        let maximum: usize = rules.policy.maximum_entry_count;
        if self.entries > maximum || order.len() > maximum - self.entries {
            return Err(ContentIndexError::EntryLimitExceeded { maximum });
        }
        let ghost start = self@;
        let ghost sequence = order@.map_values(|i: usize| i as int);
        let mut next: usize = 0;
        while next < order.len()
            invariant
                next <= order@.len(),
                sequence == order@.map_values(|i: usize| i as int),
                forall|i: int| 0 <= i < order@.len() ==> #[trigger] order@[i] < node.children@.len(),
                self.wf(*rules.names),
                self.entries + (order@.len() - next) <= usize::MAX,
                visited_all(start, directory@, node.children@, sequence, 0, rules) == visited_all(
                    self@,
                    directory@,
                    node.children@,
                    sequence,
                    next as int,
                    rules,
                ),
            decreases order@.len() - next,
        {
            let at: usize = order[next];
            assert(sequence[next as int] == at as int);
            if let Err(error) = self.visit(directory, &node.children[at], rules) {
                return Err(error);
            }
            next += 1;
        }
        self.descend(directory, node, &order, rules)
    }

    /// Scans the subdirectories of a directory in order.
    #[verifier::loop_isolation(false)]
    fn descend(
        &mut self,
        directory: &ContentPath,
        node: &ContentEntry,
        order: &Vec<usize>,
        rules: ScanRules,
    ) -> (result: Result<(), ContentIndexError>)
        requires
            old(self).wf(*rules.names),
            order@.len() <= node.children@.len(),
            forall|i: int| 0 <= i < order@.len() ==> #[trigger] order@[i] < node.children@.len(),
        ensures
            step_is(
                result,
                final(self)@,
                descended(
                    old(self)@,
                    directory@,
                    *node,
                    order@.map_values(|i: usize| i as int),
                    0,
                    rules,
                ),
            ),
            result is Ok ==> final(self).wf(*rules.names),
        decreases node, 0int,
    {
        let ghost start = self@;
        let ghost sequence = order@.map_values(|i: usize| i as int);
        let mut next: usize = 0;
        while next < order.len()
            invariant
                next <= order@.len() <= node.children@.len(),
                sequence == order@.map_values(|i: usize| i as int),
                forall|i: int| 0 <= i < order@.len() ==> #[trigger] order@[i] < node.children@.len(),
                self.wf(*rules.names),
                descended(start, directory@, *node, sequence, 0, rules) == descended(
                    self@,
                    directory@,
                    *node,
                    sequence,
                    next as int,
                    rules,
                ),
            decreases order@.len() - next,
        {
            let at: usize = order[next];
            assert(sequence[next as int] == at as int);
            let child = &node.children[at];
            assert(decreases_to!(node => node.children@[at as int]));
            let enters = match &child.facts {
                EntryFacts::Directory => true,
                EntryFacts::Unlisted(_) => true,
                _ => false,
            };
            if enters {
                match utf8_text(child.name.as_slice()) {
                    Some(name) => {
                        proof {
                            vstd::utf8::encode_utf8_decode_utf8(name@);
                        }
                        let path = directory.child(name);
                        if let Err(error) = self.scan(&path, child, rules) {
                            return Err(error);
                        }
                    },
                    None => {},
                }
            }
            next += 1;
        }
        Ok(())
    }
}

/// Whether a path is that of a project asset.
pub open spec fn is_asset(path: Seq<Seq<char>>, limits: PackageLimits, names: NameRules) -> bool {
    &&& path.len() >= 4
    &&& path[0] == "projects"@
    &&& path[2] == "assets"@
    &&& path.len() - 3 <= limits.maximum_path_components
    &&& names.is_project(path[1])
    &&& forall|i: int| 3 <= i < path.len() ==> names.is_attachment(#[trigger] path[i])
    &&& names.is_payload_path(slashed(path.skip(3)))
}

/// Whether a path is that of a project asset.
fn is_project_asset(path: &ContentPath, limits: &PackageLimits, names: &NameRules) -> (result: bool)
    ensures
        result == is_asset(path@, *limits, *names),
{
    let count: usize = path.len();
    if count < 4 || !path.component_is(0, "projects") || !path.component_is(2, "assets") || count
        - 3 > limits.maximum_path_components || !holds_text(
        &names.projects,
        path.component(1).as_str(),
    ) {
        return false;
    }
    let mut i: usize = 3;
    while i < count
        invariant
            3 <= i <= count,
            count == path@.len(),
            forall|j: int| 3 <= j < i ==> names.is_attachment(#[trigger] path@[j]),
        decreases count - i,
    {
        if !holds_text(&names.attachments, path.component(i).as_str()) {
            return false;
        }
        i += 1;
    }
    let rest = path.rebase(3, &ContentPath::root());
    assert(rest@ =~= path@.skip(3));
    holds_text(&names.payload_paths, rest.text().as_str())
}

/// Whether a path stands in the directory of a document.
pub open spec fn beside_document(path: Seq<Seq<char>>, records: Seq<RecordView>) -> bool {
    exists|i: int|
        0 <= i < records.len() && (#[trigger] records[i]).relative_path.drop_last()
            == path.drop_last() && records[i].relative_path.len() > 0
}

/// Why an attachment may not stand where it is, if so.
pub open spec fn misplaced(
    path: Seq<Seq<char>>,
    records: Seq<RecordView>,
    limits: PackageLimits,
    names: NameRules,
) -> Option<IndexFailure> {
    if !names.is_attachment(path.last()) {
        Some(ContentIndexError::InvalidAttachmentPath(path))
    } else if !beside_document(path, records) && !is_asset(path, limits, names) {
        Some(ContentIndexError::OrphanAttachment(path))
    } else {
        None
    }
}

/// Why the first of the attachments from `next` on that may not stand where it is may not.
pub open spec fn first_misplaced(
    attachments: Seq<Seq<Seq<char>>>,
    records: Seq<RecordView>,
    limits: PackageLimits,
    names: NameRules,
    next: int,
) -> Option<IndexFailure>
    decreases attachments.len() - next,
{
    if next >= attachments.len() {
        None
    } else {
        match misplaced(attachments[next], records, limits, names) {
            Some(failure) => Some(failure),
            None => first_misplaced(attachments, records, limits, names, next + 1),
        }
    }
}

/// Checks that each attachment stands beside a document or in project assets.
fn validate_attachment_locations(
    attachments: &Vec<ContentPath>,
    records: &Vec<DocumentRecord>,
    limits: &PackageLimits,
    names: &NameRules,
) -> (result: Result<(), ContentIndexError>)
    requires
        forall|i: int| 0 <= i < attachments@.len() ==> (#[trigger] attachments@[i])@.len() > 0,
    ensures
        match result {
            Ok(()) => first_misplaced(
                path_views(attachments@),
                record_views(records@),
                *limits,
                *names,
                0,
            ) is None,
            Err(error) => first_misplaced(
                path_views(attachments@),
                record_views(records@),
                *limits,
                *names,
                0,
            ) == Some(error@),
        },
{
    let mut directories: Vec<ContentPath> = Vec::new();
    let ghost views = record_views(records@);
    let mut i: usize = 0;
    while i < records.len()
        invariant
            i <= records@.len(),
            views == record_views(records@),
            forall|d: Seq<Seq<char>>| #[trigger]
                path_views(directories@).contains(d) <==> exists|j: int|
                    0 <= j < i && (#[trigger] views[j]).relative_path.drop_last() == d
                        && views[j].relative_path.len() > 0,
        decreases records@.len() - i,
    {
        let ghost earlier = path_views(directories@);
        if let Some(parent) = records[i].relative_path.parent() {
            directories.push(parent);
            proof {
                let later = path_views(directories@);
                assert(later =~= earlier.push(parent@));
                assert forall|d: Seq<Seq<char>>| #[trigger] later.contains(d) <==> exists|j: int|
                    0 <= j < i + 1 && (#[trigger] views[j]).relative_path.drop_last() == d
                        && views[j].relative_path.len() > 0 by {
                    assert(views[i as int].relative_path.drop_last() == parent@);
                    if later.contains(d) {
                        let k = choose|k: int| 0 <= k < later.len() && later[k] == d;
                        if k < earlier.len() {
                            assert(earlier[k] == d);
                            assert(earlier.contains(d));
                        } else {
                            assert(d == parent@);
                        }
                    }
                    if earlier.contains(d) {
                        let k = choose|k: int| 0 <= k < earlier.len() && earlier[k] == d;
                        assert(later[k] == d);
                    }
                    if d == parent@ {
                        assert(later[earlier.len() as int] == d);
                    }
                }
            }
        }
        i += 1;
    }
    let mut next: usize = 0;
    while next < attachments.len()
        invariant
            next <= attachments@.len(),
            views == record_views(records@),
            forall|j: int| 0 <= j < attachments@.len() ==> (#[trigger] attachments@[j])@.len() > 0,
            forall|d: Seq<Seq<char>>| #[trigger]
                path_views(directories@).contains(d) <==> exists|j: int|
                    0 <= j < records@.len() && (#[trigger] views[j]).relative_path.drop_last() == d
                        && views[j].relative_path.len() > 0,
            first_misplaced(path_views(attachments@), views, *limits, *names, 0)
                == first_misplaced(path_views(attachments@), views, *limits, *names, next as int),
        decreases attachments@.len() - next,
    {
        let attachment = &attachments[next];
        assert(path_views(attachments@)[next as int] == attachment@);
        let name = attachment.component(attachment.len() - 1);
        if !holds_text(&names.attachments, name.as_str()) {
            return Err(ContentIndexError::InvalidAttachmentPath(attachment.clone()));
        }
        let beside = match attachment.parent() {
            Some(parent) => holds_path(&directories, &parent),
            None => false,
        };
        assert(beside == beside_document(attachment@, views));
        if !beside && !is_project_asset(attachment, limits, names) {
            return Err(ContentIndexError::OrphanAttachment(attachment.clone()));
        }
        next += 1;
    }
    Ok(())
}

/// The record of a document in a list, if it is there.
pub open spec fn lookup(records: Seq<RecordView>, document_id: DocumentId) -> Option<RecordView> {
    match position(records, document_id) {
        Some(i) => Some(records[i]),
        None => None,
    }
}

/// A record is found exactly where a list with distinct identities holds it.
pub proof fn lookup_finds_records(records: Seq<RecordView>, document_id: DocumentId)
    requires
        distinct(records),
    ensures
        forall|i: int|
            0 <= i < records.len() && (#[trigger] records[i]).metadata.document_id == document_id
                ==> lookup(records, document_id) == Some(records[i]),
        lookup(records, document_id) matches Some(record) ==> records.contains(record)
            && record.metadata.document_id == document_id,
{
    position_is_in_range(records, document_id);
}

/// What a scan has gathered before it begins.
pub open spec fn nothing_gathered() -> Gathered {
    Gathered { records: Seq::empty(), attachments: Seq::empty(), entries: 0, total: 0 }
}

/// The result of indexing a content tree.
pub open spec fn indexed(root: ContentEntry, rules: ScanRules) -> Result<
    Seq<RecordView>,
    IndexFailure,
> {
    match root.facts {
        EntryFacts::Unreadable(reason) => Err(ContentIndexError::Io(reason@)),
        EntryFacts::File(_) => Err(ContentIndexError::InvalidRoot),
        EntryFacts::Special => Err(ContentIndexError::InvalidRoot),
        _ => match scanned(nothing_gathered(), Seq::empty(), root, rules) {
            Err(failure) => Err(failure),
            Ok(gathered) => match first_misplaced(
                gathered.attachments,
                gathered.records,
                *rules.limits,
                *rules.names,
                0,
            ) {
                Some(failure) => Err(failure),
                None => Ok(gathered.records),
            },
        },
    }
}

/// The attachments among the entries of a directory from position `next` on.
pub open spec fn own_attachments(
    directory: Seq<Seq<char>>,
    children: Seq<ContentEntry>,
    order: Seq<int>,
    next: int,
) -> Seq<AttachmentView>
    decreases order.len() - next,
{
    if next >= order.len() {
        Seq::empty()
    } else {
        let child = children[order[next]];
        let name = decode_utf8(child.name@);
        let later = own_attachments(directory, children, order, next + 1);
        match child.facts {
            EntryFacts::File(file) => if valid_utf8(child.name@) && !is_markdown(name) {
                seq![
                    AttachmentRecord {
                        relative_path: directory.push(name),
                        byte_length: file.length,
                    },
                ] + later
            } else {
                later
            },
            _ => later,
        }
    }
}

/// The attachments in a directory and all below it: first its own, then those of its
/// subdirectories, each in the byte order of their names.
pub open spec fn tree_attachments(directory: Seq<Seq<char>>, node: ContentEntry) -> Seq<
    AttachmentView,
>
    decreases node, node.children@.len() + 1,
{
    let order = visiting_order(node.children@, directory.len() == 0, node.children@.len());
    own_attachments(directory, node.children@, order, 0) + attachments_below(
        directory,
        node,
        order,
        0,
    )
}

/// The attachments below the subdirectories from position `next` on.
pub open spec fn attachments_below(
    directory: Seq<Seq<char>>,
    node: ContentEntry,
    order: Seq<int>,
    next: int,
) -> Seq<AttachmentView>
    decreases
            node,
            (if 0 <= next <= order.len() && order.len() <= node.children@.len() {
                order.len() - next
            } else {
                0
            }),
{
    if next < 0 || next >= order.len() || order.len() > node.children@.len() || !(0 <= order[next]
        < node.children@.len()) {
        Seq::empty()
    } else {
        let child = node.children@[order[next]];
        let first = if valid_utf8(child.name@) && (child.facts is Directory
            || child.facts is Unlisted) {
            tree_attachments(directory.push(decode_utf8(child.name@)), child)
        } else {
            Seq::empty()
        };
        first + attachments_below(directory, node, order, next + 1)
    }
}

/// The paths of attachments.
pub open spec fn attachment_paths(attachments: Seq<AttachmentView>) -> Seq<Seq<Seq<char>>> {
    attachments.map_values(|attachment: AttachmentView| attachment.relative_path)
}

/// Gathers the attachments in a directory and all below it.
#[verifier::loop_isolation(false)]
fn gather_attachments(
    directory: &ContentPath,
    node: &ContentEntry,
    gathered: &mut Vec<AttachmentRecord>,
)
    ensures
        attachment_views(final(gathered)@) == attachment_views(old(gathered)@) + tree_attachments(
            directory@,
            *node,
        ),
    decreases node, 1int,
{
    let order = ordered(&node.children, directory.len() == 0);
    let ghost start = attachment_views(gathered@);
    let ghost sequence = order@.map_values(|i: usize| i as int);
    let ghost own = own_attachments(directory@, node.children@, sequence, 0);
    let mut next: usize = 0;
    assert(start + own =~= attachment_views(gathered@) + own);
    while next < order.len()
        invariant
            next <= order@.len(),
            sequence == order@.map_values(|i: usize| i as int),
            forall|i: int| 0 <= i < order@.len() ==> #[trigger] order@[i] < node.children@.len(),
            start + own == attachment_views(gathered@) + own_attachments(
                directory@,
                node.children@,
                sequence,
                next as int,
            ),
        decreases order@.len() - next,
    {
        let at: usize = order[next];
        assert(sequence[next as int] == at as int);
        let child = &node.children[at];
        let ghost before = attachment_views(gathered@);
        let ghost later = own_attachments(directory@, node.children@, sequence, next + 1);
        if let EntryFacts::File(file) = &child.facts {
            if let Some(name) = utf8_text(child.name.as_slice()) {
                proof {
                    vstd::utf8::encode_utf8_decode_utf8(name@);
                }
                if !markdown_name(&name) {
                    let added = AttachmentRecord {
                        relative_path: directory.child(name),
                        byte_length: file.length,
                    };
                    gathered.push(added);
                    assert(attachment_views(gathered@) =~= before.push(added@));
                    assert(before + (seq![added@] + later) =~= before.push(added@) + later);
                }
            }
        }
        next += 1;
    }
    assert(attachment_views(gathered@) =~= start + own);
    gather_below(directory, node, &order, gathered);
    assert(attachment_views(gathered@) =~= start + tree_attachments(directory@, *node));
}

/// Gathers the attachments below the subdirectories of a directory.
#[verifier::loop_isolation(false)]
fn gather_below(
    directory: &ContentPath,
    node: &ContentEntry,
    order: &Vec<usize>,
    gathered: &mut Vec<AttachmentRecord>,
)
    requires
        order@.len() <= node.children@.len(),
        forall|i: int| 0 <= i < order@.len() ==> #[trigger] order@[i] < node.children@.len(),
    ensures
        attachment_views(final(gathered)@) == attachment_views(old(gathered)@) + attachments_below(
            directory@,
            *node,
            order@.map_values(|i: usize| i as int),
            0,
        ),
    decreases node, 0int,
{
    let ghost start = attachment_views(gathered@);
    let ghost sequence = order@.map_values(|i: usize| i as int);
    let ghost below = attachments_below(directory@, *node, sequence, 0);
    let mut next: usize = 0;
    while next < order.len()
        invariant
            next <= order@.len() <= node.children@.len(),
            sequence == order@.map_values(|i: usize| i as int),
            forall|i: int| 0 <= i < order@.len() ==> #[trigger] order@[i] < node.children@.len(),
            start + below == attachment_views(gathered@) + attachments_below(
                directory@,
                *node,
                sequence,
                next as int,
            ),
        decreases order@.len() - next,
    {
        let at: usize = order[next];
        assert(sequence[next as int] == at as int);
        let child = &node.children[at];
        assert(decreases_to!(node => node.children@[at as int]));
        let ghost before = attachment_views(gathered@);
        let ghost later = attachments_below(directory@, *node, sequence, next + 1);
        let enters = match &child.facts {
            EntryFacts::Directory => true,
            EntryFacts::Unlisted(_) => true,
            _ => false,
        };
        let mut entered = false;
        if enters {
            if let Some(name) = utf8_text(child.name.as_slice()) {
                proof {
                    vstd::utf8::encode_utf8_decode_utf8(name@);
                }
                let path = directory.child(name);
                gather_attachments(&path, child, gathered);
                entered = true;
                assert(before + (tree_attachments(path@, *child) + later) =~= attachment_views(
                    gathered@,
                ) + later);
            }
        }
        if !entered {
            assert(before + (Seq::<AttachmentView>::empty() + later) =~= before + later);
        }
        next += 1;
    }
    assert(attachment_views(gathered@) =~= start + below);
}

/// The attachments of a content tree, in the order in which a scan meets them.
pub fn attachments_of(root: &ContentEntry) -> (attachments: Vec<AttachmentRecord>)
    ensures
        attachment_views(attachments@) == tree_attachments(Seq::empty(), *root),
{
    let mut attachments: Vec<AttachmentRecord> = Vec::new();
    let path = ContentPath::root();
    assert(path@ =~= Seq::<Seq<char>>::empty());
    gather_attachments(&path, root, &mut attachments);
    assert(attachment_views(attachments@) =~= tree_attachments(Seq::empty(), *root));
    attachments
}

proof fn visited_attachments(
    gathered: Gathered,
    directory: Seq<Seq<char>>,
    children: Seq<ContentEntry>,
    order: Seq<int>,
    next: int,
    rules: ScanRules,
)
    ensures
        visited_all(gathered, directory, children, order, next, rules) matches Ok(after)
            ==> after.attachments == gathered.attachments + attachment_paths(
            own_attachments(directory, children, order, next),
        ),
    decreases order.len() - next,
{
    let own = own_attachments(directory, children, order, next);
    if next >= order.len() {
        assert(gathered.attachments + attachment_paths(own) =~= gathered.attachments);
    } else {
        let later = own_attachments(directory, children, order, next + 1);
        if let Ok(after) = visited(gathered, directory, children[order[next]], rules) {
            visited_attachments(after, directory, children, order, next + 1, rules);
            assert(after.attachments + attachment_paths(later) =~= gathered.attachments
                + attachment_paths(own));
        }
    }
}

proof fn scanned_attachments(
    gathered: Gathered,
    directory: Seq<Seq<char>>,
    node: ContentEntry,
    rules: ScanRules,
)
    ensures
        scanned(gathered, directory, node, rules) matches Ok(after) ==> after.attachments
            == gathered.attachments + attachment_paths(tree_attachments(directory, node)),
    decreases node, node.children@.len() + 1,
{
    let order = visiting_order(node.children@, directory.len() == 0, node.children@.len());
    visited_attachments(gathered, directory, node.children@, order, 0, rules);
    if let Ok(after) = visited_all(gathered, directory, node.children@, order, 0, rules) {
        visiting_order_is_in_range(node.children@, directory.len() == 0, node.children@.len());
        descended_attachments(after, directory, node, order, 0, rules);
        let own = own_attachments(directory, node.children@, order, 0);
        let below = attachments_below(directory, node, order, 0);
        assert(after.attachments + attachment_paths(below) =~= gathered.attachments
            + attachment_paths(own + below));
    }
}

proof fn descended_attachments(
    gathered: Gathered,
    directory: Seq<Seq<char>>,
    node: ContentEntry,
    order: Seq<int>,
    next: int,
    rules: ScanRules,
)
    ensures
        descended(gathered, directory, node, order, next, rules) matches Ok(after)
            ==> after.attachments == gathered.attachments + attachment_paths(
            attachments_below(directory, node, order, next),
        ),
    decreases
            node,
            (if 0 <= next <= order.len() && order.len() <= node.children@.len() {
                order.len() - next
            } else {
                0
            }),
{
    let below = attachments_below(directory, node, order, next);
    if next < 0 || next >= order.len() || order.len() > node.children@.len() || !(0 <= order[next]
        < node.children@.len()) {
        assert(gathered.attachments + attachment_paths(below) =~= gathered.attachments);
    } else {
        let child = node.children@[order[next]];
        let later = attachments_below(directory, node, order, next + 1);
        if valid_utf8(child.name@) && (child.facts is Directory || child.facts is Unlisted) {
            let path = directory.push(decode_utf8(child.name@));
            assert(decreases_to!(node => node.children@[order[next]]));
            scanned_attachments(gathered, path, child, rules);
            if let Ok(after) = scanned(gathered, path, child, rules) {
                descended_attachments(after, directory, node, order, next + 1, rules);
                assert(after.attachments + attachment_paths(later) =~= gathered.attachments
                    + attachment_paths(below));
            }
        } else {
            descended_attachments(gathered, directory, node, order, next + 1, rules);
            assert(gathered.attachments + attachment_paths(later) =~= gathered.attachments
                + attachment_paths(below));
        }
    }
}

/// The attachments of a content tree are exactly those that indexing the tree meets and places.
pub proof fn attachments_are_those_indexed(root: ContentEntry, rules: ScanRules)
    ensures
        scanned(nothing_gathered(), Seq::empty(), root, rules) matches Ok(gathered)
            ==> gathered.attachments == attachment_paths(tree_attachments(Seq::empty(), root)),
{
    scanned_attachments(nothing_gathered(), Seq::empty(), root, rules);
    assert(nothing_gathered().attachments + attachment_paths(
        tree_attachments(Seq::empty(), root),
    ) =~= attachment_paths(tree_attachments(Seq::empty(), root)));
}

/// The identity of a directory on its filesystem.
#[derive(Clone, Copy, Debug, PartialEq, Eq, Structural)]
pub struct DirectoryIdentity {
    /// Whether it is a directory at all.
    pub directory: bool,
    /// Device number.
    pub device: u64,
    /// Inode number.
    pub inode: u64,
}

/// A deterministic optimistic-lock check failure.
#[derive(Clone, Copy, Debug, PartialEq, Eq, Structural)]
pub enum RevisionCheckError {
    /// No document has the requested permanent identity.
    NotFound {
        /// Missing document identity.
        document_id: DocumentId,
    },
    /// The current exact bytes differ from the client revision.
    RevisionConflict {
        /// Conflicting document identity.
        document_id: DocumentId,
        /// Revision supplied by the client.
        expected: Revision,
        /// Revision calculated from committed content.
        actual: Revision,
    },
}

/// A complete identity index for one committed content tree.
#[derive(Debug)]
pub struct ContentIndex {
    records: Vec<DocumentRecord>,
    positions: HashMap<u128, usize>,
}

impl View for ContentIndex {
    type V = Seq<RecordView>;

    closed spec fn view(&self) -> Seq<RecordView> {
        record_views(self.records@)
    }
}

impl ContentIndex {
    #[verifier::type_invariant]
    spec fn inv(self) -> bool {
        finds_all(record_views(self.records@), self.positions@) && distinct(
            record_views(self.records@),
        )
    }

    /// Builds an index while rejecting unsafe entries and duplicate identities.
    ///
    /// Non-Markdown regular files must use an allowed attachment type and canonical location.
    /// Links, executable files, hard links, and other special filesystem entries are rejected.
    /// In an index, no identity occurs twice and every document is canonical.
    pub fn build(
        root: &ContentEntry,
        policy: &ContentPolicy,
        limits: &PackageLimits,
        names: &NameRules,
    ) -> (result: Result<ContentIndex, ContentIndexError>)
        ensures
            (match result {
                Ok(index) => Ok(index@),
                Err(error) => Err(error@),
            }) == indexed(*root, (ScanRules { policy, limits, names })),
            result matches Ok(index) ==> distinct(index@) && forall|i: int|
                0 <= i < index@.len() ==> is_canonical(#[trigger] index@[i], *names),
    {
        let rules = ScanRules { policy, limits, names };
        match &root.facts {
            EntryFacts::Unreadable(reason) => {
                return Err(ContentIndexError::Io(reason.clone()));
            },
            EntryFacts::File(_) | EntryFacts::Special => {
                return Err(ContentIndexError::InvalidRoot);
            },
            EntryFacts::Directory | EntryFacts::Unlisted(_) => {},
        }
        let mut scan = Scan {
            records: Vec::new(),
            positions: HashMap::new(),
            attachments: Vec::new(),
            entries: 0,
            total: 0,
        };
        proof {
            assert(scan@.records =~= Seq::<RecordView>::empty());
            assert(scan@.attachments =~= Seq::<Seq<Seq<char>>>::empty());
        }
        if let Err(error) = scan.scan(&ContentPath::root(), root, rules) {
            return Err(error);
        }
        if let Err(error) = validate_attachment_locations(
            &scan.attachments,
            &scan.records,
            limits,
            names,
        ) {
            return Err(error);
        }
        Ok(ContentIndex { records: scan.records, positions: scan.positions })
    }

    /// Builds an index below a descriptor-backed stable directory path.
    ///
    /// The root path is used only where it names the same directory as the descriptor that was
    /// opened before; otherwise the root is not valid.
    pub fn build_from_pinned_root(
        root: &ContentEntry,
        named: &DirectoryIdentity,
        pinned: &DirectoryIdentity,
        policy: &ContentPolicy,
        limits: &PackageLimits,
        names: &NameRules,
    ) -> (result: Result<ContentIndex, ContentIndexError>)
        ensures
            (match result {
                Ok(index) => Ok(index@),
                Err(error) => Err(error@),
            }) == (if named.directory && pinned.directory && named.device == pinned.device
                && named.inode == pinned.inode {
                indexed(*root, (ScanRules { policy, limits, names }))
            } else {
                Err(IndexFailure::InvalidRoot)
            }),
    {
        if !named.directory || !pinned.directory || named.device != pinned.device || named.inode
            != pinned.inode {
            return Err(ContentIndexError::InvalidRoot);
        }
        ContentIndex::build(root, policy, limits, names)
    }

    /// Returns the uniquely indexed document, if present.
    pub fn get(&self, document_id: DocumentId) -> (result: Option<&DocumentRecord>)
        ensures
            result is Some <==> lookup(self@, document_id) is Some,
            result matches Some(record) ==> lookup(self@, document_id) == Some(record@),
    {
        proof {
            use_type_invariant(self);
            assert(finds(self@, self.positions@, document_id));
            position_is_in_range(self@, document_id);
        }
        match self.positions.get(&document_id.value) {
            Some(at) => Some(&self.records[*at]),
            None => None,
        }
    }

    /// Returns every indexed Markdown document, in the order of the scan.
    pub fn documents(&self) -> (result: &Vec<DocumentRecord>)
        ensures
            record_views(result@) == self@,
    {
        &self.records
    }

    /// Resolves a document and checks its exact byte revision.
    pub fn require_revision(&self, document_id: DocumentId, expected_revision: Revision) -> (result:
        Result<&DocumentRecord, RevisionCheckError>)
        ensures
            match lookup(self@, document_id) {
                None => result == Err::<&DocumentRecord, RevisionCheckError>(
                    RevisionCheckError::NotFound { document_id },
                ),
                Some(record) => if record.revision == expected_revision {
                    result matches Ok(found) && found@ == record
                } else {
                    result == Err::<&DocumentRecord, RevisionCheckError>(
                        RevisionCheckError::RevisionConflict {
                            document_id,
                            expected: expected_revision,
                            actual: record.revision,
                        },
                    )
                },
            },
    {
        let document = match self.get(document_id) {
            Some(document) => document,
            None => {
                return Err(RevisionCheckError::NotFound { document_id });
            },
        };
        if document.revision != expected_revision {
            return Err(
                RevisionCheckError::RevisionConflict {
                    document_id,
                    expected: expected_revision,
                    actual: document.revision,
                },
            );
        }
        Ok(document)
    }

    /// Returns the number of indexed Markdown documents.
    pub fn len(&self) -> (result: usize)
        ensures
            result == self@.len(),
    {
        self.records.len()
    }

    /// Returns whether the content tree contains no Markdown documents.
    pub fn is_empty(&self) -> (result: bool)
        ensures
            result == (self@.len() == 0),
    {
        self.records.len() == 0
    }
}

/// What a failure is reported as.
pub open spec fn index_message(failure: IndexFailure) -> Seq<char> {
    match failure {
        ContentIndexError::InvalidPathEncoding { directory, name } => "content path `"@ + (
        if directory.len() == 0 {
            lossy(name)
        } else {
            slashed(directory) + "/"@ + lossy(name)
        }) + "` is not UTF-8"@,
        ContentIndexError::Io(source) => "content index I/O failed: "@ + source,
        ContentIndexError::InvalidRoot => "content root must be a real directory"@,
        ContentIndexError::InvalidDocumentPath(path) => "Markdown path `"@ + slashed(path) + "` is outside the canonical document layout"@,
        ContentIndexError::InvalidEntryType(path) => "content entry `"@ + slashed(path) + "` is not a regular file or directory"@,
        ContentIndexError::ExecutableFile(path) => "content file `"@ + slashed(path) + "` is executable"@,
        ContentIndexError::HardLinkedFile(path) => "content file `"@ + slashed(path) + "` has multiple hard links"@,
        ContentIndexError::UnsupportedAttachment(path) => "content attachment `"@ + slashed(path) + "` has a disallowed extension"@,
        ContentIndexError::InvalidAttachmentPath(path) => "content attachment `"@ + slashed(path) + "` has an unsafe path"@,
        ContentIndexError::AttachmentTooLarge { path, maximum, actual } => "content attachment `"@ + slashed(path) + "` is "@ + decimal(actual as nat) + " bytes; maximum is "@ + decimal(maximum as nat),
        ContentIndexError::OrphanAttachment(path) => "content attachment `"@ + slashed(path) + "` is outside a document bundle or project assets"@,
        ContentIndexError::ArchiveStatusMismatch(path) => "document `"@ + slashed(path) + "` archive status disagrees with its path"@,
        ContentIndexError::EntryLimitExceeded { maximum } => "content hierarchy exceeds "@ + decimal(maximum as nat) + " entries"@,
        ContentIndexError::MarkdownTooLarge { path, maximum, actual } => "Markdown `"@ + slashed(path) + "` is "@ + decimal(actual as nat) + " bytes; maximum is "@ + decimal(maximum as nat),
        ContentIndexError::MarkdownByteLimitExceeded { maximum } => "content hierarchy exceeds "@ + decimal(maximum as nat) + " aggregate Markdown bytes"@,
        ContentIndexError::ScanDeadlineExceeded => "content index scan deadline expired"@,
        ContentIndexError::InvalidDocument { path, source } => "Markdown `"@ + slashed(path) + "` is invalid: "@ + source,
        ContentIndexError::InvalidMetadata { path, source } => "Markdown `"@ + slashed(path) + "` metadata is invalid: "@ + source,
        ContentIndexError::DuplicateDocumentId { document_id, first_path, second_path } => "document ID `"@ + ulid_text(document_id.value) + "` appears in `"@ + slashed(first_path) + "` and `"@ + slashed(second_path) + "`"@,
    }
}

impl ContentIndexError {
    /// What the failure is reported as.
    pub fn message(&self) -> (text: String)
        ensures
            text@ == index_message(self@),
    {
        let text = match self {
            ContentIndexError::InvalidPathEncoding { directory, name } => {
                let shown = if directory.len() == 0 {
                    lossy_text(name.as_slice())
                } else {
                    join3(directory.text().as_str(), "/", lossy_text(name.as_slice()).as_str())
                };
                join3("content path `", shown.as_str(), "` is not UTF-8")
            },
            ContentIndexError::Io(source) => join2("content index I/O failed: ", source.as_str()),
            ContentIndexError::InvalidRoot => "content root must be a real directory".to_owned(),
            ContentIndexError::InvalidDocumentPath(path) => join3("Markdown path `", path.text().as_str(), "` is outside the canonical document layout"),
            ContentIndexError::InvalidEntryType(path) => join3("content entry `", path.text().as_str(), "` is not a regular file or directory"),
            ContentIndexError::ExecutableFile(path) => join3("content file `", path.text().as_str(), "` is executable"),
            ContentIndexError::HardLinkedFile(path) => join3("content file `", path.text().as_str(), "` has multiple hard links"),
            ContentIndexError::UnsupportedAttachment(path) => join3("content attachment `", path.text().as_str(), "` has a disallowed extension"),
            ContentIndexError::InvalidAttachmentPath(path) => join3("content attachment `", path.text().as_str(), "` has an unsafe path"),
            ContentIndexError::AttachmentTooLarge { path, maximum, actual } => join6("content attachment `", path.text().as_str(), "` is ", decimal_text(*actual).as_str(), " bytes; maximum is ", decimal_text(*maximum).as_str()),
            ContentIndexError::OrphanAttachment(path) => join3("content attachment `", path.text().as_str(), "` is outside a document bundle or project assets"),
            ContentIndexError::ArchiveStatusMismatch(path) => join3("document `", path.text().as_str(), "` archive status disagrees with its path"),
            ContentIndexError::EntryLimitExceeded { maximum } => join3("content hierarchy exceeds ", decimal_text(*maximum as u64).as_str(), " entries"),
            ContentIndexError::MarkdownTooLarge { path, maximum, actual } => join6("Markdown `", path.text().as_str(), "` is ", decimal_text(*actual).as_str(), " bytes; maximum is ", decimal_text(*maximum).as_str()),
            ContentIndexError::MarkdownByteLimitExceeded { maximum } => join3("content hierarchy exceeds ", decimal_text(*maximum).as_str(), " aggregate Markdown bytes"),
            ContentIndexError::ScanDeadlineExceeded => "content index scan deadline expired".to_owned(),
            ContentIndexError::InvalidDocument { path, source } => join4("Markdown `", path.text().as_str(), "` is invalid: ", source.as_str()),
            ContentIndexError::InvalidMetadata { path, source } => join4("Markdown `", path.text().as_str(), "` metadata is invalid: ", source.as_str()),
            ContentIndexError::DuplicateDocumentId { document_id, first_path, second_path } => join7("document ID `", document_id.text().as_str(), "` appears in `", first_path.text().as_str(), "` and `", second_path.text().as_str(), "`"),
        };
        assert(text@ =~= index_message(self@));
        text
    }
}

/// What a failed revision check is reported as.
pub open spec fn revision_check_message(error: RevisionCheckError) -> Seq<char> {
    match error {
        RevisionCheckError::NotFound { document_id } => "document `"@ + ulid_text(document_id.value)
            + "` was not found"@,
        RevisionCheckError::RevisionConflict { document_id, expected, actual } => "document `"@
            + ulid_text(document_id.value) + "` revision conflict: expected `"@ + revision_text(
            expected,
        ) + "`, found `"@ + revision_text(actual) + "`"@,
    }
}

impl RevisionCheckError {
    /// What the failed check is reported as.
    pub fn message(&self) -> (text: String)
        ensures
            text@ == revision_check_message(*self),
    {
        match self {
            RevisionCheckError::NotFound { document_id } => join3(
                "document `",
                document_id.text().as_str(),
                "` was not found",
            ),
            RevisionCheckError::RevisionConflict { document_id, expected, actual } => join7(
                "document `",
                document_id.text().as_str(),
                "` revision conflict: expected `",
                expected.text().as_str(),
                "`, found `",
                actual.text().as_str(),
                "`",
            ),
        }
    }
}

} // verus!
