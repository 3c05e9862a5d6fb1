//! Documents: their classification, their metadata and the path that both determine.
use crate::clock::Timestamp;
use crate::ids::{ulid_text, DocumentId, RequestId, SessionId};
use crate::path::{copy_texts, joined, optional_text, texts, ContentPath};
use crate::text::{fixed_decimal, fixed_decimal_text, same_text};
use vstd::prelude::*;
use vstd::string::*;

verus! {

/// The kind of a document, which decides where it is stored.
#[derive(Clone, Copy, Debug, PartialEq, Eq, Hash, Structural)]
pub enum DocumentType {
    /// Entry page of the store or of one project.
    Index,
    /// Append-only log.
    Log,
    /// Experiment record.
    Experiment,
    /// Decision record.
    Decision,
    /// Operating procedure.
    Runbook,
    /// Reference material.
    Reference,
}

/// The lifecycle status of a document.
#[derive(Clone, Copy, Debug, PartialEq, Eq, Hash, Structural)]
pub enum DocumentStatus {
    /// Open for change.
    Active,
    /// Moved to the archive.
    Archived,
    /// Neither active nor archived.
    Inactive,
}

/// Decoded front matter of one document.
#[derive(Debug)]
pub struct DocumentMetadata<T = String, L = Vec<String>> {
    /// Front-matter schema version.
    pub schema_version: u32,
    /// Permanent identity.
    pub document_id: DocumentId,
    /// Title.
    pub title: T,
    /// Creation time.
    pub created: Timestamp,
    /// Last update, if any.
    pub updated: Option<Timestamp>,
    /// Node that wrote the document, if any.
    pub node: Option<T>,
    /// Agent that wrote the document, if any.
    pub agent: Option<T>,
    /// Session that wrote the document, if any.
    pub session: Option<SessionId>,
    /// Request that last changed the document.
    pub request_id: RequestId,
    /// Tags.
    pub tags: L,
    /// Lifecycle status.
    pub status: DocumentStatus,
}

impl View for DocumentMetadata {
    type V = DocumentMetadata<Seq<char>, Seq<Seq<char>>>;

    open spec fn view(&self) -> DocumentMetadata<Seq<char>, Seq<Seq<char>>> {
        DocumentMetadata {
            schema_version: self.schema_version,
            document_id: self.document_id,
            title: self.title@,
            created: self.created,
            updated: self.updated,
            node: optional_text(self.node),
            agent: optional_text(self.agent),
            session: self.session,
            request_id: self.request_id,
            tags: texts(self.tags@),
            status: self.status,
        }
    }
}

impl<T, L> DocumentMetadata<T, L> {
    /// The time of the last change: the last update, or else the creation.
    pub open spec fn last_change(self) -> Timestamp {
        match self.updated {
            Some(updated) => updated,
            None => self.created,
        }
    }
}

/// A copy of an optional string.
pub fn copy_optional(value: &Option<String>) -> (copy: Option<String>)
    ensures
        copy == *value,
{
    match value {
        Some(text) => Some(text.clone()),
        None => None,
    }
}

/// Whether two optional strings hold the same text.
pub fn same_optional(left: &Option<String>, right: &Option<String>) -> (same: bool)
    ensures
        same == (optional_text(*left) == optional_text(*right)),
{
    match (left, right) {
        (Some(a), Some(b)) => same_text(a.as_str(), b.as_str()),
        (None, None) => true,
        _ => false,
    }
}

impl Clone for DocumentMetadata {
    fn clone(&self) -> (copy: Self)
        ensures
            copy@ == self@,
    {
        DocumentMetadata {
            schema_version: self.schema_version,
            document_id: self.document_id,
            title: self.title.clone(),
            created: self.created,
            updated: self.updated,
            node: copy_optional(&self.node),
            agent: copy_optional(&self.agent),
            session: self.session,
            request_id: self.request_id,
            tags: copy_texts(&self.tags),
            status: self.status,
        }
    }
}

impl DocumentMetadata {
    /// The time of the last change: the last update, or else the creation.
    pub fn changed_at(&self) -> (result: Timestamp)
        ensures
            result == self@.last_change(),
    {
        match self.updated {
            Some(updated) => updated,
            None => self.created,
        }
    }
}

/// The name of the directory that holds documents of one kind.
pub open spec fn category(document_type: DocumentType) -> Seq<char> {
    match document_type {
        DocumentType::Index => ""@,
        DocumentType::Log => "logs"@,
        DocumentType::Experiment => "experiments"@,
        DocumentType::Decision => "decisions"@,
        DocumentType::Runbook => "runbooks"@,
        DocumentType::Reference => "references"@,
    }
}

/// The name of the directory that holds documents of one kind.
pub fn category_name(document_type: DocumentType) -> (name: &'static str)
    ensures
        name@ == category(document_type),
{
    match document_type {
        DocumentType::Index => "",
        DocumentType::Log => "logs",
        DocumentType::Experiment => "experiments",
        DocumentType::Decision => "decisions",
        DocumentType::Runbook => "runbooks",
        DocumentType::Reference => "references",
    }
}

/// The kind of the documents that a directory holds.
pub open spec fn category_type(name: Seq<char>) -> Option<DocumentType> {
    if name == "logs"@ {
        Some(DocumentType::Log)
    } else if name == "experiments"@ {
        Some(DocumentType::Experiment)
    } else if name == "decisions"@ {
        Some(DocumentType::Decision)
    } else if name == "runbooks"@ {
        Some(DocumentType::Runbook)
    } else if name == "references"@ {
        Some(DocumentType::Reference)
    } else {
        None
    }
}

/// The kind of the documents that a directory holds.
pub fn parse_category(name: &str) -> (result: Option<DocumentType>)
    ensures
        result == category_type(name@),
{
    if same_text(name, "logs") {
        Some(DocumentType::Log)
    } else if same_text(name, "experiments") {
        Some(DocumentType::Experiment)
    } else if same_text(name, "decisions") {
        Some(DocumentType::Decision)
    } else if same_text(name, "runbooks") {
        Some(DocumentType::Runbook)
    } else if same_text(name, "references") {
        Some(DocumentType::Reference)
    } else {
        None
    }
}

/// The directory name of a kind other than an index page names that kind.
pub proof fn category_round_trip(document_type: DocumentType)
    requires
        document_type != DocumentType::Index,
    ensures
        category_type(category(document_type)) == Some(document_type),
        category(document_type).len() > 0,
        category(document_type) != "archive"@,
        category(document_type) != "index.md"@,
{
    reveal_strlit("logs");
    reveal_strlit("experiments");
    reveal_strlit("decisions");
    reveal_strlit("runbooks");
    reveal_strlit("references");
    reveal_strlit("archive");
    reveal_strlit("index.md");
    assert("logs"@[0] == 'l');
    assert("experiments"@[0] == 'e');
    assert("decisions"@[0] == 'd');
    assert("runbooks"@[1] == 'u');
    assert("references"@[1] == 'e');
    assert("archive"@[0] == 'a');
    assert("index.md"@[0] == 'i');
}

/// A year with at least four characters: leading zeros, and a minus sign before year zero.
pub open spec fn year_text(year: int) -> Seq<char> {
    if year >= 0 {
        fixed_decimal(4, year as nat)
    } else if year > -1000 {
        "-"@ + fixed_decimal(3, (-year) as nat)
    } else {
        "-"@ + fixed_decimal(4, (-year) as nat)
    }
}

/// A year with at least four characters.
fn year_name(year: i32) -> (text: String)
    requires
        -9999 <= year <= 9999,
    ensures
        text@ == year_text(year as int),
{
    if year >= 0 {
        fixed_decimal_text(4, year as u64)
    } else {
        let mut text = "-".to_owned();
        let magnitude: u64 = (-year) as u64;
        if year > -1000 {
            text.append(fixed_decimal_text(3, magnitude).as_str());
        } else {
            text.append(fixed_decimal_text(4, magnitude).as_str());
        }
        text
    }
}

/// The name of the directory that holds one document and its attachments: time and identity for
/// a log, date and identity for the rest.
pub open spec fn bundle(
    document_type: DocumentType,
    created: Timestamp,
    document_id: DocumentId,
) -> Seq<char> {
    let (year, month, day, hour, minute, second) = created.fields();
    if document_type == DocumentType::Log {
        fixed_decimal(2, hour as nat) + fixed_decimal(2, minute as nat) + fixed_decimal(
            2,
            second as nat,
        ) + "-"@ + ulid_text(document_id.value)
    } else {
        year_text(year as int) + "-"@ + fixed_decimal(2, month as nat) + "-"@ + fixed_decimal(
            2,
            day as nat,
        ) + "-"@ + ulid_text(document_id.value)
    }
}

/// The name of the directory that holds one document and its attachments.
pub fn bundle_name(
    document_type: DocumentType,
    created: &Timestamp,
    document_id: DocumentId,
) -> (text: String)
    ensures
        text@ == bundle(document_type, *created, document_id),
{
    let (year, month, day, hour, minute, second) = created.calendar_fields();
    let mut text;
    if document_type == DocumentType::Log {
        text = fixed_decimal_text(2, hour as u64);
        text.append(fixed_decimal_text(2, minute as u64).as_str());
        text.append(fixed_decimal_text(2, second as u64).as_str());
    } else {
        text = year_name(year);
        text.append("-");
        text.append(fixed_decimal_text(2, month as u64).as_str());
        text.append("-");
        text.append(fixed_decimal_text(2, day as u64).as_str());
    }
    text.append("-");
    text.append(document_id.text().as_str());
    text
}

/// Classification of a document by its directory.
#[derive(Debug)]
pub struct DocumentLocation<T = String> {
    /// The kind encoded by the directory.
    pub document_type: DocumentType,
    /// The project encoded by the directory, if any.
    pub project: Option<T>,
    /// Whether the directory lies in an archive.
    pub archived: bool,
}

impl View for DocumentLocation {
    type V = DocumentLocation<Seq<char>>;

    open spec fn view(&self) -> DocumentLocation<Seq<char>> {
        DocumentLocation {
            document_type: self.document_type,
            project: optional_text(self.project),
            archived: self.archived,
        }
    }
}

impl Clone for DocumentLocation {
    fn clone(&self) -> (copy: Self)
        ensures
            copy@ == self@,
    {
        DocumentLocation {
            document_type: self.document_type,
            project: copy_optional(&self.project),
            archived: self.archived,
        }
    }
}

impl DocumentLocation {
    /// Returns the document type encoded by its directory.
    pub fn document_type(&self) -> (result: DocumentType)
        ensures
            result == self@.document_type,
    {
        self.document_type
    }

    /// Returns the project encoded by the directory, if any.
    pub fn project(&self) -> (result: Option<&String>)
        ensures
            result is Some <==> self@.project is Some,
            result matches Some(project) ==> self@.project == Some(project@),
    {
        match &self.project {
            Some(project) => Some(project),
            None => None,
        }
    }

    /// Returns whether the document is below an archive directory.
    pub fn is_archived(&self) -> (result: bool)
        ensures
            result == self@.archived,
    {
        self.archived
    }
}

/// The directory of a project, or another directory where there is no project.
pub open spec fn project_directory(project: Option<Seq<char>>, otherwise: Seq<char>) -> Seq<
    Seq<char>,
> {
    match project {
        Some(name) => joined(seq!["projects"@], name),
        None => seq![otherwise],
    }
}

/// The only path at which a document may stand, relative to the content root.
///
/// An index page stands at the root of the store or of its project. Any other document stands in
/// a bundle directory of its own, below the directory of its kind; a log has year, month and day
/// directories between them, unless it is archived.
pub open spec fn document_path(
    location: DocumentLocation<Seq<char>>,
    created: Timestamp,
    document_id: DocumentId,
) -> Seq<Seq<char>> {
    let name = category(location.document_type);
    let (year, month, day, _hour, _minute, _second) = created.fields();
    if location.document_type == DocumentType::Index {
        match location.project {
            Some(project) => joined(seq!["projects"@], project).push("index.md"@),
            None => seq!["index.md"@],
        }
    } else {
        let directory = if location.archived {
            match location.project {
                Some(project) => joined(seq!["projects"@], project).push("archive"@).push(name),
                None => seq!["archive"@].push(name),
            }
        } else if location.document_type == DocumentType::Log {
            project_directory(location.project, "inbox"@).push(name).push(
                year_text(year as int),
            ).push(fixed_decimal(2, month as nat)).push(fixed_decimal(2, day as nat))
        } else {
            project_directory(location.project, "inbox"@).push(name)
        };
        directory.push(bundle(location.document_type, created, document_id)).push("index.md"@)
    }
}

/// A year is written with at least four characters.
proof fn year_text_length(year: int)
    ensures
        year_text(year).len() >= 4,
{
    reveal_with_fuel(fixed_decimal, 5);
    reveal_strlit("-");
}

/// A path of one component.
fn single(name: &str) -> (path: ContentPath)
    requires
        name@.len() > 0,
    ensures
        path@ == seq![name@],
{
    let path = ContentPath::root().join(name);
    assert(path@ =~= seq![name@]);
    path
}

/// The directory of a project, or another directory where there is no project.
fn project_path(project: &Option<String>, otherwise: &str) -> (path: ContentPath)
    requires
        otherwise@.len() > 0,
    ensures
        path@ == project_directory(optional_text(*project), otherwise@),
{
    proof {
        reveal_strlit("projects");
    }
    match project {
        Some(name) => single("projects").join(name.as_str()),
        None => single(otherwise),
    }
}

/// The only path at which a document may stand, relative to the content root.
fn path_of_document(
    document_type: DocumentType,
    project: &Option<String>,
    archived: bool,
    created: &Timestamp,
    document_id: DocumentId,
) -> (path: ContentPath)
    ensures
        path@ == document_path(
            (DocumentLocation { document_type, project: optional_text(*project), archived }),
            *created,
            document_id,
        ),
{
    proof {
        reveal_strlit("index.md");
        reveal_strlit("inbox");
        reveal_strlit("archive");
        reveal_strlit("projects");
        reveal_strlit("-");
        reveal_with_fuel(fixed_decimal, 5);
        year_text_length(created.fields().0 as int);
        if document_type != DocumentType::Index {
            category_round_trip(document_type);
        }
    }
    if document_type == DocumentType::Index {
        return match project {
            Some(name) => single("projects").join(name.as_str()).join("index.md"),
            None => single("index.md"),
        };
    }
    let name = category_name(document_type);
    let bundle_text = bundle_name(document_type, created, document_id);
    let (year, month, day, _hour, _minute, _second) = created.calendar_fields();
    let directory;
    if archived {
        directory = match project {
            Some(project) => single("projects").join(project.as_str()).join("archive").join(name),
            None => single("archive").join(name),
        };
    } else if document_type == DocumentType::Log {
        directory = project_path(project, "inbox").join(name).join(
            year_name(year).as_str(),
        ).join(fixed_decimal_text(2, month as u64).as_str()).join(
            fixed_decimal_text(2, day as u64).as_str(),
        );
    } else {
        directory = project_path(project, "inbox").join(name);
    }
    directory.join(bundle_text.as_str()).join("index.md")
}

/// The path of a new document.
pub fn create_document_path(
    project: &Option<String>,
    document_type: DocumentType,
    created: &Timestamp,
    document_id: DocumentId,
) -> (path: ContentPath)
    ensures
        path@ == document_path(
            (DocumentLocation { document_type, project: optional_text(*project), archived: false }),
            *created,
            document_id,
        ),
{
    path_of_document(document_type, project, false, created, document_id)
}

/// The only path at which a document with this classification and metadata may stand.
pub fn canonical_document_path(
    location: &DocumentLocation,
    metadata: &DocumentMetadata,
) -> (path: ContentPath)
    ensures
        path@ == document_path(location@, metadata.created, metadata.document_id),
{
    path_of_document(
        location.document_type,
        &location.project,
        location.archived,
        &metadata.created,
        metadata.document_id,
    )
}

/// The directory or file that moves with a document: its bundle, or the index page itself.
pub open spec fn moved_part(path: Seq<Seq<char>>, document_type: DocumentType) -> Seq<Seq<char>> {
    if document_type == DocumentType::Index || path.len() == 0 {
        path
    } else {
        path.drop_last()
    }
}

/// The directory or file that moves with a document.
pub fn bundle_path(path: &ContentPath, document_type: DocumentType) -> (result: ContentPath)
    ensures
        result@ == moved_part(path@, document_type),
{
    if document_type == DocumentType::Index {
        return path.clone();
    }
    match path.parent() {
        Some(parent) => parent,
        None => path.clone(),
    }
}

/// The path of a document after it is archived: its bundle keeps its name below the archive
/// directory of its kind.
pub open spec fn archive_path(
    path: Seq<Seq<char>>,
    location: DocumentLocation<Seq<char>>,
    document_id: DocumentId,
) -> Seq<Seq<char>> {
    let directory = match location.project {
        Some(project) => joined(
            joined(seq!["projects"@], project).push("archive"@),
            category(location.document_type),
        ),
        None => joined(seq!["archive"@], category(location.document_type)),
    };
    let name = if path.len() >= 2 {
        path[path.len() - 2]
    } else {
        ulid_text(document_id.value)
    };
    joined(directory, name).push("index.md"@)
}

/// The path of a document after it is archived.
pub fn archive_document_path(
    path: &ContentPath,
    location: &DocumentLocation,
    document_id: DocumentId,
) -> (result: ContentPath)
    ensures
        result@ == archive_path(path@, location@, document_id),
{
    proof {
        reveal_strlit("index.md");
        reveal_strlit("archive");
        reveal_strlit("projects");
    }
    let category = category_name(location.document_type);
    let name = match path.parent() {
        Some(parent) => match parent.file_name() {
            Some(name) => name.clone(),
            None => document_id.text(),
        },
        None => document_id.text(),
    };
    let directory = match &location.project {
        Some(project) => single("projects").join(project.as_str()).join("archive").join(category),
        None => single("archive").join(category),
    };
    directory.join(name.as_str()).join("index.md")
}

/// A document at its only path moves, when archived, to its only path in the archive. Index pages
/// are never archived.
pub proof fn archiving_keeps_documents_canonical(
    location: DocumentLocation<Seq<char>>,
    created: Timestamp,
    document_id: DocumentId,
)
    requires
        location.document_type != DocumentType::Index,
        !location.archived,
    ensures
        archive_path(document_path(location, created, document_id), location, document_id)
            == document_path(
            (DocumentLocation { archived: true, ..location }),
            created,
            document_id,
        ),
{
    let path = document_path(location, created, document_id);
    let name = bundle(location.document_type, created, document_id);
    category_round_trip(location.document_type);
    reveal_strlit("-");
    assert(path[path.len() - 2] == name);
    assert(name.len() > 0);
}

} // verus!
