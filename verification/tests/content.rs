use std::collections::{BTreeMap, BTreeSet};

use agent_knowledge::apply::{
    build_plan, ApplyError, ApplyOutcome, ChangeRequest, Decoding, DestinationProbe, DocumentRead,
    Encoding, ErrorCode, Facts, FileMoves, Halt, MetadataEncoding, MovedKind, Need, Operation, PayloadFile,
    PayloadRead, PlannedMutation, Probe,
};
use agent_knowledge::clock::Timestamp;
use agent_knowledge::document::{DocumentMetadata, DocumentStatus, DocumentType};
use agent_knowledge::git_error::GitTransactionError;
use agent_knowledge::git_text::ObjectId;
use agent_knowledge::ids::{revision, DocumentId, RequestId, Revision, SessionId};
use agent_knowledge::index::{
    attachments_of, ContentEntry, ContentIndex, ContentIndexError, ContentPolicy, DecodedDocument,
    DirectoryIdentity, DocumentRecord, EntryFacts, FileFacts, FileRead, NameRules, PackageLimits, RevisionCheckError, TypeViolation,
};
use agent_knowledge::linear_search::{DocumentFacts, LinearSearch, SearchFacts, SearchHalt};
use agent_knowledge::opening::ConfigFacts;
use agent_knowledge::order::comes_before;
use agent_knowledge::path::ContentPath;
use agent_knowledge::read::{
    BundleReads, CommittedSnapshot, ListClock, PinnedRead, ReadFilter,
    SearchMetadataFields, SearchPolicy,
};
use agent_knowledge::read_error::CommittedReadError;
use agent_knowledge::repository::LayoutFacts;
use agent_knowledge::store::{
    open_until, pin_current_commit, PinFacts, PinObservation, Pinning, SharedLock, StoreFacts,
    StoreObservation, StoreOpening, StoreSettings,
};
use sha2::{Digest, Sha256};
use time::format_description::well_known::Rfc3339;
use time::OffsetDateTime;
use ulid::Ulid;

const DOCUMENT_ID: &str = "01K00000000000000000000000";
const CREATE_REQUEST_ID: &str = "01K00000000000000000000001";
const UPDATE_REQUEST_ID: &str = "01K00000000000000000000002";
const MOVE_REQUEST_ID: &str = "01K00000000000000000000003";
const ARCHIVE_REQUEST_ID: &str = "01K00000000000000000000004";
const ORIGINAL_REQUEST_ID: &str = "01K00000000000000000000005";
const APPLY_SESSION_ID: &str = "01K00000000000000000000006";
const OTHER_DOCUMENT_ID: &str = "01K00000000000000000000001";
const REQUEST_ID: &str = "01K00000000000000000000002";
const BUNDLE: &str = "2026-07-31-01K00000000000000000000000";
const LOG_ID: &str = "01K00000000000000000000001";
const RUNBOOK_ID: &str = "01K00000000000000000000002";
const SESSION_ID: &str = "01K00000000000000000000003";
const LOG_REQUEST_ID: &str = "01K00000000000000000000004";
const RUNBOOK_REQUEST_ID: &str = "01K00000000000000000000005";

#[derive(Clone)]
struct Entry {
    bytes: Vec<u8>,
    mode: u32,
    links: u64,
}

/// A content tree in memory: regular files and links by their slashed paths.
#[derive(Clone, Default)]
struct Tree {
    files: BTreeMap<String, Entry>,
    links: BTreeSet<String>,
}

fn number(text: &str) -> u128 {
    match Ulid::from_string(text) {
        Ok(ulid) => ulid.0,
        Err(error) => panic!("fixture identity must parse: {error}"),
    }
}

fn document_id(text: &str) -> DocumentId {
    DocumentId { value: number(text) }
}

fn moment(text: &str) -> Timestamp {
    let parsed = match OffsetDateTime::parse(text, &Rfc3339) {
        Ok(parsed) => parsed,
        Err(error) => panic!("fixture time must parse: {error}"),
    };
    let offset = parsed.offset().whole_seconds();
    let local = parsed.unix_timestamp_nanos() + i128::from(offset) * 1_000_000_000;
    match Timestamp::new(local, offset) {
        Some(moment) => moment,
        None => panic!("fixture time must be in range"),
    }
}

fn path(text: &str) -> ContentPath {
    ContentPath::from_components(text.split('/').map(str::to_owned).collect())
}

/// Decodes the front matter that the fixtures use.
fn decode(bytes: &[u8]) -> DecodedDocument {
    let text = match std::str::from_utf8(bytes) {
        Ok(text) => text,
        Err(_) => return DecodedDocument::Malformed("not UTF-8".to_owned()),
    };
    let mut lines = text.lines();
    if lines.next() != Some("---") {
        return DecodedDocument::Malformed("no front matter".to_owned());
    }
    let mut values: BTreeMap<String, String> = BTreeMap::new();
    let mut tags: Vec<String> = Vec::new();
    let mut closed = false;
    for line in lines {
        if line == "---" {
            closed = true;
            break;
        }
        if let Some(tag) = line.strip_prefix("  - ") {
            tags.push(tag.to_owned());
        } else if let Some((key, value)) = line.split_once(": ") {
            values.insert(key.to_owned(), value.to_owned());
        } else if line != "tags:" {
            return DecodedDocument::Malformed(format!("unexpected line {line}"));
        }
    }
    let (Some(id), Some(title), Some(created), Some(request_id), Some(status), true) = (
        values.get("document_id"),
        values.get("title"),
        values.get("created"),
        values.get("request_id"),
        values.get("status"),
        closed,
    ) else {
        return DecodedDocument::Malformed("missing field".to_owned());
    };
    let metadata = DocumentMetadata {
        schema_version: 1,
        document_id: document_id(id),
        title: title.clone(),
        created: moment(created),
        updated: values.get("updated").map(|value| moment(value)),
        node: values.get("node").cloned(),
        agent: values.get("agent").cloned(),
        session: values.get("session").map(|value| SessionId { value: number(value) }),
        request_id: RequestId { value: number(request_id) },
        tags,
        status: match status.as_str() {
            "active" => DocumentStatus::Active,
            "archived" => DocumentStatus::Archived,
            _ => DocumentStatus::Inactive,
        },
    };
    let mut violations = Vec::new();
    if metadata.node.is_none() || metadata.agent.is_none() || metadata.session.is_none() {
        violations.push(TypeViolation {
            document_type: DocumentType::Log,
            reason: "a log needs a node, an agent and a session".to_owned(),
        });
    }
    DecodedDocument::Decoded { metadata, common_violation: None, violations }
}

/// Encodes metadata as the front matter that the fixtures use.
fn encode(metadata: &DocumentMetadata) -> String {
    let time = |moment: &Timestamp| match moment.rfc3339() {
        Ok(text) => text,
        Err(reason) => panic!("fixture time must be written: {reason}"),
    };
    let mut text = format!(
        "schema_version: 1\ndocument_id: {}\ntitle: {}\ncreated: {}\n",
        metadata.document_id.text(),
        metadata.title,
        time(&metadata.created)
    );
    if let Some(updated) = &metadata.updated {
        text.push_str(&format!("updated: {}\n", time(updated)));
    }
    if let Some(node) = &metadata.node {
        text.push_str(&format!("node: {node}\n"));
    }
    if let Some(agent) = &metadata.agent {
        text.push_str(&format!("agent: {agent}\n"));
    }
    if let Some(session) = &metadata.session {
        text.push_str(&format!("session: {}\n", session.text()));
    }
    text.push_str(&format!("request_id: {}\n", metadata.request_id.text()));
    if !metadata.tags.is_empty() {
        text.push_str("tags:\n");
        for tag in &metadata.tags {
            text.push_str(&format!("  - {tag}\n"));
        }
    }
    text.push_str(match metadata.status {
        DocumentStatus::Active => "status: active\n",
        DocumentStatus::Archived => "status: archived\n",
        DocumentStatus::Inactive => "status: inactive\n",
    });
    text
}

impl Tree {
    fn write(&mut self, path: &str, bytes: &[u8]) {
        self.files.insert(path.to_owned(), Entry { bytes: bytes.to_vec(), mode: 0o644, links: 1 });
    }

    fn read(&self, path: &str) -> Vec<u8> {
        match self.files.get(path) {
            Some(entry) => entry.bytes.clone(),
            None => panic!("{path} must exist"),
        }
    }

    fn holds(&self, path: &str) -> bool {
        let inside = format!("{path}/");
        self.files.contains_key(path) || self.files.keys().any(|key| key.starts_with(&inside))
    }

    fn children(&self, directory: &str) -> Vec<(String, MovedKind)> {
        let prefix = if directory.is_empty() { String::new() } else { format!("{directory}/") };
        let mut found: Vec<(String, MovedKind)> = Vec::new();
        for key in self.files.keys().chain(self.links.iter()) {
            let Some(rest) = key.strip_prefix(&prefix) else { continue };
            let (name, kind) = match rest.split_once('/') {
                Some((name, _)) => (name, MovedKind::Directory),
                None if self.links.contains(key) => (rest, MovedKind::Special),
                None => (rest, MovedKind::File),
            };
            if !found.iter().any(|(known, _)| known == name) {
                found.push((name.to_owned(), kind));
            }
        }
        found
    }

    fn entry(&self, directory: &str, name: &str, kind: MovedKind) -> ContentEntry {
        let whole = match (directory.is_empty(), name.is_empty()) {
            (true, _) => name.to_owned(),
            (false, true) => directory.to_owned(),
            _ => format!("{directory}/{name}"),
        };
        let mut children = Vec::new();
        let facts = match kind {
            MovedKind::Directory => {
                for (child, kind) in self.children(&whole) {
                    children.push(self.entry(&whole, &child, kind));
                }
                EntryFacts::Directory
            }
            MovedKind::Special => EntryFacts::Special,
            MovedKind::File => {
                let entry = &self.files[&whole];
                EntryFacts::File(FileFacts {
                    mode: entry.mode,
                    links: entry.links,
                    length: entry.bytes.len() as u64,
                    read: FileRead::Bytes(entry.bytes.clone()),
                    decoded: decode(&entry.bytes),
                })
            }
        };
        ContentEntry {
            name: name.as_bytes().to_vec(),
            observed_at: 0,
            listed_at: 0,
            facts,
            children,
        }
    }

    fn names(&self) -> NameRules {
        let mut projects = Vec::new();
        let mut attachments = Vec::new();
        let mut attachment_types = Vec::new();
        let mut payload_paths = Vec::new();
        for key in self.files.keys() {
            let parts: Vec<&str> = key.split('/').collect();
            for (at, part) in parts.iter().enumerate() {
                projects.push((*part).to_owned());
                attachments.push((*part).to_owned());
                payload_paths.push(parts[at..].join("/"));
                let allowed = ["csv", "json", "pdf"];
                if let Some((_, suffix)) = part.rsplit_once('.') {
                    if allowed.contains(&suffix) {
                        attachment_types.push((*part).to_owned());
                    }
                }
            }
        }
        NameRules { projects, attachments, attachment_types, payload_paths }
    }

    fn index_with(&self, policy: ContentPolicy) -> Result<ContentIndex, ContentIndexError> {
        let limits = PackageLimits { maximum_file_bytes: 1 << 20, maximum_path_components: 16 };
        let root = self.entry("", "", MovedKind::Directory);
        ContentIndex::build(&root, &policy, &limits, &self.names())
    }

    fn index(&self) -> Result<ContentIndex, ContentIndexError> {
        self.index_with(ContentPolicy::default())
    }

    fn moves(&self, source: &ContentPath, destination: &ContentPath) -> FileMoves {
        let kind = if self.files.contains_key(&source.text()) {
            MovedKind::File
        } else {
            MovedKind::Directory
        };
        let mut moves = match FileMoves::start(source, destination, kind, 1_000) {
            Ok(moves) => moves,
            Err(error) => panic!("move must be listed: {}", error.message()),
        };
        while let Some(directory) = moves.next_directory() {
            for (name, kind) in self.children(&directory.text()) {
                if let Err(error) = moves.add_entry(&directory, &name, kind) {
                    panic!("moved entry must be listed: {}", error.message());
                }
            }
        }
        moves
    }

    /// Applies a request to the tree, or leaves the tree as it is.
    fn apply(
        &mut self,
        request: &ChangeRequest,
        payload: &[(&str, &[u8])],
    ) -> Result<ApplyOutcome, ApplyError> {
        let index = match self.index() {
            Ok(index) => index,
            Err(error) => return Err(ApplyError::ContentIndex(error)),
        };
        let mut facts = Facts {
            payload: Vec::new(),
            documents: Vec::new(),
            destinations: Vec::new(),
            decodings: Vec::new(),
            encodings: Vec::new(),
        };
        let plan = loop {
            match build_plan(request, &index, &ContentPolicy::default(), &facts) {
                Ok(plan) => break plan,
                Err(Halt::Failed(error)) => return Err(error),
                Err(Halt::Needs(Need::Payload(path))) => {
                    let read = match payload.iter().find(|(name, _)| *name == path) {
                        Some((_, bytes)) => FileRead::Bytes(bytes.to_vec()),
                        None => FileRead::Failed("missing".to_owned()),
                    };
                    facts.payload.push(PayloadRead { path, read });
                }
                Err(Halt::Needs(Need::Document(path))) => {
                    let read = FileRead::Bytes(self.read(&path.text()));
                    facts.documents.push(DocumentRead { path, read });
                }
                Err(Halt::Needs(Need::Destination(path))) => {
                    let probe = if self.holds(&path.text()) {
                        Probe::Present
                    } else {
                        Probe::Absent
                    };
                    facts.destinations.push(DestinationProbe { path, probe });
                }
                Err(Halt::Needs(Need::Decoding(bytes))) => {
                    let decoded = decode(&bytes);
                    facts.decodings.push(Decoding { bytes, decoded });
                }
                Err(Halt::Needs(Need::Encoding(metadata))) => {
                    let encoding = Encoding::Encoded(encode(&metadata));
                    facts.encodings.push(MetadataEncoding { metadata, encoding });
                }
            }
        };
        let mut file_moves = Vec::new();
        for mutation in plan {
            match mutation {
                PlannedMutation::WriteNew { relative_path, bytes } => {
                    assert!(!self.holds(&relative_path.text()));
                    self.write(&relative_path.text(), &bytes);
                }
                PlannedMutation::Replace { relative_path, bytes } => {
                    assert!(self.holds(&relative_path.text()));
                    self.write(&relative_path.text(), &bytes);
                }
                PlannedMutation::Move { source, destination } => {
                    let moves = self.moves(&source, &destination).finish();
                    for moved in &moves {
                        if let Some(entry) = self.files.remove(&moved.source.text()) {
                            self.files.insert(moved.destination.text(), entry);
                        }
                    }
                    file_moves.extend(moves);
                }
            }
        }
        match self.index() {
            Ok(_) => Ok(ApplyOutcome::new(request, file_moves)),
            Err(error) => Err(ApplyError::ResultingContent(error)),
        }
    }
}

fn document(id: &str, request_id: &str, title: &str, updated: Option<&str>) -> String {
    let updated = updated.map_or_else(String::new, |value| format!("updated: {value}\n"));
    format!(
        "---\n\
         schema_version: 1\n\
         document_id: {id}\n\
         title: {title}\n\
         created: 2026-07-31T03:50:00Z\n\
         {updated}\
         request_id: {request_id}\n\
         status: active\n\
         ---\n\
         Fictional body for {title}.\n"
    )
}

fn log_document(request_id: &str, updated: Option<&str>) -> String {
    let updated = updated.map_or_else(String::new, |value| format!("updated: {value}\n"));
    format!(
        "---\n\
         schema_version: 1\n\
         document_id: {DOCUMENT_ID}\n\
         title: Fictional worker log\n\
         created: 2026-07-31T03:50:00Z\n\
         {updated}\
         node: fictional-node-a\n\
         agent: codex\n\
         session: {APPLY_SESSION_ID}\n\
         request_id: {request_id}\n\
         status: active\n\
         ---\n\
         Fictional log body.\n"
    )
}

fn exact_revision(contents: &str) -> Revision {
    Revision::from_bytes(Sha256::digest(contents.as_bytes()).into())
}

fn request(
    request_id: &str,
    project: Option<&str>,
    document_type: DocumentType,
    operations: Vec<Operation>,
    payload: &[(&str, &[u8])],
) -> ChangeRequest {
    ChangeRequest {
        request_id: RequestId { value: number(request_id) },
        project: project.map(str::to_owned),
        document_type,
        created_at: moment("2026-07-31T04:00:00Z"),
        accepted_at: None,
        operations,
        payload: payload
            .iter()
            .map(|(path, bytes)| PayloadFile {
                path: (*path).to_owned(),
                byte_length: bytes.len() as u64,
                revision: revision(bytes),
            })
            .collect(),
    }
}

#[test]
fn creates_a_canonical_document_bundle_with_an_attachment() {
    let mut tree = Tree::default();
    let markdown = document(DOCUMENT_ID, CREATE_REQUEST_ID, "Fictional experiment", None);
    let payload: Vec<(&str, &[u8])> =
        vec![("index.md", markdown.as_bytes()), ("results.csv", b"value\n42\n")];
    let request = request(
        CREATE_REQUEST_ID,
        Some("fictional-project"),
        DocumentType::Experiment,
        vec![
            Operation::CreateDocument {
                document_id: document_id(DOCUMENT_ID),
                content: "index.md".to_owned(),
            },
            Operation::AddAttachment {
                document_id: document_id(DOCUMENT_ID),
                source: "results.csv".to_owned(),
                name: "results.csv".to_owned(),
            },
        ],
        &payload,
    );
    let outcome = match tree.apply(&request, &payload) {
        Ok(outcome) => outcome,
        Err(error) => panic!("valid create request must apply: {}", error.message()),
    };
    assert_eq!(outcome.operations_applied(), 2);
    let bundle = format!("projects/fictional-project/experiments/2026-07-31-{DOCUMENT_ID}");
    assert_eq!(tree.read(&format!("{bundle}/index.md")), markdown.into_bytes());
    assert_eq!(tree.read(&format!("{bundle}/results.csv")), b"value\n42\n");
}

#[test]
fn update_requires_the_exact_revision_before_replacing_bytes() {
    let mut tree = Tree::default();
    let relative = format!("projects/fictional-project/runbooks/2026-07-31-{DOCUMENT_ID}/index.md");
    let original = document(DOCUMENT_ID, ORIGINAL_REQUEST_ID, "Fictional runbook", None);
    tree.write(&relative, original.as_bytes());
    let replacement = document(
        DOCUMENT_ID,
        UPDATE_REQUEST_ID,
        "Updated fictional runbook",
        Some("2026-07-31T04:00:00Z"),
    );
    let payload: Vec<(&str, &[u8])> = vec![("index.md", replacement.as_bytes())];
    let update = |expected_revision: Revision| {
        request(
            UPDATE_REQUEST_ID,
            Some("fictional-project"),
            DocumentType::Runbook,
            vec![Operation::UpdateDocument {
                document_id: document_id(DOCUMENT_ID),
                expected_revision,
                content: "index.md".to_owned(),
            }],
            &payload,
        )
    };
    assert!(matches!(
        tree.apply(&update(Revision::from_bytes([7; 32])), &payload),
        Err(ApplyError::RevisionConflict { .. })
    ));
    assert_eq!(tree.read(&relative), original.clone().into_bytes());

    if let Err(error) = tree.apply(&update(exact_revision(&original)), &payload) {
        panic!("matching update must apply: {}", error.message());
    }
    assert_eq!(tree.read(&relative), replacement.into_bytes());
}

#[test]
fn an_update_keeps_the_creation_date_that_its_path_shows() {
    let relative = format!("projects/fictional-project/runbooks/{BUNDLE}/index.md");
    let original = document(DOCUMENT_ID, ORIGINAL_REQUEST_ID, "Fictional runbook", None);
    let update = |created: &str| {
        let mut tree = Tree::default();
        tree.write(&relative, original.as_bytes());
        let replacement = document(
            DOCUMENT_ID,
            UPDATE_REQUEST_ID,
            "Updated fictional runbook",
            Some("2026-07-31T04:00:00Z"),
        )
        .replace("2026-07-31T03:50:00Z", created);
        let payload: Vec<(&str, &[u8])> = vec![("index.md", replacement.as_bytes())];
        let request = request(
            UPDATE_REQUEST_ID,
            Some("fictional-project"),
            DocumentType::Runbook,
            vec![Operation::UpdateDocument {
                document_id: document_id(DOCUMENT_ID),
                expected_revision: exact_revision(&original),
                content: "index.md".to_owned(),
            }],
            &payload,
        );
        tree.apply(&request, &payload)
    };
    assert!(update("2026-07-31T04:50:00+01:00").is_ok());
    assert!(matches!(
        update("2026-07-30T20:50:00-07:00"),
        Err(ApplyError::ResultingContent(ContentIndexError::InvalidDocumentPath(path)))
            if path.text() == relative
    ));
    assert!(matches!(
        update("2026-07-31T03:51:00Z"),
        Err(ApplyError::OperationForbidden { detail, .. })
            if detail == "document creation time is immutable"
    ));
}

#[test]
fn moves_and_archives_complete_document_bundles() {
    let mut tree = Tree::default();
    let source = format!("projects/fictional-a/decisions/2026-07-31-{DOCUMENT_ID}");
    let markdown = document(DOCUMENT_ID, ORIGINAL_REQUEST_ID, "Fictional decision", None);
    tree.write(&format!("{source}/index.md"), markdown.as_bytes());
    tree.write(&format!("{source}/report.pdf"), b"fictional\n");

    let moving = request(
        MOVE_REQUEST_ID,
        Some("fictional-b"),
        DocumentType::Runbook,
        vec![Operation::MoveDocument {
            document_id: document_id(DOCUMENT_ID),
            expected_revision: exact_revision(&markdown),
            project: Some("fictional-b".to_owned()),
            document_type: DocumentType::Runbook,
        }],
        &[],
    );
    let outcome = match tree.apply(&moving, &[]) {
        Ok(outcome) => outcome,
        Err(error) => panic!("valid move must apply: {}", error.message()),
    };
    assert_eq!(outcome.file_moves().len(), 2);
    let moved = format!("projects/fictional-b/runbooks/2026-07-31-{DOCUMENT_ID}");
    assert!(!tree.holds(&source));
    assert_eq!(tree.read(&format!("{moved}/report.pdf")), b"fictional\n");

    let archiving = request(
        ARCHIVE_REQUEST_ID,
        Some("fictional-b"),
        DocumentType::Runbook,
        vec![Operation::ArchiveDocument {
            document_id: document_id(DOCUMENT_ID),
            expected_revision: exact_revision(&markdown),
        }],
        &[],
    );
    if let Err(error) = tree.apply(&archiving, &[]) {
        panic!("valid archive must apply: {}", error.message());
    }
    let archived = format!("projects/fictional-b/archive/runbooks/2026-07-31-{DOCUMENT_ID}");
    assert!(!tree.holds(&moved));
    assert_eq!(tree.read(&format!("{archived}/report.pdf")), b"fictional\n");
    let text = String::from_utf8(tree.read(&format!("{archived}/index.md"))).unwrap_or_default();
    assert!(text.contains("status: archived\n"));
    assert!(text.contains("updated: 2026-07-31T04:00:00Z\n"));
    assert!(text.contains(&format!("request_id: {ARCHIVE_REQUEST_ID}\n")));
    assert!(text.ends_with("---\nFictional body for Fictional decision.\n"));
}

#[test]
fn append_only_logs_reject_updates() {
    let mut tree = Tree::default();
    let relative =
        format!("projects/fictional-project/logs/2026/07/31/035000-{DOCUMENT_ID}/index.md");
    let original = log_document(ORIGINAL_REQUEST_ID, None);
    tree.write(&relative, original.as_bytes());
    let replacement = log_document(UPDATE_REQUEST_ID, Some("2026-07-31T04:00:00Z"));
    let payload: Vec<(&str, &[u8])> = vec![("index.md", replacement.as_bytes())];
    let update = request(
        UPDATE_REQUEST_ID,
        Some("fictional-project"),
        DocumentType::Log,
        vec![Operation::UpdateDocument {
            document_id: document_id(DOCUMENT_ID),
            expected_revision: exact_revision(&original),
            content: "index.md".to_owned(),
        }],
        &payload,
    );
    assert!(matches!(
        tree.apply(&update, &payload),
        Err(ApplyError::OperationForbidden { .. })
    ));
    assert_eq!(tree.read(&relative), original.into_bytes());
}

#[test]
fn deterministic_failure_is_detected_before_any_mutation() {
    let mut tree = Tree::default();
    let bundle = format!("projects/fictional-project/runbooks/2026-07-31-{DOCUMENT_ID}");
    let original = document(DOCUMENT_ID, ORIGINAL_REQUEST_ID, "Fictional runbook", None);
    tree.write(&format!("{bundle}/index.md"), original.as_bytes());
    tree.write(&format!("{bundle}/report.pdf"), b"existing\n");
    let replacement = document(
        DOCUMENT_ID,
        UPDATE_REQUEST_ID,
        "Updated fictional runbook",
        Some("2026-07-31T04:00:00Z"),
    );
    let payload: Vec<(&str, &[u8])> =
        vec![("index.md", replacement.as_bytes()), ("report.pdf", b"replacement\n")];
    let update = request(
        UPDATE_REQUEST_ID,
        Some("fictional-project"),
        DocumentType::Runbook,
        vec![
            Operation::UpdateDocument {
                document_id: document_id(DOCUMENT_ID),
                expected_revision: exact_revision(&original),
                content: "index.md".to_owned(),
            },
            Operation::AddAttachment {
                document_id: document_id(DOCUMENT_ID),
                source: "report.pdf".to_owned(),
                name: "report.pdf".to_owned(),
            },
        ],
        &payload,
    );
    assert!(matches!(
        tree.apply(&update, &payload),
        Err(ApplyError::DestinationExists { .. })
    ));
    assert_eq!(tree.read(&format!("{bundle}/index.md")), original.into_bytes());
    assert_eq!(tree.read(&format!("{bundle}/report.pdf")), b"existing\n");
}

#[test]
fn a_request_made_after_its_acceptance_is_refused() {
    let mut tree = Tree::default();
    let markdown = document(DOCUMENT_ID, CREATE_REQUEST_ID, "Fictional experiment", None);
    let payload: Vec<(&str, &[u8])> = vec![("index.md", markdown.as_bytes())];
    let mut late = request(
        CREATE_REQUEST_ID,
        Some("fictional-project"),
        DocumentType::Experiment,
        vec![Operation::CreateDocument {
            document_id: document_id(DOCUMENT_ID),
            content: "index.md".to_owned(),
        }],
        &payload,
    );
    late.accepted_at = Some(moment("2026-07-31T03:59:59Z"));
    assert!(matches!(
        tree.apply(&late, &payload),
        Err(ApplyError::RequestCreatedAfterAcceptance)
    ));
    late.accepted_at = Some(moment("2026-07-31T04:00:00Z"));
    assert!(tree.apply(&late, &payload).is_ok());
}

#[test]
fn a_second_document_of_one_identity_is_refused() {
    let mut tree = Tree::default();
    let markdown = document(DOCUMENT_ID, CREATE_REQUEST_ID, "Fictional experiment", None);
    let payload: Vec<(&str, &[u8])> = vec![("index.md", markdown.as_bytes())];
    let create = request(
        CREATE_REQUEST_ID,
        Some("fictional-project"),
        DocumentType::Experiment,
        vec![Operation::CreateDocument {
            document_id: document_id(DOCUMENT_ID),
            content: "index.md".to_owned(),
        }],
        &payload,
    );
    assert!(tree.apply(&create, &payload).is_ok());
    assert!(matches!(
        tree.apply(&create, &payload),
        Err(ApplyError::DocumentIdConflict { document_id: found }) if found == document_id(DOCUMENT_ID)
    ));
    let missing = request(
        MOVE_REQUEST_ID,
        None,
        DocumentType::Runbook,
        vec![Operation::ArchiveDocument {
            document_id: document_id(RUNBOOK_ID),
            expected_revision: exact_revision(&markdown),
        }],
        &[],
    );
    assert!(matches!(
        tree.apply(&missing, &[]),
        Err(ApplyError::DocumentNotFound { document_id: found }) if found == document_id(RUNBOOK_ID)
    ));
}

fn markdown(id: &str, title: &str) -> String {
    format!(
        "---\n\
         schema_version: 1\n\
         document_id: {id}\n\
         title: {title}\n\
         created: 2026-07-31T03:50:00Z\n\
         request_id: {REQUEST_ID}\n\
         status: active\n\
         ---\n\
         Fictional body.\n"
    )
}

#[test]
fn indexes_documents_and_exact_byte_revisions() {
    let mut tree = Tree::default();
    let contents = markdown(DOCUMENT_ID, "Fictional runbook");
    tree.write(&format!("projects/fictional/runbooks/{BUNDLE}/index.md"), contents.as_bytes());
    tree.write(&format!("projects/fictional/runbooks/{BUNDLE}/report.json"), b"{}\n");

    let index = match tree.index() {
        Ok(index) => index,
        Err(error) => panic!("valid content must index: {}", error.message()),
    };
    assert_eq!(index.len(), 1);
    let id = document_id(DOCUMENT_ID);
    let record = match index.get(id) {
        Some(record) => record,
        None => panic!("indexed document must resolve"),
    };
    assert_eq!(
        record.relative_path().text(),
        format!("projects/fictional/runbooks/{BUNDLE}/index.md")
    );
    assert_eq!(record.metadata().title, "Fictional runbook");
    let expected = Revision::from_bytes(Sha256::digest(contents.as_bytes()).into());
    assert_eq!(record.revision(), expected);
    assert!(index.require_revision(id, expected).is_ok());
}

#[test]
fn optimistic_check_reports_missing_and_conflicting_documents() {
    let mut tree = Tree::default();
    let contents = markdown(DOCUMENT_ID, "Fictional decision");
    tree.write(&format!("projects/fictional/decisions/{BUNDLE}/index.md"), contents.as_bytes());
    let index = match tree.index() {
        Ok(index) => index,
        Err(error) => panic!("valid content must index: {}", error.message()),
    };
    let id = document_id(DOCUMENT_ID);
    let wrong_revision = Revision::from_bytes([7; 32]);
    assert!(matches!(
        index.require_revision(id, wrong_revision),
        Err(RevisionCheckError::RevisionConflict {
            document_id: found,
            expected,
            ..
        }) if found == id && expected == wrong_revision
    ));

    let missing = document_id(OTHER_DOCUMENT_ID);
    assert!(matches!(
        index.require_revision(missing, wrong_revision),
        Err(RevisionCheckError::NotFound { document_id }) if document_id == missing
    ));
}

#[test]
fn duplicate_document_ids_fail_the_complete_index() {
    let mut tree = Tree::default();
    let contents = markdown(DOCUMENT_ID, "Fictional reference");
    tree.write(&format!("projects/fictional-a/references/{BUNDLE}/index.md"), contents.as_bytes());
    tree.write(&format!("projects/fictional-b/references/{BUNDLE}/index.md"), contents.as_bytes());

    assert!(matches!(
        tree.index(),
        Err(ContentIndexError::DuplicateDocumentId {
            document_id: found,
            first_path,
            second_path,
        }) if found == document_id(DOCUMENT_ID)
            && first_path.text() == format!("projects/fictional-a/references/{BUNDLE}/index.md")
            && second_path.text() == format!("projects/fictional-b/references/{BUNDLE}/index.md")
    ));
}

#[test]
fn rejects_unsafe_entries_and_enforces_bounds() {
    let mut tree = Tree::default();
    tree.write(
        &format!("projects/fictional/references/{BUNDLE}/index.md"),
        markdown(DOCUMENT_ID, "Fictional reference").as_bytes(),
    );
    tree.write("attachment.json", b"{}\n");
    assert!(matches!(
        tree.index_with(ContentPolicy { maximum_entry_count: 1, ..ContentPolicy::default() }),
        Err(ContentIndexError::EntryLimitExceeded { maximum: 1 })
    ));

    assert!(matches!(
        tree.index_with(ContentPolicy { maximum_markdown_bytes: 8, ..ContentPolicy::default() }),
        Err(ContentIndexError::MarkdownTooLarge { maximum: 8, .. })
    ));
}

#[test]
fn rejects_symbolic_links() {
    let mut tree = Tree::default();
    tree.write(
        &format!("projects/fictional/references/{BUNDLE}/index.md"),
        markdown(DOCUMENT_ID, "Fictional reference").as_bytes(),
    );
    tree.links.insert("projects/fictional/references/link.md".to_owned());
    assert!(matches!(
        tree.index(),
        Err(ContentIndexError::InvalidEntryType(path))
            if path.text() == "projects/fictional/references/link.md"
    ));
}

#[test]
fn rejects_noncanonical_document_and_attachment_paths() {
    let mut tree = Tree::default();
    tree.write(
        "projects/fictional/runbooks/arbitrary/index.md",
        markdown(DOCUMENT_ID, "Misplaced fictional runbook").as_bytes(),
    );
    assert!(matches!(
        tree.index(),
        Err(ContentIndexError::InvalidDocumentPath(path))
            if path.text() == "projects/fictional/runbooks/arbitrary/index.md"
    ));

    let mut tree = Tree::default();
    tree.write("orphan.json", b"{}\n");
    assert!(matches!(
        tree.index(),
        Err(ContentIndexError::OrphanAttachment(path)) if path.text() == "orphan.json"
    ));

    let mut tree = Tree::default();
    tree.write("projects/fictional/assets/program.exe", b"fictional\n");
    assert!(matches!(
        tree.index(),
        Err(ContentIndexError::UnsupportedAttachment(path))
            if path.text() == "projects/fictional/assets/program.exe"
    ));
}

#[test]
fn rejects_executable_and_hard_linked_regular_files() {
    let mut tree = Tree::default();
    tree.write("projects/fictional/assets/report.json", b"{}\n");
    if let Some(entry) = tree.files.get_mut("projects/fictional/assets/report.json") {
        entry.mode = 0o755;
    }
    assert!(matches!(
        tree.index(),
        Err(ContentIndexError::ExecutableFile(path))
            if path.text() == "projects/fictional/assets/report.json"
    ));

    let mut tree = Tree::default();
    tree.write("projects/fictional/assets/first.json", b"{}\n");
    tree.write("projects/fictional/assets/second.json", b"{}\n");
    for entry in tree.files.values_mut() {
        entry.links = 2;
    }
    assert!(matches!(tree.index(), Err(ContentIndexError::HardLinkedFile(_))));
}

fn log_path() -> String {
    format!("projects/fictional-project/logs/2026/07/31/035000-{LOG_ID}/index.md")
}

fn runbook_path() -> String {
    format!("projects/fictional-project/runbooks/2026-07-31-{RUNBOOK_ID}/index.md")
}

fn committed_tree() -> Tree {
    let mut tree = Tree::default();
    tree.write(
        &log_path(),
        format!(
            "---\nschema_version: 1\ndocument_id: {LOG_ID}\ntitle: Fictional GPU investigation\ncreated: 2026-07-31T03:50:00Z\nnode: fictional-node-a\nagent: codex\nsession: {SESSION_ID}\nrequest_id: {LOG_REQUEST_ID}\ntags:\n  - cuda\n  - performance\nstatus: active\n---\nNeedle OOM analysis.\n"
        )
        .as_bytes(),
    );
    tree.write(
        &runbook_path(),
        format!(
            "---\nschema_version: 1\ndocument_id: {RUNBOOK_ID}\ntitle: Fictional restart procedure\ncreated: 2026-07-31T04:00:00Z\nupdated: 2026-07-31T05:00:00Z\nrequest_id: {RUNBOOK_REQUEST_ID}\ntags:\n  - operations\nstatus: active\n---\nRestart the fictional service.\n"
        )
        .as_bytes(),
    );
    tree
}

fn commit(digit: char) -> ObjectId {
    let text: String = std::iter::repeat(digit).take(40).collect();
    match ObjectId::parse(&text) {
        Some(commit) => commit,
        None => panic!("fixture commit must parse"),
    }
}

fn snapshot(tree: &Tree) -> CommittedSnapshot {
    let index = match tree.index() {
        Ok(index) => index,
        Err(error) => panic!("committed content must index: {}", error.message()),
    };
    CommittedSnapshot {
        commit: commit('a'),
        index,
        attachments: attachments_of(&tree.entry("", "", MovedKind::Directory)),
        maximum_markdown_bytes: 1 << 20,
        maximum_bundle_bytes: 1 << 20,
        maximum_bundle_entries: 16,
        deadline: None,
    }
}

fn pinned(bytes: &[u8]) -> PinnedRead {
    PinnedRead::Read { mode: 0o644, links: 1, length: bytes.len() as u64, bytes: bytes.to_vec() }
}

const NO_CLOCK: ListClock = ListClock { begun: 0, filtered: 0, ordered: 0 };

fn search<'a>(
    tree: &Tree,
    backend: LinearSearch,
    snapshot: &'a CommittedSnapshot,
    query: &str,
    filter: &ReadFilter,
    policy: SearchPolicy,
) -> Result<Vec<&'a DocumentRecord>, CommittedReadError> {
    let mut facts = SearchFacts { documents: Vec::new(), finished: 0 };
    loop {
        match backend.search(snapshot, query, filter, policy, &facts) {
            Ok(found) => return Ok(found),
            Err(SearchHalt::Failed(error)) => return Err(error),
            Err(SearchHalt::Needs(at)) => {
                let record = &snapshot.index.documents()[at];
                let read = pinned(&tree.read(&record.relative_path().text()));
                if at < facts.documents.len() {
                    facts.documents[at].read = Some(read);
                } else {
                    facts.documents.push(DocumentFacts { now: 0, read: None });
                }
            }
        }
    }
}

fn config_facts() -> ConfigFacts {
    ConfigFacts {
        keys: b"core.repositoryformatversion\0core.filemode\0core.bare\0".to_vec(),
        bare: b"true\n".to_vec(),
        filemode: b"true\n".to_vec(),
    }
}

fn layout_facts() -> LayoutFacts {
    LayoutFacts {
        bare: b"true\n".to_vec(),
        inside: b"true\n".to_vec(),
        top_level: true,
        common_directory: true,
        symbolic_head: b"refs/heads/main\n".to_vec(),
    }
}

fn pin_facts() -> PinFacts {
    let head = format!("{}\n", commit('a').text()).into_bytes();
    PinFacts {
        lock: Some(SharedLock::Taken),
        storage: Some((true, 5)),
        configuration: Some(config_facts()),
        layout: Some(layout_facts()),
        status: Some(Vec::new()),
        official: Some(head.clone()),
        checked_out: Some(head),
    }
}

#[test]
fn snapshots_one_commit_and_queries_validated_documents() {
    let tree = committed_tree();
    let current = match pin_current_commit("refs/heads/main", None, &pin_facts()) {
        Ok(Pinning::Pinned(commit)) => commit,
        Ok(Pinning::Observe(observation)) => panic!("nothing is left to observe: {observation:?}"),
        Err(error) => panic!("current commit must validate: {}", error.message()),
    };
    let snapshot = snapshot(&tree);
    assert_eq!(current, snapshot.commit());
    let filter = ReadFilter::new(Some("fictional-project".to_owned()), None, None, false);

    let listed = match snapshot.list(&filter, 10, NO_CLOCK) {
        Ok(listed) => listed,
        Err(error) => panic!("committed list must succeed: {}", error.message()),
    };
    assert_eq!(listed.len(), 2);
    assert!(comes_before(listed[0].relative_path(), listed[1].relative_path()));
    let recent = match snapshot.recent(&filter, 10, NO_CLOCK) {
        Ok(recent) => recent,
        Err(error) => panic!("committed recent must succeed: {}", error.message()),
    };
    assert_eq!(recent[0].metadata().document_id.text(), RUNBOOK_ID);

    let log_id = document_id(LOG_ID);
    let found = match snapshot.get(log_id, &pinned(&tree.read(&log_path())), 0, 0) {
        Ok(found) => found,
        Err(error) => panic!("committed document must load: {}", error.message()),
    };
    assert!(std::str::from_utf8(found.markdown())
        .is_ok_and(|markdown| markdown.contains("Needle OOM analysis")));

    let backend = LinearSearch::default();
    let matches =
        match search(&tree, backend, &snapshot, "needle", &filter, SearchPolicy::new(64, 10)) {
            Ok(matches) => matches,
            Err(error) => panic!("body search must succeed: {}", error.message()),
        };
    assert_eq!(matches.len(), 1);
    assert_eq!(matches[0].metadata().document_id, log_id);
    let metadata_matches = match search(
        &tree,
        backend,
        &snapshot,
        "fictional-node-a",
        &filter,
        SearchPolicy::new(64, 10),
    ) {
        Ok(matches) => matches,
        Err(error) => panic!("metadata search must succeed: {}", error.message()),
    };
    assert_eq!(metadata_matches.len(), 1);
    assert!(!snapshot.commit().text().is_empty());
}

#[test]
fn a_limited_search_gives_the_first_matches_in_path_order() {
    let tree = committed_tree();
    let snapshot = snapshot(&tree);
    let found = |maximum: usize| -> Vec<String> {
        let everything = ReadFilter::default();
        let policy = SearchPolicy::new(64, maximum);
        match search(&tree, LinearSearch::default(), &snapshot, "FICTIONAL", &everything, policy) {
            Ok(matches) => matches.iter().map(|record| record.relative_path.text()).collect(),
            Err(error) => panic!("a search must succeed: {}", error.message()),
        }
    };
    assert_eq!(found(10), vec![log_path(), runbook_path()]);
    assert_eq!(found(1), vec![log_path()]);
}

#[test]
fn filters_tags_and_disables_unselected_search_metadata() {
    let tree = committed_tree();
    let snapshot = snapshot(&tree);
    let cuda = ReadFilter::new(None, Some("cuda".to_owned()), None, false);
    match snapshot.list(&cuda, 10, NO_CLOCK) {
        Ok(listed) => assert_eq!(listed.len(), 1),
        Err(error) => panic!("tag filter must succeed: {}", error.message()),
    }
    let backend = LinearSearch::new(SearchMetadataFields::new(false, false, false, false));
    match search(
        &tree,
        backend,
        &snapshot,
        "fictional-node-a",
        &ReadFilter::default(),
        SearchPolicy::new(64, 10),
    ) {
        Ok(matches) => assert!(matches.is_empty()),
        Err(error) => panic!("restricted metadata search must succeed: {}", error.message()),
    }
}

#[test]
fn rejects_writer_contention_dirty_content_and_invalid_bounds() {
    let tree = committed_tree();
    let mut contended = pin_facts();
    contended.lock = Some(SharedLock::Held);
    assert!(matches!(
        pin_current_commit("refs/heads/main", None, &contended),
        Err(CommittedReadError::Busy)
    ));
    let expired = pin_facts();
    assert!(matches!(
        pin_current_commit("refs/heads/main", Some(5), &expired),
        Err(CommittedReadError::OperationDeadlineExceeded)
    ));

    let snapshot = snapshot(&tree);
    assert!(matches!(
        snapshot.list(&ReadFilter::default(), 0, NO_CLOCK),
        Err(CommittedReadError::InvalidResultLimit)
    ));
    let backend = LinearSearch::default();
    let everything = ReadFilter::default();
    assert!(matches!(
        search(&tree, backend, &snapshot, " ", &everything, SearchPolicy::new(64, 10)),
        Err(CommittedReadError::EmptyQuery)
    ));
    assert!(matches!(
        search(
            &tree,
            backend,
            &snapshot,
            "not-present",
            &everything,
            SearchPolicy { maximum_scanned_documents: 1, ..SearchPolicy::new(64, 10) },
        ),
        Err(CommittedReadError::SearchDocumentLimitExceeded { maximum: 1 })
    ));
    assert!(matches!(
        search(
            &tree,
            backend,
            &snapshot,
            "not-present",
            &everything,
            SearchPolicy { maximum_scanned_markdown_bytes: 1, ..SearchPolicy::new(64, 10) },
        ),
        Err(CommittedReadError::SearchMarkdownByteLimitExceeded { maximum: 1 })
    ));

    let mut dirty = pin_facts();
    dirty.status = Some(b"?? fictional-untracked.md\0".to_vec());
    assert!(matches!(
        pin_current_commit("refs/heads/main", None, &dirty),
        Err(CommittedReadError::Repository(GitTransactionError::CanonicalWorktreeDirty))
    ));
}

#[test]
fn an_out_of_date_worktree_is_not_pinned() {
    let mut facts = pin_facts();
    facts.checked_out = Some(format!("{}\n", commit('b').text()).into_bytes());
    assert!(matches!(
        pin_current_commit("refs/heads/main", None, &facts),
        Err(CommittedReadError::CanonicalOutOfDate { official, checked_out })
            if official == commit('a') && checked_out == commit('b')
    ));
    let mut replaced = pin_facts();
    replaced.storage = Some((false, 5));
    assert!(matches!(
        pin_current_commit("refs/heads/main", None, &replaced),
        Err(CommittedReadError::StorageReplaced)
    ));
}

#[test]
fn a_changed_document_is_not_returned() {
    let tree = committed_tree();
    let snapshot = snapshot(&tree);
    let log_id = document_id(LOG_ID);
    assert!(matches!(
        snapshot.get(log_id, &pinned(b"changed"), 0, 0),
        Err(CommittedReadError::ContentChanged { document_id }) if document_id == log_id
    ));
    let executable = PinnedRead::Read {
        mode: 0o755,
        links: 1,
        length: 7,
        bytes: b"changed".to_vec(),
    };
    assert!(matches!(snapshot.get(log_id, &executable, 0, 0), Err(CommittedReadError::Io(_))));
    let missing = document_id(DOCUMENT_ID);
    assert!(matches!(
        snapshot.get(missing, &pinned(b""), 0, 0),
        Err(CommittedReadError::DocumentNotFound { document_id }) if document_id == missing
    ));
}

#[test]
fn a_bundle_holds_its_document_and_its_attachments() {
    let mut tree = Tree::default();
    let directory = format!("projects/fictional/runbooks/{BUNDLE}");
    let contents = markdown(DOCUMENT_ID, "Fictional runbook");
    tree.write(&format!("{directory}/index.md"), contents.as_bytes());
    tree.write(&format!("{directory}/report.json"), b"{}\n");
    let snapshot = snapshot(&tree);
    let id = document_id(DOCUMENT_ID);
    let files = match snapshot.bundle_files(id, 0) {
        Ok((_, files)) => files.len(),
        Err(error) => panic!("bundle files must be listed: {}", error.message()),
    };
    assert_eq!(files, 1);
    let reads = BundleReads {
        markdown: pinned(contents.as_bytes()),
        attachments: vec![(pinned(b"{}\n"), pinned(b"{}\n"))],
        finished: 0,
    };
    let entries = match snapshot.bundle(id, &reads, 0) {
        Ok(bundle) => bundle.into_entries(),
        Err(error) => panic!("bundle must be read: {}", error.message()),
    };
    let names: Vec<&str> = entries.iter().map(|entry| entry.name().as_str()).collect();
    assert_eq!(names, vec!["index.md", "report.json"]);
    assert_eq!(entries[1].bytes(), b"{}\n");
}

#[test]
fn bundles_hold_the_attachments_beside_their_document_by_name() {
    let mut tree = Tree::default();
    let directory = format!("projects/fictional/runbooks/{BUNDLE}");
    let contents = markdown(DOCUMENT_ID, "Fictional runbook");
    tree.write(&format!("{directory}/index.md"), contents.as_bytes());
    for name in ["zeta.json", "alpha.json", "Beta.json"] {
        tree.write(&format!("{directory}/{name}"), b"{}\n");
    }
    tree.write("projects/fictional/assets/logo.json", b"[]\n");
    tree.write(".git/config", b"[core]\n");
    let listed: Vec<(String, u64)> = attachments_of(&tree.entry("", "", MovedKind::Directory))
        .iter()
        .map(|attachment| (attachment.relative_path.text(), attachment.byte_length))
        .collect();
    assert_eq!(
        listed,
        vec![
            ("projects/fictional/assets/logo.json".to_owned(), 3),
            (format!("{directory}/Beta.json"), 3),
            (format!("{directory}/alpha.json"), 3),
            (format!("{directory}/zeta.json"), 3),
        ]
    );
    let snapshot = snapshot(&tree);
    let id = document_id(DOCUMENT_ID);
    let reads = BundleReads {
        markdown: pinned(contents.as_bytes()),
        attachments: (0..3).map(|_| (pinned(b"{}\n"), pinned(b"{}\n"))).collect(),
        finished: 0,
    };
    let entries = match snapshot.bundle(id, &reads, 0) {
        Ok(bundle) => bundle.into_entries(),
        Err(error) => panic!("bundle must be read: {}", error.message()),
    };
    let names: Vec<&str> = entries.iter().map(|entry| entry.name().as_str()).collect();
    assert_eq!(names, vec!["index.md", "Beta.json", "alpha.json", "zeta.json"]);
}

fn limits() -> PackageLimits {
    PackageLimits { maximum_file_bytes: 1 << 20, maximum_path_components: 16 }
}

fn bare_entry(name: &[u8], facts: EntryFacts, children: Vec<ContentEntry>) -> ContentEntry {
    ContentEntry { name: name.to_vec(), observed_at: 0, listed_at: 0, facts, children }
}

fn index_of(root: &ContentEntry, policy: ContentPolicy) -> Result<ContentIndex, ContentIndexError> {
    ContentIndex::build(root, &policy, &limits(), &Tree::default().names())
}

#[test]
fn a_root_that_is_no_readable_directory_is_not_indexed() {
    let policy = ContentPolicy::default();
    let special = bare_entry(b"", EntryFacts::Special, Vec::new());
    assert!(matches!(index_of(&special, policy), Err(ContentIndexError::InvalidRoot)));
    let unlisted = bare_entry(b"", EntryFacts::Unlisted("denied".to_owned()), Vec::new());
    assert!(matches!(
        index_of(&unlisted, policy),
        Err(ContentIndexError::Io(reason)) if reason == "denied"
    ));
    let empty = bare_entry(b"", EntryFacts::Directory, Vec::new());
    assert!(matches!(index_of(&empty, policy), Ok(index) if index.is_empty()));
    let named = DirectoryIdentity { directory: true, device: 1, inode: 2 };
    let other = DirectoryIdentity { directory: true, device: 1, inode: 3 };
    let file = DirectoryIdentity { directory: false, device: 1, inode: 2 };
    let names = Tree::default().names();
    let pinned_index = |named: &DirectoryIdentity, pinned: &DirectoryIdentity| {
        ContentIndex::build_from_pinned_root(&empty, named, pinned, &policy, &limits(), &names)
    };
    assert!(pinned_index(&named, &named).is_ok());
    assert!(matches!(pinned_index(&named, &other), Err(ContentIndexError::InvalidRoot)));
    assert!(matches!(pinned_index(&file, &file), Err(ContentIndexError::InvalidRoot)));
}

#[test]
fn unreadable_names_entries_and_late_scans_are_refused() {
    let policy = ContentPolicy::default();
    let nested = bare_entry(
        b"projects",
        EntryFacts::Directory,
        vec![bare_entry(&[0xff, b'a'], EntryFacts::Directory, Vec::new())],
    );
    let root = bare_entry(b"", EntryFacts::Directory, vec![nested]);
    match index_of(&root, policy) {
        Err(error @ ContentIndexError::InvalidPathEncoding { .. }) => {
            assert_eq!(error.message(), "content path `projects/\u{fffd}a` is not UTF-8");
        }
        other => panic!("name must be refused: {other:?}"),
    }
    let unreadable =
        bare_entry(b"index.md", EntryFacts::Unreadable("gone".to_owned()), Vec::new());
    let root = bare_entry(b"", EntryFacts::Directory, vec![unreadable]);
    assert!(matches!(
        index_of(&root, policy),
        Err(ContentIndexError::Io(reason)) if reason == "gone"
    ));
    let metadata = bare_entry(b".git", EntryFacts::Special, Vec::new());
    let root = bare_entry(b"", EntryFacts::Directory, vec![metadata]);
    assert!(index_of(&root, policy).is_ok());
    let late = ContentPolicy { scan_deadline: Some(0), ..policy };
    assert!(matches!(index_of(&root, late), Err(ContentIndexError::ScanDeadlineExceeded)));
    let early = ContentPolicy { scan_deadline: Some(1), ..policy };
    assert!(index_of(&root, early).is_ok());
}

#[test]
fn documents_that_do_not_say_what_their_place_says_are_refused() {
    let runbook = format!("projects/fictional/runbooks/{BUNDLE}/index.md");
    let mut tree = Tree::default();
    tree.write(&runbook, b"no front matter\n");
    assert!(matches!(
        tree.index(),
        Err(ContentIndexError::InvalidDocument { path, source })
            if path.text() == runbook && source == "no front matter"
    ));

    let contents = markdown(DOCUMENT_ID, "Fictional runbook").replace("active", "archived");
    tree.write(&runbook, contents.as_bytes());
    assert!(matches!(
        tree.index(),
        Err(ContentIndexError::ArchiveStatusMismatch(path)) if path.text() == runbook
    ));

    let log = format!("projects/fictional/logs/2026/07/31/035000-{DOCUMENT_ID}/index.md");
    let mut tree = Tree::default();
    tree.write(&log, markdown(DOCUMENT_ID, "Fictional log").as_bytes());
    assert!(matches!(
        tree.index(),
        Err(ContentIndexError::InvalidMetadata { path, source })
            if path.text() == log && source == "a log needs a node, an agent and a session"
    ));
}

#[test]
fn aggregate_bytes_and_attachments_are_bounded() {
    let mut tree = Tree::default();
    let contents = markdown(DOCUMENT_ID, "Fictional runbook");
    tree.write(&format!("projects/fictional/runbooks/{BUNDLE}/index.md"), contents.as_bytes());
    let exact = contents.len() as u64;
    let bounded = |maximum: u64| ContentPolicy {
        maximum_total_markdown_bytes: maximum,
        ..ContentPolicy::default()
    };
    assert!(tree.index_with(bounded(exact)).is_ok());
    assert!(matches!(
        tree.index_with(bounded(exact - 1)),
        Err(ContentIndexError::MarkdownByteLimitExceeded { maximum }) if maximum == exact - 1
    ));

    let attachment = format!("projects/fictional/runbooks/{BUNDLE}/report.json");
    tree.write(&attachment, b"{}\n");
    let build = |limits: PackageLimits, names: &NameRules| {
        let root = tree.entry("", "", MovedKind::Directory);
        ContentIndex::build(&root, &ContentPolicy::default(), &limits, names)
    };
    let narrow = PackageLimits { maximum_file_bytes: 2, ..limits() };
    match build(narrow, &tree.names()) {
        Err(error @ ContentIndexError::AttachmentTooLarge { maximum: 2, actual: 3, .. }) => {
            assert_eq!(
                error.message(),
                format!("content attachment `{attachment}` is 3 bytes; maximum is 2")
            );
        }
        other => panic!("attachment must be refused: {other:?}"),
    }
    let mut unnamed = tree.names();
    unnamed.attachments.retain(|name| name != "report.json");
    assert!(matches!(
        build(limits(), &unnamed),
        Err(ContentIndexError::InvalidAttachmentPath(path)) if path.text() == attachment
    ));
}

fn facts_of(payload: &[(&str, &[u8])]) -> Facts {
    Facts {
        payload: payload
            .iter()
            .map(|(path, bytes)| PayloadRead {
                path: (*path).to_owned(),
                read: FileRead::Bytes(bytes.to_vec()),
            })
            .collect(),
        documents: Vec::new(),
        destinations: Vec::new(),
        decodings: payload
            .iter()
            .map(|(_, bytes)| Decoding { bytes: bytes.to_vec(), decoded: decode(bytes) })
            .collect(),
        encodings: Vec::new(),
    }
}

fn refusal(request: &ChangeRequest, tree: &Tree, facts: &Facts) -> ApplyError {
    let index = match tree.index() {
        Ok(index) => index,
        Err(error) => panic!("fixture must index: {}", error.message()),
    };
    match build_plan(request, &index, &ContentPolicy::default(), facts) {
        Err(Halt::Failed(error)) => error,
        other => panic!("request must be refused: {other:?}"),
    }
}

#[test]
fn packages_that_changed_or_do_not_decode_are_refused() {
    let tree = Tree::default();
    let contents = document(DOCUMENT_ID, CREATE_REQUEST_ID, "Fictional runbook", None);
    let declared: Vec<(&str, &[u8])> = vec![("index.md", contents.as_bytes())];
    let create = |payload: &[(&str, &[u8])]| {
        request(
            CREATE_REQUEST_ID,
            Some("fictional"),
            DocumentType::Runbook,
            vec![Operation::CreateDocument {
                document_id: document_id(DOCUMENT_ID),
                content: "index.md".to_owned(),
            }],
            payload,
        )
    };
    let error = refusal(&create(&[]), &tree, &facts_of(&[]));
    assert!(matches!(error, ApplyError::ClaimPackageChanged));
    assert!(error.request_error_code().is_none());
    let changed: Vec<(&str, &[u8])> = vec![("index.md", b"changed")];
    assert!(matches!(
        refusal(&create(&declared), &tree, &facts_of(&changed)),
        ApplyError::ClaimPackageChanged
    ));
    let mut failed = facts_of(&[]);
    failed.payload.push(PayloadRead {
        path: "index.md".to_owned(),
        read: FileRead::Failed("disk".to_owned()),
    });
    assert!(matches!(
        refusal(&create(&declared), &tree, &failed),
        ApplyError::Io(reason) if reason == "disk"
    ));

    let malformed: Vec<(&str, &[u8])> = vec![("index.md", b"no front matter")];
    let error = refusal(&create(&malformed), &tree, &facts_of(&malformed));
    assert_eq!(error.request_error_code(), Some(ErrorCode::InvalidFrontMatter));
    assert_eq!(error.message(), "payload `index.md` is invalid: no front matter");
    assert!(matches!(error, ApplyError::InvalidPayloadDocument { .. }));

    let mut invalid = facts_of(&declared);
    if let DecodedDocument::Decoded { common_violation, .. } = &mut invalid.decodings[0].decoded {
        *common_violation = Some("title is empty".to_owned());
    }
    let error = refusal(&create(&declared), &tree, &invalid);
    assert_eq!(error.request_error_code(), Some(ErrorCode::InvalidFrontMatter));
    assert_eq!(error.message(), "payload `index.md` metadata is invalid: title is empty");
    assert!(matches!(error, ApplyError::InvalidPayloadMetadata { .. }));
}

#[test]
fn content_that_changes_under_a_request_is_not_archived() {
    let mut tree = Tree::default();
    let relative = format!("projects/fictional/runbooks/{BUNDLE}/index.md");
    let contents = document(DOCUMENT_ID, ORIGINAL_REQUEST_ID, "Fictional runbook", None);
    tree.write(&relative, contents.as_bytes());
    let archive = request(
        ARCHIVE_REQUEST_ID,
        Some("fictional"),
        DocumentType::Runbook,
        vec![Operation::ArchiveDocument {
            document_id: document_id(DOCUMENT_ID),
            expected_revision: exact_revision(&contents),
        }],
        &[],
    );
    let read = |bytes: &[u8]| DocumentRead {
        path: path(&relative),
        read: FileRead::Bytes(bytes.to_vec()),
    };
    let mut facts = facts_of(&[]);
    facts.documents.push(read(b"changed"));
    let error = refusal(&archive, &tree, &facts);
    assert!(matches!(error, ApplyError::ContentChangedDuringApply));
    assert!(error.request_error_code().is_none());

    let mut facts = facts_of(&[]);
    facts.documents.push(read(contents.as_bytes()));
    let index = match tree.index() {
        Ok(index) => index,
        Err(error) => panic!("fixture must index: {}", error.message()),
    };
    let error = loop {
        match build_plan(&archive, &index, &ContentPolicy::default(), &facts) {
            Err(Halt::Failed(error)) => break error,
            Err(Halt::Needs(Need::Destination(path))) => {
                facts.destinations.push(DestinationProbe { path, probe: Probe::Absent });
            }
            Err(Halt::Needs(Need::Decoding(bytes))) => {
                let decoded = decode(&bytes);
                facts.decodings.push(Decoding { bytes, decoded });
            }
            Err(Halt::Needs(Need::Encoding(metadata))) => {
                let encoding = Encoding::Failed("unwritable".to_owned());
                facts.encodings.push(MetadataEncoding { metadata, encoding });
            }
            other => panic!("archive must be refused: {other:?}"),
        }
    };
    assert!(matches!(error, ApplyError::MetadataEncoding(reason) if reason == "unwritable"));
}

#[test]
fn codes_are_given_to_refused_requests_only() {
    let id = document_id(DOCUMENT_ID);
    let zero = Revision::from_bytes([0; 32]);
    let code = |error: ApplyError| error.request_error_code();
    assert_eq!(
        code(ApplyError::RequestCreatedAfterAcceptance),
        Some(ErrorCode::InvalidRequest)
    );
    assert_eq!(
        code(ApplyError::DocumentNotFound { document_id: id }),
        Some(ErrorCode::DocumentNotFound)
    );
    assert_eq!(
        code(ApplyError::DocumentIdConflict { document_id: id }),
        Some(ErrorCode::DocumentIdConflict)
    );
    assert_eq!(
        code(ApplyError::RevisionConflict { document_id: id, expected: zero, actual: zero }),
        Some(ErrorCode::RevisionConflict)
    );
    assert_eq!(
        code(ApplyError::OperationForbidden { document_id: id, detail: "logs are final" }),
        Some(ErrorCode::OperationForbidden)
    );
    assert_eq!(
        code(ApplyError::ContentIndex(ContentIndexError::InvalidRoot)),
        None
    );
    assert_eq!(code(ApplyError::PackageValidation("manifest".to_owned())), None);
    assert_eq!(code(ApplyError::Io("disk".to_owned())), None);
}

#[test]
fn oversized_bundles_and_queries_are_refused() {
    let mut tree = Tree::default();
    let directory = format!("projects/fictional/runbooks/{BUNDLE}");
    let contents = markdown(DOCUMENT_ID, "Fictional runbook");
    tree.write(&format!("{directory}/index.md"), contents.as_bytes());
    tree.write(&format!("{directory}/report.json"), b"{}\n");
    let id = document_id(DOCUMENT_ID);
    let mut snapshot = snapshot(&tree);
    assert!(matches!(
        search(
            &tree,
            LinearSearch::default(),
            &snapshot,
            "needle",
            &ReadFilter::default(),
            SearchPolicy::new(5, 10),
        ),
        Err(CommittedReadError::QueryTooLong { maximum: 5, actual: 6 })
    ));
    snapshot.maximum_bundle_bytes = contents.len() as u64 + 2;
    assert!(matches!(
        snapshot.bundle_files(id, 0),
        Err(CommittedReadError::BundleByteLimitExceeded { maximum })
            if maximum == contents.len() as u64 + 2
    ));
    snapshot.maximum_bundle_bytes += 1;
    assert!(snapshot.bundle_files(id, 0).is_ok());
    snapshot.maximum_bundle_entries = 1;
    assert!(matches!(
        snapshot.bundle_files(id, 0),
        Err(CommittedReadError::BundleEntryLimitExceeded { maximum: 1 })
    ));
    assert!(matches!(
        snapshot.get(id, &PinnedRead::Unresolved("link".to_owned()), 0, 0),
        Err(CommittedReadError::PinnedPath(reason)) if reason == "link"
    ));
    snapshot.maximum_bundle_entries = 2;
    let reads = BundleReads {
        markdown: pinned(contents.as_bytes()),
        attachments: vec![(pinned(b"{}\n"), pinned(b"[]\n"))],
        finished: 0,
    };
    assert!(matches!(
        snapshot.bundle(id, &reads, 0),
        Err(CommittedReadError::ContentChanged { document_id }) if document_id == id
    ));
}

#[test]
fn the_bytes_of_a_document_alone_are_bounded_too() {
    let mut tree = Tree::default();
    let contents = markdown(DOCUMENT_ID, "Fictional runbook");
    tree.write(
        &format!("projects/fictional/runbooks/{BUNDLE}/index.md"),
        contents.as_bytes(),
    );
    let id = document_id(DOCUMENT_ID);
    let mut snapshot = snapshot(&tree);
    snapshot.maximum_bundle_bytes = contents.len() as u64 - 1;
    assert!(matches!(
        snapshot.bundle_files(id, 0),
        Err(CommittedReadError::BundleByteLimitExceeded { maximum })
            if maximum == contents.len() as u64 - 1
    ));
    let reads =
        BundleReads { markdown: pinned(contents.as_bytes()), attachments: Vec::new(), finished: 0 };
    assert!(matches!(
        snapshot.bundle(id, &reads, 0),
        Err(CommittedReadError::BundleByteLimitExceeded { .. })
    ));
    snapshot.maximum_bundle_bytes = contents.len() as u64;
    let longer = format!("{contents}more\n");
    let grown =
        BundleReads { markdown: pinned(longer.as_bytes()), attachments: Vec::new(), finished: 0 };
    assert!(matches!(
        snapshot.bundle(id, &grown, 0),
        Err(CommittedReadError::ContentChanged { document_id }) if document_id == id
    ));
    let entries = match snapshot.bundle(id, &reads, 0) {
        Ok(bundle) => bundle.into_entries(),
        Err(error) => panic!("a bundle at its bound must be read: {}", error.message()),
    };
    assert_eq!(entries.len(), 1);
}

#[test]
fn pinning_observes_in_order_and_stops_at_the_first_problem() {
    let mut facts = PinFacts {
        lock: None,
        storage: None,
        configuration: None,
        layout: None,
        status: None,
        official: None,
        checked_out: None,
    };
    let whole = pin_facts();
    let mut order = Vec::new();
    let pinned = loop {
        match pin_current_commit("refs/heads/main", Some(6), &facts) {
            Ok(Pinning::Pinned(commit)) => break commit,
            Err(error) => panic!("clean content must be pinned: {}", error.message()),
            Ok(Pinning::Observe(observation)) => {
                order.push(observation);
                match observation {
                    PinObservation::Lock => facts.lock = Some(SharedLock::Taken),
                    PinObservation::Storage => facts.storage = whole.storage,
                    PinObservation::Configuration => facts.configuration = Some(config_facts()),
                    PinObservation::Layout => facts.layout = Some(layout_facts()),
                    PinObservation::Status => facts.status = whole.status.clone(),
                    PinObservation::Official => facts.official = whole.official.clone(),
                    PinObservation::CheckedOut => facts.checked_out = whole.checked_out.clone(),
                }
            }
        }
    };
    assert_eq!(pinned, commit('a'));
    assert_eq!(
        order,
        vec![
            PinObservation::Lock,
            PinObservation::Storage,
            PinObservation::Configuration,
            PinObservation::Layout,
            PinObservation::Status,
            PinObservation::Official,
            PinObservation::CheckedOut,
        ]
    );
    facts.lock = Some(SharedLock::Failed("denied".to_owned()));
    assert!(matches!(
        pin_current_commit("refs/heads/main", None, &facts),
        Err(CommittedReadError::Io(reason)) if reason == "denied"
    ));
    facts.lock = Some(SharedLock::Taken);
    facts.checked_out = None;
    facts.official = Some(b"nothing\n".to_vec());
    assert!(matches!(
        pin_current_commit("refs/heads/main", None, &facts),
        Err(CommittedReadError::Repository(GitTransactionError::InvalidGitOutput))
    ));
}

fn store_facts() -> StoreFacts {
    StoreFacts {
        begun: 5,
        version: Some(b"git version 2.50.1\n".to_vec()),
        git_directory: Some(true),
        content_root: Some(true),
        paths: Some((path("srv/repository.git"), path("srv/content"))),
        branch_name: true,
        configuration: Some(config_facts()),
        layout: Some((layout_facts(), 6)),
    }
}

fn open_store(
    branch: &str,
    deadline: Option<u64>,
    facts: &StoreFacts,
) -> Result<StoreOpening, CommittedReadError> {
    let settings = StoreSettings {
        git_directory: "/srv/repository.git".to_owned(),
        content_root: "/srv/content".to_owned(),
        official_branch: branch.to_owned(),
        deadline,
    };
    open_until(&settings, facts)
}

fn store_failure(facts: &StoreFacts) -> GitTransactionError {
    match open_store("main", None, facts) {
        Err(CommittedReadError::Repository(error)) => error,
        other => panic!("the repository must be refused: {other:?}"),
    }
}

#[test]
fn stores_are_opened_under_their_official_branch() {
    assert!(matches!(
        open_store("main", Some(7), &store_facts()),
        Ok(StoreOpening::Opened(official)) if official == "refs/heads/main"
    ));
    assert!(matches!(
        open_store("", None, &store_facts()),
        Err(CommittedReadError::InvalidOfficialBranch)
    ));
    for deadline in [5, 6] {
        assert!(matches!(
            open_store("main", Some(deadline), &store_facts()),
            Err(CommittedReadError::OperationDeadlineExceeded)
        ));
    }
    let mut facts = store_facts();
    facts.paths = Some((path("srv/repository.git"), path("srv/repository.git/content")));
    assert!(matches!(
        open_store("main", None, &facts),
        Err(CommittedReadError::OverlappingPaths)
    ));
    let mut facts = store_facts();
    facts.git_directory = Some(false);
    facts.content_root = None;
    assert!(matches!(
        store_failure(&facts),
        GitTransactionError::InvalidDirectory(found) if found == "/srv/repository.git"
    ));
    let mut facts = store_facts();
    facts.version = Some(b"git version 2.20.0\n".to_vec());
    assert!(matches!(
        store_failure(&facts),
        GitTransactionError::UnsupportedGitVersion { found } if found == "git version 2.20.0"
    ));
    let layout = |change: fn(&mut LayoutFacts)| {
        let mut layout = layout_facts();
        change(&mut layout);
        let mut facts = store_facts();
        facts.layout = Some((layout, 6));
        store_failure(&facts)
    };
    assert!(matches!(
        layout(|facts| facts.symbolic_head = b"refs/heads/other\n".to_vec()),
        GitTransactionError::CanonicalWorktreeBranchMismatch
    ));
    assert!(matches!(
        layout(|facts| facts.bare = b"false\n".to_vec()),
        GitTransactionError::RepositoryNotBare
    ));
    assert!(matches!(
        layout(|facts| facts.top_level = false),
        GitTransactionError::CanonicalWorktreeMismatch
    ));
}

#[test]
fn opening_a_store_observes_in_order() {
    let mut facts = StoreFacts {
        begun: 5,
        version: None,
        git_directory: None,
        content_root: None,
        paths: None,
        branch_name: false,
        configuration: None,
        layout: None,
    };
    let whole = store_facts();
    let mut order = Vec::new();
    let official = loop {
        match open_store("main", None, &facts) {
            Ok(StoreOpening::Opened(official)) => break official,
            Err(error) => panic!("store must open: {}", error.message()),
            Ok(StoreOpening::Observe(observation)) => {
                order.push(observation);
                match observation {
                    StoreObservation::Version => facts.version = whole.version.clone(),
                    StoreObservation::GitDirectory => facts.git_directory = Some(true),
                    StoreObservation::ContentRoot => facts.content_root = Some(true),
                    StoreObservation::Paths => facts.paths = whole.paths.clone(),
                    StoreObservation::BranchName => facts.branch_name = true,
                    StoreObservation::Configuration => {
                        facts.configuration = Some(config_facts());
                    }
                    StoreObservation::Layout => facts.layout = Some((layout_facts(), 6)),
                }
            }
        }
    };
    assert_eq!(official, "refs/heads/main");
    assert_eq!(
        order,
        vec![
            StoreObservation::Version,
            StoreObservation::GitDirectory,
            StoreObservation::ContentRoot,
            StoreObservation::Paths,
            StoreObservation::BranchName,
            StoreObservation::Configuration,
            StoreObservation::Layout,
        ]
    );
}
