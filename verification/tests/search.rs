use agent_knowledge::clock::Timestamp;
use agent_knowledge::document::{DocumentMetadata, DocumentStatus};
use agent_knowledge::git_text::ObjectId;
use agent_knowledge::history::{
    listed_documents, Ancestry, BlobRead, EntryRead, HistoryHalt, HistoryReader, MAXIMUM_COMMITS,
};
use agent_knowledge::ids::{DocumentId, RequestId, SessionId};
use agent_knowledge::index::{
    ContentEntry, ContentIndex, ContentPolicy, DecodedDocument, EntryFacts,
    FileFacts, FileRead, NameRules, PackageLimits,
};
use agent_knowledge::index_store::{
    generation_from_target, generation_id, recoverable_active_error, selected_generation,
    validate_common_filesystem, validate_generation_id, CurrentEntry, StoreAction, StoreOutcome,
    StoreReply, StoreTask, StoreWork, TargetComponent,
};
use agent_knowledge::read::{PinnedRead, ReadFilter, SearchMetadataFields};
use agent_knowledge::read_error::CommittedReadError;
use agent_knowledge::search_error::{SearchIndexStoreError, TantivySearchError};
use agent_knowledge::search_fields::{FieldValue, SearchFields};
use agent_knowledge::search_index::{
    ask, build_order, check_manifest, frame_manifest, index_document, open_directory, outranks,
    resolve_hits, DiskFacts, DiskManifest, Hit, StoredIdentity, TantivySearchPolicy,
    FORMAT_VERSION, MAXIMUM_MANIFEST_BYTES,
};
use agent_knowledge::search_text::{
    contains_text, is_search_term, lower_each, matches_query, normalize_search_text,
};
use tantivy::schema::Schema;

const FIRST_ID: u128 = 0x0198_5f00_0000_0000_0000_0000_0000_0001;
const SECOND_ID: u128 = 0x0198_5f00_0000_0000_0000_0000_0000_0002;

fn object(value: u64) -> ObjectId {
    match ObjectId::parse(&format!("{value:040x}")) {
        Some(id) => id,
        None => panic!("fixture object must parse"),
    }
}

fn identity(value: u128) -> DocumentId {
    DocumentId { value }
}

fn metadata(value: u128, title: &str) -> DocumentMetadata {
    let created = match Timestamp::new(1_785_470_400_000_000_000, 0) {
        Some(created) => created,
        None => panic!("fixture time must be held"),
    };
    DocumentMetadata {
        schema_version: 1,
        document_id: identity(value),
        title: title.to_owned(),
        created,
        updated: None,
        node: Some("node-a".to_owned()),
        agent: Some("agent-a".to_owned()),
        session: Some(SessionId { value: 7 }),
        request_id: RequestId { value: 9 },
        tags: vec!["alpha".to_owned(), "beta".to_owned()],
        status: DocumentStatus::Active,
    }
}

fn decoded(value: u128, title: &str) -> DecodedDocument {
    DecodedDocument::Decoded {
        metadata: metadata(value, title),
        common_violation: None,
        violations: Vec::new(),
    }
}

fn directory(name: &str, children: Vec<ContentEntry>) -> ContentEntry {
    ContentEntry {
        name: name.as_bytes().to_vec(),
        observed_at: 0,
        listed_at: 0,
        facts: EntryFacts::Directory,
        children,
    }
}

const MARKDOWN: &[u8] = b"---\nfictional: true\n---\nFictional body.\n";

fn bundle(value: u128, title: &str) -> ContentEntry {
    let file = ContentEntry {
        name: b"index.md".to_vec(),
        observed_at: 0,
        listed_at: 0,
        facts: EntryFacts::File(FileFacts {
            mode: 0o644,
            links: 1,
            length: MARKDOWN.len() as u64,
            read: FileRead::Bytes(MARKDOWN.to_vec()),
            decoded: decoded(value, title),
        }),
        children: Vec::new(),
    };
    directory(&format!("2026-07-31-{}", identity(value).text()), vec![file])
}

fn names() -> NameRules {
    NameRules {
        projects: vec!["fictional-project".to_owned()],
        attachments: Vec::new(),
        attachment_types: Vec::new(),
        payload_paths: Vec::new(),
    }
}

fn index() -> ContentIndex {
    let root = directory(
        "",
        vec![directory(
            "projects",
            vec![directory(
                "fictional-project",
                vec![directory(
                    "runbooks",
                    vec![bundle(FIRST_ID, "First"), bundle(SECOND_ID, "Second")],
                )],
            )],
        )],
    );
    let limits = PackageLimits { maximum_file_bytes: 1 << 20, maximum_path_components: 16 };
    match ContentIndex::build(&root, &ContentPolicy::default(), &limits, &names()) {
        Ok(index) => index,
        Err(error) => panic!("fixture content must index: {}", error.message()),
    }
}

fn hit(score: f32, value: u128) -> Hit {
    Hit { score: score.to_bits(), identity: StoredIdentity::Text(identity(value).text()) }
}

fn found(hits: &Vec<Hit>) -> Vec<u128> {
    let index = index();
    match resolve_hits(&index, hits) {
        Ok(records) => {
            records.iter().map(|record| record.metadata().document_id.value).collect()
        }
        Err(error) => panic!("hits must resolve: {}", error.message()),
    }
}

#[test]
fn hits_are_ranked_by_score_and_then_by_path() {
    assert_eq!(found(&vec![hit(1.0, FIRST_ID), hit(2.5, SECOND_ID)]), vec![SECOND_ID, FIRST_ID]);
    assert_eq!(found(&vec![hit(1.0, SECOND_ID), hit(1.0, FIRST_ID)]), vec![FIRST_ID, SECOND_ID]);
    for (left, right) in [(1.0f32, 0.5f32), (0.0, -0.0), (-1.0, -2.0), (f32::INFINITY, 3.0)] {
        assert!(outranks(left.to_bits(), right.to_bits()));
        assert!(!outranks(right.to_bits(), left.to_bits()));
        assert!(left.total_cmp(&right).is_gt());
    }
    assert!(outranks(f32::NAN.to_bits(), f32::INFINITY.to_bits()));
}

#[test]
fn hits_name_documents_of_the_snapshot() {
    let index = index();
    let refused = |identity: StoredIdentity| match resolve_hits(
        &index,
        &vec![Hit { score: 0, identity }],
    ) {
        Err(error) => error,
        Ok(_) => panic!("the hit must be refused"),
    };
    assert!(matches!(
        refused(StoredIdentity::Missing),
        TantivySearchError::MissingDocumentId
    ));
    assert!(matches!(
        refused(StoredIdentity::Unreadable("segment".to_owned())),
        TantivySearchError::Engine(reason) if reason == "segment"
    ));
    assert!(matches!(
        refused(StoredIdentity::Text("no identity".to_owned())),
        TantivySearchError::InvalidDocumentId
    ));
    assert!(matches!(
        refused(StoredIdentity::Text(identity(3).text())),
        TantivySearchError::UnknownDocumentId { document_id } if document_id == identity(3)
    ));
}

#[test]
fn queries_are_trimmed_and_bounded() {
    let policy = TantivySearchPolicy::new(5, 10);
    let commit = object(1);
    assert!(matches!(
        ask(commit, commit, "  word ", policy, 3),
        Ok((query, 3)) if query == "word"
    ));
    assert!(matches!(
        ask(commit, commit, "word", policy, 30),
        Ok((_, 10))
    ));
    assert!(matches!(
        ask(commit, commit, " \t ", policy, 3),
        Err(TantivySearchError::EmptyQuery)
    ));
    assert!(matches!(
        ask(commit, commit, "sixsix", policy, 3),
        Err(TantivySearchError::QueryTooLong { maximum: 5, actual: 6 })
    ));
    assert!(matches!(
        ask(commit, commit, "word", TantivySearchPolicy::new(5, 0), 3),
        Err(TantivySearchError::InvalidResultLimit)
    ));
    assert!(matches!(
        ask(commit, object(2), "word", policy, 3),
        Err(TantivySearchError::SnapshotCommitMismatch { index, snapshot })
            if index == commit.text() && snapshot == object(2).text()
    ));
}

#[test]
fn search_text_is_composed_and_lowered() {
    assert_eq!(normalize_search_text("ＦＩＣＴＩＯＮ　１２"), "fiction 12");
    assert_eq!(normalize_search_text("ﾃｽﾄ"), "テスト");
    assert_eq!(lower_each(&"ÄB".chars().collect()), "äb");
    assert!(is_search_term("再起動"));
    assert!(is_search_term("a-1"));
    assert!(!is_search_term("、。"));
    assert!(!is_search_term(""));
    assert!(contains_text("restart", "star"));
    assert!(!contains_text("restart", "stop"));
    assert!(contains_text("restart", ""));
    assert!(matches_query("Fictional Restart", "restart"));
    assert!(matches_query("STRASSE ÄRGER", "ärger"));
    assert!(!matches_query("Fictional", "restart"));
}

fn field_names(schema: &Schema) -> Vec<String> {
    schema.fields().map(|(_, entry)| entry.name().to_owned()).collect()
}

#[test]
fn schemas_number_their_fields() {
    let selected = SearchMetadataFields::new(true, false, false, true);
    let (schema, query_schema, fields) = SearchFields::schemas(selected);
    assert_eq!(field_names(&schema).len(), 13);
    assert_eq!(field_names(&schema), field_names(&query_schema));
    for (name, number) in [
        ("document_id", fields.document_id),
        ("title", fields.title),
        ("body", fields.body),
        ("path", fields.path),
        ("tags", fields.tags),
        ("exact_tags", fields.exact_tags),
        ("node", fields.node),
        ("agent", fields.agent),
        ("session", fields.session),
        ("exact_session", fields.exact_session),
        ("request_id", fields.request_id),
        ("project", fields.project),
        ("archived", fields.archived),
    ] {
        let Ok(field) = schema.get_field(name) else {
            panic!("{name} must be a field");
        };
        assert_eq!(field.field_id(), number);
        let indexed = !["agent", "session"].contains(&name);
        assert_eq!(schema.get_field_entry(field).is_indexed(), indexed, "{name}");
        assert_eq!(schema.get_field_entry(field).is_stored(), name == "document_id");
        let queried = ["title", "body", "path", "tags", "node", "request_id"].contains(&name);
        assert_eq!(query_schema.get_field_entry(field).is_indexed(), queried, "{name}");
    }
    assert_eq!(fields.searchable, vec![1, 2, 3, 4, 6, 10]);
}

fn texts(fields: &[(u32, &str)]) -> Vec<(u32, String)> {
    fields.iter().map(|(field, text)| (*field, (*text).to_owned())).collect()
}

#[test]
fn documents_are_indexed_with_selected_metadata() {
    let index = index();
    let selected = SearchMetadataFields::new(false, true, false, false);
    let (_, _, fields) = SearchFields::schemas(selected);
    let records = build_order(&index);
    assert_eq!(records.len(), 2);
    let read = PinnedRead::Read {
        mode: 0o644,
        links: 1,
        length: MARKDOWN.len() as u64,
        bytes: MARKDOWN.to_vec(),
    };
    let Ok(entries) = index_document(&fields, records[0], &read, 1 << 20, selected) else {
        panic!("the document must be indexed");
    };
    let mut written = Vec::new();
    let mut archived = None;
    for entry in &entries {
        match &entry.value {
            FieldValue::Text(text) => written.push((entry.field, text.clone())),
            FieldValue::Flag(flag) => archived = Some((entry.field, *flag)),
        }
    }
    let path = format!(
        "projects/fictional-project/runbooks/2026-07-31-{}/index.md",
        identity(FIRST_ID).text()
    );
    assert_eq!(
        written,
        texts(&[
            (0, &identity(FIRST_ID).text()),
            (1, "First"),
            (2, "Fictional body.\n"),
            (3, &path),
            (4, "alpha"),
            (5, "alpha"),
            (4, "beta"),
            (5, "beta"),
            (7, "agent-a"),
            (9, &SessionId { value: 7 }.text()),
            (11, "fictional-project"),
        ])
    );
    assert_eq!(archived, Some((12, false)));
    let changed = PinnedRead::Read { mode: 0o644, links: 1, length: 1, bytes: b"x".to_vec() };
    assert!(matches!(
        index_document(&fields, records[0], &changed, 1 << 20, selected),
        Err(TantivySearchError::Committed(CommittedReadError::ContentChanged { .. }))
    ));
}

#[test]
fn filters_become_required_and_excluded_terms() {
    let selected = SearchMetadataFields::new(true, true, true, true);
    let (_, _, fields) = SearchFields::schemas(selected);
    let filter = ReadFilter::new(
        Some("fictional-project".to_owned()),
        Some("alpha".to_owned()),
        None,
        false,
    );
    let clauses = fields.filtered_query(&filter, selected);
    assert_eq!(clauses.len(), 3);
    assert!(matches!(&clauses[0].value, FieldValue::Text(text) if text == "fictional-project"));
    assert!(clauses[0].required && clauses[0].field == 11);
    assert!(matches!(&clauses[1].value, FieldValue::Text(text) if text == "alpha"));
    assert!(clauses[1].required && clauses[1].field == 5);
    assert!(matches!(&clauses[2].value, FieldValue::Flag(true)));
    assert!(!clauses[2].required && clauses[2].field == 12);
    let index = index();
    assert!(filter.matches(build_order(&index)[0]));
    let other = ReadFilter::new(None, Some("gamma".to_owned()), None, false);
    assert!(!other.matches(build_order(&index)[0]));
}

fn manifest() -> DiskManifest {
    DiskManifest {
        format_version: FORMAT_VERSION,
        commit: object(1).text(),
        document_count: 2,
        metadata_fields: SearchMetadataFields::default(),
    }
}

fn disk(payload: Option<String>, same_schema: bool, documents: u64) -> DiskFacts {
    DiskFacts { payload, same_schema, documents }
}

#[test]
fn manifests_describe_their_directory() {
    let payload = || Some(object(1).text());
    assert!(matches!(
        open_directory(&manifest(), &disk(payload(), true, 2)),
        Ok((commit, 2)) if commit == object(1)
    ));
    assert!(matches!(
        open_directory(&manifest(), &disk(None, true, 2)),
        Err(TantivySearchError::DiskCommitMismatch)
    ));
    assert!(matches!(
        open_directory(&manifest(), &disk(payload(), false, 2)),
        Err(TantivySearchError::DiskSchemaMismatch)
    ));
    assert!(matches!(
        open_directory(&manifest(), &disk(payload(), true, 3)),
        Err(TantivySearchError::DiskDocumentCountMismatch { manifest: 2, index: 3 })
    ));
    let mut older = manifest();
    older.format_version = 1;
    assert!(matches!(
        open_directory(&older, &disk(payload(), true, 2)),
        Err(TantivySearchError::InvalidDiskManifest)
    ));
    assert_eq!(check_manifest(&older), None);
    assert_eq!(check_manifest(&manifest()), Some(object(1)));
    let mut nameless = manifest();
    nameless.commit = "main".to_owned();
    assert_eq!(check_manifest(&nameless), None);

    assert!(matches!(frame_manifest(b"{}".to_vec()), Ok(bytes) if bytes == b"{}\n"));
    let fitting = vec![b'x'; MAXIMUM_MANIFEST_BYTES as usize - 1];
    assert!(frame_manifest(fitting.clone()).is_ok());
    let mut oversized = fitting;
    oversized.push(b'x');
    assert!(matches!(
        frame_manifest(oversized),
        Err(TantivySearchError::InvalidDiskManifest)
    ));
}

#[test]
fn generations_are_named_after_their_commit() {
    let commit = object(1).text();
    let name = generation_id(&commit, 5);
    assert_eq!(name, format!("{commit}-00000000000000000000000005"));
    assert!(validate_generation_id(&name, &commit).is_ok());
    assert!(validate_generation_id(&name, &object(2).text()).is_err());
    assert!(validate_generation_id(&commit, &commit).is_err());
    assert!(validate_generation_id(&format!("{commit}-short"), &commit).is_err());
    let link = |parts: &[&str]| -> Vec<TargetComponent> {
        parts.iter().map(|part| TargetComponent::Name((*part).to_owned())).collect()
    };
    assert!(matches!(
        generation_from_target(&link(&["by-id", "one"])),
        Ok(generation) if generation == "one"
    ));
    assert!(generation_from_target(&link(&["other", "one"])).is_err());
    assert!(generation_from_target(&link(&["by-id", "one", "two"])).is_err());
    assert!(generation_from_target(&vec![TargetComponent::Other]).is_err());
    assert!(matches!(selected_generation(CurrentEntry::Absent), Ok(None)));
    assert!(matches!(
        selected_generation(CurrentEntry::Other),
        Err(SearchIndexStoreError::InvalidCurrentEntry)
    ));
    assert!(matches!(
        selected_generation(CurrentEntry::Unreadable("disk".to_owned())),
        Err(SearchIndexStoreError::Io(reason)) if reason == "disk"
    ));
    assert!(recoverable_active_error(&SearchIndexStoreError::InvalidGeneration));
    assert!(!recoverable_active_error(&SearchIndexStoreError::Busy));
    assert!(validate_common_filesystem(1, 1, 1).is_ok());
    assert!(matches!(
        validate_common_filesystem(1, 1, 2),
        Err(SearchIndexStoreError::CrossFilesystemStorage)
    ));
}

/// A store of indexes in memory.
struct Store {
    current: Option<String>,
    generations: Vec<(String, String)>,
    built: ObjectId,
    broken: bool,
    locked: bool,
    aside: Vec<String>,
    rival: Option<String>,
    selections: usize,
    replies: usize,
}

impl Store {
    fn new() -> Self {
        Store {
            current: None,
            generations: Vec::new(),
            built: object(1),
            broken: false,
            locked: false,
            aside: Vec::new(),
            rival: None,
            selections: 0,
            replies: 0,
        }
    }

    fn link(&self) -> CurrentEntry {
        match &self.current {
            None => CurrentEntry::Absent,
            Some(name) => CurrentEntry::Link(vec![
                TargetComponent::Name("by-id".to_owned()),
                TargetComponent::Name(name.clone()),
            ]),
        }
    }

    fn run(&mut self, task: StoreTask) -> Result<StoreOutcome, SearchIndexStoreError> {
        let (mut work, mut action) = StoreWork::begin(task);
        self.locked = false;
        self.replies = 0;
        for _ in 0..100 {
            let reply = match action {
                StoreAction::Lock => {
                    self.locked = true;
                    StoreReply::Done
                }
                StoreAction::CheckStorage | StoreAction::SyncRoot => StoreReply::Done,
                StoreAction::ReadCurrent => StoreReply::Current(self.link()),
                StoreAction::OpenGeneration { generation_id } => {
                    let known =
                        self.generations.iter().find(|(name, _)| *name == generation_id);
                    match known {
                        Some((_, commit)) if !self.broken => StoreReply::Commit(commit.clone()),
                        _ => StoreReply::Failed(SearchIndexStoreError::Search(
                            TantivySearchError::InvalidDiskManifest,
                        )),
                    }
                }
                StoreAction::Build { .. } => StoreReply::Commit(self.built.text()),
                StoreAction::Promote { generation_id } => {
                    assert!(self.locked);
                    self.generations.push((generation_id, self.built.text()));
                    StoreReply::Done
                }
                StoreAction::Select { generation_id, temporary } => {
                    assert!(self.locked);
                    assert!(temporary.starts_with(".current-"));
                    self.selections += 1;
                    self.current = Some(self.rival.clone().unwrap_or(generation_id));
                    StoreReply::Done
                }
                StoreAction::MoveCurrent { name } => {
                    assert!(self.locked);
                    self.current = None;
                    self.aside.push(name);
                    StoreReply::Done
                }
                StoreAction::MoveGeneration { generation_id, name } => {
                    assert!(self.locked);
                    self.generations.retain(|(known, _)| *known != generation_id);
                    self.aside.push(name);
                    StoreReply::Done
                }
                StoreAction::Unlock => {
                    self.locked = false;
                    StoreReply::Done
                }
                StoreAction::Finish(result) => return result,
            };
            let (next, following) = work.step(reply);
            work = next;
            action = following;
            self.replies += 1;
        }
        panic!("work must end")
    }

    fn prepare(&mut self) -> String {
        let commit = self.built.text();
        match self.run(StoreTask::Prepare { commit: commit.clone() }) {
            Ok(StoreOutcome::Prepared(prepared)) => {
                assert_eq!(prepared.commit(), commit);
                assert!(validate_generation_id(prepared.generation_id(), &commit).is_ok());
                prepared.generation_id().to_owned()
            }
            _ => panic!("an index must be prepared"),
        }
    }

    fn activate(&mut self) -> String {
        let generation_id = self.prepare();
        let task = StoreTask::Activate {
            generation_id: generation_id.clone(),
            commit: self.built.text(),
        };
        match self.run(task) {
            Ok(StoreOutcome::Active(Some(active))) => {
                assert_eq!(active.generation_id(), generation_id);
                assert_eq!(active.commit(), self.built.text());
            }
            _ => panic!("the index must be activated"),
        }
        generation_id
    }
}

#[test]
fn prepared_indexes_are_selected_and_read_back() {
    let mut store = Store::new();
    assert!(matches!(store.run(StoreTask::Read), Ok(StoreOutcome::Active(None))));
    let first = store.activate();
    assert!(matches!(
        store.run(StoreTask::Read),
        Ok(StoreOutcome::Active(Some(active))) if active.generation_id() == first
    ));
    assert_eq!(store.prepare(), first);
    store.built = object(2);
    let second = store.activate();
    assert_ne!(first, second);
    assert_eq!(store.current, Some(second));
}

#[test]
fn an_active_index_is_activated_again_without_a_new_selection() {
    let mut store = Store::new();
    let generation = store.activate();
    assert_eq!((store.selections, store.replies), (1, 10));
    assert!(matches!(
        store.run(StoreTask::Read),
        Ok(StoreOutcome::Active(Some(active)))
            if active.generation_id() == generation && active.commit() == object(1).text()
    ));
    assert_eq!(store.replies, 3);
    assert_eq!(store.activate(), generation);
    assert_eq!((store.selections, store.replies), (1, 7));
    store.built = object(2);
    let second = store.activate();
    assert_eq!((store.selections, store.replies), (2, 11));
    assert!(matches!(
        store.run(StoreTask::Read),
        Ok(StoreOutcome::Active(Some(active)))
            if active.generation_id() == second && active.commit() == object(2).text()
    ));
}

#[test]
fn an_index_of_another_commit_is_not_promoted() {
    let mut store = Store::new();
    let result = store.run(StoreTask::Prepare { commit: object(9).text() });
    assert!(matches!(result, Err(SearchIndexStoreError::GenerationCommitMismatch)));
    assert!(store.generations.is_empty());
    let result = store.run(StoreTask::Activate {
        generation_id: "unrelated".to_owned(),
        commit: object(1).text(),
    });
    assert!(matches!(result, Err(SearchIndexStoreError::InvalidGeneration)));
}

#[test]
fn corrupt_indexes_are_set_aside_on_recovery() {
    let mut store = Store::new();
    let generation = store.activate();
    store.broken = true;
    assert!(matches!(
        store.run(StoreTask::Read),
        Err(SearchIndexStoreError::Search(_))
    ));
    assert_eq!(store.current, Some(generation.clone()));
    assert!(matches!(
        store.run(StoreTask::Recover),
        Ok(StoreOutcome::Active(None))
    ));
    assert_eq!(store.current, None);
    assert!(store.generations.is_empty());
    assert!(store.aside[0].starts_with("invalid-current-"));
    assert!(store.aside[1].starts_with(&format!("invalid-generation-{generation}-")));
}

#[test]
fn a_selection_that_another_writer_replaced_is_a_conflict() {
    let mut store = Store::new();
    let first = store.activate();
    store.built = object(2);
    let second = store.prepare();
    store.rival = Some(first.clone());
    let result = store.run(StoreTask::Activate {
        generation_id: second,
        commit: object(2).text(),
    });
    assert!(matches!(result, Err(SearchIndexStoreError::ActivationConflict)));
    assert_eq!(store.current, Some(first));
}

fn blob(value: u128, title: &str) -> BlobRead {
    BlobRead {
        size: format!("{}\n", MARKDOWN.len()).into_bytes(),
        bytes: MARKDOWN.to_vec(),
        decoded: decoded(value, title),
    }
}

fn listing() -> Vec<u8> {
    let line = |value: u128| {
        format!(
            "100644 blob {}\tprojects/fictional-project/runbooks/2026-07-31-{}/index.md\0",
            object(4).text(),
            identity(value).text()
        )
    };
    format!(
        "{}100644 blob {}\tprojects/fictional-project/notes.csv\0{}",
        line(FIRST_ID),
        object(5).text(),
        line(SECOND_ID)
    )
    .into_bytes()
}

fn history(
    reader: &mut HistoryReader,
    second: u128,
) -> Result<Option<(u128, String)>, CommittedReadError> {
    let mut reads: Vec<EntryRead> = Vec::new();
    loop {
        let commit = object(1).text();
        let found = reader.document(
            &commit,
            Ancestry::Ancestor,
            identity(SECOND_ID),
            &names(),
            &listing(),
            &reads,
        );
        match found {
            Ok(found) => {
                return Ok(found.map(|document| {
                    (document.record.metadata().document_id.value, document.markdown)
                }));
            }
            Err(HistoryHalt::Failed(error)) => return Err(error),
            Err(HistoryHalt::Needs { at, .. }) if at == reads.len() => {
                reads.push(EntryRead { now: 0, blob: None });
            }
            Err(HistoryHalt::Needs { at, .. }) => {
                let value = if at == 0 { FIRST_ID } else { second };
                reads[at].blob = Some(blob(value, "Fictional"));
            }
        }
    }
}

#[test]
fn listed_trees_give_the_objects_of_their_documents() {
    let mut listed = listing();
    listed.extend_from_slice(b"120000 blob 1\tlink.md\0no tab\0");
    let documents = listed_documents(&listed);
    assert_eq!(documents.len(), 5);
    let directory = "projects/fictional-project/runbooks";
    let expected = |value: u128| {
        let name = identity(value).text();
        Some((object(4).text(), format!("{directory}/2026-07-31-{name}/index.md")))
    };
    assert_eq!(documents[0], expected(FIRST_ID));
    assert_eq!(documents[1], None);
    assert_eq!(documents[2], expected(SECOND_ID));
    assert_eq!(documents[3], None);
    assert_eq!(documents[4], None);
}

#[test]
fn a_read_that_fails_outside_is_counted_up_to_the_failure() {
    let mut policy = ContentPolicy::default();
    policy.maximum_total_markdown_bytes = MARKDOWN.len() as u64 + 3;
    let mut reader = HistoryReader::new(object(1), policy);
    let commit = object(1).text();
    let id = identity(SECOND_ID);
    let mut reads = vec![EntryRead { now: 0, blob: Some(blob(FIRST_ID, "Fictional")) }];
    reads.push(EntryRead { now: 0, blob: None });
    reads.push(EntryRead { now: 0, blob: None });
    assert!(matches!(
        reader.document(&commit, Ancestry::Ancestor, id, &names(), &listing(), &reads),
        Err(HistoryHalt::Needs { at: 2, limit: 3 })
    ));
    assert_eq!((reader.work.entries, reader.work.bytes), (0, 0));
    let error = CommittedReadError::Io("broken pipe".to_owned());
    let error =
        reader.fail(&commit, Ancestry::Ancestor, id, &names(), &listing(), &reads, error);
    assert!(matches!(error, CommittedReadError::Io(reason) if reason == "broken pipe"));
    assert_eq!((reader.work.entries, reader.work.bytes), (3, MARKDOWN.len() as u64));
}

#[test]
fn historical_documents_are_found_by_identity() {
    let mut reader = HistoryReader::new(object(1), ContentPolicy::default());
    assert!(matches!(
        history(&mut reader, SECOND_ID),
        Ok(Some((value, markdown)))
            if value == SECOND_ID && markdown.as_bytes() == MARKDOWN
    ));
    assert_eq!(reader.work.entries, 3);
    assert_eq!(reader.work.bytes, 2 * MARKDOWN.len() as u64);

    let mut bounded = ContentPolicy::default();
    bounded.maximum_entry_count = 2;
    let mut reader = HistoryReader::new(object(1), bounded);
    assert!(matches!(
        history(&mut reader, SECOND_ID),
        Err(CommittedReadError::SearchDocumentLimitExceeded { maximum: 2 })
    ));
    let mut small = ContentPolicy::default();
    small.maximum_markdown_bytes = 3;
    let mut reader = HistoryReader::new(object(1), small);
    assert!(matches!(
        history(&mut reader, SECOND_ID),
        Err(CommittedReadError::SearchMarkdownByteLimitExceeded { maximum: 3 })
    ));
    let mut reader = HistoryReader::new(object(1), ContentPolicy::default());
    assert!(matches!(
        reader.document(
            &object(1).text(),
            Ancestry::Unrelated,
            identity(FIRST_ID),
            &names(),
            &Vec::new(),
            &Vec::new()
        ),
        Err(HistoryHalt::Failed(CommittedReadError::InvalidHistorySelector))
    ));
    assert!(matches!(
        reader.document(
            &object(1).text(),
            Ancestry::Ancestor,
            identity(FIRST_ID),
            &names(),
            &b"120000 blob x\tlink.md\0".to_vec(),
            &vec![EntryRead { now: 0, blob: None }]
        ),
        Err(HistoryHalt::Failed(CommittedReadError::InvalidHistorySelector))
    ));
}

#[test]
fn history_stays_within_the_pinned_ancestry() {
    let mut reader = HistoryReader::new(object(1), ContentPolicy::default());
    let older = object(2).text();
    assert!(matches!(
        reader.validate_commit(&older, Ancestry::Ancestor),
        Ok(commit) if commit == object(2)
    ));
    assert!(matches!(
        reader.validate_commit(&older, Ancestry::Unrelated),
        Err(CommittedReadError::InvalidHistorySelector)
    ));
    assert!(matches!(
        reader.validate_commit("HEAD", Ancestry::Ancestor),
        Err(CommittedReadError::InvalidHistorySelector)
    ));
    let long = format!("{:064x}", 2);
    assert!(matches!(
        reader.validate_commit(&long, Ancestry::Ancestor),
        Err(CommittedReadError::InvalidHistorySelector)
    ));
    let output = format!("{}\n{}\n", object(1).text(), older).into_bytes();
    assert!(matches!(
        reader.commits(None, 2, Ancestry::Ancestor, &output),
        Ok(commits) if commits == vec![object(1).text(), older.clone()]
    ));
    assert!(matches!(
        reader.commits(None, MAXIMUM_COMMITS + 1, Ancestry::Ancestor, &output),
        Err(CommittedReadError::InvalidResultLimit)
    ));
    assert!(reader.restrict_to(&older, Ancestry::Unrelated).is_err());
    assert_eq!(reader.anchor(), object(1));
    assert!(reader.restrict_to(&older, Ancestry::Ancestor).is_ok());
    assert_eq!(reader.anchor(), object(2));
}
