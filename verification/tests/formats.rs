use agent_knowledge::apply::{AppliedFileMove, ErrorCode};
use agent_knowledge::changes::{path_from_text, reduce_moves, staged_stats};
use agent_knowledge::clock::{Timestamp, FIRST_NANOSECOND, LAST_NANOSECOND};
use agent_knowledge::commit_message::{commit_message, has_only_parent};
use agent_knowledge::document::{
    archive_document_path, bundle_name, canonical_document_path, category_name,
    create_document_path, parse_category, DocumentLocation, DocumentMetadata, DocumentStatus,
    DocumentType,
};
use agent_knowledge::fields::{
    join_lines, parse_unsigned, split_bytes, split_lines, split_text, split_words, strip_prefix,
};
use agent_knowledge::git_error::GitTransactionError;
use agent_knowledge::git_output::{printed_is, safe_config, untracked_files};
use agent_knowledge::git_text::{
    diagnostic, parse_git_path, parse_object_id, parse_text, ObjectId, MAXIMUM_DIAGNOSTIC_BYTES,
};
use agent_knowledge::ids::{revision, BatchId, DocumentId, RequestId, Revision};
use agent_knowledge::journal::{
    decode_journal, Claim, ClaimToken, JournalClaim, JournalFailure, JournalState,
    StoredTransactionJournal, TransactionJournal, JOURNAL_SCHEMA_VERSION, PREVIOUS_JOURNAL_SCHEMA_VERSION,
};
use agent_knowledge::markdown::{frame, markdown_body};
use agent_knowledge::order::comes_before;
use agent_knowledge::path::ContentPath;
use agent_knowledge::repository::{
    journal_file_name, no_other_journal, removable_worktree, repository_binding,
    resolve_tree_path, transaction_ref, worktree_name, DirectoryBinding,
};
use agent_knowledge::text::{before, decimal_text, fixed_decimal_text, fixed_hex_text};
use sha2::{Digest, Sha256};
use time::format_description::well_known::Rfc3339;
use time::{OffsetDateTime, UtcOffset};
use ulid::Ulid;

fn path(text: &str) -> ContentPath {
    ContentPath::from_components(text.split('/').map(str::to_owned).collect())
}

fn object(value: u64) -> ObjectId {
    match ObjectId::parse(&format!("{value:040x}")) {
        Some(id) => id,
        None => panic!("fixture object must parse"),
    }
}

fn held(local: i128, offset: i32) -> Timestamp {
    match Timestamp::new(local, offset) {
        Some(timestamp) => timestamp,
        None => panic!("fixture time must be held"),
    }
}

#[test]
fn identities_are_ulids() {
    let text = "01K00000000000000000000001";
    let Ok(ulid) = Ulid::from_string(text) else {
        panic!("fixture identity must parse");
    };
    assert_eq!(DocumentId { value: ulid.0 }.text(), text);
    assert!(matches!(BatchId::parse(text), Some(id) if id.value == ulid.0));
    assert!(matches!(BatchId::parse(&text.to_lowercase()), Some(id) if id.value == ulid.0));
    assert!(BatchId::parse("01K0000000000000000000000").is_none());
    assert!(BatchId::parse("01K0000000000000000000000!").is_none());
    let one = BatchId::generate();
    let other = BatchId::generate();
    assert_ne!(one.value, other.value);
    assert_eq!(one.text().len(), 26);
    assert!(matches!(BatchId::parse(&one.text()), Some(id) if id == one));
    for value in [0, 1, u128::MAX, 0x0123_4567_89ab_cdef_0123_4567_89ab_cdef] {
        let id = RequestId { value };
        assert_eq!(id.text(), Ulid(value).to_string());
        assert!(matches!(BatchId::parse(&id.text()), Some(read) if read.value == value));
    }
}

#[test]
fn revisions_are_digests() {
    let digest: [u8; 32] = Sha256::digest(b"fictional").into();
    assert_eq!(revision(b"fictional"), Revision::from_bytes(digest));
    assert_eq!(
        revision(b"").text(),
        "sha256:e3b0c44298fc1c149afbf4c8996fb92427ae41e4649b934ca495991b7852b855"
    );
    assert_ne!(revision(b"a"), revision(b"b"));
}

#[test]
fn times_show_their_calendar_and_compare_by_instant() {
    let moment = held(1_785_470_400_123_000_000, 0);
    assert_eq!(moment.calendar_fields(), (2026, 7, 31, 4, 0, 0));
    assert!(matches!(moment.rfc3339(), Ok(text) if text == "2026-07-31T04:00:00.123Z"));
    let shifted = held(1_785_502_800_123_000_000, 32_400);
    assert!(shifted.same_instant(&moment));
    assert_eq!(shifted.calendar_fields(), (2026, 7, 31, 13, 0, 0));
    assert!(matches!(shifted.rfc3339(), Ok(text) if text == "2026-07-31T13:00:00.123+09:00"));
    let Ok(offset) = UtcOffset::from_whole_seconds(32_400) else {
        panic!("fixture offset must be valid");
    };
    let Ok(known) = OffsetDateTime::from_unix_timestamp_nanos(moment.nanoseconds()) else {
        panic!("fixture time must be valid");
    };
    assert!(matches!(
        (known.to_offset(offset).format(&Rfc3339), shifted.rfc3339()),
        (Ok(left), Ok(right)) if left == right
    ));
    assert!(Timestamp::new(FIRST_NANOSECOND, 0).is_some());
    assert!(Timestamp::new(FIRST_NANOSECOND - 1, 0).is_none());
    assert!(Timestamp::new(LAST_NANOSECOND, 0).is_some());
    assert!(Timestamp::new(LAST_NANOSECOND + 1, 0).is_none());
    let last = held(LAST_NANOSECOND, 0);
    assert!(last.checked_add(1).is_none());
    assert!(last.saturating_add(1).same_instant(&last));
    assert!(matches!(
        moment.checked_add(1_000_000_000),
        Some(later) if later.after(&moment) && later.calendar_fields().5 == 1
    ));
    assert!(held(-62_200_000_000_000_000_000, 0).rfc3339().is_err());
    assert!(held(0, 30).rfc3339().is_err());
}

#[test]
fn numbers_are_written_in_full_width() {
    assert_eq!(decimal_text(0), "0");
    assert_eq!(decimal_text(u64::MAX), "18446744073709551615");
    assert_eq!(fixed_decimal_text(4, 7), "0007");
    assert_eq!(fixed_hex_text(4, 0xab), "00ab");
    assert_eq!(parse_unsigned("18446744073709551615"), Some(u64::MAX));
    assert_eq!(parse_unsigned("18446744073709551616"), None);
    assert_eq!(parse_unsigned("+7"), Some(7));
    assert_eq!(parse_unsigned(""), None);
    assert_eq!(parse_unsigned("-1"), None);
}

#[test]
fn texts_split_and_join_back() {
    assert_eq!(split_text("a,b,,c", ','), vec!["a", "b", "", "c"]);
    assert_eq!(split_bytes(b"a\0b\0", 0), vec![b"a".to_vec(), b"b".to_vec(), Vec::new()]);
    assert_eq!(split_lines("one\r\ntwo\nthree"), vec!["one", "two", "three"]);
    assert_eq!(split_words("  one\ttwo \n"), vec!["one", "two"]);
    let lines = vec!["one".to_owned(), "two".to_owned()];
    assert_eq!(split_lines(&join_lines(&lines)), lines);
    assert_eq!(strip_prefix("refs/heads/main", "refs/heads/"), Some("main".to_owned()));
    assert_eq!(strip_prefix("main", "refs/heads/"), None);
}

#[test]
fn bytes_and_paths_are_ordered() {
    assert!(before(b"a", b"ab"));
    assert!(before(b"a", b"b"));
    assert!(!before(b"a", b"a"));
    assert!(comes_before(&path("a/b"), &path("a/c")));
    assert!(comes_before(&path("a/z"), &path("a-b/a")));
    assert!(!comes_before(&path("a"), &path("a")));
}

#[test]
fn git_output_is_read_strictly() {
    assert_eq!(parse_text(b"main\n"), Some("main".to_owned()));
    assert_eq!(parse_text(b"\xff\n"), None);
    assert_eq!(parse_object_id(format!("{}\n", object(7).text()).as_bytes()), Some(object(7)));
    assert_eq!(parse_object_id(b"main\n"), None);
    assert!(ObjectId::parse(&format!("{:040X}", 10)).is_none());
    assert!(matches!(ObjectId::parse(&format!("{:064x}", 10)), Some(id) if id.digits() == 64));
    assert_eq!(parse_git_path(b"/fictional/\xff\n"), Some(b"/fictional/\xff".to_vec()));
    assert_eq!(printed_is(b"true\n", "true"), Some(true));
    assert_eq!(printed_is(b"false\n", "true"), Some(false));
    assert!(safe_config(b"core.bare\0core.filemode\0"));
    assert!(!safe_config(b"core.bare\0core.fsmonitor\0"));
    assert!(!safe_config(b"core.hookspath\0"));
    assert!(matches!(
        untracked_files(b"a\0", b"b\0"),
        Some(files) if files == vec!["a".to_owned(), "b".to_owned()]
    ));
    assert_eq!(diagnostic(b"  fatal: \xff \n"), "  fatal: \u{fffd} \n");
    let long = vec![b'x'; MAXIMUM_DIAGNOSTIC_BYTES + 10];
    assert_eq!(diagnostic(&long).len(), MAXIMUM_DIAGNOSTIC_BYTES);
}

#[test]
fn framing_keeps_the_body_of_a_document() {
    let framed = frame(b"title: Fictional\n", b"Body\n---\nmore\n");
    assert!(matches!(
        markdown_body(&framed),
        Some(body) if body == b"Body\n---\nmore\n"
    ));
    assert_eq!(markdown_body(b"no front matter\n"), None);
}

fn metadata(value: u128) -> DocumentMetadata {
    DocumentMetadata {
        schema_version: 1,
        document_id: DocumentId { value },
        title: "Fictional".to_owned(),
        created: held(1_785_470_400_000_000_000, 0),
        updated: None,
        node: None,
        agent: None,
        session: None,
        request_id: RequestId { value: 9 },
        tags: Vec::new(),
        status: DocumentStatus::Active,
    }
}

#[test]
fn categories_name_document_types() {
    for document_type in [
        DocumentType::Log,
        DocumentType::Experiment,
        DocumentType::Decision,
        DocumentType::Runbook,
        DocumentType::Reference,
    ] {
        assert_eq!(parse_category(category_name(document_type)), Some(document_type));
    }
    assert_eq!(parse_category("unknown"), None);
}

#[test]
fn documents_have_canonical_paths() {
    let metadata = metadata(5);
    let id = metadata.document_id;
    let project = Some("fictional-project".to_owned());
    let created = create_document_path(&project, DocumentType::Experiment, &metadata.created, id);
    assert_eq!(
        created.text(),
        format!("projects/fictional-project/experiments/2026-07-31-{}/index.md", id.text())
    );
    let location = DocumentLocation {
        document_type: DocumentType::Experiment,
        project: project.clone(),
        archived: false,
    };
    assert_eq!(canonical_document_path(&location, &metadata).text(), created.text());
    assert_eq!(
        bundle_name(DocumentType::Experiment, &metadata.created, id),
        format!("2026-07-31-{}", id.text())
    );
    let archived = archive_document_path(&created, &location, id);
    let mut moved = location.clone();
    moved.archived = true;
    assert_eq!(archived.text(), canonical_document_path(&moved, &metadata).text());
    assert_ne!(archived.text(), created.text());
}

fn moved(source: &str, destination: &str) -> AppliedFileMove {
    AppliedFileMove { source: path(source), destination: path(destination) }
}

#[test]
fn moves_reduce_to_their_last_destination() {
    let moves = vec![moved("a", "b"), moved("b", "c"), moved("x", "a")];
    let Some(files) = reduce_moves(&moves) else {
        panic!("moves must reduce");
    };
    let pairs: Vec<(String, String)> =
        files.iter().map(|file| (file.origin.text(), file.destination.text())).collect();
    assert_eq!(pairs.len(), 2);
    assert!(pairs.contains(&("a".to_owned(), "c".to_owned())));
    assert!(pairs.contains(&("x".to_owned(), "a".to_owned())));
    let stats = staged_stats(b"A\0new\0M\0changed\0", &Vec::new());
    assert!(matches!(stats, Ok(stats) if stats.added == 1 && stats.modified == 1));
    assert!(matches!(
        staged_stats(b"D\0gone\0", &Vec::new()),
        Err(GitTransactionError::PhysicalDeletion)
    ));
}

#[test]
fn paths_in_git_output_are_compared_by_their_components() {
    let components = |text: &str| -> Vec<String> {
        let path = path_from_text(text);
        (0..path.len()).map(|at| path.component(at).clone()).collect()
    };
    assert_eq!(components(""), Vec::<String>::new());
    assert_eq!(components("a//b/./c/"), vec!["a", "b", "c"]);
    assert_eq!(components("./a/../b"), vec![".", "a", "..", "b"]);
    assert_eq!(components("/./a"), vec!["", "a"]);
    assert_eq!(components("/"), vec![""]);
    assert_eq!(path_from_text("//a/b").text(), "/a/b");
    assert!(matches!(
        staged_stats(b"A\0a/b\0A\0a/./b\0", &Vec::new()),
        Err(GitTransactionError::InvalidGitOutput)
    ));
    for (first, second) in [("a/b", "/a/b"), ("a/b", "./a/b")] {
        let output = format!("A\0{first}\0A\0{second}\0");
        assert!(matches!(
            staged_stats(output.as_bytes(), &Vec::new()),
            Ok(stats) if stats.added == 2
        ));
    }
    assert_eq!(
        untracked_files(b"a/./b\0/a\0", b"a/b\0a\0./a\0"),
        Some(vec!["a/./b".to_owned(), "/a".to_owned(), "a".to_owned(), "./a".to_owned()])
    );
    let name = object(4).text();
    let record = format!("100644 blob {name}\ta/./b\0");
    assert!(matches!(
        resolve_tree_path(record.as_bytes(), &path("a/b")),
        Ok(Some(found)) if found == object(4)
    ));
    let rooted = format!("100644 blob {name}\t/a/b\0");
    assert!(matches!(
        resolve_tree_path(rooted.as_bytes(), &path("a/b")),
        Err(GitTransactionError::InvalidGitOutput)
    ));
}

#[test]
fn messages_name_their_batch_and_requests() {
    let batch_id = BatchId { value: 3 };
    let token = ClaimToken { request_id: RequestId { value: 1 }, batch_id, attempt: 1 };
    let claims =
        vec![Claim { token, sequence: Some(1), title: "Create a fictional note".to_owned() }];
    let Ok(stats) = staged_stats(b"A\0new\0M\0changed\0", &Vec::new()) else {
        panic!("statistics must be read");
    };
    let message = commit_message(batch_id, &claims, &vec![token], stats);
    assert!(message.starts_with("knowledge snapshot: 1 changes\n"));
    assert!(message.contains("Create a fictional note"));
    assert!(message.contains(&format!("Batch-ID: {}", batch_id.text())));
    assert!(message.contains(&format!("Knowledge-Request: {}", token.request_id.text())));
    let line = format!("{} {}\n", object(2).text(), object(1).text());
    assert!(matches!(has_only_parent(line.as_bytes(), object(2), object(1)), Ok(true)));
    assert!(matches!(has_only_parent(line.as_bytes(), object(2), object(3)), Ok(false)));
}

#[test]
fn stored_journals_are_read_back() {
    let batch_id = BatchId { value: 3 };
    let claim = |value: u128, acceptance_sequence: u64| JournalClaim {
        request_id: RequestId { value },
        attempt: 1,
        acceptance_sequence,
    };
    let journal = |successful: Vec<RequestId>| TransactionJournal {
        batch_id,
        queue_identity: revision(b"queue"),
        base_commit: object(1),
        claims: vec![claim(1, 4), claim(2, 5)],
        claim_failures: 2,
        state: JournalState::Committed {
            commit: object(2),
            successful,
            failures: vec![JournalFailure {
                request_id: RequestId { value: 2 },
                error_code: ErrorCode::RevisionConflict,
            }],
            publication_started: true,
        },
    };
    let Ok(found) = decode_journal(journal(vec![RequestId { value: 1 }]).stored(), batch_id) else {
        panic!("a consistent journal must be read back");
    };
    assert_eq!(found.queue_identity, revision(b"queue"));
    assert_eq!(found.base_commit, object(1));
    assert_eq!(found.claims, vec![claim(1, 4), claim(2, 5)]);
    assert_eq!(found.claim_failures, 2);
    assert!(matches!(
        found.state,
        JournalState::Committed { commit, successful, failures, publication_started: true }
            if commit == object(2)
                && successful == vec![RequestId { value: 1 }]
                && failures.len() == 1
                && failures[0].error_code == ErrorCode::RevisionConflict
    ));
    assert!(matches!(
        decode_journal(journal(Vec::new()).stored(), batch_id),
        Err(GitTransactionError::JournalMismatch)
    ));
}

#[test]
fn revisions_and_object_names_are_read_back() {
    let empty = "sha256:e3b0c44298fc1c149afbf4c8996fb92427ae41e4649b934ca495991b7852b855";
    assert_eq!(Revision::parse(empty), Some(revision(b"")));
    assert_eq!(revision(b"").text(), empty);
    assert_eq!(Revision::parse(&empty[7..]), None);
    assert_eq!(Revision::parse(&empty.to_uppercase()), None);
    assert_eq!(Revision::parse(&empty.replace("sha256:", "sha512:")), None);
    assert_eq!(Revision::parse(&empty.replace('e', "g")), None);
    assert_eq!(Revision::parse(&format!("{empty}0")), None);
    for name in ["0123456789abcdef0123456789abcdef01234567", &empty[7..]] {
        let Some(object) = ObjectId::parse(name) else {
            panic!("an object name must be read");
        };
        assert_eq!(object.text(), name);
        assert_eq!(ObjectId::parse(&object.text()), Some(object));
    }
}

#[test]
fn journals_of_both_versions_are_read() {
    let batch_id = BatchId { value: 3 };
    let stored = |claim_failures: u64| TransactionJournal {
        batch_id,
        queue_identity: revision(b"queue"),
        base_commit: object(1).text(),
        claims: vec![JournalClaim {
            request_id: RequestId { value: 1 },
            attempt: 1,
            acceptance_sequence: 1,
        }],
        claim_failures,
        state: JournalState::Preparing,
    };
    let current = StoredTransactionJournal::Current {
        schema_version: JOURNAL_SCHEMA_VERSION,
        journal: stored(2),
    };
    assert!(matches!(
        decode_journal(current, batch_id),
        Ok(journal) if journal.claim_failures == 2 && journal.base_commit == object(1)
    ));
    let previous = StoredTransactionJournal::Previous {
        schema_version: PREVIOUS_JOURNAL_SCHEMA_VERSION,
        journal: stored(0),
    };
    assert!(matches!(
        decode_journal(previous, batch_id),
        Ok(journal) if journal.claim_failures == 0
    ));
    let other = StoredTransactionJournal::Current { schema_version: 9, journal: stored(0) };
    assert!(matches!(
        decode_journal(other, batch_id),
        Err(GitTransactionError::InvalidJournal)
    ));
    let foreign = StoredTransactionJournal::Current {
        schema_version: JOURNAL_SCHEMA_VERSION,
        journal: stored(0),
    };
    assert!(matches!(
        decode_journal(foreign, BatchId { value: 4 }),
        Err(GitTransactionError::JournalMismatch)
    ));
}

#[test]
fn transactions_are_named_after_their_batch() {
    let batch_id = BatchId { value: 3 };
    let text = batch_id.text();
    assert_eq!(journal_file_name(batch_id), format!("{text}.json"));
    assert!(worktree_name(batch_id).contains(&text));
    assert!(transaction_ref(batch_id).ends_with(&text));
    assert!(no_other_journal(&vec![journal_file_name(batch_id)], batch_id));
    assert!(!no_other_journal(&vec![journal_file_name(BatchId { value: 4 })], batch_id));
    assert!(removable_worktree(true, &Some(worktree_name(batch_id))));
    assert!(!removable_worktree(false, &Some(worktree_name(batch_id))));
    assert!(!removable_worktree(true, &None));
}

#[test]
fn bindings_depend_on_directories_and_branch() {
    let directories = |inode: u64| {
        vec![
            DirectoryBinding { path: b"/r".to_vec(), device: 1, inode },
            DirectoryBinding { path: b"/c".to_vec(), device: 1, inode: 2 },
            DirectoryBinding { path: b"/w".to_vec(), device: 1, inode: 3 },
        ]
    };
    let first = repository_binding(&directories(1), "refs/heads/main");
    assert_eq!(first, repository_binding(&directories(1), "refs/heads/main"));
    assert_ne!(first, repository_binding(&directories(9), "refs/heads/main"));
    assert_ne!(first, repository_binding(&directories(1), "refs/heads/other"));
}

#[test]
fn tree_records_name_one_blob() {
    let record = format!("100644 blob {}\tnotes.md\0", object(4).text());
    assert!(matches!(
        resolve_tree_path(record.as_bytes(), &path("notes.md")),
        Ok(Some(id)) if id == object(4)
    ));
    assert!(matches!(resolve_tree_path(b"", &path("notes.md")), Ok(None)));
    assert!(!matches!(
        resolve_tree_path(record.as_bytes(), &path("other.md")),
        Ok(Some(_))
    ));
}
