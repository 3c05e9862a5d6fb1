//! Bounded reads of immutable documents reachable from the official branch.
use crate::changes::{components_of, path_from_text};
use crate::fields::{
    byte_views, ends_with, has_suffix, lines_of, parse_unsigned, split, split_lines, split_text,
    unsigned_number,
};
use crate::git_text::{is_object_id, trim, trimmed, ObjectId};
use crate::ids::DocumentId;
use crate::index::{
    document_found, inspect_document, ContentIndexError, ContentPolicy, DecodedDocument,
    DocumentRecord, NameRules, RecordView,
};
use crate::path::texts;
use crate::read::{deadline_passed, is_past};
use crate::read_error::{CommittedReadError, ReadFailure};
use crate::repository::{filled_fields, find_character, position, split_filled};
use crate::text::{characters, same_text, slice_text, utf8_text};
use vstd::prelude::*;
use vstd::string::*;
use vstd::utf8::{decode_utf8, valid_utf8};

verus! {

/// Maximum commits in one list.
pub const MAXIMUM_COMMITS: usize = 102;

/// Whether a commit is an ancestor of the selected one.
#[derive(Debug)]
pub enum Ancestry {
    /// It is.
    Ancestor,
    /// Git denies it, or does not know the commit.
    Unrelated,
    /// It could not be found out.
    Unknown(CommittedReadError),
}

/// An exact historical Markdown document and its validated identity.
#[derive(Debug)]
pub struct HistoricalDocument {
    /// The record of the document.
    pub record: DocumentRecord,
    /// Its Markdown.
    pub markdown: String,
}

/// What was read of one entry of a historical tree.
#[derive(Debug)]
pub struct EntryRead {
    /// The clock when the entry was come to.
    pub now: u64,
    /// What was read of the document in it, if that was needed.
    pub blob: Option<BlobRead>,
}

/// What was read of one historical document.
#[derive(Debug)]
pub struct BlobRead {
    /// Its size, as printed.
    pub size: Vec<u8>,
    /// Its bytes.
    pub bytes: Vec<u8>,
    /// What decoding its front matter gives.
    pub decoded: DecodedDocument,
}

/// Why a historical read stops.
#[derive(Debug)]
pub enum HistoryHalt<E = CommittedReadError> {
    /// An entry has to be looked at or read; the read then starts anew.
    Needs {
        /// The position of the entry.
        at: usize,
        /// The Markdown bytes that may be read of it.
        limit: u64,
    },
    /// The read failed.
    Failed(E),
}

impl View for HistoryHalt {
    type V = HistoryHalt<ReadFailure>;

    open spec fn view(&self) -> HistoryHalt<ReadFailure> {
        match *self {
            HistoryHalt::Needs { at, limit } => HistoryHalt::Needs { at, limit },
            HistoryHalt::Failed(error) => HistoryHalt::Failed(error@),
        }
    }
}

/// The work that historical reads have done.
#[derive(Clone, Copy, Debug, PartialEq, Eq, Structural)]
pub struct HistoryWork {
    /// Markdown bytes read.
    pub bytes: u64,
    /// Tree entries looked at.
    pub entries: usize,
}

/// A pinned official ancestry.
#[derive(Debug)]
pub struct HistoryReader {
    /// The selected official commit.
    pub anchor: ObjectId,
    /// The bounds of the reads.
    pub policy: ContentPolicy,
    /// The work done so far.
    pub work: HistoryWork,
}

/// Whether a text is a full object name of the length of another.
pub open spec fn is_full_name(commit: Seq<char>, anchor: ObjectId) -> bool {
    is_object_id(commit) && commit.len() == anchor.spec_text().len()
}

/// Why a commit cannot be selected: it must be named in full and be an ancestor.
pub open spec fn selection_problem(commit: Seq<char>, anchor: ObjectId, ancestry: Ancestry) -> Option<
    ReadFailure,
> {
    if !is_full_name(commit, anchor) {
        Some(CommittedReadError::InvalidHistorySelector)
    } else {
        match ancestry {
            Ancestry::Ancestor => None,
            Ancestry::Unrelated => Some(CommittedReadError::InvalidHistorySelector),
            Ancestry::Unknown(error) => Some(error@),
        }
    }
}

/// The object name and the path of a document in one tree entry: nothing if the entry is no
/// document, an error if it is not well formed.
pub open spec fn document_entry(entry: Seq<u8>) -> Result<Option<(Seq<char>, Seq<char>)>, ()> {
    if !valid_utf8(entry) {
        Err(())
    } else {
        let text = decode_utf8(entry);
        match position(text, '\u{9}', 0) {
            None => Err(()),
            Some(at) => {
                let path = text.skip(at + 1);
                let header = split(text.take(at), ' ');
                if !ends_with(path, ".md"@) {
                    Ok(None)
                } else if header.len() < 3 || header[0] != "100644"@ || header[1] != "blob"@ {
                    Err(())
                } else {
                    Ok(Some((header[2], path)))
                }
            },
        }
    }
}

/// The number that was printed as a size.
pub open spec fn printed_size(output: Seq<u8>) -> Option<nat> {
    if valid_utf8(output) {
        unsigned_number(trimmed(decode_utf8(output)))
    } else {
        None
    }
}

/// The Markdown bytes that may still be read.
pub open spec fn remaining_bytes(policy: ContentPolicy, work: HistoryWork) -> u64 {
    if work.bytes > policy.maximum_total_markdown_bytes {
        0
    } else {
        (policy.maximum_total_markdown_bytes - work.bytes) as u64
    }
}

/// The Markdown bytes that may be read of one document.
pub open spec fn read_limit(policy: ContentPolicy, work: HistoryWork) -> u64 {
    let remaining = remaining_bytes(policy, work);
    if policy.maximum_markdown_bytes < remaining {
        policy.maximum_markdown_bytes
    } else {
        remaining
    }
}

/// One more looked at entry.
pub open spec fn one_entry(work: HistoryWork) -> HistoryWork {
    HistoryWork {
        entries: if work.entries < usize::MAX {
            (work.entries + 1) as usize
        } else {
            usize::MAX
        },
        ..work
    }
}

/// More read bytes.
pub open spec fn more_bytes(work: HistoryWork, count: nat) -> HistoryWork {
    HistoryWork {
        bytes: if work.bytes + count <= u64::MAX {
            (work.bytes + count) as u64
        } else {
            u64::MAX
        },
        ..work
    }
}

/// The document that an entry holds, from what was read of it, and the work done then.
pub open spec fn entry_document(
    policy: ContentPolicy,
    names: NameRules,
    path: Seq<char>,
    blob: BlobRead,
    work: HistoryWork,
) -> (Result<RecordView, ReadFailure>, HistoryWork) {
    let remaining = remaining_bytes(policy, work);
    match printed_size(blob.size@) {
        None => (Err(CommittedReadError::InvalidHistorySelector), work),
        Some(size) => if size > read_limit(policy, work) {
            (
                Err(
                    CommittedReadError::SearchMarkdownByteLimitExceeded {
                        maximum: if remaining < policy.maximum_markdown_bytes {
                            policy.maximum_total_markdown_bytes
                        } else {
                            policy.maximum_markdown_bytes
                        },
                    },
                ),
                work,
            )
        } else {
            (
                match document_found(components_of(path), blob.bytes@, blob.decoded, names) {
                    Ok(record) => Ok(record),
                    Err(failure) => Err(CommittedReadError::Content(failure)),
                },
                more_bytes(work, blob.bytes@.len()),
            )
        },
    }
}

/// A found document: its record and its Markdown.
pub type FoundView = Option<(RecordView, Seq<char>)>;

/// What is found with one more document of a tree. An identity must not occur twice.
pub open spec fn with_document(
    found: FoundView,
    id: DocumentId,
    record: RecordView,
    bytes: Seq<u8>,
) -> Result<FoundView, ReadFailure> {
    if record.metadata.document_id != id {
        Ok(found)
    } else {
        match found {
            Some((previous, _)) => Err(
                CommittedReadError::Content(
                    ContentIndexError::DuplicateDocumentId {
                        document_id: id,
                        first_path: previous.relative_path,
                        second_path: record.relative_path,
                    },
                ),
            ),
            None => if valid_utf8(bytes) {
                Ok(Some((record, decode_utf8(bytes))))
            } else {
                Err(CommittedReadError::InvalidMarkdownEncoding { document_id: id })
            },
        }
    }
}

/// What the entries of a tree from `at` on add to a found document, and the work done then.
pub open spec fn found_in(
    policy: ContentPolicy,
    names: NameRules,
    id: DocumentId,
    entries: Seq<Seq<u8>>,
    reads: Seq<EntryRead>,
    at: int,
    work: HistoryWork,
    found: FoundView,
) -> (Result<FoundView, HistoryHalt<ReadFailure>>, HistoryWork)
    decreases entries.len() - at,
{
    if at < 0 || at >= entries.len() {
        (Ok(found), work)
    } else if at >= reads.len() {
        (Err(HistoryHalt::Needs { at: at as usize, limit: read_limit(policy, work) }), work)
    } else if is_past(policy.scan_deadline, reads[at].now) {
        (Err(HistoryHalt::Failed(CommittedReadError::OperationDeadlineExceeded)), work)
    } else if one_entry(work).entries > policy.maximum_entry_count {
        (
            Err(
                HistoryHalt::Failed(
                    CommittedReadError::SearchDocumentLimitExceeded {
                        maximum: policy.maximum_entry_count,
                    },
                ),
            ),
            one_entry(work),
        )
    } else {
        match document_entry(entries[at]) {
            Err(()) => (
                Err(HistoryHalt::Failed(CommittedReadError::InvalidHistorySelector)),
                one_entry(work),
            ),
            Ok(None) => found_in(
                policy,
                names,
                id,
                entries,
                reads,
                at + 1,
                one_entry(work),
                found,
            ),
            Ok(Some((object, path))) => match reads[at].blob {
                None => (
                    Err(HistoryHalt::Needs { at: at as usize, limit: read_limit(policy, work) }),
                    one_entry(work),
                ),
                Some(blob) => {
                    let (read, done) = entry_document(policy, names, path, blob, one_entry(work));
                    match read {
                        Err(failure) => (Err(HistoryHalt::Failed(failure)), done),
                        Ok(record) => match with_document(found, id, record, blob.bytes@) {
                            Err(failure) => (Err(HistoryHalt::Failed(failure)), done),
                            Ok(more) => found_in(
                                policy,
                                names,
                                id,
                                entries,
                                reads,
                                at + 1,
                                done,
                                more,
                            ),
                        },
                    }
                },
            },
        }
    }
}

/// The document of an identity in the listed tree of a commit, and the work done then.
pub open spec fn document_at(
    reader: HistoryReader,
    commit: Seq<char>,
    ancestry: Ancestry,
    names: NameRules,
    id: DocumentId,
    listing: Seq<u8>,
    reads: Seq<EntryRead>,
) -> (Result<FoundView, HistoryHalt<ReadFailure>>, HistoryWork) {
    match selection_problem(commit, reader.anchor, ancestry) {
        Some(failure) => (Err(HistoryHalt::Failed(failure)), reader.work),
        None => found_in(
            reader.policy,
            names,
            id,
            filled_fields(listing),
            reads,
            0,
            reader.work,
            None,
        ),
    }
}

/// Reads the object name and the path of a document in one tree entry.
fn read_entry(entry: &Vec<u8>) -> (result: Result<Option<(String, String)>, ()>)
    ensures
        (match result {
            Ok(Some((object, path))) => Ok(Some((object@, path@))),
            Ok(None) => Ok(None),
            Err(()) => Err(()),
        }) == document_entry(entry@),
{
    let text = match utf8_text(entry.as_slice()) {
        None => {
            return Err(());
        },
        Some(text) => text,
    };
    proof {
        vstd::utf8::encode_utf8_decode_utf8(text@);
    }
    let chars = characters(text.as_str());
    let count: usize = chars.len();
    match find_character(&chars, '\u{9}') {
        None => Err(()),
        Some(at) => {
            let path = slice_text(&chars, at + 1, count);
            let head = slice_text(&chars, 0, at);
            assert(path@ =~= text@.skip(at + 1));
            assert(head@ =~= text@.take(at as int));
            if !has_suffix(path.as_str(), ".md") {
                return Ok(None);
            }
            let header = split_text(head.as_str(), ' ');
            let ghost views = texts(header@);
            if header.len() < 3 {
                return Err(());
            }
            assert(views[0] == header@[0]@ && views[1] == header@[1]@ && views[2] == header@[2]@);
            if !same_text(header[0].as_str(), "100644") || !same_text(header[1].as_str(), "blob") {
                return Err(());
            }
            Ok(Some((header[2].clone(), path)))
        },
    }
}

/// The object name and the path of a document in one tree entry, if it holds one.
pub open spec fn listed_document(entry: Seq<u8>) -> Option<(Seq<char>, Seq<char>)> {
    match document_entry(entry) {
        Ok(found) => found,
        Err(()) => None,
    }
}

/// Reads the object name and the path of the document in each entry of a listed tree: nothing
/// for an entry that holds none.
pub fn listed_documents(listing: &Vec<u8>) -> (result: Vec<Option<(String, String)>>)
    ensures
        result@.len() == filled_fields(listing@).len(),
        forall|i: int|
            0 <= i < result@.len() ==> (match #[trigger] result@[i] {
                Some((object, path)) => Some((object@, path@)),
                None => None,
            }) == listed_document(filled_fields(listing@)[i]),
{
    let entries = split_filled(listing.as_slice());
    let ghost views = byte_views(entries@);
    let mut result: Vec<Option<(String, String)>> = Vec::new();
    let mut at: usize = 0;
    while at < entries.len()
        invariant
            at == result@.len() <= entries@.len(),
            views == byte_views(entries@),
            views == filled_fields(listing@),
            forall|i: int|
                0 <= i < result@.len() ==> (match #[trigger] result@[i] {
                    Some((object, path)) => Some((object@, path@)),
                    None => None,
                }) == listed_document(views[i]),
        decreases entries@.len() - at,
    {
        assert(views[at as int] == entries@[at as int]@);
        match read_entry(&entries[at]) {
            Ok(found) => result.push(found),
            Err(()) => result.push(None),
        }
        at += 1;
    }
    result
}

/// Reads a printed size.
pub fn read_size(output: &Vec<u8>) -> (result: Option<u64>)
    ensures
        match result {
            Some(size) => printed_size(output@) == Some(size as nat),
            None => printed_size(output@) is None,
        },
{
    match utf8_text(output.as_slice()) {
        None => None,
        Some(text) => {
            proof {
                vstd::utf8::encode_utf8_decode_utf8(text@);
            }
            let shown = trim(&characters(text.as_str()));
            let digits = slice_text(&shown, 0, shown.len());
            assert(digits@ =~= trimmed(text@));
            parse_unsigned(digits.as_str())
        },
    }
}

/// The Markdown bytes that may be read of one document.
fn limit_of(policy: &ContentPolicy, work: HistoryWork) -> (limit: u64)
    ensures
        limit == read_limit(*policy, work),
{
    let remaining: u64 = policy.maximum_total_markdown_bytes.saturating_sub(work.bytes);
    if policy.maximum_markdown_bytes < remaining {
        policy.maximum_markdown_bytes
    } else {
        remaining
    }
}

/// Reads the document that an entry holds.
fn read_document(
    policy: &ContentPolicy,
    names: &NameRules,
    path: &str,
    blob: &BlobRead,
    work: HistoryWork,
) -> (result: (Result<DocumentRecord, CommittedReadError>, HistoryWork))
    ensures
        (
            match result.0 {
                Ok(record) => Ok(record@),
                Err(error) => Err(error@),
            },
            result.1,
        ) == entry_document(*policy, *names, path@, *blob, work),
{
    let remaining: u64 = policy.maximum_total_markdown_bytes.saturating_sub(work.bytes);
    match read_size(&blob.size) {
        None => (Err(CommittedReadError::InvalidHistorySelector), work),
        Some(size) => if size > limit_of(policy, work) {
            let maximum: u64 = if remaining < policy.maximum_markdown_bytes {
                policy.maximum_total_markdown_bytes
            } else {
                policy.maximum_markdown_bytes
            };
            (Err(CommittedReadError::SearchMarkdownByteLimitExceeded { maximum }), work)
        } else {
            let done = HistoryWork {
                bytes: work.bytes.saturating_add(blob.bytes.len() as u64),
                entries: work.entries,
            };
            match inspect_document(&path_from_text(path), &blob.bytes, &blob.decoded, names) {
                Ok(record) => (Ok(record), done),
                Err(error) => (Err(CommittedReadError::Content(error)), done),
            }
        },
    }
}

/// The view of what was found.
pub open spec fn found_view(found: Option<HistoricalDocument>) -> FoundView {
    match found {
        Some(document) => Some((document.record@, document.markdown@)),
        None => None,
    }
}

/// Adds one more document of a tree to what was found.
fn add_document(
    found: Option<HistoricalDocument>,
    id: DocumentId,
    record: DocumentRecord,
    bytes: &Vec<u8>,
) -> (result: Result<Option<HistoricalDocument>, CommittedReadError>)
    ensures
        (match result {
            Ok(found) => Ok(found_view(found)),
            Err(error) => Err(error@),
        }) == with_document(found_view(found), id, record@, bytes@),
{
    if record.metadata.document_id != id {
        return Ok(found);
    }
    match found {
        Some(previous) => Err(
            CommittedReadError::Content(
                ContentIndexError::DuplicateDocumentId {
                    document_id: id,
                    first_path: previous.record.relative_path.clone(),
                    second_path: record.relative_path.clone(),
                },
            ),
        ),
        None => match utf8_text(bytes.as_slice()) {
            Some(markdown) => {
                proof {
                    vstd::utf8::encode_utf8_decode_utf8(markdown@);
                }
                Ok(Some(HistoricalDocument { record, markdown }))
            },
            None => Err(CommittedReadError::InvalidMarkdownEncoding { document_id: id }),
        },
    }
}

impl HistoryReader {
    /// Pins an official commit and bounds cumulative historical inspection work.
    pub fn new(anchor: ObjectId, policy: ContentPolicy) -> (reader: HistoryReader)
        ensures
            reader.anchor == anchor,
            reader.policy == policy,
            reader.work == (HistoryWork { bytes: 0, entries: 0 }),
    {
        HistoryReader { anchor, policy, work: HistoryWork { bytes: 0, entries: 0 } }
    }

    /// Returns the official commit pinned when this reader was created.
    pub fn anchor(&self) -> (result: ObjectId)
        ensures
            result == self.anchor,
    {
        self.anchor
    }

    /// Validates a full object ID as an ancestor of the selected official commit.
    pub fn validate_commit(&self, commit: &str, ancestry: Ancestry) -> (result: Result<
        ObjectId,
        CommittedReadError,
    >)
        ensures
            match result {
                Ok(id) => selection_problem(commit@, self.anchor, ancestry) is None && id
                    == ObjectId::named(commit@),
                Err(error) => selection_problem(commit@, self.anchor, ancestry) == Some(error@),
            },
    {
        let id = match ObjectId::parse(commit) {
            None => {
                return Err(CommittedReadError::InvalidHistorySelector);
            },
            Some(id) => id,
        };
        if id.digits() != self.anchor.digits() {
            return Err(CommittedReadError::InvalidHistorySelector);
        }
        match ancestry {
            Ancestry::Ancestor => Ok(id),
            Ancestry::Unrelated => Err(CommittedReadError::InvalidHistorySelector),
            Ancestry::Unknown(error) => Err(error),
        }
    }

    /// Restricts later reads to an earlier official snapshot, for stable pagination.
    pub fn restrict_to(&mut self, commit: &str, ancestry: Ancestry) -> (result: Result<
        (),
        CommittedReadError,
    >)
        ensures
            final(self).policy == old(self).policy,
            final(self).work == old(self).work,
            match result {
                Ok(()) => selection_problem(commit@, old(self).anchor, ancestry) is None
                    && final(self).anchor == ObjectId::named(commit@),
                Err(error) => selection_problem(commit@, old(self).anchor, ancestry) == Some(error@)
                    && final(self).anchor == old(self).anchor,
            },
    {
        match self.validate_commit(commit, ancestry) {
            Ok(id) => {
                self.anchor = id;
                Ok(())
            },
            Err(error) => Err(error),
        }
    }

    /// Lists at most `maximum` first-parent commits, starting at the cursor, from what Git prints.
    pub fn commits(
        &self,
        cursor: Option<&str>,
        maximum: usize,
        ancestry: Ancestry,
        output: &Vec<u8>,
    ) -> (result: Result<Vec<String>, CommittedReadError>)
        ensures
            ({
                let start = match cursor {
                    Some(cursor) => cursor@,
                    None => self.anchor.spec_text(),
                };
                let expected = if maximum == 0 || maximum > MAXIMUM_COMMITS {
                    Err(CommittedReadError::InvalidResultLimit)
                } else if let Some(failure) = selection_problem(start, self.anchor, ancestry) {
                    Err(failure)
                } else if !valid_utf8(output@) {
                    Err(CommittedReadError::InvalidHistorySelector)
                } else {
                    Ok(lines_of(decode_utf8(output@)))
                };
                (match result {
                    Ok(commits) => Ok(texts(commits@)),
                    Err(error) => Err(error@),
                }) == expected
            }),
    {
        if maximum == 0 || maximum > MAXIMUM_COMMITS {
            return Err(CommittedReadError::InvalidResultLimit);
        }
        let selected = match cursor {
            Some(cursor) => self.validate_commit(cursor, ancestry),
            None => self.validate_commit(self.anchor.text().as_str(), ancestry),
        };
        match selected {
            Err(error) => {
                return Err(error);
            },
            Ok(_) => {},
        }
        match utf8_text(output.as_slice()) {
            None => Err(CommittedReadError::InvalidHistorySelector),
            Some(text) => {
                proof {
                    vstd::utf8::encode_utf8_decode_utf8(text@);
                }
                Ok(split_lines(text.as_str()))
            },
        }
    }

    /// Looks for the document of an identity in the listed tree of a commit, and counts the work
    /// on the way.
    fn look(
        &self,
        commit: &str,
        ancestry: Ancestry,
        id: DocumentId,
        names: &NameRules,
        listing: &Vec<u8>,
        reads: &Vec<EntryRead>,
    ) -> (result: (Result<Option<HistoricalDocument>, HistoryHalt>, HistoryWork))
        ensures
            (
                match result.0 {
                    Ok(found) => Ok(found_view(found)),
                    Err(halt) => Err(halt@),
                },
                result.1,
            ) == document_at(*self, commit@, ancestry, *names, id, listing@, reads@),
    {
        let mut work = self.work;
        match self.validate_commit(commit, ancestry) {
            Err(error) => {
                return (Err(HistoryHalt::Failed(error)), work);
            },
            Ok(_) => {},
        }
        let entries = split_filled(listing.as_slice());
        let ghost views = byte_views(entries@);
        let mut found: Option<HistoricalDocument> = None;
        let mut at: usize = 0;
        let ghost expected = found_in(self.policy, *names, id, views, reads@, 0, self.work, None);
        assert(expected == document_at(*self, commit@, ancestry, *names, id, listing@, reads@));
        while at < entries.len()
            invariant
                at <= entries@.len(),
                views == byte_views(entries@),
                expected == document_at(*self, commit@, ancestry, *names, id, listing@, reads@),
                expected == found_in(
                    self.policy,
                    *names,
                    id,
                    views,
                    reads@,
                    at as int,
                    work,
                    found_view(found),
                ),
            decreases entries@.len() - at,
        {
            assert(views[at as int] == entries@[at as int]@);
            let limit: u64 = limit_of(&self.policy, work);
            if at >= reads.len() {
                return (Err(HistoryHalt::Needs { at, limit }), work);
            }
            if deadline_passed(self.policy.scan_deadline, reads[at].now) {
                return (
                    Err(HistoryHalt::Failed(CommittedReadError::OperationDeadlineExceeded)),
                    work,
                );
            }
            let ghost before = work;
            work = HistoryWork { bytes: work.bytes, entries: work.entries.saturating_add(1) };
            assert(work == one_entry(before));
            if work.entries > self.policy.maximum_entry_count {
                let maximum: usize = self.policy.maximum_entry_count;
                return (
                    Err(
                        HistoryHalt::Failed(
                            CommittedReadError::SearchDocumentLimitExceeded { maximum },
                        ),
                    ),
                    work,
                );
            }
            match read_entry(&entries[at]) {
                Err(()) => {
                    return (
                        Err(HistoryHalt::Failed(CommittedReadError::InvalidHistorySelector)),
                        work,
                    );
                },
                Ok(None) => {},
                Ok(Some((_, path))) => match &reads[at].blob {
                    None => {
                        return (Err(HistoryHalt::Needs { at, limit }), work);
                    },
                    Some(blob) => {
                        let (read, done) = read_document(
                            &self.policy,
                            names,
                            path.as_str(),
                            blob,
                            work,
                        );
                        work = done;
                        match read {
                            Err(error) => {
                                return (Err(HistoryHalt::Failed(error)), work);
                            },
                            Ok(record) => match add_document(found, id, record, &blob.bytes) {
                                Err(error) => {
                                    return (Err(HistoryHalt::Failed(error)), work);
                                },
                                Ok(more) => {
                                    found = more;
                                },
                            },
                        }
                    },
                },
            }
            at += 1;
        }
        (Ok(found), work)
    }

    /// Resolves identity from Markdown front matter in the listed tree of a commit, across moves
    /// too, from what was read so far. Work is counted once the read ends: here, or in `fail`.
    pub fn document(
        &mut self,
        commit: &str,
        ancestry: Ancestry,
        id: DocumentId,
        names: &NameRules,
        listing: &Vec<u8>,
        reads: &Vec<EntryRead>,
    ) -> (result: Result<Option<HistoricalDocument>, HistoryHalt>)
        ensures
            ({
                let (expected, done) = document_at(
                    *old(self),
                    commit@,
                    ancestry,
                    *names,
                    id,
                    listing@,
                    reads@,
                );
                &&& (match result {
                    Ok(found) => Ok(found_view(found)),
                    Err(halt) => Err(halt@),
                }) == expected
                &&& final(self).anchor == old(self).anchor
                &&& final(self).policy == old(self).policy
                &&& final(self).work == (if expected matches Err(HistoryHalt::Needs { .. }) {
                    old(self).work
                } else {
                    done
                })
            }),
    {
        let (result, work) = self.look(commit, ancestry, id, names, listing, reads);
        match &result {
            Err(HistoryHalt::Needs { .. }) => {},
            _ => {
                self.work = work;
            },
        }
        result
    }

    /// Ends a read that could not go on for an outside failure: the failure is given back, and
    /// what was looked at and read before it is counted.
    pub fn fail(
        &mut self,
        commit: &str,
        ancestry: Ancestry,
        id: DocumentId,
        names: &NameRules,
        listing: &Vec<u8>,
        reads: &Vec<EntryRead>,
        error: CommittedReadError,
    ) -> (result: CommittedReadError)
        ensures
            result == error,
            final(self).anchor == old(self).anchor,
            final(self).policy == old(self).policy,
            final(self).work == document_at(
                *old(self),
                commit@,
                ancestry,
                *names,
                id,
                listing@,
                reads@,
            ).1,
    {
        let (_, work) = self.look(commit, ancestry, id, names, listing, reads);
        self.work = work;
        error
    }
}

/// A historical document has the requested identity, and a document that was found stays the only
/// one: the read fails where the tree holds another of that identity.
pub proof fn historical_documents_are_exact(
    policy: ContentPolicy,
    names: NameRules,
    id: DocumentId,
    entries: Seq<Seq<u8>>,
    reads: Seq<EntryRead>,
    at: int,
    work: HistoryWork,
    found: FoundView,
)
    requires
        0 <= at,
        found matches Some((record, _)) ==> record.metadata.document_id == id,
    ensures
        found_in(policy, names, id, entries, reads, at, work, found).0 matches Ok(Some((record, _)))
            ==> record.metadata.document_id == id,
        found is Some ==> (found_in(policy, names, id, entries, reads, at, work, found).0 matches Ok(
            kept,
        ) ==> kept == found),
    decreases entries.len() - at,
{
    if at < entries.len() && at < reads.len() && !is_past(policy.scan_deadline, reads[at].now)
        && one_entry(work).entries <= policy.maximum_entry_count {
        match document_entry(entries[at]) {
            Err(()) => {},
            Ok(None) => {
                historical_documents_are_exact(
                    policy,
                    names,
                    id,
                    entries,
                    reads,
                    at + 1,
                    one_entry(work),
                    found,
                );
            },
            Ok(Some((object, path))) => {
                if let Some(blob) = reads[at].blob {
                    let (read, done) = entry_document(policy, names, path, blob, one_entry(work));
                    if let Ok(record) = read {
                        if let Ok(more) = with_document(found, id, record, blob.bytes@) {
                            historical_documents_are_exact(
                                policy,
                                names,
                                id,
                                entries,
                                reads,
                                at + 1,
                                done,
                                more,
                            );
                        }
                    }
                }
            },
        }
    }
}

} // verus!
