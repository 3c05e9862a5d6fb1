//! Reads of one exact official commit: lists, single documents, bundles and linear search.
use crate::apply::PathView;
use crate::git_text::ObjectId;
use crate::ids::{revision, revision_of, DocumentId, SessionId};
use crate::index::{
    distinct, lookup, lookup_finds_records, record_views, ContentIndex, DocumentRecord, RecordView,
};
use crate::order::{
    borrowed_views, comes_before, first_records, is_ordered, ordered, ordering_is_a_sort,
    path_before, sort_records, truncate_records, RecordOrder,
};
use crate::path::{holds_text, optional_text, ContentPath};
use crate::read_error::{CommittedReadError, ReadFailure};
use crate::text::{copy_bytes, same_text};
use vstd::prelude::*;
use vstd::string::*;

verus! {

/// Optional exact-match filters shared by list, recent, and search operations.
#[derive(Debug)]
pub struct ReadFilter<T = String> {
    /// Only documents of this project.
    pub project: Option<T>,
    /// Only documents with this tag.
    pub tag: Option<T>,
    /// Only documents of this session.
    pub session: Option<SessionId>,
    /// Archived documents too.
    pub include_archived: bool,
}

impl View for ReadFilter {
    type V = ReadFilter<Seq<char>>;

    open spec fn view(&self) -> ReadFilter<Seq<char>> {
        ReadFilter {
            project: optional_text(self.project),
            tag: optional_text(self.tag),
            session: self.session,
            include_archived: self.include_archived,
        }
    }
}

impl Default for ReadFilter {
    fn default() -> (filter: ReadFilter)
        ensures
            filter@ == (ReadFilter::<Seq<char>> {
                project: None,
                tag: None,
                session: None,
                include_archived: false,
            }),
    {
        ReadFilter { project: None, tag: None, session: None, include_archived: false }
    }
}

/// Whether a filter lets a document through.
pub open spec fn passes(filter: ReadFilter<Seq<char>>, document: RecordView) -> bool {
    &&& filter.include_archived || !document.location.archived
    &&& filter.project matches Some(project) ==> document.location.project == Some(project)
    &&& filter.tag matches Some(tag) ==> document.metadata.tags.contains(tag)
    &&& filter.session matches Some(session) ==> document.metadata.session == Some(session)
}

impl ReadFilter {
    /// Creates one validated filter from typed identities and an exact tag.
    pub fn new(
        project: Option<String>,
        tag: Option<String>,
        session: Option<SessionId>,
        include_archived: bool,
    ) -> (filter: ReadFilter)
        ensures
            filter@ == (ReadFilter::<Seq<char>> {
                project: optional_text(project),
                tag: optional_text(tag),
                session,
                include_archived,
            }),
    {
        ReadFilter { project, tag, session, include_archived }
    }

    /// Whether the filter lets a document through.
    pub fn matches(&self, document: &DocumentRecord) -> (result: bool)
        ensures
            result == passes(self@, document@),
    {
        if !self.include_archived && document.location.archived {
            return false;
        }
        if let Some(project) = &self.project {
            match &document.location.project {
                None => {
                    return false;
                },
                Some(actual) => {
                    if !same_text(project.as_str(), actual.as_str()) {
                        return false;
                    }
                },
            }
        }
        if let Some(tag) = &self.tag {
            if !holds_text(&document.metadata.tags, tag.as_str()) {
                return false;
            }
        }
        if let Some(session) = &self.session {
            match &document.metadata.session {
                None => {
                    return false;
                },
                Some(actual) => {
                    if *actual != *session {
                        return false;
                    }
                },
            }
        }
        true
    }
}

/// Allowlisted optional metadata searched by the initial linear backend.
#[derive(Clone, Copy, Debug, PartialEq, Eq, Structural)]
pub struct SearchMetadataFields {
    /// The node.
    pub node: bool,
    /// The agent.
    pub agent: bool,
    /// The session.
    pub session: bool,
    /// The last request.
    pub request_id: bool,
}

impl SearchMetadataFields {
    /// Selects the optional metadata fields that take part in full-text matching.
    pub fn new(node: bool, agent: bool, session: bool, request_id: bool) -> (fields: Self)
        ensures
            fields == (SearchMetadataFields { node, agent, session, request_id }),
    {
        SearchMetadataFields { node, agent, session, request_id }
    }
}

impl Default for SearchMetadataFields {
    fn default() -> (fields: Self)
        ensures
            fields == (SearchMetadataFields {
                node: true,
                agent: true,
                session: true,
                request_id: true,
            }),
    {
        SearchMetadataFields::new(true, true, true, true)
    }
}

/// CPU and I/O bounds for one search over a committed snapshot.
#[derive(Clone, Copy, Debug, PartialEq, Eq, Structural)]
pub struct SearchPolicy {
    /// Maximum Unicode scalar values in the query.
    pub maximum_query_characters: usize,
    /// Maximum matching documents returned.
    pub maximum_results: usize,
    /// Maximum filtered documents inspected.
    pub maximum_scanned_documents: usize,
    /// Maximum Markdown bytes read for body matching.
    pub maximum_scanned_markdown_bytes: u64,
    /// Optional absolute deadline shared with snapshot construction, as a clock reading.
    pub deadline: Option<u64>,
}

impl SearchPolicy {
    /// Creates a policy with bounded query/results and unrestricted scan work.
    pub fn new(maximum_query_characters: usize, maximum_results: usize) -> (policy: Self)
        ensures
            policy == (SearchPolicy {
                maximum_query_characters,
                maximum_results,
                maximum_scanned_documents: usize::MAX,
                maximum_scanned_markdown_bytes: u64::MAX,
                deadline: None,
            }),
    {
        SearchPolicy {
            maximum_query_characters,
            maximum_results,
            maximum_scanned_documents: usize::MAX,
            maximum_scanned_markdown_bytes: u64::MAX,
            deadline: None,
        }
    }
}

/// Whether a deadline has passed at a clock reading.
pub open spec fn is_past(deadline: Option<u64>, now: u64) -> bool {
    deadline matches Some(deadline) && now >= deadline
}

/// Whether a deadline has passed at a clock reading.
pub fn deadline_passed(deadline: Option<u64>, now: u64) -> (result: bool)
    ensures
        result == is_past(deadline, now),
{
    match deadline {
        Some(deadline) => now >= deadline,
        None => false,
    }
}

/// One attachment of the committed content.
#[derive(Debug)]
pub struct AttachmentRecord<P = ContentPath> {
    /// The path relative to the content root.
    pub relative_path: P,
    /// The number of bytes.
    pub byte_length: u64,
}

impl View for AttachmentRecord {
    type V = AttachmentRecord<PathView>;

    open spec fn view(&self) -> AttachmentRecord<PathView> {
        AttachmentRecord { relative_path: self.relative_path@, byte_length: self.byte_length }
    }
}

/// One immutable view of an exact official commit.
#[derive(Debug)]
pub struct CommittedSnapshot {
    /// The commit.
    pub commit: ObjectId,
    /// The index of its documents.
    pub index: ContentIndex,
    /// Its attachments.
    pub attachments: Vec<AttachmentRecord>,
    /// Maximum bytes of one document.
    pub maximum_markdown_bytes: u64,
    /// Maximum bytes of one bundle.
    pub maximum_bundle_bytes: u64,
    /// Maximum files of one bundle.
    pub maximum_bundle_entries: usize,
    /// Optional absolute deadline, as a clock reading.
    pub deadline: Option<u64>,
}

/// Clock readings at the three checks of a list.
#[derive(Clone, Copy, Debug, PartialEq, Eq, Structural)]
pub struct ListClock {
    /// Before anything.
    pub begun: u64,
    /// Once the documents are filtered.
    pub filtered: u64,
    /// Once they are ordered.
    pub ordered: u64,
}

/// The documents that pass a filter.
pub open spec fn filtered(documents: Seq<RecordView>, filter: ReadFilter<Seq<char>>) -> Seq<
    RecordView,
> {
    documents.filter(|document: RecordView| passes(filter, document))
}

/// What listing documents gives.
pub open spec fn listed(
    documents: Seq<RecordView>,
    order: RecordOrder,
    filter: ReadFilter<Seq<char>>,
    maximum_results: usize,
    deadline: Option<u64>,
    clock: ListClock,
) -> Result<Seq<RecordView>, ReadFailure> {
    if is_past(deadline, clock.begun) {
        Err(CommittedReadError::OperationDeadlineExceeded)
    } else if maximum_results == 0 {
        Err(CommittedReadError::InvalidResultLimit)
    } else if is_past(deadline, clock.filtered) || is_past(deadline, clock.ordered) {
        Err(CommittedReadError::OperationDeadlineExceeded)
    } else {
        Ok(first_records(ordered(order, filtered(documents, filter)), maximum_results as int))
    }
}

/// Every listed document passes the filter, and without a limit all that pass are listed.
pub proof fn lists_hold_what_passes(
    documents: Seq<RecordView>,
    order: RecordOrder,
    filter: ReadFilter<Seq<char>>,
    maximum_results: usize,
    deadline: Option<u64>,
    clock: ListClock,
)
    ensures
        listed(documents, order, filter, maximum_results, deadline, clock) matches Ok(found) ==> {
            &&& forall|i: int|
                0 <= i < found.len() ==> passes(filter, #[trigger] found[i]) && documents.contains(
                    found[i],
                )
            &&& is_ordered(order, found)
            &&& found.len() <= maximum_results
            &&& maximum_results >= filtered(documents, filter).len() ==> found.to_multiset()
                == filtered(documents, filter).to_multiset()
        },
{
    broadcast use vstd::seq_lib::group_to_multiset_ensures;

    let kept = filtered(documents, filter);
    let all = ordered(order, kept);
    ordering_is_a_sort(order, kept);
    let holds = |document: RecordView| passes(filter, document);
    assert(all.len() == kept.len()) by {
        assert(all.to_multiset().len() == all.len());
        assert(kept.to_multiset().len() == kept.len());
    }
    assert forall|i: int| 0 <= i < all.len() implies passes(filter, #[trigger] all[i])
        && documents.contains(all[i]) by {
        assert(all.to_multiset().contains(all[i]));
        assert(kept.contains(all[i]));
        let k = choose|k: int| 0 <= k < kept.len() && kept[k] == all[i];
        documents.lemma_filter_pred(holds, k);
        filtered_comes_from(documents, holds, k);
    }
    if maximum_results < all.len() {
        assert forall|i: int| 0 <= i < all.take(maximum_results as int).len() implies passes(
            filter,
            #[trigger] all.take(maximum_results as int)[i],
        ) && documents.contains(all.take(maximum_results as int)[i]) by {
            assert(all.take(maximum_results as int)[i] == all[i]);
        }
    }
}

proof fn filtered_comes_from(
    documents: Seq<RecordView>,
    holds: spec_fn(RecordView) -> bool,
    at: int,
)
    requires
        0 <= at < documents.filter(holds).len(),
    ensures
        documents.contains(documents.filter(holds)[at]),
    decreases documents.len(),
{
    reveal(Seq::filter);
    if documents.len() > 0 {
        let earlier = documents.drop_last();
        let found = documents.filter(holds)[at];
        if at < earlier.filter(holds).len() {
            filtered_comes_from(earlier, holds, at);
            let k = choose|k: int| 0 <= k < earlier.len() && earlier[k] == found;
            assert(documents[k] == found);
        } else {
            assert(documents[documents.len() - 1] == found);
        }
    }
}

/// The documents that pass a filter.
fn select<'a>(documents: &'a Vec<DocumentRecord>, filter: &ReadFilter) -> (result: Vec<
    &'a DocumentRecord,
>)
    ensures
        borrowed_views(result@) == filtered(record_views(documents@), filter@),
{
    let ghost views = record_views(documents@);
    let ghost holds = |document: RecordView| passes(filter@, document);
    let mut result: Vec<&'a DocumentRecord> = Vec::new();
    let mut i: usize = 0;
    assert(borrowed_views(result@) =~= views.take(0).filter(holds)) by {
        reveal(Seq::filter);
    }
    while i < documents.len()
        invariant
            i <= documents@.len(),
            views == record_views(documents@),
            holds == (|document: RecordView| passes(filter@, document)),
            borrowed_views(result@) == views.take(i as int).filter(holds),
        decreases documents@.len() - i,
    {
        proof {
            reveal(Seq::filter);
            assert(views.take(i + 1).drop_last() =~= views.take(i as int));
            assert(views.take(i + 1).last() == documents@[i as int]@);
        }
        let ghost before = result@;
        if filter.matches(&documents[i]) {
            result.push(&documents[i]);
            assert(borrowed_views(result@) =~= borrowed_views(before).push(documents@[i as int]@));
        }
        i += 1;
    }
    assert(views.take(views.len() as int) =~= views);
    result
}

/// The view of a list of borrowed records.
pub open spec fn list_view(result: Result<Vec<&DocumentRecord>, CommittedReadError>) -> Result<
    Seq<RecordView>,
    ReadFailure,
> {
    match result {
        Ok(records) => Ok(borrowed_views(records@)),
        Err(error) => Err(error@),
    }
}

/// What was read of one pinned file.
#[derive(Debug)]
pub enum PinnedRead {
    /// The deadline passed before or while it was read.
    Expired,
    /// The path could not be resolved beneath the pinned root.
    Unresolved(String),
    /// It could not be read.
    Unreadable(String),
    /// It was read.
    Read {
        /// Permission bits.
        mode: u32,
        /// Number of links.
        links: u64,
        /// Length when opened.
        length: u64,
        /// The bytes, at most one beyond the bound.
        bytes: Vec<u8>,
    },
}

/// Whether a pinned file may hold content: it has one link and cannot be executed.
pub open spec fn is_plain(mode: u32, links: u64) -> bool {
    links == 1 && mode & 0o111 == 0
}

/// The Markdown of a document, if what was read is exactly what was indexed.
pub open spec fn markdown_read(record: RecordView, read: PinnedRead, maximum: u64) -> Result<
    Seq<u8>,
    ReadFailure,
> {
    match read {
        PinnedRead::Expired => Err(CommittedReadError::OperationDeadlineExceeded),
        PinnedRead::Unresolved(reason) => Err(CommittedReadError::PinnedPath(reason@)),
        PinnedRead::Unreadable(reason) => Err(CommittedReadError::Io(reason@)),
        PinnedRead::Read { mode, links, length, bytes } => if !is_plain(mode, links) {
            Err(CommittedReadError::Io("committed content file is linked or executable"@))
        } else if length > maximum || bytes@.len() != length || bytes@.len() != record.byte_length
            || revision_of(bytes@) != record.revision {
            Err(
                CommittedReadError::ContentChanged { document_id: record.metadata.document_id },
            )
        } else {
            Ok(bytes@)
        },
    }
}

/// The bytes of an attachment, if their number is the indexed one.
pub open spec fn attachment_read(
    document_id: DocumentId,
    attachment: AttachmentRecord<PathView>,
    read: PinnedRead,
) -> Result<Seq<u8>, ReadFailure> {
    match read {
        PinnedRead::Expired => Err(CommittedReadError::OperationDeadlineExceeded),
        PinnedRead::Unresolved(reason) => Err(CommittedReadError::PinnedPath(reason@)),
        PinnedRead::Unreadable(reason) => Err(CommittedReadError::Io(reason@)),
        PinnedRead::Read { mode, links, length, bytes } => if !is_plain(mode, links) {
            Err(CommittedReadError::Io("committed content file is linked or executable"@))
        } else if length != attachment.byte_length || bytes@.len() != attachment.byte_length
            || attachment.relative_path.len() == 0 {
            Err(CommittedReadError::ContentChanged { document_id })
        } else {
            Ok(bytes@)
        },
    }
}

/// Takes the Markdown of a document from what was read.
pub(crate) fn take_markdown(record: &DocumentRecord, read: &PinnedRead, maximum: u64) -> (result: Result<
    Vec<u8>,
    CommittedReadError,
>)
    ensures
        (match result {
            Ok(bytes) => Ok(bytes@),
            Err(error) => Err(error@),
        }) == markdown_read(record@, *read, maximum),
{
    match read {
        PinnedRead::Expired => Err(CommittedReadError::OperationDeadlineExceeded),
        PinnedRead::Unresolved(reason) => Err(CommittedReadError::PinnedPath(reason.clone())),
        PinnedRead::Unreadable(reason) => Err(CommittedReadError::Io(reason.clone())),
        PinnedRead::Read { mode, links, length, bytes } => {
            if *links != 1 || *mode & 0o111 != 0 {
                return Err(
                    CommittedReadError::Io(
                        "committed content file is linked or executable".to_owned(),
                    ),
                );
            }
            if *length > maximum || bytes.len() as u64 != *length || *length != record.byte_length
                || revision(bytes.as_slice()) != record.revision {
                return Err(
                    CommittedReadError::ContentChanged {
                        document_id: record.metadata.document_id,
                    },
                );
            }
            Ok(copy_bytes(bytes))
        },
    }
}

/// Takes the bytes of an attachment from what was read.
fn take_attachment(
    document_id: DocumentId,
    attachment: &AttachmentRecord,
    read: &PinnedRead,
) -> (result: Result<Vec<u8>, CommittedReadError>)
    ensures
        (match result {
            Ok(bytes) => Ok(bytes@),
            Err(error) => Err(error@),
        }) == attachment_read(document_id, attachment@, *read),
{
    match read {
        PinnedRead::Expired => Err(CommittedReadError::OperationDeadlineExceeded),
        PinnedRead::Unresolved(reason) => Err(CommittedReadError::PinnedPath(reason.clone())),
        PinnedRead::Unreadable(reason) => Err(CommittedReadError::Io(reason.clone())),
        PinnedRead::Read { mode, links, length, bytes } => {
            if *links != 1 || *mode & 0o111 != 0 {
                return Err(
                    CommittedReadError::Io(
                        "committed content file is linked or executable".to_owned(),
                    ),
                );
            }
            if *length != attachment.byte_length || bytes.len() as u64 != attachment.byte_length
                || attachment.relative_path.len() == 0 {
                return Err(CommittedReadError::ContentChanged { document_id });
            }
            Ok(copy_bytes(bytes))
        },
    }
}

/// Exact Markdown bytes and validated metadata for one committed document.
#[derive(Debug)]
pub struct CommittedDocument<'a> {
    record: &'a DocumentRecord,
    markdown: Vec<u8>,
}

impl<'a> CommittedDocument<'a> {
    /// The record.
    pub closed spec fn spec_record(self) -> RecordView {
        self.record@
    }

    /// The Markdown bytes.
    pub closed spec fn spec_markdown(self) -> Seq<u8> {
        self.markdown@
    }

    /// Returns the indexed document record.
    pub fn record(&self) -> (result: &DocumentRecord)
        ensures
            result@ == self.spec_record(),
    {
        self.record
    }

    /// Returns the exact committed Markdown bytes.
    pub fn markdown(&self) -> (result: &Vec<u8>)
        ensures
            result@ == self.spec_markdown(),
    {
        &self.markdown
    }
}

/// What retrieving a document gives.
pub open spec fn retrieved(
    snapshot: CommittedSnapshot,
    document_id: DocumentId,
    read: PinnedRead,
    begun: u64,
    finished: u64,
) -> Result<(RecordView, Seq<u8>), ReadFailure> {
    if is_past(snapshot.deadline, begun) {
        Err(CommittedReadError::OperationDeadlineExceeded)
    } else {
        match lookup(snapshot.index@, document_id) {
            None => Err(CommittedReadError::DocumentNotFound { document_id }),
            Some(record) => match markdown_read(record, read, snapshot.maximum_markdown_bytes) {
                Err(failure) => Err(failure),
                Ok(bytes) => if is_past(snapshot.deadline, finished) {
                    Err(CommittedReadError::OperationDeadlineExceeded)
                } else {
                    Ok((record, bytes))
                },
            },
        }
    }
}

/// A retrieved document has the requested identity, and its bytes have exactly the revision that
/// was indexed.
pub proof fn retrieved_documents_are_exact(
    snapshot: CommittedSnapshot,
    document_id: DocumentId,
    read: PinnedRead,
    begun: u64,
    finished: u64,
)
    requires
        distinct(snapshot.index@),
    ensures
        retrieved(snapshot, document_id, read, begun, finished) matches Ok((record, bytes)) ==> {
            &&& record.metadata.document_id == document_id
            &&& snapshot.index@.contains(record)
            &&& revision_of(bytes) == record.revision
        },
{
    lookup_finds_records(snapshot.index@, document_id);
}

impl CommittedSnapshot {
    /// Returns the exact official commit pinned by this snapshot.
    pub fn commit(&self) -> (result: ObjectId)
        ensures
            result == self.commit,
    {
        self.commit
    }

    fn list_in(
        &self,
        order: RecordOrder,
        filter: &ReadFilter,
        maximum_results: usize,
        clock: ListClock,
    ) -> (result: Result<Vec<&DocumentRecord>, CommittedReadError>)
        ensures
            list_view(result) == listed(
                self.index@,
                order,
                filter@,
                maximum_results,
                self.deadline,
                clock,
            ),
    {
        if deadline_passed(self.deadline, clock.begun) {
            return Err(CommittedReadError::OperationDeadlineExceeded);
        }
        if maximum_results == 0 {
            return Err(CommittedReadError::InvalidResultLimit);
        }
        let found = select(self.index.documents(), filter);
        if deadline_passed(self.deadline, clock.filtered) {
            return Err(CommittedReadError::OperationDeadlineExceeded);
        }
        let sorted = sort_records(order, &found);
        if deadline_passed(self.deadline, clock.ordered) {
            return Err(CommittedReadError::OperationDeadlineExceeded);
        }
        Ok(truncate_records(sorted, maximum_results))
    }

    /// Lists matching documents in canonical path order.
    pub fn list(&self, filter: &ReadFilter, maximum_results: usize, clock: ListClock) -> (result:
        Result<Vec<&DocumentRecord>, CommittedReadError>)
        ensures
            list_view(result) == listed(
                self.index@,
                RecordOrder::Path,
                filter@,
                maximum_results,
                self.deadline,
                clock,
            ),
    {
        self.list_in(RecordOrder::Path, filter, maximum_results, clock)
    }

    /// Lists matching documents from most recently changed to oldest.
    pub fn recent(&self, filter: &ReadFilter, maximum_results: usize, clock: ListClock) -> (result:
        Result<Vec<&DocumentRecord>, CommittedReadError>)
        ensures
            list_view(result) == listed(
                self.index@,
                RecordOrder::Recency,
                filter@,
                maximum_results,
                self.deadline,
                clock,
            ),
    {
        self.list_in(RecordOrder::Recency, filter, maximum_results, clock)
    }

    /// Retrieves exact Markdown bytes for one permanent document identity, from what was read at
    /// its path.
    pub fn get(
        &self,
        document_id: DocumentId,
        read: &PinnedRead,
        begun: u64,
        finished: u64,
    ) -> (result: Result<CommittedDocument<'_>, CommittedReadError>)
        ensures
            (match result {
                Ok(document) => Ok((document.spec_record(), document.spec_markdown())),
                Err(error) => Err(error@),
            }) == retrieved(*self, document_id, *read, begun, finished),
    {
        if deadline_passed(self.deadline, begun) {
            return Err(CommittedReadError::OperationDeadlineExceeded);
        }
        let record = match self.index.get(document_id) {
            Some(record) => record,
            None => {
                return Err(CommittedReadError::DocumentNotFound { document_id });
            },
        };
        let markdown = match take_markdown(record, read, self.maximum_markdown_bytes) {
            Ok(markdown) => markdown,
            Err(error) => {
                return Err(error);
            },
        };
        if deadline_passed(self.deadline, finished) {
            return Err(CommittedReadError::OperationDeadlineExceeded);
        }
        Ok(CommittedDocument { record, markdown })
    }
}

/// One regular file in a committed document bundle.
#[derive(Debug)]
pub struct CommittedBundleEntry {
    name: String,
    bytes: Vec<u8>,
}

/// A file of a bundle as sequences: its name and its bytes.
pub type EntryView = (Seq<char>, Seq<u8>);

impl View for CommittedBundleEntry {
    type V = EntryView;

    closed spec fn view(&self) -> EntryView {
        (self.name@, self.bytes@)
    }
}

/// The views of the files of a bundle.
pub open spec fn entry_views(entries: Seq<CommittedBundleEntry>) -> Seq<EntryView> {
    entries.map_values(|entry: CommittedBundleEntry| entry@)
}

impl CommittedBundleEntry {
    /// Returns the name relative to the bundle directory.
    pub fn name(&self) -> (result: &String)
        ensures
            result@ == self@.0,
    {
        &self.name
    }

    /// Returns the exact committed file bytes.
    pub fn bytes(&self) -> (result: &Vec<u8>)
        ensures
            result@ == self@.1,
    {
        &self.bytes
    }
}

/// One immutable committed document bundle prepared for deterministic export.
#[derive(Debug)]
pub struct CommittedBundle<'a> {
    record: &'a DocumentRecord,
    entries: Vec<CommittedBundleEntry>,
}

impl<'a> CommittedBundle<'a> {
    /// The record.
    pub closed spec fn spec_record(self) -> RecordView {
        self.record@
    }

    /// The files.
    pub closed spec fn spec_entries(self) -> Seq<EntryView> {
        entry_views(self.entries@)
    }

    /// Returns the indexed document record owning this bundle.
    pub fn record(&self) -> (result: &DocumentRecord)
        ensures
            result@ == self.spec_record(),
    {
        self.record
    }

    /// Returns the complete, deterministic bundle entry sequence.
    pub fn entries(&self) -> (result: &Vec<CommittedBundleEntry>)
        ensures
            entry_views(result@) == self.spec_entries(),
    {
        &self.entries
    }

    /// Consumes the bundle and returns its owned entries.
    pub fn into_entries(self) -> (result: Vec<CommittedBundleEntry>)
        ensures
            entry_views(result@) == self.spec_entries(),
    {
        self.entries
    }
}

/// An attachment with its path as a sequence.
pub type AttachmentView = AttachmentRecord<PathView>;

/// The views of attachments.
pub open spec fn attachment_views(attachments: Seq<AttachmentRecord>) -> Seq<AttachmentView> {
    attachments.map_values(|attachment: AttachmentRecord| attachment@)
}

/// The views of borrowed attachments.
pub open spec fn borrowed_attachments(attachments: Seq<&AttachmentRecord>) -> Seq<AttachmentView> {
    attachments.map_values(|attachment: &AttachmentRecord| attachment@)
}

/// Whether an attachment stands in the directory of a document.
pub open spec fn stands_beside(attachment: AttachmentView, record: RecordView) -> bool {
    &&& attachment.relative_path.len() > 0
    &&& record.relative_path.len() > 0
    &&& attachment.relative_path.drop_last() == record.relative_path.drop_last()
}

/// Ordered attachments with one more at its place.
pub open spec fn attachment_placed(attachments: Seq<AttachmentView>, added: AttachmentView) -> Seq<
    AttachmentView,
>
    decreases attachments.len(),
{
    if attachments.len() == 0 || !path_before(
        added.relative_path,
        attachments.last().relative_path,
        0,
    ) {
        attachments.push(added)
    } else {
        attachment_placed(attachments.drop_last(), added).push(attachments.last())
    }
}

/// The attachments beside a document in path order.
pub open spec fn attachments_beside(attachments: Seq<AttachmentView>, record: RecordView) -> Seq<
    AttachmentView,
>
    decreases attachments.len(),
{
    if attachments.len() == 0 {
        Seq::empty()
    } else {
        let earlier = attachments_beside(attachments.drop_last(), record);
        if stands_beside(attachments.last(), record) {
            attachment_placed(earlier, attachments.last())
        } else {
            earlier
        }
    }
}

/// Places one more attachment among ordered ones.
fn place_attachment<'a>(attachments: &mut Vec<&'a AttachmentRecord>, added: &'a AttachmentRecord)
    ensures
        borrowed_attachments(final(attachments)@) == attachment_placed(
            borrowed_attachments(old(attachments)@),
            added@,
        ),
{
    let ghost views = borrowed_attachments(attachments@);
    let ghost first = attachments@;
    let mut at: usize = attachments.len();
    assert(views.take(at as int) =~= views);
    assert(views.skip(at as int) =~= Seq::<AttachmentView>::empty());
    assert(attachment_placed(views, added@) =~= attachment_placed(views.take(at as int), added@)
        + views.skip(at as int));
    while at > 0 && comes_before(&added.relative_path, &attachments[at - 1].relative_path)
        invariant
            at <= attachments@.len(),
            attachments@ == first,
            views == borrowed_attachments(attachments@),
            attachment_placed(views, added@) == attachment_placed(views.take(at as int), added@)
                + views.skip(at as int),
        decreases at,
    {
        proof {
            let head = views.take(at as int);
            assert(head.last() == attachments@[at - 1]@);
            assert(head.drop_last() =~= views.take(at - 1));
            assert(attachment_placed(head, added@) + views.skip(at as int) =~= attachment_placed(
                views.take(at - 1),
                added@,
            ) + views.skip(at - 1));
        }
        at -= 1;
    }
    proof {
        if at > 0 {
            assert(views.take(at as int).last() == attachments@[at - 1]@);
        }
        assert(attachment_placed(views.take(at as int), added@) == views.take(at as int).push(
            added@,
        ));
    }
    attachments.insert(at, added);
    assert(borrowed_attachments(attachments@) =~= views.take(at as int).push(added@) + views.skip(
        at as int,
    ));
}

/// Whether an attachment stands in the directory of a document.
fn is_beside(attachment: &AttachmentRecord, record: &DocumentRecord) -> (result: bool)
    ensures
        result == stands_beside(attachment@, record@),
{
    match (attachment.relative_path.parent(), record.relative_path.parent()) {
        (Some(left), Some(right)) => left.same(&right),
        _ => false,
    }
}

/// The attachments beside a document in path order.
fn find_attachments<'a>(attachments: &'a Vec<AttachmentRecord>, record: &DocumentRecord) -> (result:
    Vec<&'a AttachmentRecord>)
    ensures
        borrowed_attachments(result@) == attachments_beside(attachment_views(attachments@), record@),
{
    let ghost views = attachment_views(attachments@);
    let mut result: Vec<&'a AttachmentRecord> = Vec::new();
    let mut i: usize = 0;
    assert(borrowed_attachments(result@) =~= attachments_beside(views.take(0), record@));
    while i < attachments.len()
        invariant
            i <= attachments@.len(),
            views == attachment_views(attachments@),
            borrowed_attachments(result@) == attachments_beside(views.take(i as int), record@),
        decreases attachments@.len() - i,
    {
        proof {
            assert(views.take(i + 1).drop_last() =~= views.take(i as int));
            assert(views.take(i + 1).last() == attachments@[i as int]@);
        }
        if is_beside(&attachments[i], record) {
            place_attachment(&mut result, &attachments[i]);
        }
        i += 1;
    }
    assert(views.take(views.len() as int) =~= views);
    result
}

/// The number of bytes of attachments.
pub open spec fn total_bytes(attachments: Seq<AttachmentView>) -> nat
    decreases attachments.len(),
{
    if attachments.len() == 0 {
        0
    } else {
        total_bytes(attachments.drop_last()) + attachments.last().byte_length as nat
    }
}

proof fn total_bytes_grow(attachments: Seq<AttachmentView>, count: int)
    requires
        0 <= count <= attachments.len(),
    ensures
        total_bytes(attachments.take(count)) <= total_bytes(attachments),
    decreases attachments.len() - count,
{
    if count < attachments.len() {
        total_bytes_grow(attachments, count + 1);
        assert(attachments.take(count + 1).drop_last() =~= attachments.take(count));
    } else {
        assert(attachments.take(count) =~= attachments);
    }
}

/// The document of a bundle and the attachments beside it, unless the bundle is too large.
pub open spec fn bundle_parts(snapshot: CommittedSnapshot, document_id: DocumentId, begun: u64) -> Result<
    (RecordView, Seq<AttachmentView>),
    ReadFailure,
> {
    if is_past(snapshot.deadline, begun) {
        Err(CommittedReadError::OperationDeadlineExceeded)
    } else {
        match lookup(snapshot.index@, document_id) {
            None => Err(CommittedReadError::DocumentNotFound { document_id }),
            Some(record) => {
                let attachments = attachments_beside(
                    attachment_views(snapshot.attachments@),
                    record,
                );
                if attachments.len() + 1 > snapshot.maximum_bundle_entries {
                    Err(
                        CommittedReadError::BundleEntryLimitExceeded {
                            maximum: snapshot.maximum_bundle_entries,
                        },
                    )
                } else if record.byte_length + total_bytes(attachments)
                    > snapshot.maximum_bundle_bytes {
                    Err(
                        CommittedReadError::BundleByteLimitExceeded {
                            maximum: snapshot.maximum_bundle_bytes,
                        },
                    )
                } else {
                    Ok((record, attachments))
                }
            },
        }
    }
}

/// What two reads of each file of a bundle gave. A document is read once: its revision is known.
#[derive(Debug)]
pub struct BundleReads {
    /// The document.
    pub markdown: PinnedRead,
    /// Each attachment, twice, in path order.
    pub attachments: Vec<(PinnedRead, PinnedRead)>,
    /// The clock at the end.
    pub finished: u64,
}

/// The first `count` attachments of a bundle, if both reads of each gave the same bytes.
pub open spec fn bundled(
    document_id: DocumentId,
    attachments: Seq<AttachmentView>,
    reads: Seq<(PinnedRead, PinnedRead)>,
    count: nat,
) -> Result<Seq<EntryView>, ReadFailure>
    decreases count,
{
    if count == 0 {
        Ok(Seq::empty())
    } else {
        match bundled(document_id, attachments, reads, (count - 1) as nat) {
            Err(failure) => Err(failure),
            Ok(entries) => if count > reads.len() {
                Err(CommittedReadError::ContentChanged { document_id })
            } else {
                let attachment = attachments[count - 1];
                let (first, second) = reads[count - 1];
                match (
                    attachment_read(document_id, attachment, first),
                    attachment_read(document_id, attachment, second),
                ) {
                    (Err(failure), _) => Err(failure),
                    (_, Err(failure)) => Err(failure),
                    (Ok(earlier), Ok(bytes)) => if revision_of(earlier) != revision_of(bytes) {
                        Err(CommittedReadError::ContentChanged { document_id })
                    } else {
                        Ok(entries.push((attachment.relative_path.last(), bytes)))
                    },
                }
            },
        }
    }
}

/// What retrieving a bundle gives: the document first, then the attachments in path order.
pub open spec fn bundle_of(
    snapshot: CommittedSnapshot,
    document_id: DocumentId,
    reads: BundleReads,
    begun: u64,
) -> Result<(RecordView, Seq<EntryView>), ReadFailure> {
    match bundle_parts(snapshot, document_id, begun) {
        Err(failure) => Err(failure),
        Ok((record, attachments)) => match markdown_read(
            record,
            reads.markdown,
            snapshot.maximum_markdown_bytes,
        ) {
            Err(failure) => Err(failure),
            Ok(markdown) => match bundled(
                document_id,
                attachments,
                reads.attachments@,
                attachments.len(),
            ) {
                Err(failure) => Err(failure),
                Ok(entries) => if is_past(snapshot.deadline, reads.finished) {
                    Err(CommittedReadError::OperationDeadlineExceeded)
                } else {
                    Ok((record, seq![("index.md"@, markdown)] + entries))
                },
            },
        },
    }
}

proof fn bundled_failure_stays(
    document_id: DocumentId,
    attachments: Seq<AttachmentView>,
    reads: Seq<(PinnedRead, PinnedRead)>,
    count: nat,
    more: nat,
)
    requires
        count <= more,
        bundled(document_id, attachments, reads, count) is Err,
    ensures
        bundled(document_id, attachments, reads, more) == bundled(
            document_id,
            attachments,
            reads,
            count,
        ),
    decreases more,
{
    if count < more {
        bundled_failure_stays(document_id, attachments, reads, count, (more - 1) as nat);
    }
}

impl CommittedSnapshot {
    /// Finds the document of a bundle and the attachments beside it, in path order, unless the
    /// bundle is too large.
    pub fn bundle_files(&self, document_id: DocumentId, begun: u64) -> (result: Result<
        (&DocumentRecord, Vec<&AttachmentRecord>),
        CommittedReadError,
    >)
        ensures
            (match result {
                Ok((record, attachments)) => Ok((record@, borrowed_attachments(attachments@))),
                Err(error) => Err(error@),
            }) == bundle_parts(*self, document_id, begun),
    {
        if deadline_passed(self.deadline, begun) {
            return Err(CommittedReadError::OperationDeadlineExceeded);
        }
        let record = match self.index.get(document_id) {
            Some(record) => record,
            None => {
                return Err(CommittedReadError::DocumentNotFound { document_id });
            },
        };
        let attachments = find_attachments(&self.attachments, record);
        let ghost views = borrowed_attachments(attachments@);
        if attachments.len() >= self.maximum_bundle_entries {
            return Err(
                CommittedReadError::BundleEntryLimitExceeded {
                    maximum: self.maximum_bundle_entries,
                },
            );
        }
        let mut total: u64 = record.byte_length;
        if total > self.maximum_bundle_bytes {
            return Err(
                CommittedReadError::BundleByteLimitExceeded {
                    maximum: self.maximum_bundle_bytes,
                },
            );
        }
        let mut i: usize = 0;
        while i < attachments.len()
            invariant
                i <= attachments@.len(),
                views == borrowed_attachments(attachments@),
                total == record.byte_length + total_bytes(views.take(i as int)),
                total <= self.maximum_bundle_bytes,
                views == attachments_beside(attachment_views(self.attachments@), record@),
                views.len() + 1 <= self.maximum_bundle_entries,
                !is_past(self.deadline, begun),
                lookup(self.index@, document_id) == Some(record@),
            decreases attachments@.len() - i,
        {
            proof {
                assert(views.take(i + 1).drop_last() =~= views.take(i as int));
                assert(views.take(i + 1).last() == attachments@[i as int]@);
                total_bytes_grow(views, i + 1);
            }
            match total.checked_add(attachments[i].byte_length) {
                Some(sum) if sum <= self.maximum_bundle_bytes => {
                    total = sum;
                },
                _ => {
                    return Err(
                        CommittedReadError::BundleByteLimitExceeded {
                            maximum: self.maximum_bundle_bytes,
                        },
                    );
                },
            }
            i += 1;
        }
        assert(views.take(views.len() as int) =~= views);
        Ok((record, attachments))
    }

    /// Retrieves one document and every attachment stored beside it, from what was read of them.
    pub fn bundle(&self, document_id: DocumentId, reads: &BundleReads, begun: u64) -> (result:
        Result<CommittedBundle<'_>, CommittedReadError>)
        ensures
            (match result {
                Ok(bundle) => Ok((bundle.spec_record(), bundle.spec_entries())),
                Err(error) => Err(error@),
            }) == bundle_of(*self, document_id, *reads, begun),
    {
        let (record, attachments) = match self.bundle_files(document_id, begun) {
            Ok(files) => files,
            Err(error) => {
                return Err(error);
            },
        };
        let ghost views = borrowed_attachments(attachments@);
        let markdown = match take_markdown(record, &reads.markdown, self.maximum_markdown_bytes) {
            Ok(markdown) => markdown,
            Err(error) => {
                return Err(error);
            },
        };
        let mut entries: Vec<CommittedBundleEntry> = Vec::new();
        let ghost first = seq![("index.md"@, markdown@)];
        entries.push(CommittedBundleEntry { name: "index.md".to_owned(), bytes: markdown });
        assert(entry_views(entries@) =~= first);
        let mut i: usize = 0;
        let ghost mut gathered: Seq<EntryView> = Seq::empty();
        assert(entry_views(entries@) =~= first + gathered);
        while i < attachments.len()
            invariant
                i <= attachments@.len(),
                views == borrowed_attachments(attachments@),
                bundled(document_id, views, reads.attachments@, i as nat) == Ok::<
                    Seq<EntryView>,
                    ReadFailure,
                >(gathered),
                entry_views(entries@) == first + gathered,
                first == seq![("index.md"@, markdown@)],
                bundle_parts(*self, document_id, begun) == Ok::<
                    (RecordView, Seq<AttachmentView>),
                    ReadFailure,
                >((record@, views)),
                markdown_read(record@, reads.markdown, self.maximum_markdown_bytes) == Ok::<
                    Seq<u8>,
                    ReadFailure,
                >(markdown@),
            decreases attachments@.len() - i,
        {
            assert(views[i as int] == attachments@[i as int]@);
            let ghost step = bundled(document_id, views, reads.attachments@, (i + 1) as nat);
            proof {
                if step is Err {
                    bundled_failure_stays(
                        document_id,
                        views,
                        reads.attachments@,
                        (i + 1) as nat,
                        views.len(),
                    );
                }
            }
            if i >= reads.attachments.len() {
                return Err(CommittedReadError::ContentChanged { document_id });
            }
            let attachment = attachments[i];
            let pair = &reads.attachments[i];
            let earlier = match take_attachment(document_id, attachment, &pair.0) {
                Ok(bytes) => bytes,
                Err(error) => {
                    return Err(error);
                },
            };
            let bytes = match take_attachment(document_id, attachment, &pair.1) {
                Ok(bytes) => bytes,
                Err(error) => {
                    return Err(error);
                },
            };
            if revision(earlier.as_slice()) != revision(bytes.as_slice()) {
                return Err(CommittedReadError::ContentChanged { document_id });
            }
            let name = attachment.relative_path.component(attachment.relative_path.len() - 1).clone();
            let ghost before = entries@;
            let ghost entry = (name@, bytes@);
            entries.push(CommittedBundleEntry { name, bytes });
            proof {
                gathered = gathered.push(entry);
                assert(entry_views(entries@) =~= entry_views(before).push(entry));
                assert(entry_views(entries@) =~= first + gathered);
            }
            i += 1;
        }
        if deadline_passed(self.deadline, reads.finished) {
            return Err(CommittedReadError::OperationDeadlineExceeded);
        }
        Ok(CommittedBundle { record, entries })
    }
}

} // verus!
