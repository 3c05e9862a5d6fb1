//! Bounded full-text search that scans committed Markdown directly.
use crate::git_text::{trim, trimmed};
use crate::ids::ulid_text;
use crate::index::{record_views, DocumentRecord, RecordView};
use crate::markdown::{body_of, markdown_body};
use crate::order::{
    borrowed_views, first_records, is_ordered, ordered, ordering_is_a_sort, record_before,
    sort_records, truncate_records, RecordOrder,
};
use crate::path::{optional_text, slashed, texts};
use crate::read::{
    deadline_passed, is_past, markdown_read, passes, take_markdown, CommittedSnapshot, PinnedRead,
    ReadFilter, SearchMetadataFields, SearchPolicy,
};
use crate::read_error::{CommittedReadError, ReadFailure};
use crate::search_text::{holds_query, lower, lowercase, matches_query};
use crate::text::{characters, slice_text, utf8_text};
use vstd::prelude::*;
use vstd::string::*;
use vstd::utf8::{decode_utf8, valid_utf8};

verus! {

/// What was observed of one document during a search.
#[derive(Debug)]
pub struct DocumentFacts {
    /// The clock when the document was come to.
    pub now: u64,
    /// What was read of it, if that was needed.
    pub read: Option<PinnedRead>,
}

/// What was observed during a search.
#[derive(Debug)]
pub struct SearchFacts {
    /// Each document, in index order, as far as the search has come.
    pub documents: Vec<DocumentFacts>,
    /// The clock at the end.
    pub finished: u64,
}

/// Why a search stops.
#[derive(Debug)]
pub enum SearchHalt<E = CommittedReadError> {
    /// A document has to be looked at or read; the search then starts anew.
    Needs(usize),
    /// The search failed.
    Failed(E),
}

impl View for SearchHalt {
    type V = SearchHalt<ReadFailure>;

    open spec fn view(&self) -> SearchHalt<ReadFailure> {
        match *self {
            SearchHalt::Needs(at) => SearchHalt::Needs(at),
            SearchHalt::Failed(error) => SearchHalt::Failed(error@),
        }
    }
}

/// Initial bounded full-text search that scans committed Markdown directly.
#[derive(Clone, Copy, Debug, PartialEq, Eq, Structural)]
pub struct LinearSearch {
    /// The optional metadata that takes part in matching.
    pub metadata_fields: SearchMetadataFields,
}

impl Default for LinearSearch {
    fn default() -> (search: LinearSearch)
        ensures
            search.metadata_fields == (SearchMetadataFields {
                node: true,
                agent: true,
                session: true,
                request_id: true,
            }),
    {
        LinearSearch::new(SearchMetadataFields::default())
    }
}

/// Whether an optional text holds a query.
pub open spec fn optional_holds(text: Option<Seq<char>>, query: Seq<char>) -> bool {
    text matches Some(text) && holds_query(text, query)
}

/// Whether one of some texts holds a query.
pub open spec fn some_holds(values: Seq<Seq<char>>, query: Seq<char>) -> bool {
    exists|i: int| 0 <= i < values.len() && holds_query(#[trigger] values[i], query)
}

/// Whether the metadata of a document holds a query: its title, its path, its tags, and what else
/// is selected.
pub open spec fn metadata_holds(
    fields: SearchMetadataFields,
    document: RecordView,
    query: Seq<char>,
) -> bool {
    let metadata = document.metadata;
    ||| holds_query(metadata.title, query)
    ||| holds_query(slashed(document.relative_path), query)
    ||| some_holds(metadata.tags, query)
    ||| fields.node && optional_holds(metadata.node, query)
    ||| fields.agent && optional_holds(metadata.agent, query)
    ||| fields.session && (metadata.session matches Some(session) && holds_query(
        ulid_text(session.value),
        query,
    ))
    ||| fields.request_id && holds_query(ulid_text(metadata.request_id.value), query)
}

/// Whether the body of a document holds a query; nothing if the document has no readable body.
pub open spec fn body_holds(markdown: Seq<u8>, query: Seq<char>) -> Option<bool> {
    match body_of(markdown) {
        Some(body) => if valid_utf8(body) {
            Some(holds_query(decode_utf8(body), query))
        } else {
            None
        },
        None => None,
    }
}

/// Why a document body cannot be searched within the bounds.
pub open spec fn too_many_bytes(policy: SearchPolicy) -> ReadFailure {
    CommittedReadError::SearchMarkdownByteLimitExceeded {
        maximum: policy.maximum_scanned_markdown_bytes,
    }
}

/// Whether one document matches, with the Markdown bytes scanned up to it: those of every document
/// whose body had to be searched.
pub open spec fn document_matches(
    search: LinearSearch,
    snapshot: CommittedSnapshot,
    document: RecordView,
    query: Seq<char>,
    policy: SearchPolicy,
    at: int,
    read: Option<PinnedRead>,
    scanned: int,
) -> Result<(bool, int), SearchHalt<ReadFailure>> {
    if metadata_holds(search.metadata_fields, document, query) {
        Ok((true, scanned))
    } else if scanned + document.byte_length > policy.maximum_scanned_markdown_bytes {
        Err(SearchHalt::Failed(too_many_bytes(policy)))
    } else {
        match read {
            None => Err(SearchHalt::Needs(at as usize)),
            Some(read) => match markdown_read(document, read, snapshot.maximum_markdown_bytes) {
                Err(failure) => Err(SearchHalt::Failed(failure)),
                Ok(markdown) => if scanned + markdown.len()
                    > policy.maximum_scanned_markdown_bytes {
                    Err(SearchHalt::Failed(too_many_bytes(policy)))
                } else {
                    match body_holds(markdown, query) {
                        None => Err(
                            SearchHalt::Failed(
                                CommittedReadError::InvalidMarkdownEncoding {
                                    document_id: document.metadata.document_id,
                                },
                            ),
                        ),
                        Some(holds) => Ok((holds, scanned + markdown.len())),
                    }
                },
            },
        }
    }
}

/// The documents from `at` on that match, behind those found before, with the numbers of documents
/// and Markdown bytes scanned so far.
pub open spec fn found_from(
    search: LinearSearch,
    snapshot: CommittedSnapshot,
    query: Seq<char>,
    filter: ReadFilter<Seq<char>>,
    policy: SearchPolicy,
    facts: SearchFacts,
    at: int,
    documents: int,
    scanned: int,
    found: Seq<RecordView>,
) -> Result<Seq<RecordView>, SearchHalt<ReadFailure>>
    decreases snapshot.index@.len() - at,
{
    if at < 0 || at >= snapshot.index@.len() {
        Ok(found)
    } else {
        let document = snapshot.index@[at];
        if !passes(filter, document) {
            found_from(
                search,
                snapshot,
                query,
                filter,
                policy,
                facts,
                at + 1,
                documents,
                scanned,
                found,
            )
        } else if at >= facts.documents@.len() {
            Err(SearchHalt::Needs(at as usize))
        } else if is_past(policy.deadline, facts.documents@[at].now) {
            Err(SearchHalt::Failed(CommittedReadError::OperationDeadlineExceeded))
        } else if documents + 1 > policy.maximum_scanned_documents {
            Err(
                SearchHalt::Failed(
                    CommittedReadError::SearchDocumentLimitExceeded {
                        maximum: policy.maximum_scanned_documents,
                    },
                ),
            )
        } else {
            match document_matches(
                search,
                snapshot,
                document,
                query,
                policy,
                at,
                facts.documents@[at].read,
                scanned,
            ) {
                Err(halt) => Err(halt),
                Ok((matches, total)) => found_from(
                    search,
                    snapshot,
                    query,
                    filter,
                    policy,
                    facts,
                    at + 1,
                    documents + 1,
                    total,
                    if matches {
                        found.push(document)
                    } else {
                        found
                    },
                ),
            }
        }
    }
}

/// What a search gives: matching documents in path order.
pub open spec fn searched(
    search: LinearSearch,
    snapshot: CommittedSnapshot,
    query: Seq<char>,
    filter: ReadFilter<Seq<char>>,
    policy: SearchPolicy,
    facts: SearchFacts,
) -> Result<Seq<RecordView>, SearchHalt<ReadFailure>> {
    let sought = trimmed(query);
    if policy.maximum_results == 0 {
        Err(SearchHalt::Failed(CommittedReadError::InvalidResultLimit))
    } else if sought.len() == 0 {
        Err(SearchHalt::Failed(CommittedReadError::EmptyQuery))
    } else if sought.len() > policy.maximum_query_characters {
        Err(
            SearchHalt::Failed(
                CommittedReadError::QueryTooLong {
                    maximum: policy.maximum_query_characters,
                    actual: sought.len() as usize,
                },
            ),
        )
    } else {
        match found_from(
            search,
            snapshot,
            lowercase(sought),
            filter,
            policy,
            facts,
            0,
            0,
            0,
            Seq::empty(),
        ) {
            Err(halt) => Err(halt),
            Ok(found) => if is_past(policy.deadline, facts.finished) {
                Err(SearchHalt::Failed(CommittedReadError::OperationDeadlineExceeded))
            } else {
                Ok(first_records(ordered(RecordOrder::Path, found), policy.maximum_results as int))
            },
        }
    }
}

/// Whether an optional text holds a query.
fn optional_matches(text: &Option<String>, query: &str) -> (result: bool)
    ensures
        result == optional_holds(optional_text(*text), query@),
{
    match text {
        Some(text) => matches_query(text.as_str(), query),
        None => false,
    }
}

/// Whether one of some texts holds a query.
fn some_matches(values: &Vec<String>, query: &str) -> (result: bool)
    ensures
        result == some_holds(texts(values@), query@),
{
    let ghost views = texts(values@);
    let mut i: usize = 0;
    while i < values.len()
        invariant
            i <= values@.len(),
            views == texts(values@),
            forall|j: int| 0 <= j < i ==> !holds_query(#[trigger] views[j], query@),
        decreases values@.len() - i,
    {
        assert(views[i as int] == values@[i as int]@);
        if matches_query(values[i].as_str(), query) {
            return true;
        }
        i += 1;
    }
    false
}

impl LinearSearch {
    /// Creates a linear backend with an allowlisted metadata-field selection.
    pub fn new(metadata_fields: SearchMetadataFields) -> (search: LinearSearch)
        ensures
            search.metadata_fields == metadata_fields,
    {
        LinearSearch { metadata_fields }
    }

    /// Whether the metadata of a document holds a query.
    fn metadata_matches(&self, document: &DocumentRecord, query: &str) -> (result: bool)
        ensures
            result == metadata_holds(self.metadata_fields, document@, query@),
    {
        let fields = self.metadata_fields;
        let metadata = &document.metadata;
        matches_query(metadata.title.as_str(), query) || matches_query(
            document.relative_path.text().as_str(),
            query,
        ) || some_matches(&metadata.tags, query) || (fields.node && optional_matches(
            &metadata.node,
            query,
        )) || (fields.agent && optional_matches(&metadata.agent, query)) || (fields.session && (
        match metadata.session {
            Some(session) => matches_query(session.text().as_str(), query),
            None => false,
        })) || (fields.request_id && matches_query(metadata.request_id.text().as_str(), query))
    }

    /// Whether one document matches, with the Markdown bytes scanned up to it.
    fn inspect(
        &self,
        snapshot: &CommittedSnapshot,
        document: &DocumentRecord,
        query: &str,
        policy: SearchPolicy,
        at: usize,
        read: &Option<PinnedRead>,
        scanned: u64,
    ) -> (result: Result<(bool, u64), SearchHalt>)
        requires
            scanned <= policy.maximum_scanned_markdown_bytes,
        ensures
            (match result {
                Ok((matches, total)) => Ok((matches, total as int)),
                Err(halt) => Err(halt@),
            }) == document_matches(
                *self,
                *snapshot,
                document@,
                query@,
                policy,
                at as int,
                *read,
                scanned as int,
            ),
            result matches Ok((matches, total)) ==> total <= policy.maximum_scanned_markdown_bytes,
    {
        if self.metadata_matches(document, query) {
            return Ok((true, scanned));
        }
        let maximum: u64 = policy.maximum_scanned_markdown_bytes;
        if document.byte_length > maximum - scanned {
            return Err(
                SearchHalt::Failed(CommittedReadError::SearchMarkdownByteLimitExceeded { maximum }),
            );
        }
        let read = match read {
            None => {
                return Err(SearchHalt::Needs(at));
            },
            Some(read) => read,
        };
        let markdown = match take_markdown(document, read, snapshot.maximum_markdown_bytes) {
            Err(error) => {
                return Err(SearchHalt::Failed(error));
            },
            Ok(markdown) => markdown,
        };
        let length: u64 = markdown.len() as u64;
        if length > maximum - scanned {
            return Err(
                SearchHalt::Failed(CommittedReadError::SearchMarkdownByteLimitExceeded { maximum }),
            );
        }
        let document_id = document.metadata.document_id;
        let body = match markdown_body(markdown.as_slice()) {
            None => {
                return Err(
                    SearchHalt::Failed(CommittedReadError::InvalidMarkdownEncoding { document_id }),
                );
            },
            Some(body) => body,
        };
        match utf8_text(body.as_slice()) {
            None => Err(
                SearchHalt::Failed(CommittedReadError::InvalidMarkdownEncoding { document_id }),
            ),
            Some(text) => {
                proof {
                    vstd::utf8::encode_utf8_decode_utf8(text@);
                }
                Ok((matches_query(text.as_str(), query), scanned + length))
            },
        }
    }

    /// Finds the documents of a snapshot that hold a query, in path order, from what was observed
    /// so far.
    pub fn search<'a>(
        &self,
        snapshot: &'a CommittedSnapshot,
        query: &str,
        filter: &ReadFilter,
        policy: SearchPolicy,
        facts: &SearchFacts,
    ) -> (result: Result<Vec<&'a DocumentRecord>, SearchHalt>)
        ensures
            (match result {
                Ok(found) => Ok(borrowed_views(found@)),
                Err(halt) => Err(halt@),
            }) == searched(*self, *snapshot, query@, filter@, policy, *facts),
    {
        if policy.maximum_results == 0 {
            return Err(SearchHalt::Failed(CommittedReadError::InvalidResultLimit));
        }
        let sought = trim(&characters(query));
        let actual: usize = sought.len();
        if actual == 0 {
            return Err(SearchHalt::Failed(CommittedReadError::EmptyQuery));
        }
        if actual > policy.maximum_query_characters {
            return Err(
                SearchHalt::Failed(
                    CommittedReadError::QueryTooLong {
                        maximum: policy.maximum_query_characters,
                        actual,
                    },
                ),
            );
        }
        let shown = slice_text(&sought, 0, actual);
        assert(shown@ =~= trimmed(query@));
        let lowered = lower(shown.as_str());
        let documents = snapshot.index.documents();
        let ghost views = snapshot.index@;
        let mut found: Vec<&'a DocumentRecord> = Vec::new();
        let mut inspected: usize = 0;
        let mut scanned: u64 = 0;
        let mut at: usize = 0;
        assert(borrowed_views(found@) =~= Seq::<RecordView>::empty());
        let ghost expected = found_from(
            *self,
            *snapshot,
            lowered@,
            filter@,
            policy,
            *facts,
            0,
            0,
            0,
            Seq::empty(),
        );
        while at < documents.len()
            invariant
                at <= documents@.len(),
                inspected <= at,
                views == record_views(documents@),
                views == snapshot.index@,
                scanned <= policy.maximum_scanned_markdown_bytes,
                policy.maximum_results > 0,
                trimmed(query@).len() > 0,
                trimmed(query@).len() <= policy.maximum_query_characters,
                lowered@ == lowercase(trimmed(query@)),
                expected == found_from(
                    *self,
                    *snapshot,
                    lowercase(trimmed(query@)),
                    filter@,
                    policy,
                    *facts,
                    0,
                    0,
                    0,
                    Seq::empty(),
                ),
                expected == found_from(
                    *self,
                    *snapshot,
                    lowered@,
                    filter@,
                    policy,
                    *facts,
                    at as int,
                    inspected as int,
                    scanned as int,
                    borrowed_views(found@),
                ),
            decreases documents@.len() - at,
        {
            let document = &documents[at];
            assert(views[at as int] == document@);
            if filter.matches(document) {
                if at >= facts.documents.len() {
                    return Err(SearchHalt::Needs(at));
                }
                if deadline_passed(policy.deadline, facts.documents[at].now) {
                    return Err(SearchHalt::Failed(CommittedReadError::OperationDeadlineExceeded));
                }
                if inspected >= policy.maximum_scanned_documents {
                    return Err(
                        SearchHalt::Failed(
                            CommittedReadError::SearchDocumentLimitExceeded {
                                maximum: policy.maximum_scanned_documents,
                            },
                        ),
                    );
                }
                match self.inspect(
                    snapshot,
                    document,
                    lowered.as_str(),
                    policy,
                    at,
                    &facts.documents[at].read,
                    scanned,
                ) {
                    Err(halt) => {
                        return Err(halt);
                    },
                    Ok((matches, total)) => {
                        let ghost before = found@;
                        if matches {
                            found.push(document);
                            assert(borrowed_views(found@) =~= borrowed_views(before).push(
                                document@,
                            ));
                        }
                        inspected += 1;
                        scanned = total;
                    },
                }
            }
            at += 1;
        }
        let sorted = sort_records(RecordOrder::Path, &found);
        if deadline_passed(policy.deadline, facts.finished) {
            return Err(SearchHalt::Failed(CommittedReadError::OperationDeadlineExceeded));
        }
        Ok(truncate_records(sorted, policy.maximum_results))
    }
}

/// Whether a document answers a query: it passes the filter, and its metadata or the body that was
/// read of it holds the query.
pub open spec fn answers(
    search: LinearSearch,
    snapshot: CommittedSnapshot,
    query: Seq<char>,
    filter: ReadFilter<Seq<char>>,
    facts: SearchFacts,
    document: RecordView,
) -> bool {
    &&& passes(filter, document)
    &&& metadata_holds(search.metadata_fields, document, query) || (exists|at: int|
        0 <= at < snapshot.index@.len() && at < facts.documents@.len() && #[trigger] body_answers(
            snapshot,
            query,
            facts,
            document,
            at,
        ))
}

/// Whether the body that was read of a document holds a query.
pub open spec fn body_answers(
    snapshot: CommittedSnapshot,
    query: Seq<char>,
    facts: SearchFacts,
    document: RecordView,
    at: int,
) -> bool {
    &&& snapshot.index@[at] == document
    &&& facts.documents@[at].read matches Some(read) && (markdown_read(
        document,
        read,
        snapshot.maximum_markdown_bytes,
    ) matches Ok(markdown) && body_holds(markdown, query) == Some(true))
}

proof fn found_answers(
    search: LinearSearch,
    snapshot: CommittedSnapshot,
    query: Seq<char>,
    filter: ReadFilter<Seq<char>>,
    policy: SearchPolicy,
    facts: SearchFacts,
    at: int,
    documents: int,
    scanned: int,
    found: Seq<RecordView>,
)
    requires
        0 <= at,
        forall|i: int|
            0 <= i < found.len() ==> answers(
                search,
                snapshot,
                query,
                filter,
                facts,
                #[trigger] found[i],
            ),
    ensures
        found_from(
            search,
            snapshot,
            query,
            filter,
            policy,
            facts,
            at,
            documents,
            scanned,
            found,
        ) matches Ok(all) ==> forall|i: int|
            0 <= i < all.len() ==> answers(search, snapshot, query, filter, facts, #[trigger] all[i]),
    decreases snapshot.index@.len() - at,
{
    if at < snapshot.index@.len() {
        let document = snapshot.index@[at];
        if !passes(filter, document) {
            found_answers(
                search,
                snapshot,
                query,
                filter,
                policy,
                facts,
                at + 1,
                documents,
                scanned,
                found,
            );
        } else if at < facts.documents@.len() {
            if let Ok((matches, total)) = document_matches(
                search,
                snapshot,
                document,
                query,
                policy,
                at,
                facts.documents@[at].read,
                scanned,
            ) {
                let more = if matches {
                    found.push(document)
                } else {
                    found
                };
                if matches {
                    if !metadata_holds(search.metadata_fields, document, query) {
                        assert(body_answers(snapshot, query, facts, document, at));
                    }
                    assert(answers(search, snapshot, query, filter, facts, document));
                    assert forall|i: int| 0 <= i < more.len() implies answers(
                        search,
                        snapshot,
                        query,
                        filter,
                        facts,
                        #[trigger] more[i],
                    ) by {
                        if i < found.len() {
                            assert(more[i] == found[i]);
                        }
                    }
                }
                found_answers(
                    search,
                    snapshot,
                    query,
                    filter,
                    policy,
                    facts,
                    at + 1,
                    documents + 1,
                    total,
                    more,
                );
            }
        }
    }
}

/// Every document that a search gives answers the query, and they stand in path order.
pub proof fn searches_give_answers(
    search: LinearSearch,
    snapshot: CommittedSnapshot,
    query: Seq<char>,
    filter: ReadFilter<Seq<char>>,
    policy: SearchPolicy,
    facts: SearchFacts,
)
    ensures
        searched(search, snapshot, query, filter, policy, facts) matches Ok(found) ==> {
            &&& is_ordered(RecordOrder::Path, found)
            &&& found.len() <= policy.maximum_results
            &&& forall|i: int|
                0 <= i < found.len() ==> answers(
                    search,
                    snapshot,
                    lowercase(trimmed(query)),
                    filter,
                    facts,
                    #[trigger] found[i],
                )
        },
{
    broadcast use vstd::seq_lib::group_to_multiset_ensures;

    let sought = lowercase(trimmed(query));
    found_answers(search, snapshot, sought, filter, policy, facts, 0, 0, 0, Seq::empty());
    if let Ok(found) = found_from(
        search,
        snapshot,
        sought,
        filter,
        policy,
        facts,
        0,
        0,
        0,
        Seq::empty(),
    ) {
        let all = ordered(RecordOrder::Path, found);
        ordering_is_a_sort(RecordOrder::Path, found);
        assert forall|i: int| 0 <= i < all.len() implies answers(
            search,
            snapshot,
            sought,
            filter,
            facts,
            #[trigger] all[i],
        ) by {
            assert(all.to_multiset().contains(all[i]));
            assert(found.contains(all[i]));
        }
        let first = first_records(all, policy.maximum_results as int);
        assert forall|i: int| 0 <= i < first.len() implies answers(
            search,
            snapshot,
            sought,
            filter,
            facts,
            #[trigger] first[i],
        ) by {
            assert(first[i] == all[i]);
        }
    }
}

/// Whether the document at a position of the index answers a query: it passes the filter, and its
/// metadata or the body that was read of it holds the query.
pub open spec fn answers_at(
    search: LinearSearch,
    snapshot: CommittedSnapshot,
    query: Seq<char>,
    filter: ReadFilter<Seq<char>>,
    facts: SearchFacts,
    at: int,
) -> bool {
    let document = snapshot.index@[at];
    &&& passes(filter, document)
    &&& metadata_holds(search.metadata_fields, document, query) || body_answers(
        snapshot,
        query,
        facts,
        document,
        at,
    )
}

proof fn found_is_complete(
    search: LinearSearch,
    snapshot: CommittedSnapshot,
    query: Seq<char>,
    filter: ReadFilter<Seq<char>>,
    policy: SearchPolicy,
    facts: SearchFacts,
    at: int,
    documents: int,
    scanned: int,
    found: Seq<RecordView>,
)
    requires
        0 <= at,
    ensures
        found_from(
            search,
            snapshot,
            query,
            filter,
            policy,
            facts,
            at,
            documents,
            scanned,
            found,
        ) matches Ok(all) ==> {
            &&& forall|i: int| 0 <= i < found.len() ==> all.contains(#[trigger] found[i])
            &&& forall|i: int|
                at <= i < snapshot.index@.len() && #[trigger] answers_at(
                    search,
                    snapshot,
                    query,
                    filter,
                    facts,
                    i,
                ) ==> all.contains(snapshot.index@[i])
        },
    decreases snapshot.index@.len() - at,
{
    if at < snapshot.index@.len() {
        let document = snapshot.index@[at];
        if !passes(filter, document) {
            found_is_complete(
                search,
                snapshot,
                query,
                filter,
                policy,
                facts,
                at + 1,
                documents,
                scanned,
                found,
            );
        } else if at < facts.documents@.len() {
            if let Ok((matches, total)) = document_matches(
                search,
                snapshot,
                document,
                query,
                policy,
                at,
                facts.documents@[at].read,
                scanned,
            ) {
                let more = if matches {
                    found.push(document)
                } else {
                    found
                };
                found_is_complete(
                    search,
                    snapshot,
                    query,
                    filter,
                    policy,
                    facts,
                    at + 1,
                    documents + 1,
                    total,
                    more,
                );
                assert forall|i: int| 0 <= i < found.len() implies #[trigger] found[i] == more[i] by {
                }
                if matches {
                    assert(more[found.len() as int] == document);
                } else {
                    assert(!answers_at(search, snapshot, query, filter, facts, at));
                }
            }
        }
    }
}

/// A search leaves nothing out: a document that answers the query and is not given comes before
/// none of those that are, and then as many are given as the search may give.
pub proof fn searches_leave_nothing_out(
    search: LinearSearch,
    snapshot: CommittedSnapshot,
    query: Seq<char>,
    filter: ReadFilter<Seq<char>>,
    policy: SearchPolicy,
    facts: SearchFacts,
    at: int,
)
    requires
        0 <= at < snapshot.index@.len(),
        answers_at(search, snapshot, lowercase(trimmed(query)), filter, facts, at),
    ensures
        searched(search, snapshot, query, filter, policy, facts) matches Ok(found)
            ==> found.contains(snapshot.index@[at]) || {
            &&& found.len() == policy.maximum_results
            &&& forall|i: int|
                0 <= i < found.len() ==> !record_before(
                    RecordOrder::Path,
                    snapshot.index@[at],
                    #[trigger] found[i],
                )
        },
{
    broadcast use vstd::seq_lib::group_to_multiset_ensures;

    let sought = lowercase(trimmed(query));
    let document = snapshot.index@[at];
    found_is_complete(search, snapshot, sought, filter, policy, facts, 0, 0, 0, Seq::empty());
    if let Ok(found) = found_from(
        search,
        snapshot,
        sought,
        filter,
        policy,
        facts,
        0,
        0,
        0,
        Seq::empty(),
    ) {
        let all = ordered(RecordOrder::Path, found);
        ordering_is_a_sort(RecordOrder::Path, found);
        assert(found.to_multiset().contains(document));
        assert(all.contains(document));
        let place = choose|place: int| 0 <= place < all.len() && all[place] == document;
        let first = first_records(all, policy.maximum_results as int);
        if place < policy.maximum_results {
            assert(first[place] == document);
        } else {
            assert forall|i: int| 0 <= i < first.len() implies !record_before(
                RecordOrder::Path,
                document,
                #[trigger] first[i],
            ) by {
                assert(first[i] == all[i]);
                assert(!record_before(RecordOrder::Path, all[place], all[i]));
            }
        }
    }
}

} // verus!
