//! What searches find, said of the documents and of the words that they hold.
use crate::git_text::{is_white, trimmed, trimmed_end, trimmed_start, ObjectId};
use crate::ids::{revision_of, ulid_text, ulid_text_reads_back};
use crate::index::{distinct, lookup_finds_records, RecordView};
use crate::linear_search::{
    body_answers, document_matches, found_from, searched, searches_give_answers,
    searches_leave_nothing_out, LinearSearch, SearchFacts, SearchHalt,
};
use crate::markdown::body_of;
use crate::path::slashed;
use crate::read::{
    passes, CommittedSnapshot, PinnedRead, ReadFilter, SearchMetadataFields, SearchPolicy,
};
use crate::reading_laws::{in_path_order, is_intact, not_before_is_path_order};
use crate::search_error::SearchFailure;
use crate::search_fields::{
    are_numbered, document_entries, field_names_differ, filter_clauses, indexed_fields,
    queried_fields, tag_entries, text_entry, with_optional, ClauseView, EntryView, FieldEntry,
    FieldKind, FieldValue, FilterClause, SearchFields, ValueView,
};
use crate::search_index::{
    asked, disk_problem, document_indexed, hit_document, hits_are_ranked, ranked_before,
    ranked_hits, DiskFacts, DiskManifest, Hit, StoredIdentity, TantivySearchPolicy,
};
use crate::search_text::{holds_query, lowercase, occurs, stands_at};
use vstd::prelude::*;
use vstd::utf8::{decode_utf8, valid_utf8};

verus! {

/// Whether a text holds another: something may stand before it and something behind it.
pub open spec fn has_part(text: Seq<char>, part: Seq<char>) -> bool {
    exists|before: Seq<char>, behind: Seq<char>| #[trigger] (before + part + behind) == text
}

proof fn parts_occur(text: Seq<char>, part: Seq<char>)
    ensures
        has_part(text, part) == occurs(text, part),
{
    if has_part(text, part) {
        let (before, behind) = choose|before: Seq<char>, behind: Seq<char>| #[trigger]
            (before + part + behind) == text;
        let at = before.len() as int;
        assert(text.subrange(at, at + part.len()) =~= part);
        assert(stands_at(text, part, at));
    }
    if occurs(text, part) {
        let at = choose|at: int| #[trigger] stands_at(text, part, at);
        let before = text.take(at);
        let behind = text.skip(at + part.len());
        assert(before + part + behind =~= text) by {
            assert forall|i: int| at <= i < at + part.len() implies text[i] == part[i - at] by {
                assert(text.subrange(at, at + part.len())[i - at] == text[i]);
            }
        }
        assert((before + part + behind) == text);
    }
}

/// The text of a path is that of its components with a slash between each two.
pub proof fn path_texts_join_components(left: Seq<Seq<char>>, right: Seq<Seq<char>>)
    ensures
        slashed(Seq::empty()) == Seq::<char>::empty(),
        left.len() == 1 ==> slashed(left) == left[0],
        left.len() > 0 && right.len() > 0 ==> slashed(left + right) == slashed(left) + seq!['/']
            + slashed(right),
    decreases right.len(),
{
    reveal_strlit("/");
    assert("/"@ =~= seq!['/']);
    if left.len() > 0 && right.len() > 0 {
        assert((left + right).last() == right.last());
        if right.len() == 1 {
            assert((left + right).drop_last() =~= left);
            assert(slashed(left + right) =~= slashed(left) + seq!['/'] + slashed(right));
        } else {
            path_texts_join_components(left, right.drop_last());
            assert((left + right).drop_last() =~= left + right.drop_last());
            assert(slashed(left + right) =~= slashed(left) + seq!['/'] + slashed(right));
        }
    }
}

proof fn trimmed_end_keeps(text: Seq<char>) -> (cut: int)
    ensures
        0 <= cut <= text.len(),
        trimmed_end(text) == text.take(cut),
        forall|i: int| cut <= i < text.len() ==> is_white(#[trigger] text[i]),
        cut > 0 ==> !is_white(text[cut - 1]),
    decreases text.len(),
{
    if text.len() > 0 && is_white(text.last()) {
        let cut = trimmed_end_keeps(text.drop_last());
        assert(text.drop_last().take(cut) =~= text.take(cut));
        assert forall|i: int| cut <= i < text.len() implies is_white(#[trigger] text[i]) by {
            if i < text.len() - 1 {
                assert(is_white(text.drop_last()[i]));
            }
        }
        if cut > 0 {
            assert(text.drop_last()[cut - 1] == text[cut - 1]);
        }
        cut
    } else {
        assert(text.take(text.len() as int) =~= text);
        text.len() as int
    }
}

proof fn trimmed_start_keeps(text: Seq<char>) -> (cut: int)
    ensures
        0 <= cut <= text.len(),
        trimmed_start(text) == text.skip(cut),
        forall|i: int| 0 <= i < cut ==> is_white(#[trigger] text[i]),
        cut < text.len() ==> !is_white(text[cut]),
    decreases text.len(),
{
    if text.len() > 0 && is_white(text[0]) {
        let rest = text.skip(1);
        let cut = trimmed_start_keeps(rest);
        assert(rest.skip(cut) =~= text.skip(cut + 1));
        assert forall|i: int| 0 <= i < cut + 1 implies is_white(#[trigger] text[i]) by {
            if i > 0 {
                assert(is_white(rest[i - 1]));
            }
        }
        if cut + 1 < text.len() {
            assert(rest[cut] == text[cut + 1]);
        }
        cut + 1
    } else {
        assert(text.skip(0) =~= text);
        0
    }
}

/// Trimming takes white space from both ends of a text, all of it, and nothing else.
pub proof fn trimming_takes_white_space(text: Seq<char>)
    ensures
        exists|from: int, to: int|
            0 <= from <= to <= text.len() && #[trigger] text.subrange(from, to) == trimmed(text)
                && (forall|i: int|
                0 <= i < from || to <= i < text.len() ==> is_white(#[trigger] text[i])),
        trimmed(text).len() > 0 ==> !is_white(trimmed(text)[0]) && !is_white(
            trimmed(text)[trimmed(text).len() - 1],
        ),
{
    let from = trimmed_start_keeps(text);
    let rest = text.skip(from);
    let cut = trimmed_end_keeps(rest);
    let to = from + cut;
    assert(text.subrange(from, to) =~= rest.take(cut));
    assert forall|i: int| 0 <= i < from || to <= i < text.len() implies is_white(
        #[trigger] text[i],
    ) by {
        if i >= to {
            assert(rest[i - from] == text[i]);
        }
    }
    if cut > 0 {
        assert(rest[0] == text[from]);
        assert(rest[cut - 1] == text[to - 1]);
    }
}

/// Whether a document holds a query, in whatever case: in its title, its path or one of its tags,
/// or in its node, its agent, its session or its request where these are selected.
pub open spec fn describes(fields: SearchMetadataFields, document: RecordView, query: Seq<char>) -> bool {
    ||| has_part(lowercase(document.metadata.title), query)
    ||| has_part(lowercase(slashed(document.relative_path)), query)
    ||| exists|i: int|
        0 <= i < document.metadata.tags.len() && has_part(
            lowercase(#[trigger] document.metadata.tags[i]),
            query,
        )
    ||| fields.node && document.metadata.node is Some && has_part(
        lowercase(document.metadata.node->0),
        query,
    )
    ||| fields.agent && document.metadata.agent is Some && has_part(
        lowercase(document.metadata.agent->0),
        query,
    )
    ||| fields.session && document.metadata.session is Some && has_part(
        lowercase(ulid_text(document.metadata.session->0.value)),
        query,
    )
    ||| fields.request_id && has_part(
        lowercase(ulid_text(document.metadata.request_id.value)),
        query,
    )
}

/// Whether the Markdown that was read of a document holds a query behind its front matter, in
/// whatever case.
pub open spec fn says(document: RecordView, read: Option<PinnedRead>, maximum: u64, query: Seq<char>) -> bool {
    &&& read matches Some(read) && is_intact(read, document.byte_length) && document.byte_length
        <= maximum && revision_of(read->bytes@) == document.revision && (
    body_of(read->bytes@) matches Some(body) && valid_utf8(body) && has_part(
        lowercase(decode_utf8(body)),
        query,
    ))
}

proof fn descriptions_are_metadata(
    fields: SearchMetadataFields,
    document: RecordView,
    query: Seq<char>,
)
    ensures
        describes(fields, document, query) == crate::linear_search::metadata_holds(
            fields,
            document,
            query,
        ),
{
    let metadata = document.metadata;
    parts_occur(lowercase(metadata.title), query);
    parts_occur(lowercase(slashed(document.relative_path)), query);
    assert forall|i: int| 0 <= i < metadata.tags.len() implies has_part(
        lowercase(#[trigger] metadata.tags[i]),
        query,
    ) == holds_query(metadata.tags[i], query) by {
        parts_occur(lowercase(metadata.tags[i]), query);
    }
    if let Some(node) = metadata.node {
        parts_occur(lowercase(node), query);
    }
    if let Some(agent) = metadata.agent {
        parts_occur(lowercase(agent), query);
    }
    if let Some(session) = metadata.session {
        parts_occur(lowercase(ulid_text(session.value)), query);
    }
    parts_occur(lowercase(ulid_text(metadata.request_id.value)), query);
}

proof fn bodies_are_read(
    snapshot: CommittedSnapshot,
    query: Seq<char>,
    facts: SearchFacts,
    at: int,
)
    requires
        0 <= at < snapshot.index@.len(),
        at < facts.documents@.len(),
    ensures
        says(
            snapshot.index@[at],
            facts.documents@[at].read,
            snapshot.maximum_markdown_bytes,
            query,
        ) == body_answers(snapshot, query, facts, snapshot.index@[at], at),
{
    if let Some(PinnedRead::Read { mode, links, length, bytes }) = facts.documents@[at].read {
        if let Some(body) = body_of(bytes@) {
            parts_occur(lowercase(decode_utf8(body)), query);
        }
    }
}

/// A search finds every document that the filter lets through and that holds the query, in its
/// description or in what was read of it, unless as many are given as may be; and then none that
/// is missing stands before one that is given.
pub proof fn searches_find_what_holds_the_query(
    search: LinearSearch,
    snapshot: CommittedSnapshot,
    query: Seq<char>,
    filter: ReadFilter<Seq<char>>,
    policy: SearchPolicy,
    facts: SearchFacts,
    at: int,
)
    requires
        0 <= at < snapshot.index@.len(),
        passes(filter, snapshot.index@[at]),
        describes(search.metadata_fields, snapshot.index@[at], lowercase(trimmed(query))) || (at
            < facts.documents@.len() && says(
            snapshot.index@[at],
            facts.documents@[at].read,
            snapshot.maximum_markdown_bytes,
            lowercase(trimmed(query)),
        )),
    ensures
        searched(search, snapshot, query, filter, policy, facts) matches Ok(found) ==> {
            &&& found.len() < policy.maximum_results ==> found.contains(snapshot.index@[at])
            &&& !found.contains(snapshot.index@[at]) ==> forall|i: int|
                0 <= i < found.len() ==> in_path_order(
                    (#[trigger] found[i]).relative_path,
                    snapshot.index@[at].relative_path,
                )
        },
{
    let sought = lowercase(trimmed(query));
    let document = snapshot.index@[at];
    descriptions_are_metadata(search.metadata_fields, document, sought);
    if at < facts.documents@.len() {
        bodies_are_read(snapshot, sought, facts, at);
    }
    searches_leave_nothing_out(search, snapshot, query, filter, policy, facts, at);
    if let Ok(found) = searched(search, snapshot, query, filter, policy, facts) {
        if !found.contains(document) {
            assert forall|i: int| 0 <= i < found.len() implies in_path_order(
                (#[trigger] found[i]).relative_path,
                document.relative_path,
            ) by {
                not_before_is_path_order(found[i].relative_path, document.relative_path);
            }
        }
    }
}

/// A search gives nothing else: each document that it gives is one of the snapshot that the filter
/// lets through and that holds the query. They stand in path order, no more than may be given.
pub proof fn searches_give_what_holds_the_query(
    search: LinearSearch,
    snapshot: CommittedSnapshot,
    query: Seq<char>,
    filter: ReadFilter<Seq<char>>,
    policy: SearchPolicy,
    facts: SearchFacts,
)
    ensures
        searched(search, snapshot, query, filter, policy, facts) matches Ok(found) ==> {
            &&& found.len() <= policy.maximum_results
            &&& forall|i: int|
                #![trigger found[i]]
                0 <= i < found.len() ==> {
                    &&& passes(filter, found[i])
                    &&& describes(
                        search.metadata_fields,
                        found[i],
                        lowercase(trimmed(query)),
                    ) || exists|at: int|
                        0 <= at < snapshot.index@.len() && at < facts.documents@.len()
                            && #[trigger] snapshot.index@[at] == found[i] && says(
                            found[i],
                            facts.documents@[at].read,
                            snapshot.maximum_markdown_bytes,
                            lowercase(trimmed(query)),
                        )
                }
            &&& forall|i: int, j: int|
                #![trigger found[i], found[j]]
                0 <= i < j < found.len() ==> in_path_order(
                    found[i].relative_path,
                    found[j].relative_path,
                )
        },
{
    let sought = lowercase(trimmed(query));
    searches_give_answers(search, snapshot, query, filter, policy, facts);
    if let Ok(found) = searched(search, snapshot, query, filter, policy, facts) {
        assert forall|i: int|
            #![trigger found[i]]
            0 <= i < found.len() implies passes(filter, found[i]) && (describes(
            search.metadata_fields,
            found[i],
            sought,
        ) || exists|at: int|
            0 <= at < snapshot.index@.len() && at < facts.documents@.len()
                && #[trigger] snapshot.index@[at] == found[i] && says(
                found[i],
                facts.documents@[at].read,
                snapshot.maximum_markdown_bytes,
                sought,
            )) by {
            descriptions_are_metadata(search.metadata_fields, found[i], sought);
            if !describes(search.metadata_fields, found[i], sought) {
                let at = choose|at: int|
                    0 <= at < snapshot.index@.len() && at < facts.documents@.len()
                        && #[trigger] body_answers(snapshot, sought, facts, found[i], at);
                bodies_are_read(snapshot, sought, facts, at);
                assert(snapshot.index@[at] == found[i]);
            }
        }
        assert forall|i: int, j: int|
            #![trigger found[i], found[j]]
            0 <= i < j < found.len() implies in_path_order(
            found[i].relative_path,
            found[j].relative_path,
        ) by {
            assert(!crate::order::record_before(
                crate::order::RecordOrder::Path,
                found[j],
                found[i],
            ));
            not_before_is_path_order(found[i].relative_path, found[j].relative_path);
        }
    }
}

/// The Markdown bytes of documents from a position on.
pub open spec fn bytes_from(documents: Seq<RecordView>, at: int) -> int
    decreases documents.len() - at,
{
    if at < 0 || at >= documents.len() {
        0
    } else {
        documents[at].byte_length + bytes_from(documents, at + 1)
    }
}

/// Whether the document at a position was looked at in time and read whole.
pub open spec fn was_read(snapshot: CommittedSnapshot, policy: SearchPolicy, facts: SearchFacts, at: int) -> bool {
    let document = snapshot.index@[at];
    &&& at < facts.documents@.len()
    &&& policy.deadline is Some ==> facts.documents@[at].now < policy.deadline->0
    &&& facts.documents@[at].read matches Some(read) && is_intact(read, document.byte_length)
        && document.byte_length <= snapshot.maximum_markdown_bytes && revision_of(read->bytes@)
        == document.revision && (body_of(read->bytes@) matches Some(body) && valid_utf8(body))
}

proof fn found_ends_well(
    search: LinearSearch,
    snapshot: CommittedSnapshot,
    query: Seq<char>,
    filter: ReadFilter<Seq<char>>,
    policy: SearchPolicy,
    facts: SearchFacts,
    at: int,
    documents: int,
    scanned: int,
    found: Seq<RecordView>,
)
    requires
        0 <= at,
        0 <= documents,
        documents + snapshot.index@.len() - at <= policy.maximum_scanned_documents,
        scanned + bytes_from(snapshot.index@, at) <= policy.maximum_scanned_markdown_bytes,
        forall|i: int| 0 <= i < snapshot.index@.len() ==> #[trigger] was_read(snapshot, policy, facts, i),
    ensures
        found_from(
            search,
            snapshot,
            query,
            filter,
            policy,
            facts,
            at,
            documents,
            scanned,
            found,
        ) is Ok,
    decreases snapshot.index@.len() - at,
{
    if at < snapshot.index@.len() {
        let document = snapshot.index@[at];
        assert(was_read(snapshot, policy, facts, at));
        bytes_are_counted(snapshot.index@, at + 1);
        if !passes(filter, document) {
            found_ends_well(
                search,
                snapshot,
                query,
                filter,
                policy,
                facts,
                at + 1,
                documents,
                scanned,
                found,
            );
        } else {
            let step = document_matches(
                search,
                snapshot,
                document,
                query,
                policy,
                at,
                facts.documents@[at].read,
                scanned,
            );
            assert(step is Ok);
            let (matches, total) = step->Ok_0;
            found_ends_well(
                search,
                snapshot,
                query,
                filter,
                policy,
                facts,
                at + 1,
                documents + 1,
                total,
                if matches {
                    found.push(document)
                } else {
                    found
                },
            );
        }
    }
}

proof fn bytes_are_counted(documents: Seq<RecordView>, at: int)
    ensures
        bytes_from(documents, at) >= 0,
    decreases documents.len() - at,
{
    if 0 <= at < documents.len() {
        bytes_are_counted(documents, at + 1);
    }
}

/// A search ends well where something is sought and may be found, the query is no longer than it
/// may be, every document was read whole and in time, and all of them together stay within the
/// bounds.
pub proof fn searches_within_bounds_end_well(
    search: LinearSearch,
    snapshot: CommittedSnapshot,
    query: Seq<char>,
    filter: ReadFilter<Seq<char>>,
    policy: SearchPolicy,
    facts: SearchFacts,
)
    requires
        policy.maximum_results > 0,
        0 < trimmed(query).len() <= policy.maximum_query_characters,
        snapshot.index@.len() <= policy.maximum_scanned_documents,
        bytes_from(snapshot.index@, 0) <= policy.maximum_scanned_markdown_bytes,
        policy.deadline is Some ==> facts.finished < policy.deadline->0,
        forall|i: int| 0 <= i < snapshot.index@.len() ==> #[trigger] was_read(snapshot, policy, facts, i),
    ensures
        searched(search, snapshot, query, filter, policy, facts) is Ok,
{
    found_ends_well(
        search,
        snapshot,
        lowercase(trimmed(query)),
        filter,
        policy,
        facts,
        0,
        0,
        0,
        Seq::empty(),
    );
}

/// The number of documents from a position on that a filter lets through.
pub open spec fn passing_from(documents: Seq<RecordView>, filter: ReadFilter<Seq<char>>, at: int) -> int
    decreases documents.len() - at,
{
    if at < 0 || at >= documents.len() {
        0
    } else if passes(filter, documents[at]) {
        1 + passing_from(documents, filter, at + 1)
    } else {
        passing_from(documents, filter, at + 1)
    }
}

proof fn found_stays_within(
    search: LinearSearch,
    snapshot: CommittedSnapshot,
    query: Seq<char>,
    filter: ReadFilter<Seq<char>>,
    policy: SearchPolicy,
    facts: SearchFacts,
    at: int,
    documents: int,
    scanned: int,
    found: Seq<RecordView>,
)
    requires
        0 <= at,
        documents <= policy.maximum_scanned_documents,
    ensures
        found_from(
            search,
            snapshot,
            query,
            filter,
            policy,
            facts,
            at,
            documents,
            scanned,
            found,
        ) is Ok ==> documents + passing_from(snapshot.index@, filter, at)
            <= policy.maximum_scanned_documents,
    decreases snapshot.index@.len() - at,
{
    if at < snapshot.index@.len() {
        let document = snapshot.index@[at];
        if !passes(filter, document) {
            found_stays_within(
                search,
                snapshot,
                query,
                filter,
                policy,
                facts,
                at + 1,
                documents,
                scanned,
                found,
            );
        } else if at < facts.documents@.len() && documents + 1
            <= policy.maximum_scanned_documents {
            if let Ok((matches, total)) = document_matches(
                search,
                snapshot,
                document,
                query,
                policy,
                at,
                facts.documents@[at].read,
                scanned,
            ) {
                found_stays_within(
                    search,
                    snapshot,
                    query,
                    filter,
                    policy,
                    facts,
                    at + 1,
                    documents + 1,
                    total,
                    if matches {
                        found.push(document)
                    } else {
                        found
                    },
                );
            }
        }
    }
}

/// A search that ends well sought something no longer than it may be, ended before the deadline,
/// and looked at no more documents than it may. Without a limit, without a query or with one that
/// is too long it says so.
pub proof fn searches_keep_their_bounds(
    search: LinearSearch,
    snapshot: CommittedSnapshot,
    query: Seq<char>,
    filter: ReadFilter<Seq<char>>,
    policy: SearchPolicy,
    facts: SearchFacts,
)
    ensures
        ({
            let result = searched(search, snapshot, query, filter, policy, facts);
            &&& result is Ok ==> {
                &&& policy.maximum_results > 0
                &&& 0 < trimmed(query).len() <= policy.maximum_query_characters
                &&& policy.deadline is Some ==> facts.finished < policy.deadline->0
                &&& passing_from(snapshot.index@, filter, 0) <= policy.maximum_scanned_documents
            }
            &&& policy.maximum_results == 0 ==> (result matches Err(SearchHalt::Failed(failure))
                && failure is InvalidResultLimit)
            &&& policy.maximum_results > 0 && trimmed(query).len() == 0 ==> (result matches Err(
                SearchHalt::Failed(failure),
            ) && failure is EmptyQuery)
            &&& policy.maximum_results > 0 && trimmed(query).len() > policy.maximum_query_characters
                && trimmed(query).len() > 0 ==> (result matches Err(SearchHalt::Failed(failure))
                && failure is QueryTooLong)
        }),
{
    found_stays_within(
        search,
        snapshot,
        lowercase(trimmed(query)),
        filter,
        policy,
        facts,
        0,
        0,
        0,
        Seq::empty(),
    );
}

/// The values that entries have under a field, in order.
pub open spec fn under(entries: Seq<EntryView>, field: u32) -> Seq<ValueView>
    decreases entries.len(),
{
    if entries.len() == 0 {
        Seq::empty()
    } else if entries.last().field == field {
        under(entries.drop_last(), field).push(entries.last().value)
    } else {
        under(entries.drop_last(), field)
    }
}

proof fn under_more(entries: Seq<EntryView>, entry: EntryView, field: u32)
    ensures
        under(entries.push(entry), field) == if entry.field == field {
            under(entries, field).push(entry.value)
        } else {
            under(entries, field)
        },
{
    assert(entries.push(entry).drop_last() =~= entries);
}

proof fn under_both(first: Seq<EntryView>, second: Seq<EntryView>, field: u32)
    ensures
        under(first + second, field) == under(first, field) + under(second, field),
    decreases second.len(),
{
    if second.len() == 0 {
        assert(first + second =~= first);
        assert(under(first, field) + under(second, field) =~= under(first, field));
    } else {
        assert((first + second).drop_last() =~= first + second.drop_last());
        under_both(first, second.drop_last(), field);
        assert(under(first + second, field) =~= under(first, field) + under(second, field));
    }
}

proof fn under_optional(
    entries: Seq<EntryView>,
    number: u32,
    enabled: bool,
    text: Option<Seq<char>>,
    field: u32,
)
    ensures
        under(with_optional(entries, number, enabled, text), field) == if number == field && enabled
            && text is Some {
            under(entries, field).push(FieldValue::Text(text->0))
        } else {
            under(entries, field)
        },
{
    if let Some(value) = text {
        under_more(entries, text_entry(number, value), field);
    }
}

/// Texts as values.
pub open spec fn as_values(texts: Seq<Seq<char>>) -> Seq<ValueView> {
    Seq::new(texts.len(), |i: int| FieldValue::Text(texts[i]))
}

proof fn under_tags(tags: Seq<Seq<char>>, count: nat, field: u32)
    requires
        count <= tags.len(),
    ensures
        under(tag_entries(tags, count), field) == if field == 4 || field == 5 {
            as_values(tags.take(count as int))
        } else {
            Seq::empty()
        },
    decreases count,
{
    if count > 0 {
        let earlier = tag_entries(tags, (count - 1) as nat);
        let tag = tags[count - 1];
        under_tags(tags, (count - 1) as nat, field);
        under_more(earlier, text_entry(4, tag), field);
        under_more(earlier.push(text_entry(4, tag)), text_entry(5, tag), field);
        if field == 4 || field == 5 {
            assert(as_values(tags.take(count as int)) =~= as_values(tags.take(count - 1)).push(
                FieldValue::Text(tag),
            ));
        }
    } else {
        assert(as_values(tags.take(0)) =~= Seq::<ValueView>::empty());
    }
}

proof fn under_start(
    identity: Seq<char>,
    title: Seq<char>,
    body: Seq<char>,
    path: Seq<char>,
    field: u32,
)
    ensures
        ({
            let start = seq![
                text_entry(0, identity),
                text_entry(1, title),
                text_entry(2, body),
                text_entry(3, path),
            ];
            let none = Seq::<ValueView>::empty();
            under(start, field) == if field == 0 {
                none.push(FieldValue::Text(identity))
            } else if field == 1 {
                none.push(FieldValue::Text(title))
            } else if field == 2 {
                none.push(FieldValue::Text(body))
            } else if field == 3 {
                none.push(FieldValue::Text(path))
            } else {
                none
            }
        }),
{
    let none = Seq::<EntryView>::empty();
    let start = seq![
        text_entry(0, identity),
        text_entry(1, title),
        text_entry(2, body),
        text_entry(3, path),
    ];
    under_more(none, text_entry(0, identity), field);
    let one = none.push(text_entry(0, identity));
    under_more(one, text_entry(1, title), field);
    let two = one.push(text_entry(1, title));
    under_more(two, text_entry(2, body), field);
    let three = two.push(text_entry(2, body));
    under_more(three, text_entry(3, path), field);
    assert(start =~= three.push(text_entry(3, path)));
}

/// The only value, if there is one.
pub open spec fn at_most(text: Option<Seq<char>>) -> Seq<ValueView> {
    if text is Some {
        seq![FieldValue::Text(text->0)]
    } else {
        Seq::empty()
    }
}

#[verifier::spinoff_prover]
#[verifier::rlimit(40)]
proof fn entries_by_number(
    record: RecordView,
    body: Seq<char>,
    fields: SearchMetadataFields,
    number: u32,
)
    ensures
        ({
            let metadata = record.metadata;
            let values = under(document_entries(record, body, fields), number);
            let session = if metadata.session is Some {
                Some(ulid_text(metadata.session->0.value))
            } else {
                None
            };
            &&& number == 0 ==> values == seq![
                ValueView::Text(ulid_text(metadata.document_id.value)),
            ]
            &&& number == 1 ==> values == seq![ValueView::Text(metadata.title)]
            &&& number == 2 ==> values == seq![ValueView::Text(body)]
            &&& number == 3 ==> values == seq![ValueView::Text(slashed(record.relative_path))]
            &&& number == 4 || number == 5 ==> values == as_values(metadata.tags)
            &&& number == 6 ==> values == (if fields.node {
                at_most(metadata.node)
            } else {
                Seq::empty()
            })
            &&& number == 7 ==> values == (if fields.agent {
                at_most(metadata.agent)
            } else {
                Seq::empty()
            })
            &&& number == 8 ==> values == (if fields.session {
                at_most(session)
            } else {
                Seq::empty()
            })
            &&& number == 9 ==> values == at_most(session)
            &&& number == 10 ==> values == (if fields.request_id {
                seq![ValueView::Text(ulid_text(metadata.request_id.value))]
            } else {
                Seq::empty()
            })
            &&& number == 11 ==> values == at_most(record.location.project)
            &&& number == 12 ==> values == seq![ValueView::Flag(record.location.archived)]
            &&& number > 12 ==> values.len() == 0
        }),
{
    let metadata = record.metadata;
    let session = match metadata.session {
        Some(session) => Some(ulid_text(session.value)),
        None => None,
    };
    let start = seq![
        text_entry(0, ulid_text(metadata.document_id.value)),
        text_entry(1, metadata.title),
        text_entry(2, body),
        text_entry(3, slashed(record.relative_path)),
    ];
    let tags = tag_entries(metadata.tags, metadata.tags.len());
    let described = start + tags;
    under_start(
        ulid_text(metadata.document_id.value),
        metadata.title,
        body,
        slashed(record.relative_path),
        number,
    );
    under_tags(metadata.tags, metadata.tags.len(), number);
    assert(metadata.tags.take(metadata.tags.len() as int) =~= metadata.tags);
    under_both(start, tags, number);
    let with_node = with_optional(described, 6, fields.node, metadata.node);
    let with_agent = with_optional(with_node, 7, fields.agent, metadata.agent);
    let with_session = with_optional(with_agent, 8, fields.session, session);
    let with_exact = with_optional(with_session, 9, true, session);
    let request = Some(ulid_text(metadata.request_id.value));
    let with_request = with_optional(with_exact, 10, fields.request_id, request);
    let with_project = with_optional(with_request, 11, true, record.location.project);
    under_optional(described, 6, fields.node, metadata.node, number);
    under_optional(with_node, 7, fields.agent, metadata.agent, number);
    under_optional(with_agent, 8, fields.session, session, number);
    under_optional(with_session, 9, true, session, number);
    under_optional(with_exact, 10, fields.request_id, request, number);
    under_optional(with_request, 11, true, record.location.project, number);
    let flag = FieldEntry { field: 12, value: ValueView::Flag(record.location.archived) };
    under_more(with_project, flag, number);
    let values = under(document_entries(record, body, fields), number);
    let none = Seq::<ValueView>::empty();
    assert(none + none =~= none);
    assert(none + as_values(metadata.tags) =~= as_values(metadata.tags));
    if number == 0 || number == 1 || number == 2 || number == 3 {
        assert(under(start, number) + none =~= under(start, number));
    }
    assert(number == 0 ==> values =~= seq![
        ValueView::Text(ulid_text(metadata.document_id.value)),
    ]);
    assert(number == 1 ==> values =~= seq![ValueView::Text(metadata.title)]);
    assert(number == 2 ==> values =~= seq![ValueView::Text(body)]);
    assert(number == 3 ==> values =~= seq![ValueView::Text(slashed(record.relative_path))]);
    if number == 6 && fields.node && metadata.node is Some {
        assert(values =~= at_most(metadata.node));
    }
    if number == 7 && fields.agent && metadata.agent is Some {
        assert(values =~= at_most(metadata.agent));
    }
    if (number == 8 && fields.session || number == 9) && session is Some {
        assert(values =~= at_most(session));
    }
    if number == 10 && fields.request_id {
        assert(values =~= seq![ValueView::Text(ulid_text(metadata.request_id.value))]);
    }
    if number == 11 && record.location.project is Some {
        assert(values =~= at_most(record.location.project));
    }
    assert(number == 12 ==> values =~= seq![ValueView::Flag(record.location.archived)]);
}

/// A document is indexed under the names of what it is: each field of the index holds exactly the
/// value of the document that it is named after. Node, agent, session and request are searchable
/// only where they are selected; tags and session are held once more as terms.
pub proof fn fields_hold_what_they_are_named_after(
    record: RecordView,
    body: Seq<char>,
    fields: SearchMetadataFields,
    number: u32,
)
    requires
        number < indexed_fields(fields).len(),
    ensures
        ({
            let name = indexed_fields(fields)[number as int].0;
            let values = under(document_entries(record, body, fields), number);
            let none = Seq::<ValueView>::empty();
            let session = if record.metadata.session is Some {
                Some(ulid_text(record.metadata.session->0.value))
            } else {
                None
            };
            &&& name == "document_id"@ ==> values == seq![
                ValueView::Text(ulid_text(record.metadata.document_id.value)),
            ]
            &&& name == "title"@ ==> values == seq![ValueView::Text(record.metadata.title)]
            &&& name == "body"@ ==> values == seq![ValueView::Text(body)]
            &&& name == "path"@ ==> values == seq![
                ValueView::Text(slashed(record.relative_path)),
            ]
            &&& name == "tags"@ ==> values == as_values(record.metadata.tags)
            &&& name == "exact_tags"@ ==> values == as_values(record.metadata.tags)
            &&& name == "node"@ ==> values == (if fields.node {
                at_most(record.metadata.node)
            } else {
                none
            })
            &&& name == "agent"@ ==> values == (if fields.agent {
                at_most(record.metadata.agent)
            } else {
                none
            })
            &&& name == "session"@ ==> values == (if fields.session {
                at_most(session)
            } else {
                none
            })
            &&& name == "exact_session"@ ==> values == at_most(session)
            &&& name == "request_id"@ ==> values == (if fields.request_id {
                seq![ValueView::Text(ulid_text(record.metadata.request_id.value))]
            } else {
                none
            })
            &&& name == "project"@ ==> values == at_most(record.location.project)
            &&& name == "archived"@ ==> values == seq![
                ValueView::Flag(record.location.archived),
            ]
        }),
{
    entries_by_number(record, body, fields, number);
    field_names_differ(fields);
    let named = indexed_fields(fields);
    let at = number as int;
    assert(forall|i: int| 0 <= i < 13 && #[trigger] named[i].0 == named[at].0 ==> i == at);
    assert(named[0].0 == "document_id"@);
    assert(named[1].0 == "title"@);
    assert(named[2].0 == "body"@);
    assert(named[3].0 == "path"@);
    assert(named[4].0 == "tags"@);
    assert(named[5].0 == "exact_tags"@);
    assert(named[6].0 == "node"@);
    assert(named[7].0 == "agent"@);
    assert(named[8].0 == "session"@);
    assert(named[9].0 == "exact_session"@);
    assert(named[10].0 == "request_id"@);
    assert(named[11].0 == "project"@);
    assert(named[12].0 == "archived"@);
}

/// The index has a field of each name under the number that is kept for it. Words are sought in
/// title, body, path and tags and in what is selected besides; the identity is kept whole and
/// given back, and what is only filtered by is kept whole.
pub proof fn fields_are_numbered_by_name(numbers: SearchFields, fields: SearchMetadataFields)
    requires
        are_numbered(numbers, fields),
    ensures
        ({
            let named = indexed_fields(fields);
            let chosen = |selected: bool|
                if selected {
                    FieldKind::Text
                } else {
                    FieldKind::Unindexed
                };
            &&& named.len() == 13
            &&& named[numbers.document_id as int] == ("document_id"@, FieldKind::Identity)
            &&& named[numbers.title as int] == ("title"@, FieldKind::Text)
            &&& named[numbers.body as int] == ("body"@, FieldKind::Text)
            &&& named[numbers.path as int] == ("path"@, FieldKind::Text)
            &&& named[numbers.tags as int] == ("tags"@, FieldKind::Text)
            &&& named[numbers.exact_tags as int] == ("exact_tags"@, FieldKind::Exact)
            &&& named[numbers.node as int] == ("node"@, chosen(fields.node))
            &&& named[numbers.agent as int] == ("agent"@, chosen(fields.agent))
            &&& named[numbers.session as int] == ("session"@, chosen(fields.session))
            &&& named[numbers.exact_session as int] == ("exact_session"@, FieldKind::Exact)
            &&& named[numbers.request_id as int] == ("request_id"@, chosen(fields.request_id))
            &&& named[numbers.project as int] == ("project"@, FieldKind::Exact)
            &&& named[numbers.archived as int] == ("archived"@, FieldKind::Flag)
        }),
{
}

/// A query that names no field is sought in exactly the fields of words, each once: title, body,
/// path, tags, and node, agent, session and request where they are selected.
pub proof fn words_are_sought_in_text(
    numbers: SearchFields,
    fields: SearchMetadataFields,
    number: u32,
)
    requires
        are_numbered(numbers, fields),
    ensures
        numbers.searchable@.no_duplicates(),
        numbers.searchable@.contains(number) <==> number < indexed_fields(fields).len()
            && indexed_fields(fields)[number as int].1 == FieldKind::Text,
        numbers.searchable@.contains(numbers.title),
        numbers.searchable@.contains(numbers.body),
        numbers.searchable@.contains(numbers.path),
        numbers.searchable@.contains(numbers.tags),
        numbers.searchable@.contains(numbers.node) == fields.node,
        numbers.searchable@.contains(numbers.agent) == fields.agent,
        numbers.searchable@.contains(numbers.session) == fields.session,
        numbers.searchable@.contains(numbers.request_id) == fields.request_id,
{
    let always = seq![1u32, 2u32, 3u32, 4u32];
    let with_node = if fields.node {
        always.push(6u32)
    } else {
        always
    };
    let with_agent = if fields.agent {
        with_node.push(7u32)
    } else {
        with_node
    };
    let with_session = if fields.session {
        with_agent.push(8u32)
    } else {
        with_agent
    };
    four_numbers(always);
    let all = numbers.searchable@;
    sought_more(always, fields.node, 6u32, with_node);
    sought_more(with_node, fields.agent, 7u32, with_agent);
    sought_more(with_agent, fields.session, 8u32, with_session);
    sought_more(with_session, fields.request_id, 10u32, all);
    assert forall|number: u32| #[trigger] all.contains(number) <==> (1 <= number <= 4 || (fields.node
        && number == 6) || (fields.agent && number == 7) || (fields.session && number == 8) || (
    fields.request_id && number == 10)) by {
        assert(always.contains(number) <==> 1 <= number <= 4);
        assert(with_node.contains(number) <==> always.contains(number) || (fields.node && number
            == 6));
        assert(with_agent.contains(number) <==> with_node.contains(number) || (fields.agent
            && number == 7));
        assert(with_session.contains(number) <==> with_agent.contains(number) || (fields.session
            && number == 8));
    }
    if number < 13 {
        assert(number == 0 || number == 1 || number == 2 || number == 3 || number == 4 || number
            == 5 || number == 6 || number == 7 || number == 8 || number == 9 || number == 10
            || number == 11 || number == 12);
    }
}

proof fn four_numbers(four: Seq<u32>)
    requires
        four == seq![1u32, 2u32, 3u32, 4u32],
    ensures
        forall|number: u32| #[trigger] four.contains(number) <==> 1 <= number <= 4,
        four.no_duplicates(),
{
    assert forall|number: u32| 1 <= number <= 4 implies #[trigger] four.contains(number) by {
        assert(four[number - 1] == number);
    }
}

proof fn sought_more(numbers: Seq<u32>, selected: bool, added: u32, more: Seq<u32>)
    requires
        numbers.no_duplicates(),
        !numbers.contains(added),
        more == (if selected {
            numbers.push(added)
        } else {
            numbers
        }),
    ensures
        more.no_duplicates(),
        forall|number: u32| #[trigger]
            more.contains(number) <==> numbers.contains(number) || (selected && number == added),
{
    if selected {
        assert forall|number: u32| #[trigger] more.contains(number) <==> numbers.contains(number)
            || number == added by {
            if numbers.contains(number) {
                let i = choose|i: int| 0 <= i < numbers.len() && numbers[i] == number;
                assert(more[i] == number);
            }
            if number == added {
                assert(more[numbers.len() as int] == number);
            }
        }
        assert forall|i: int, j: int|
            0 <= i < more.len() && 0 <= j < more.len() && i != j implies more[i] != more[j] by {
            if i == numbers.len() {
                assert(numbers.contains(more[j]));
            } else if j == numbers.len() {
                assert(numbers.contains(more[i]));
            }
        }
    }
}

/// A query may name the fields of words and no other: fields that are only filtered by have the
/// same names there, and cannot be sought in.
pub proof fn queries_name_fields_of_words(fields: SearchMetadataFields, number: int)
    requires
        0 <= number < indexed_fields(fields).len(),
    ensures
        queried_fields(fields).len() == indexed_fields(fields).len(),
        queried_fields(fields)[number].0 == indexed_fields(fields)[number].0,
        queried_fields(fields)[number].1 == FieldKind::Text <==> indexed_fields(fields)[number].1
            == FieldKind::Text,
        queried_fields(fields)[number].1 == FieldKind::Text || queried_fields(fields)[number].1
            == FieldKind::Unindexed || queried_fields(fields)[number].1 == FieldKind::UnindexedFlag,
{
    field_names_differ(fields);
    assert(number == 0 || number == 1 || number == 2 || number == 3 || number == 4 || number == 5
        || number == 6 || number == 7 || number == 8 || number == 9 || number == 10 || number == 11
        || number == 12);
}

/// A filter asks for exactly the terms that it names: its project, its tag and its session must be
/// there, and unless archived documents are asked for, the mark of an archived one must not.
pub proof fn filters_ask_for_terms(
    filter: ReadFilter<Seq<char>>,
    numbers: SearchFields,
    fields: SearchMetadataFields,
    clause: ClauseView,
)
    requires
        are_numbered(numbers, fields),
    ensures
        filter_clauses(filter).contains(clause) <==> {
            ||| filter.project is Some && clause == (ClauseView {
                required: true,
                field: numbers.project,
                value: FieldValue::Text(filter.project->0),
            })
            ||| filter.tag is Some && clause == (ClauseView {
                required: true,
                field: numbers.exact_tags,
                value: FieldValue::Text(filter.tag->0),
            })
            ||| filter.session is Some && clause == (ClauseView {
                required: true,
                field: numbers.exact_session,
                value: FieldValue::Text(ulid_text(filter.session->0.value)),
            })
            ||| !filter.include_archived && clause == (ClauseView {
                required: false,
                field: numbers.archived,
                value: FieldValue::Flag(true),
            })
        },
{
    let none = Seq::<ClauseView>::empty();
    let session = match filter.session {
        Some(session) => Some(ulid_text(session.value)),
        None => None,
    };
    let first = crate::search_fields::with_clause(none, 11, filter.project);
    let second = crate::search_fields::with_clause(first, 5, filter.tag);
    let third = crate::search_fields::with_clause(second, 9, session);
    asked_for(none, 11, filter.project, clause);
    asked_for(first, 5, filter.tag, clause);
    asked_for(second, 9, session, clause);
    let mark = FilterClause { required: false, field: 12u32, value: ValueView::Flag(true) };
    let marked = third.push(mark);
    clause_added(third, mark, clause);
}

proof fn clause_added(clauses: Seq<ClauseView>, added: ClauseView, clause: ClauseView)
    ensures
        clauses.push(added).contains(clause) <==> clauses.contains(clause) || clause == added,
{
    let more = clauses.push(added);
    if clauses.contains(clause) {
        let i = choose|i: int| 0 <= i < clauses.len() && clauses[i] == clause;
        assert(more[i] == clause);
    }
    if clause == added {
        assert(more[clauses.len() as int] == clause);
    }
}

proof fn asked_for(clauses: Seq<ClauseView>, field: u32, text: Option<Seq<char>>, clause: ClauseView)
    ensures
        crate::search_fields::with_clause(clauses, field, text).contains(clause)
            <==> clauses.contains(clause) || (text is Some && clause == (ClauseView {
            required: true,
            field,
            value: FieldValue::Text(text->0),
        })),
{
    if let Some(value) = text {
        clause_added(
            clauses,
            FilterClause { required: true, field, value: FieldValue::Text(value) },
            clause,
        );
    }
}

/// A document is indexed exactly where its file is intact, within the bound and of the indexed
/// revision, and has a body of UTF-8 behind its front matter; that body is what is indexed of it.
pub proof fn documents_are_indexed_as_read(
    record: RecordView,
    read: PinnedRead,
    maximum: u64,
    fields: SearchMetadataFields,
)
    ensures
        ({
            let result = document_indexed(record, read, maximum, fields);
            let intact = is_intact(read, record.byte_length) && record.byte_length <= maximum
                && revision_of(read->bytes@) == record.revision;
            &&& result is Ok <==> intact && (body_of(read->bytes@) matches Some(body)
                && valid_utf8(body))
            &&& result is Ok ==> under(result->Ok_0, 2) == seq![
                ValueView::Text(decode_utf8(body_of(read->bytes@)->0)),
            ]
            &&& result is Err ==> result->Err_0 is Committed
        }),
{
    if let Some(body) = body_of(read->bytes@) {
        entries_by_number(record, decode_utf8(body), fields, 2);
    }
}

/// Whether a score is at least as high as another, both as the bits of a single-precision number:
/// a positive one is higher than a negative one, of two positive ones the one of more bits, and of
/// two negative ones the one of fewer.
pub open spec fn scores_as_high(left: u32, right: u32) -> bool {
    let left_negative = left >= 0x8000_0000;
    let right_negative = right >= 0x8000_0000;
    ||| !left_negative && right_negative
    ||| !left_negative && !right_negative && left >= right
    ||| left_negative && right_negative && left <= right
}

/// Hits stand with the highest score first, and by path where the scores are the same.
pub proof fn better_hits_stand_first(documents: Seq<RecordView>, hits: Seq<Hit>)
    ensures
        ranked_hits(documents, hits, hits.len()) matches Ok(ranked) ==> {
            &&& ranked.len() == hits.len()
            &&& forall|i: int, j: int|
                #![trigger ranked[i], ranked[j]]
                0 <= i < j < ranked.len() ==> scores_as_high(ranked[i].0, ranked[j].0) && (
                ranked[i].0 == ranked[j].0 ==> in_path_order(
                    ranked[i].1.relative_path,
                    ranked[j].1.relative_path,
                ))
        },
{
    hits_are_ranked(documents, hits, hits.len());
    if let Ok(ranked) = ranked_hits(documents, hits, hits.len()) {
        assert forall|i: int, j: int|
            #![trigger ranked[i], ranked[j]]
            0 <= i < j < ranked.len() implies scores_as_high(ranked[i].0, ranked[j].0) && (
        ranked[i].0 == ranked[j].0 ==> in_path_order(
            ranked[i].1.relative_path,
            ranked[j].1.relative_path,
        )) by {
            assert(!ranked_before(ranked[j], ranked[i]));
            if ranked[i].0 == ranked[j].0 {
                not_before_is_path_order(ranked[i].1.relative_path, ranked[j].1.relative_path);
            }
        }
    }
}

proof fn hits_resolve(documents: Seq<RecordView>, hits: Seq<Hit>, count: nat)
    requires
        count <= hits.len(),
        forall|i: int|
            0 <= i < hits.len() ==> hit_document(documents, (#[trigger] hits[i]).identity) is Ok,
    ensures
        ranked_hits(documents, hits, count) is Ok,
    decreases count,
{
    if count > 0 {
        hits_resolve(documents, hits, (count - 1) as nat);
    }
}

/// What was indexed is what is found: hits that have stored the identities of indexed documents,
/// as indexing writes them, give exactly these documents, each with its own score.
pub proof fn hits_give_the_documents_indexed(
    documents: Seq<RecordView>,
    hits: Seq<Hit>,
    places: Seq<int>,
)
    requires
        distinct(documents),
        places.len() == hits.len(),
        forall|i: int|
            #![trigger hits[i]]
            0 <= i < hits.len() ==> 0 <= places[i] < documents.len() && (
            hits[i].identity matches StoredIdentity::Text(text) && text@ == ulid_text(
                documents[places[i]].metadata.document_id.value,
            )),
    ensures
        ranked_hits(documents, hits, hits.len()) matches Ok(ranked) && ranked.len() == hits.len()
            && forall|i: int|
            0 <= i < hits.len() ==> ranked.contains(
                ((#[trigger] hits[i]).score, documents[places[i]]),
            ),
{
    assert forall|i: int| 0 <= i < hits.len() implies hit_document(
        documents,
        (#[trigger] hits[i]).identity,
    ) == Ok::<RecordView, SearchFailure>(documents[places[i]]) by {
        let document = documents[places[i]];
        let value = document.metadata.document_id.value;
        ulid_text_reads_back(value);
        vstd::arithmetic::div_mod::lemma_small_mod(value as nat, u128::MAX as nat + 1);
        lookup_finds_records(documents, document.metadata.document_id);
    }
    hits_resolve(documents, hits, hits.len());
    hits_are_ranked(documents, hits, hits.len());
}

/// An index is asked exactly where it is of the commit of the snapshot, something may be found and
/// something is sought that is no longer than it may be. Then the trimmed query is sought, for as
/// many hits as may be given, or as many as there are documents.
pub proof fn indexes_are_asked_for_their_commit(
    index_commit: ObjectId,
    snapshot_commit: ObjectId,
    query: Seq<char>,
    policy: TantivySearchPolicy,
    documents: usize,
)
    ensures
        ({
            let result = asked(index_commit, snapshot_commit, query, policy, documents);
            &&& result is Ok <==> index_commit == snapshot_commit && policy.maximum_results > 0 && 0
                < trimmed(query).len() <= policy.maximum_query_characters
            &&& result matches Ok((sought, limit)) ==> {
                &&& sought == trimmed(query)
                &&& limit <= policy.maximum_results
                &&& limit <= documents
                &&& limit == policy.maximum_results || limit == documents
            }
            &&& index_commit != snapshot_commit ==> result->Err_0 is SnapshotCommitMismatch
            &&& index_commit == snapshot_commit && policy.maximum_results == 0
                ==> result->Err_0 is InvalidResultLimit
            &&& index_commit == snapshot_commit && policy.maximum_results > 0 && trimmed(query).len()
                == 0 ==> result->Err_0 is EmptyQuery
        }),
{
}

/// An index on disk is used exactly where it is of this format, names a commit, and has the
/// commit, the schema and the number of documents that its manifest says.
pub proof fn disk_indexes_match_their_manifest(manifest: DiskManifest, facts: DiskFacts)
    ensures
        disk_problem(manifest, facts) is None <==> {
            &&& manifest.format_version == 2
            &&& crate::git_text::is_object_id(manifest.commit@)
            &&& facts.payload matches Some(payload) && payload@ == manifest.commit@
            &&& facts.same_schema
            &&& facts.documents == manifest.document_count
            &&& manifest.document_count <= usize::MAX
        },
{
}

} // verus!
