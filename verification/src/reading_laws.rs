//! What reads of a snapshot give, said of the documents themselves.
use crate::clock::Timestamp;
use crate::ids::{revision_of, DocumentId};
use crate::index::{distinct, lookup_finds_records, DocumentRecord, RecordView};
use crate::order::{
    first_records, ordered, ordering_is_a_sort, path_before, record_before, RecordOrder,
};
use crate::read::{
    attachment_views, attachments_beside, bundle_of, bundle_parts, bundled, filtered, listed,
    lists_hold_what_passes, passes, retrieved, total_bytes, AttachmentView, BundleReads,
    CommittedSnapshot, EntryView, ListClock, PinnedRead, ReadFilter,
};
use crate::read_error::{CommittedReadError, ReadFailure};
use crate::text::bytes_before;
use vstd::prelude::*;
use vstd::utf8::encode_utf8;

verus! {

/// A record is seen with all its fields, each as it is.
pub proof fn records_are_seen_as_they_are(record: DocumentRecord)
    ensures
        record@.relative_path == record.relative_path@,
        record@.revision == record.revision,
        record@.byte_length == record.byte_length,
        record@.location.document_type == record.location.document_type,
        record@.location.archived == record.location.archived,
        record@.location.project is Some == record.location.project is Some,
        record.location.project matches Some(project) ==> record@.location.project == Some(project@),
        record@.metadata.document_id == record.metadata.document_id,
        record@.metadata.title == record.metadata.title@,
        record@.metadata.created == record.metadata.created,
        record@.metadata.updated == record.metadata.updated,
        record@.metadata.session == record.metadata.session,
        record@.metadata.request_id == record.metadata.request_id,
        record@.metadata.status == record.metadata.status,
        record@.metadata.node is Some == record.metadata.node is Some,
        record.metadata.node matches Some(node) ==> record@.metadata.node == Some(node@),
        record@.metadata.agent is Some == record.metadata.agent is Some,
        record.metadata.agent matches Some(agent) ==> record@.metadata.agent == Some(agent@),
        record@.metadata.tags.len() == record.metadata.tags@.len(),
        forall|i: int|
            0 <= i < record.metadata.tags@.len() ==> #[trigger] record@.metadata.tags[i]
                == record.metadata.tags@[i]@,
{
}

/// A filter is seen with all its fields, each as it is.
pub proof fn filters_are_seen_as_they_are(filter: ReadFilter)
    ensures
        filter@.include_archived == filter.include_archived,
        filter@.session == filter.session,
        filter@.project is Some == filter.project is Some,
        filter.project matches Some(project) ==> filter@.project == Some(project@),
        filter@.tag is Some == filter.tag is Some,
        filter.tag matches Some(tag) ==> filter@.tag == Some(tag@),
{
}

/// A document is let through exactly where it is not archived, or archived ones are asked for too,
/// and where it is of the project, has the tag and is of the session that are asked for.
pub proof fn filters_ask_for_fields(filter: ReadFilter<Seq<char>>, document: RecordView)
    ensures
        passes(filter, document) == ((filter.include_archived || !document.location.archived) && (
        filter.project is Some ==> document.location.project == filter.project) && (
        filter.tag is Some ==> exists|i: int|
            0 <= i < document.metadata.tags.len() && #[trigger] document.metadata.tags[i]
                == filter.tag->0) && (filter.session is Some ==> document.metadata.session
            == filter.session)),
{
    if let Some(tag) = filter.tag {
        if document.metadata.tags.contains(tag) {
            let i = choose|i: int|
                0 <= i < document.metadata.tags.len() && document.metadata.tags[i] == tag;
            assert(document.metadata.tags[i] == filter.tag->0);
        }
    }
}

/// A list is given exactly where something is asked for and no clock reading has reached the
/// deadline. Where the deadline has passed first that is what is said, and an empty limit is
/// refused.
pub proof fn lists_are_given_in_time(
    documents: Seq<RecordView>,
    order: RecordOrder,
    filter: ReadFilter<Seq<char>>,
    maximum_results: usize,
    deadline: Option<u64>,
    clock: ListClock,
)
    ensures
        ({
            let result = listed(documents, order, filter, maximum_results, deadline, clock);
            let in_time = deadline matches Some(deadline) ==> clock.begun < deadline
                && clock.filtered < deadline && clock.ordered < deadline;
            let begun = deadline matches Some(deadline) ==> clock.begun < deadline;
            &&& result is Ok <==> maximum_results > 0 && in_time
            &&& begun && maximum_results == 0 ==> result == Err::<Seq<RecordView>, ReadFailure>(
                CommittedReadError::InvalidResultLimit,
            )
            &&& result is Err && (maximum_results > 0 || !begun) ==> result == Err::<
                Seq<RecordView>,
                ReadFailure,
            >(CommittedReadError::OperationDeadlineExceeded)
        }),
{
}

proof fn kept_or_left(
    documents: Seq<RecordView>,
    order: RecordOrder,
    filter: ReadFilter<Seq<char>>,
    maximum: usize,
    document: RecordView,
)
    requires
        documents.contains(document),
        passes(filter, document),
    ensures
        ({
            let all = ordered(order, filtered(documents, filter));
            let found = first_records(all, maximum as int);
            found.contains(document) || {
                &&& found.len() == maximum
                &&& forall|i: int|
                    0 <= i < found.len() ==> !record_before(order, document, #[trigger] found[i])
            }
        }),
{
    broadcast use vstd::seq_lib::group_to_multiset_ensures;

    let kept = filtered(documents, filter);
    let all = ordered(order, kept);
    let found = first_records(all, maximum as int);
    ordering_is_a_sort(order, kept);
    let holds = |document: RecordView| passes(filter, document);
    let at = choose|at: int| 0 <= at < documents.len() && documents[at] == document;
    documents.lemma_filter_contains(holds, at);
    assert(kept.contains(document));
    assert(kept.to_multiset().contains(document));
    assert(all.to_multiset().contains(document));
    assert(all.contains(document));
    let place = choose|place: int| 0 <= place < all.len() && all[place] == document;
    if place < maximum {
        assert(found[place] == document);
    } else {
        assert forall|i: int| 0 <= i < found.len() implies !record_before(
            order,
            document,
            #[trigger] found[i],
        ) by {
            assert(found[i] == all[i]);
            assert(!record_before(order, all[place], all[i]));
        }
    }
}

/// A list holds documents of the snapshot that the filter lets through, no more than are asked
/// for; a document that it lets through and that is not listed was left out only because as many
/// are listed as are asked for. No document is listed more often than it stands there.
pub proof fn lists_hold_all_that_is_let_through(
    documents: Seq<RecordView>,
    order: RecordOrder,
    filter: ReadFilter<Seq<char>>,
    maximum_results: usize,
    deadline: Option<u64>,
    clock: ListClock,
)
    ensures
        listed(documents, order, filter, maximum_results, deadline, clock) matches Ok(found) ==> {
            &&& found.len() <= maximum_results
            &&& forall|i: int|
                #![trigger found[i]]
                0 <= i < found.len() ==> {
                    &&& documents.contains(found[i])
                    &&& filter.include_archived || !found[i].location.archived
                    &&& filter.project is Some ==> found[i].location.project == filter.project
                    &&& filter.tag is Some ==> found[i].metadata.tags.contains(filter.tag->0)
                    &&& filter.session is Some ==> found[i].metadata.session == filter.session
                }
            &&& forall|at: int|
                #![trigger documents[at]]
                0 <= at < documents.len() && (filter.include_archived
                    || !documents[at].location.archived) && (filter.project is Some
                    ==> documents[at].location.project == filter.project) && (filter.tag is Some
                    ==> documents[at].metadata.tags.contains(filter.tag->0)) && (filter.session
                    is Some ==> documents[at].metadata.session == filter.session)
                    ==> found.contains(documents[at]) || found.len() == maximum_results
            &&& documents.no_duplicates() ==> found.no_duplicates()
        },
{
    lists_hold_what_passes(documents, order, filter, maximum_results, deadline, clock);
    if let Ok(found) = listed(documents, order, filter, maximum_results, deadline, clock) {
        assert forall|at: int|
            #![trigger documents[at]]
            0 <= at < documents.len() && passes(filter, documents[at]) implies found.contains(
            documents[at],
        ) || found.len() == maximum_results by {
            kept_or_left(documents, order, filter, maximum_results, documents[at]);
        }
        if documents.no_duplicates() {
            let holds = |document: RecordView| passes(filter, document);
            let kept = filtered(documents, filter);
            let all = ordered(order, kept);
            filtering_keeps_distinct(documents, holds);
            ordering_is_a_sort(order, kept);
            kept.lemma_multiset_has_no_duplicates();
            all.lemma_multiset_has_no_duplicates_conv();
            assert forall|i: int, j: int|
                0 <= i < found.len() && 0 <= j < found.len() && i != j implies found[i]
                != found[j] by {
                assert(found[i] == all[i] && found[j] == all[j]);
            }
        }
    }
}

proof fn filtering_keeps_distinct(documents: Seq<RecordView>, holds: spec_fn(RecordView) -> bool)
    requires
        documents.no_duplicates(),
    ensures
        documents.filter(holds).no_duplicates(),
        forall|i: int|
            0 <= i < documents.filter(holds).len() ==> documents.contains(
                #[trigger] documents.filter(holds)[i],
            ),
    decreases documents.len(),
{
    reveal(Seq::filter);
    if documents.len() > 0 {
        let earlier = documents.drop_last();
        filtering_keeps_distinct(earlier, holds);
        let kept = documents.filter(holds);
        assert forall|i: int| 0 <= i < kept.len() implies documents.contains(
            #[trigger] kept[i],
        ) by {
            if i < earlier.filter(holds).len() {
                let k = choose|k: int| 0 <= k < earlier.len() && earlier[k] == kept[i];
                assert(documents[k] == kept[i]);
            } else {
                assert(documents[documents.len() - 1] == kept[i]);
            }
        }
        assert forall|i: int, j: int| 0 <= i < j < kept.len() implies kept[i] != kept[j] by {
            let before = earlier.filter(holds);
            assert(kept[i] == before[i]);
            if j == before.len() {
                let k = choose|k: int| 0 <= k < earlier.len() && earlier[k] == before[i];
                assert(documents[k] == before[i]);
            }
        }
    }
}

/// When a document was last changed: the instant of its update, or else of its creation.
pub open spec fn changed(updated: Option<Timestamp>, created: Timestamp) -> int {
    if updated is Some {
        updated->0.instant()
    } else {
        created.instant()
    }
}

/// Recent documents stand with the latest change first, and those that were changed at the same
/// instant by identity. None that was left out was changed later than one that is listed.
pub proof fn recent_lists_begin_with_the_latest(
    documents: Seq<RecordView>,
    filter: ReadFilter<Seq<char>>,
    maximum_results: usize,
    deadline: Option<u64>,
    clock: ListClock,
)
    ensures
        listed(documents, RecordOrder::Recency, filter, maximum_results, deadline, clock) matches Ok(
            found,
        ) ==> {
            &&& forall|i: int, j: int|
                #![trigger found[i], found[j]]
                0 <= i < j < found.len() ==> {
                    let first = changed(found[i].metadata.updated, found[i].metadata.created);
                    let second = changed(found[j].metadata.updated, found[j].metadata.created);
                    first > second || (first == second && found[i].metadata.document_id.value
                        <= found[j].metadata.document_id.value)
                }
            &&& forall|at: int, i: int|
                #![trigger documents[at], found[i]]
                0 <= at < documents.len() && 0 <= i < found.len() && passes(filter, documents[at])
                    && !found.contains(documents[at]) ==> {
                    let left = changed(documents[at].metadata.updated, documents[at].metadata.created);
                    let kept = changed(found[i].metadata.updated, found[i].metadata.created);
                    kept > left || (kept == left && found[i].metadata.document_id.value
                        <= documents[at].metadata.document_id.value)
                }
        },
{
    let order = RecordOrder::Recency;
    lists_hold_what_passes(documents, order, filter, maximum_results, deadline, clock);
    if let Ok(found) = listed(documents, order, filter, maximum_results, deadline, clock) {
        assert forall|i: int, j: int|
            #![trigger found[i], found[j]]
            0 <= i < j < found.len() implies !record_before(order, found[j], found[i]) by {
        }
        assert forall|at: int, i: int|
            #![trigger documents[at], found[i]]
            0 <= at < documents.len() && 0 <= i < found.len() && passes(filter, documents[at])
                && !found.contains(documents[at]) implies !record_before(
            order,
            documents[at],
            found[i],
        ) by {
            kept_or_left(documents, order, filter, maximum_results, documents[at]);
        }
    }
}

/// Whether one sequence of bytes stands before another in a dictionary: at the first byte at which
/// they differ it has the smaller one, and it does not go on where the other ends.
pub open spec fn in_byte_order(left: Seq<u8>, right: Seq<u8>) -> bool {
    &&& forall|k: int|
        0 <= k < left.len() && k < right.len() && left.take(k) == right.take(k)
            && #[trigger] left[k] != #[trigger] right[k] ==> left[k] < right[k]
    &&& left.len() > right.len() ==> left.take(right.len() as int) != right
}

/// Whether one path stands before another, or is the same: at the first component at which they
/// differ it has the one that is smaller as UTF-8, and it does not go on where the other ends.
pub open spec fn in_path_order(left: Seq<Seq<char>>, right: Seq<Seq<char>>) -> bool {
    &&& forall|k: int|
        0 <= k < left.len() && k < right.len() && left.take(k) == right.take(k)
            && #[trigger] left[k] != #[trigger] right[k] ==> in_byte_order(
            encode_utf8(left[k]),
            encode_utf8(right[k]),
        )
    &&& left.len() > right.len() ==> left.take(right.len() as int) != right
}

proof fn bytes_before_from(left: Seq<u8>, right: Seq<u8>, from: int, k: int)
    requires
        0 <= from <= k,
        k <= left.len(),
        k <= right.len(),
        left.take(k) == right.take(k),
    ensures
        bytes_before(left, right, from) == bytes_before(left, right, k),
    decreases k - from,
{
    if from < k {
        assert(left[from] == left.take(k)[from]);
        assert(right[from] == right.take(k)[from]);
        bytes_before_from(left, right, from + 1, k);
    }
}

pub(crate) proof fn not_before_is_byte_order(left: Seq<u8>, right: Seq<u8>)
    requires
        !bytes_before(right, left, 0),
    ensures
        in_byte_order(left, right),
{
    assert forall|k: int|
        0 <= k < left.len() && k < right.len() && left.take(k) == right.take(k)
            && #[trigger] left[k] != #[trigger] right[k] implies left[k] < right[k] by {
        bytes_before_from(right, left, 0, k);
    }
    if left.len() > right.len() && left.take(right.len() as int) == right {
        assert(right.take(right.len() as int) =~= right);
        bytes_before_from(right, left, 0, right.len() as int);
    }
}

proof fn path_before_from(left: Seq<Seq<char>>, right: Seq<Seq<char>>, from: int, k: int)
    requires
        0 <= from <= k,
        k <= left.len(),
        k <= right.len(),
        left.take(k) == right.take(k),
    ensures
        path_before(left, right, from) == path_before(left, right, k),
    decreases k - from,
{
    if from < k {
        assert(left[from] == left.take(k)[from]);
        assert(right[from] == right.take(k)[from]);
        path_before_from(left, right, from + 1, k);
    }
}

pub(crate) proof fn not_before_is_path_order(left: Seq<Seq<char>>, right: Seq<Seq<char>>)
    requires
        !path_before(right, left, 0),
    ensures
        in_path_order(left, right),
{
    assert forall|k: int|
        0 <= k < left.len() && k < right.len() && left.take(k) == right.take(k)
            && #[trigger] left[k] != #[trigger] right[k] implies in_byte_order(
        encode_utf8(left[k]),
        encode_utf8(right[k]),
    ) by {
        path_before_from(right, left, 0, k);
        not_before_is_byte_order(encode_utf8(left[k]), encode_utf8(right[k]));
    }
    if left.len() > right.len() && left.take(right.len() as int) == right {
        assert(right.take(right.len() as int) =~= right);
        path_before_from(right, left, 0, right.len() as int);
    }
}

/// Listed documents stand in the order of their paths. None that was left out stands before one
/// that is listed.
pub proof fn lists_stand_in_path_order(
    documents: Seq<RecordView>,
    filter: ReadFilter<Seq<char>>,
    maximum_results: usize,
    deadline: Option<u64>,
    clock: ListClock,
)
    ensures
        listed(documents, RecordOrder::Path, filter, maximum_results, deadline, clock) matches Ok(
            found,
        ) ==> {
            &&& forall|i: int, j: int|
                #![trigger found[i], found[j]]
                0 <= i < j < found.len() ==> in_path_order(
                    found[i].relative_path,
                    found[j].relative_path,
                )
            &&& forall|at: int, i: int|
                #![trigger documents[at], found[i]]
                0 <= at < documents.len() && 0 <= i < found.len() && passes(filter, documents[at])
                    && !found.contains(documents[at]) ==> in_path_order(
                    found[i].relative_path,
                    documents[at].relative_path,
                )
        },
{
    let order = RecordOrder::Path;
    lists_hold_what_passes(documents, order, filter, maximum_results, deadline, clock);
    if let Ok(found) = listed(documents, order, filter, maximum_results, deadline, clock) {
        assert forall|i: int, j: int|
            #![trigger found[i], found[j]]
            0 <= i < j < found.len() implies in_path_order(
            found[i].relative_path,
            found[j].relative_path,
        ) by {
            assert(!record_before(order, found[j], found[i]));
            not_before_is_path_order(found[i].relative_path, found[j].relative_path);
        }
        assert forall|at: int, i: int|
            #![trigger documents[at], found[i]]
            0 <= at < documents.len() && 0 <= i < found.len() && passes(filter, documents[at])
                && !found.contains(documents[at]) implies in_path_order(
            found[i].relative_path,
            documents[at].relative_path,
        ) by {
            kept_or_left(documents, order, filter, maximum_results, documents[at]);
            not_before_is_path_order(found[i].relative_path, documents[at].relative_path);
        }
    }
}

/// Whether a file is as it was indexed: it has one link, nobody may execute it, its length at
/// opening is the number of bytes read, and that is the indexed one.
pub open spec fn is_intact(read: PinnedRead, byte_length: u64) -> bool {
    read matches PinnedRead::Read { mode, links, length, bytes } && links == 1 && mode & 0o111u32
        == 0 && length == byte_length && bytes@.len() == byte_length
}

/// A document is given exactly where one of its identity is indexed, the deadline has not passed,
/// and its file is intact, within the bound and of the indexed revision. It comes with its own
/// record and with the very bytes that were read.
pub proof fn documents_are_given_as_indexed(
    snapshot: CommittedSnapshot,
    document_id: DocumentId,
    read: PinnedRead,
    begun: u64,
    finished: u64,
    at: int,
)
    requires
        distinct(snapshot.index@),
        0 <= at < snapshot.index@.len(),
        snapshot.index@[at].metadata.document_id == document_id,
    ensures
        ({
            let record = snapshot.index@[at];
            let result = retrieved(snapshot, document_id, read, begun, finished);
            let in_time = snapshot.deadline matches Some(deadline) ==> begun < deadline && finished
                < deadline;
            &&& result is Ok <==> in_time && is_intact(read, record.byte_length)
                && record.byte_length <= snapshot.maximum_markdown_bytes && revision_of(
                read->bytes@,
            ) == record.revision
            &&& result matches Ok((given, bytes)) ==> given == record && bytes == read->bytes@
        }),
{
    lookup_finds_records(snapshot.index@, document_id);
}

/// A document of which no record is indexed is not found.
pub proof fn unknown_documents_are_not_found(
    snapshot: CommittedSnapshot,
    document_id: DocumentId,
    read: PinnedRead,
    begun: u64,
    finished: u64,
)
    requires
        distinct(snapshot.index@),
        forall|i: int|
            0 <= i < snapshot.index@.len() ==> (
            #[trigger] snapshot.index@[i]).metadata.document_id != document_id,
        snapshot.deadline matches Some(deadline) ==> begun < deadline,
    ensures
        retrieved(snapshot, document_id, read, begun, finished) == Err::<
            (RecordView, Seq<u8>),
            ReadFailure,
        >(CommittedReadError::DocumentNotFound { document_id }),
{
    lookup_finds_records(snapshot.index@, document_id);
    if let Some(record) = crate::index::lookup(snapshot.index@, document_id) {
        let i = choose|i: int| 0 <= i < snapshot.index@.len() && snapshot.index@[i] == record;
        assert(snapshot.index@[i].metadata.document_id != document_id);
    }
}

proof fn bundled_as_read(
    document_id: DocumentId,
    attachments: Seq<AttachmentView>,
    reads: Seq<(PinnedRead, PinnedRead)>,
    count: nat,
)
    requires
        count <= attachments.len(),
        forall|i: int|
            0 <= i < attachments.len() ==> (#[trigger] attachments[i]).relative_path.len() > 0,
    ensures
        bundled(document_id, attachments, reads, count) is Ok <==> count <= reads.len() && forall|
            i: int,
        |
            #![trigger reads[i]]
            0 <= i < count ==> is_intact(reads[i].0, attachments[i].byte_length) && is_intact(
                reads[i].1,
                attachments[i].byte_length,
            ) && revision_of(reads[i].0->bytes@) == revision_of(reads[i].1->bytes@),
        bundled(document_id, attachments, reads, count) matches Ok(entries) ==> {
            &&& entries.len() == count
            &&& forall|i: int|
                #![trigger entries[i]]
                0 <= i < count ==> entries[i] == (
                    attachments[i].relative_path[attachments[i].relative_path.len() - 1],
                    reads[i].1->bytes@,
                )
        },
    decreases count,
{
    if count > 0 {
        bundled_as_read(document_id, attachments, reads, (count - 1) as nat);
    }
}

proof fn beside_have_paths(attachments: Seq<AttachmentView>, record: RecordView)
    ensures
        forall|i: int|
            0 <= i < attachments_beside(attachments, record).len() ==> (
            #[trigger] attachments_beside(attachments, record)[i]).relative_path.len() > 0,
    decreases attachments.len(),
{
    if attachments.len() > 0 {
        let earlier = attachments_beside(attachments.drop_last(), record);
        beside_have_paths(attachments.drop_last(), record);
        placed_have_paths(earlier, attachments.last());
    }
}

proof fn placed_have_paths(attachments: Seq<AttachmentView>, added: AttachmentView)
    requires
        forall|i: int|
            0 <= i < attachments.len() ==> (#[trigger] attachments[i]).relative_path.len() > 0,
    ensures
        added.relative_path.len() > 0 ==> forall|i: int|
            0 <= i < crate::read::attachment_placed(attachments, added).len() ==> (
            #[trigger] crate::read::attachment_placed(
                attachments,
                added,
            )[i]).relative_path.len() > 0,
    decreases attachments.len(),
{
    let placed = crate::read::attachment_placed(attachments, added);
    if attachments.len() > 0 && path_before(
        added.relative_path,
        attachments.last().relative_path,
        0,
    ) {
        placed_have_paths(attachments.drop_last(), added);
        let inner = crate::read::attachment_placed(attachments.drop_last(), added);
        assert(attachments[attachments.len() - 1].relative_path.len() > 0);
        assert forall|i: int| 0 <= i < inner.len() implies #[trigger] placed[i] == inner[i] by {}
    }
}

/// A bundle is given exactly where its parts are known and within the bounds, the deadline has not
/// passed, the document is intact and of the indexed revision, and both reads of each attachment
/// are intact and have one revision. It holds the bytes of the document as `index.md`, and behind
/// it the bytes of each attachment under the last component of its path.
pub proof fn bundles_hold_what_was_read(
    snapshot: CommittedSnapshot,
    document_id: DocumentId,
    reads: BundleReads,
    begun: u64,
)
    ensures
        ({
            let parts = bundle_parts(snapshot, document_id, begun);
            let result = bundle_of(snapshot, document_id, reads, begun);
            &&& parts matches Err(failure) ==> result == Err::<
                (RecordView, Seq<EntryView>),
                ReadFailure,
            >(failure)
            &&& parts matches Ok((record, attachments)) ==> {
                &&& result is Ok <==> {
                    &&& snapshot.deadline matches Some(deadline) ==> reads.finished < deadline
                    &&& is_intact(reads.markdown, record.byte_length)
                    &&& record.byte_length <= snapshot.maximum_markdown_bytes
                    &&& revision_of(reads.markdown->bytes@) == record.revision
                    &&& attachments.len() <= reads.attachments@.len()
                    &&& forall|i: int|
                        #![trigger reads.attachments@[i]]
                        0 <= i < attachments.len() ==> is_intact(
                            reads.attachments@[i].0,
                            attachments[i].byte_length,
                        ) && is_intact(reads.attachments@[i].1, attachments[i].byte_length)
                            && revision_of(reads.attachments@[i].0->bytes@) == revision_of(
                            reads.attachments@[i].1->bytes@,
                        )
                }
                &&& result matches Ok((given, entries)) ==> {
                    &&& given == record
                    &&& entries.len() == attachments.len() + 1
                    &&& entries[0] == ("index.md"@, reads.markdown->bytes@)
                    &&& forall|i: int|
                        #![trigger attachments[i]]
                        0 <= i < attachments.len() ==> entries[i + 1] == (
                            attachments[i].relative_path[attachments[i].relative_path.len() - 1],
                            reads.attachments@[i].1->bytes@,
                        )
                }
            }
        }),
{
    if let Ok((record, attachments)) = bundle_parts(snapshot, document_id, begun) {
        beside_have_paths(attachment_views(snapshot.attachments@), record);
        bundled_as_read(document_id, attachments, reads.attachments@, attachments.len());
        if let Ok((given, entries)) = bundle_of(snapshot, document_id, reads, begun) {
            let behind = bundled(
                document_id,
                attachments,
                reads.attachments@,
                attachments.len(),
            )->Ok_0;
            assert forall|i: int|
                #![trigger attachments[i]]
                0 <= i < attachments.len() implies entries[i + 1] == behind[i] by {
            }
        }
    }
}

/// The bytes that attachments have together.
pub open spec fn byte_sum(attachments: Seq<AttachmentView>) -> int
    decreases attachments.len(),
{
    if attachments.len() == 0 {
        0
    } else {
        attachments[0].byte_length + byte_sum(attachments.skip(1))
    }
}

proof fn byte_sums_add(attachments: Seq<AttachmentView>, last: AttachmentView)
    ensures
        byte_sum(attachments.push(last)) == byte_sum(attachments) + last.byte_length,
    decreases attachments.len(),
{
    let more = attachments.push(last);
    if attachments.len() == 0 {
        assert(more.skip(1) =~= Seq::<AttachmentView>::empty());
        assert(byte_sum(more.skip(1)) == 0);
        assert(more[0] == last);
    } else {
        assert(more.skip(1) =~= attachments.skip(1).push(last));
        byte_sums_add(attachments.skip(1), last);
    }
}

proof fn byte_sums_agree(attachments: Seq<AttachmentView>)
    ensures
        byte_sum(attachments) == total_bytes(attachments),
    decreases attachments.len(),
{
    if attachments.len() > 0 {
        byte_sums_agree(attachments.drop_last());
        byte_sums_add(attachments.drop_last(), attachments.last());
        assert(attachments =~= attachments.drop_last().push(attachments.last()));
    }
}

/// The files of a bundle are the document of the wanted identity and exactly the attachments that
/// stand in its directory, in path order. They are given exactly where the deadline has not passed,
/// there are no more of them than a bundle may have, and they have no more bytes together.
pub proof fn bundles_are_directories(
    snapshot: CommittedSnapshot,
    document_id: DocumentId,
    begun: u64,
    at: int,
)
    requires
        distinct(snapshot.index@),
        0 <= at < snapshot.index@.len(),
        snapshot.index@[at].metadata.document_id == document_id,
        crate::index::attachment_paths(attachment_views(snapshot.attachments@)).no_duplicates(),
    ensures
        ({
            let record = snapshot.index@[at];
            let all = attachment_views(snapshot.attachments@);
            let beside = attachments_beside(all, record);
            let parts = bundle_parts(snapshot, document_id, begun);
            let in_time = snapshot.deadline matches Some(deadline) ==> begun < deadline;
            let few = beside.len() + 1 <= snapshot.maximum_bundle_entries;
            let small = record.byte_length + byte_sum(beside) <= snapshot.maximum_bundle_bytes;
            &&& beside.no_duplicates()
            &&& forall|one: AttachmentView| #[trigger]
                beside.contains(one) <==> all.contains(one) && one.relative_path.len() > 0
                    && record.relative_path.len() > 0 && one.relative_path.drop_last()
                    == record.relative_path.drop_last()
            &&& forall|i: int, j: int|
                #![trigger beside[i], beside[j]]
                0 <= i < j < beside.len() ==> in_path_order(
                    beside[i].relative_path,
                    beside[j].relative_path,
                )
            &&& parts is Ok <==> in_time && few && small
            &&& parts is Ok ==> parts->Ok_0 == (record, beside)
            &&& in_time && !few ==> parts->Err_0 is BundleEntryLimitExceeded
            &&& in_time && few && !small ==> parts->Err_0 is BundleByteLimitExceeded
            &&& !in_time ==> parts->Err_0 is OperationDeadlineExceeded
        }),
{
    let record = snapshot.index@[at];
    let views = attachment_views(snapshot.attachments@);
    lookup_finds_records(snapshot.index@, document_id);
    crate::bundle_laws::attachments_beside_are_sorted(views, record);
    let attachments = attachments_beside(views, record);
    byte_sums_agree(attachments);
    assert forall|i: int, j: int|
        #![trigger attachments[i], attachments[j]]
        0 <= i < j < attachments.len() implies attachments[i] != attachments[j] && in_path_order(
        attachments[i].relative_path,
        attachments[j].relative_path,
    ) by {
        crate::order::path_order_is_total(
            attachments[i].relative_path,
            attachments[j].relative_path,
            attachments[i].relative_path,
            0,
        );
        not_before_is_path_order(attachments[i].relative_path, attachments[j].relative_path);
    }
}

} // verus!
