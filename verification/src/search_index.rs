//! Ranked search over a derived index of one exact committed snapshot.
use crate::git_text::{is_object_id, trim, trimmed, ObjectId};
use crate::ids::{is_ulid, read_ulid, ulid_number, DocumentId};
use crate::index::{lookup, record_views, ContentIndex, DocumentRecord, RecordView};
use crate::markdown::{body_of, markdown_body};
use crate::order::{
    borrowed_views, comes_before, not_before_is_transitive, ordered, path_before,
    record_order_is_total, sort_records, RecordOrder,
};
use crate::path::optional_text;
use crate::read::{markdown_read, take_markdown, PinnedRead, SearchMetadataFields};
use crate::read_error::CommittedReadError;
use crate::search_error::{SearchFailure, TantivySearchError};
use crate::search_fields::{
    are_numbered, document_entries, entry_views, EntryView, FieldEntry, SearchFields,
};
use crate::text::{characters, same_text, slice_text, utf8_text};
use vstd::prelude::*;
use vstd::string::*;
use vstd::utf8::{decode_utf8, valid_utf8};

verus! {

/// Version of the persistent index format.
pub const FORMAT_VERSION: u16 = 2;

/// Maximum bytes of a persistent index manifest.
pub const MAXIMUM_MANIFEST_BYTES: u64 = 16_384;

/// Bounds that the synchronous Tantivy search primitive can enforce itself.
#[derive(Clone, Copy, Debug, PartialEq, Eq, Structural)]
pub struct TantivySearchPolicy {
    /// Maximum Unicode scalar values in the query.
    pub maximum_query_characters: usize,
    /// Maximum matching documents returned.
    pub maximum_results: usize,
}

impl TantivySearchPolicy {
    /// Creates bounds for one Tantivy query.
    pub fn new(maximum_query_characters: usize, maximum_results: usize) -> (policy: Self)
        ensures
            policy == (TantivySearchPolicy { maximum_query_characters, maximum_results }),
    {
        TantivySearchPolicy { maximum_query_characters, maximum_results }
    }
}

/// What a search asks of the index: the trimmed query and the number of hits. No hits are asked of
/// an index without documents.
pub open spec fn asked(
    index_commit: ObjectId,
    snapshot_commit: ObjectId,
    query: Seq<char>,
    policy: TantivySearchPolicy,
    document_count: usize,
) -> Result<(Seq<char>, usize), SearchFailure> {
    let sought = trimmed(query);
    if snapshot_commit != index_commit {
        Err(
            TantivySearchError::SnapshotCommitMismatch {
                index: index_commit.spec_text(),
                snapshot: snapshot_commit.spec_text(),
            },
        )
    } else if policy.maximum_results == 0 {
        Err(TantivySearchError::InvalidResultLimit)
    } else if sought.len() == 0 {
        Err(TantivySearchError::EmptyQuery)
    } else if sought.len() > policy.maximum_query_characters {
        Err(
            TantivySearchError::QueryTooLong {
                maximum: policy.maximum_query_characters,
                actual: sought.len() as usize,
            },
        )
    } else {
        Ok(
            (
                sought,
                if policy.maximum_results < document_count {
                    policy.maximum_results
                } else {
                    document_count
                },
            ),
        )
    }
}

/// Decides what a search asks of the index.
pub fn ask(
    index_commit: ObjectId,
    snapshot_commit: ObjectId,
    query: &str,
    policy: TantivySearchPolicy,
    document_count: usize,
) -> (result: Result<(String, usize), TantivySearchError>)
    ensures
        (match result {
            Ok((query, limit)) => Ok((query@, limit)),
            Err(error) => Err(error@),
        }) == asked(index_commit, snapshot_commit, query@, policy, document_count),
{
    if snapshot_commit != index_commit {
        return Err(
            TantivySearchError::SnapshotCommitMismatch {
                index: index_commit.text(),
                snapshot: snapshot_commit.text(),
            },
        );
    }
    if policy.maximum_results == 0 {
        return Err(TantivySearchError::InvalidResultLimit);
    }
    let sought = trim(&characters(query));
    let actual: usize = sought.len();
    if actual == 0 {
        return Err(TantivySearchError::EmptyQuery);
    }
    if actual > policy.maximum_query_characters {
        return Err(
            TantivySearchError::QueryTooLong {
                maximum: policy.maximum_query_characters,
                actual,
            },
        );
    }
    let text = slice_text(&sought, 0, actual);
    assert(text@ =~= trimmed(query@));
    let limit: usize = if policy.maximum_results < document_count {
        policy.maximum_results
    } else {
        document_count
    };
    Ok((text, limit))
}

/// What a hit has stored as the identity of its document.
#[derive(Debug)]
pub enum StoredIdentity<T = String> {
    /// The hit could not be read.
    Unreadable(T),
    /// The hit has no identity.
    Missing,
    /// The identity.
    Text(T),
}

/// One hit of a search.
#[derive(Debug)]
pub struct Hit {
    /// The bits of its single-precision score.
    pub score: u32,
    /// The stored identity.
    pub identity: StoredIdentity,
}

/// The place of a score in the total order of single-precision numbers: its bits are a sign and a
/// magnitude, and every negative number comes before every positive one.
pub open spec fn score_rank(score: u32) -> int {
    if score < 0x8000_0000 {
        score as int
    } else {
        0x7fff_ffff - score
    }
}

/// Whether a score is higher than another.
pub fn outranks(left: u32, right: u32) -> (result: bool)
    ensures
        result == (score_rank(left) > score_rank(right)),
{
    if left < 0x8000_0000 {
        right >= 0x8000_0000 || left > right
    } else {
        right >= 0x8000_0000 && left < right
    }
}

/// The document that a hit stands for.
pub open spec fn hit_document(documents: Seq<RecordView>, identity: StoredIdentity) -> Result<
    RecordView,
    SearchFailure,
> {
    match identity {
        StoredIdentity::Unreadable(reason) => Err(TantivySearchError::Engine(reason@)),
        StoredIdentity::Missing => Err(TantivySearchError::MissingDocumentId),
        StoredIdentity::Text(text) => if !is_ulid(text@) {
            Err(TantivySearchError::InvalidDocumentId)
        } else {
            let document_id = DocumentId {
                value: (ulid_number(text@) % (u128::MAX as nat + 1)) as u128,
            };
            match lookup(documents, document_id) {
                None => Err(TantivySearchError::UnknownDocumentId { document_id }),
                Some(record) => Ok(record),
            }
        },
    }
}

/// A document with the bits of its score.
pub type RankedView = (u32, RecordView);

/// Whether a ranked document comes before another: by rank, the highest first, and then by path.
pub open spec fn ranked_before(left: RankedView, right: RankedView) -> bool {
    score_rank(left.0) > score_rank(right.0) || (left.0 == right.0 && path_before(
        left.1.relative_path,
        right.1.relative_path,
        0,
    ))
}

/// Ranked documents with one more at its place.
pub open spec fn ranked_placed(ranked: Seq<RankedView>, added: RankedView) -> Seq<RankedView>
    decreases ranked.len(),
{
    if ranked.len() == 0 || !ranked_before(added, ranked.last()) {
        ranked.push(added)
    } else {
        ranked_placed(ranked.drop_last(), added).push(ranked.last())
    }
}

/// The documents of the first `count` hits in order.
pub open spec fn ranked_hits(documents: Seq<RecordView>, hits: Seq<Hit>, count: nat) -> Result<
    Seq<RankedView>,
    SearchFailure,
>
    decreases count,
{
    if count == 0 {
        Ok(Seq::empty())
    } else {
        match ranked_hits(documents, hits, (count - 1) as nat) {
            Err(failure) => Err(failure),
            Ok(ranked) => {
                let hit = hits[count - 1];
                match hit_document(documents, hit.identity) {
                    Err(failure) => Err(failure),
                    Ok(record) => Ok(ranked_placed(ranked, (hit.score, record))),
                }
            },
        }
    }
}

/// The views of ranked records.
pub open spec fn ranked_views(ranked: Seq<(u32, &DocumentRecord)>) -> Seq<RankedView> {
    ranked.map_values(|each: (u32, &DocumentRecord)| (each.0, each.1@))
}

/// Finds the document that a hit stands for.
fn find_document<'a>(index: &'a ContentIndex, identity: &StoredIdentity) -> (result: Result<
    &'a DocumentRecord,
    TantivySearchError,
>)
    ensures
        (match result {
            Ok(record) => Ok(record@),
            Err(error) => Err(error@),
        }) == hit_document(index@, *identity),
{
    let text = match identity {
        StoredIdentity::Unreadable(reason) => {
            return Err(TantivySearchError::Engine(reason.clone()));
        },
        StoredIdentity::Missing => {
            return Err(TantivySearchError::MissingDocumentId);
        },
        StoredIdentity::Text(text) => text,
    };
    let value: u128 = match read_ulid(text.as_str()) {
        None => {
            return Err(TantivySearchError::InvalidDocumentId);
        },
        Some(value) => value,
    };
    let document_id = DocumentId { value };
    match index.get(document_id) {
        None => Err(TantivySearchError::UnknownDocumentId { document_id }),
        Some(record) => Ok(record),
    }
}

/// Places one more ranked document.
fn place_ranked<'a>(ranked: &mut Vec<(u32, &'a DocumentRecord)>, score: u32, record: &'a DocumentRecord)
    ensures
        ranked_views(final(ranked)@) == ranked_placed(ranked_views(old(ranked)@), (score, record@)),
{
    let ghost views = ranked_views(ranked@);
    let ghost first = ranked@;
    let ghost added = (score, record@);
    let mut at: usize = ranked.len();
    assert(views.take(at as int) =~= views);
    assert(views.skip(at as int) =~= Seq::<RankedView>::empty());
    assert(ranked_placed(views, added) =~= ranked_placed(views.take(at as int), added)
        + views.skip(at as int));
    while at > 0 && (outranks(score, ranked[at - 1].0) || (score == ranked[at - 1].0 && comes_before(
        &record.relative_path,
        &ranked[at - 1].1.relative_path,
    )))
        invariant
            at <= ranked@.len(),
            ranked@ == first,
            views == ranked_views(ranked@),
            added == (score, record@),
            ranked_placed(views, added) == ranked_placed(views.take(at as int), added)
                + views.skip(at as int),
        decreases at,
    {
        proof {
            let head = views.take(at as int);
            assert(head.last() == views[at - 1]);
            assert(views[at - 1] == (ranked@[at - 1].0, ranked@[at - 1].1@));
            assert(head.drop_last() =~= views.take(at - 1));
            assert(ranked_placed(head, added) + views.skip(at as int) =~= ranked_placed(
                views.take(at - 1),
                added,
            ) + views.skip(at - 1));
        }
        at -= 1;
    }
    proof {
        if at > 0 {
            assert(views.take(at as int).last() == views[at - 1]);
            assert(views[at - 1] == (ranked@[at - 1].0, ranked@[at - 1].1@));
        }
        assert(ranked_placed(views.take(at as int), added) == views.take(at as int).push(added));
    }
    ranked.insert(at, (score, record));
    assert(ranked_views(ranked@) =~= views.take(at as int).push(added) + views.skip(at as int));
}

proof fn ranked_failure_stays(documents: Seq<RecordView>, hits: Seq<Hit>, count: nat, more: nat)
    requires
        count <= more,
        ranked_hits(documents, hits, count) is Err,
    ensures
        ranked_hits(documents, hits, more) == ranked_hits(documents, hits, count),
    decreases more,
{
    if count < more {
        ranked_failure_stays(documents, hits, count, (more - 1) as nat);
    }
}

/// The views of borrowed records.
pub open spec fn ranked_records(ranked: Seq<RankedView>) -> Seq<RecordView> {
    ranked.map_values(|each: RankedView| each.1)
}

/// Resolves ranked hits against the snapshot that was indexed; equal scores are ordered by path.
pub fn resolve_hits<'a>(index: &'a ContentIndex, hits: &Vec<Hit>) -> (result: Result<
    Vec<&'a DocumentRecord>,
    TantivySearchError,
>)
    ensures
        match result {
            Ok(records) => ranked_hits(index@, hits@, hits@.len()) matches Ok(ranked)
                && borrowed_views(records@) == ranked_records(ranked),
            Err(error) => ranked_hits(index@, hits@, hits@.len()) == Err::<
                Seq<RankedView>,
                SearchFailure,
            >(error@),
        },
{
    let mut ranked: Vec<(u32, &'a DocumentRecord)> = Vec::new();
    let mut i: usize = 0;
    assert(ranked_views(ranked@) =~= Seq::<RankedView>::empty());
    while i < hits.len()
        invariant
            i <= hits@.len(),
            ranked_hits(index@, hits@, i as nat) == Ok::<Seq<RankedView>, SearchFailure>(
                ranked_views(ranked@),
            ),
        decreases hits@.len() - i,
    {
        proof {
            if ranked_hits(index@, hits@, (i + 1) as nat) is Err {
                ranked_failure_stays(index@, hits@, (i + 1) as nat, hits@.len());
            }
        }
        match find_document(index, &hits[i].identity) {
            Err(error) => {
                return Err(error);
            },
            Ok(record) => {
                place_ranked(&mut ranked, hits[i].score, record);
            },
        }
        i += 1;
    }
    let mut records: Vec<&'a DocumentRecord> = Vec::new();
    let mut i: usize = 0;
    let ghost views = ranked_views(ranked@);
    while i < ranked.len()
        invariant
            i <= ranked@.len(),
            views == ranked_views(ranked@),
            borrowed_views(records@) == ranked_records(views.take(i as int)),
        decreases ranked@.len() - i,
    {
        let ghost before = records@;
        records.push(ranked[i].1);
        assert(views[i as int] == (ranked@[i as int].0, ranked@[i as int].1@));
        assert(borrowed_views(records@) =~= borrowed_views(before).push(ranked@[i as int].1@));
        assert(views.take(i + 1) =~= views.take(i as int).push(views[i as int]));
        assert(ranked_records(views.take(i + 1)) =~= ranked_records(views.take(i as int)).push(
            views[i as int].1,
        ));
        i += 1;
    }
    assert(views.take(views.len() as int) =~= views);
    Ok(records)
}

/// Whether no ranked document comes before an earlier one.
pub open spec fn is_ranked(ranked: Seq<RankedView>) -> bool {
    forall|i: int, j: int|
        0 <= i < j < ranked.len() ==> !ranked_before(#[trigger] ranked[j], #[trigger] ranked[i])
}

proof fn scores_are_ordered(left: u32, right: u32)
    ensures
        score_rank(left) == score_rank(right) ==> left == right,
{
}

proof fn not_ranked_before_is_transitive(a: RankedView, b: RankedView, c: RankedView)
    requires
        !ranked_before(b, a),
        !ranked_before(c, b),
    ensures
        !ranked_before(c, a),
{
    scores_are_ordered(a.0, b.0);
    scores_are_ordered(b.0, c.0);
    scores_are_ordered(a.0, c.0);
    if a.0 == b.0 && b.0 == c.0 {
        not_before_is_transitive(RecordOrder::Path, a.1, b.1, c.1);
    }
}

proof fn ranking_keeps_order(ranked: Seq<RankedView>, added: RankedView)
    requires
        is_ranked(ranked),
    ensures
        is_ranked(ranked_placed(ranked, added)),
        ranked_placed(ranked, added).to_multiset() == ranked.to_multiset().insert(added),
    decreases ranked.len(),
{
    broadcast use vstd::seq_lib::group_to_multiset_ensures;

    let result = ranked_placed(ranked, added);
    if ranked.len() == 0 || !ranked_before(added, ranked.last()) {
        assert forall|i: int, j: int| 0 <= i < j < result.len() implies !ranked_before(
            #[trigger] result[j],
            #[trigger] result[i],
        ) by {
            if j == ranked.len() && i < ranked.len() - 1 {
                not_ranked_before_is_transitive(ranked[i], ranked.last(), added);
            }
        }
    } else {
        let rest = ranked.drop_last();
        ranking_keeps_order(rest, added);
        let inner = ranked_placed(rest, added);
        assert(ranked =~= rest.push(ranked.last()));
        assert(result.to_multiset() =~= ranked.to_multiset().insert(added));
        assert forall|i: int, j: int| 0 <= i < j < result.len() implies !ranked_before(
            #[trigger] result[j],
            #[trigger] result[i],
        ) by {
            assert(result[i] == inner[i]);
            if j == inner.len() {
                assert(inner.to_multiset().contains(inner[i]));
                if inner[i] == added {
                    record_order_is_total(RecordOrder::Path, added.1, ranked.last().1, added.1);
                } else {
                    assert(rest.to_multiset().contains(inner[i]));
                    assert(rest.contains(inner[i]));
                    let k = choose|k: int| 0 <= k < rest.len() && rest[k] == inner[i];
                    assert(!ranked_before(ranked[ranked.len() - 1], ranked[k]));
                }
            } else {
                assert(result[j] == inner[j]);
            }
        }
    }
}

/// Found documents are ordered by score, the highest first, and by path where the scores are
/// equal; each hit gives one of them.
pub proof fn hits_are_ranked(documents: Seq<RecordView>, hits: Seq<Hit>, count: nat)
    requires
        count <= hits.len(),
    ensures
        ranked_hits(documents, hits, count) matches Ok(ranked) ==> is_ranked(ranked) && ranked.len()
            == count && (forall|i: int|
            0 <= i < count ==> (hit_document(documents, (#[trigger] hits[i]).identity) matches Ok(
                record,
            ) && ranked.contains((hits[i].score, record)))),
    decreases count,
{
    broadcast use vstd::seq_lib::group_to_multiset_ensures;

    if count > 0 {
        hits_are_ranked(documents, hits, (count - 1) as nat);
        if let Ok(ranked) = ranked_hits(documents, hits, count) {
            let earlier = ranked_hits(documents, hits, (count - 1) as nat)->Ok_0;
            let record = hit_document(documents, hits[count - 1].identity)->Ok_0;
            let added = (hits[count - 1].score, record);
            ranking_keeps_order(earlier, added);
            assert(ranked.to_multiset() == earlier.to_multiset().insert(added));
            assert(ranked.len() == count) by {
                assert(ranked.to_multiset().len() == ranked.len());
                assert(earlier.to_multiset().len() == earlier.len());
            }
            assert forall|i: int| 0 <= i < count implies (hit_document(
                documents,
                (#[trigger] hits[i]).identity,
            ) matches Ok(record) && ranked.contains((hits[i].score, record))) by {
                let found = (hits[i].score, hit_document(documents, hits[i].identity)->Ok_0);
                if i < count - 1 {
                    assert(earlier.contains(found));
                    assert(earlier.to_multiset().contains(found));
                }
                assert(ranked.to_multiset().contains(found));
            }
        }
    }
}

/// The documents in the order in which they are indexed.
pub fn build_order<'a>(index: &'a ContentIndex) -> (records: Vec<&'a DocumentRecord>)
    ensures
        borrowed_views(records@) == ordered(RecordOrder::Path, index@),
{
    let documents = index.documents();
    let mut all: Vec<&'a DocumentRecord> = Vec::new();
    let mut i: usize = 0;
    while i < documents.len()
        invariant
            i <= documents@.len(),
            borrowed_views(all@) == record_views(documents@).take(i as int),
        decreases documents@.len() - i,
    {
        let ghost before = all@;
        all.push(&documents[i]);
        assert(record_views(documents@)[i as int] == documents@[i as int]@);
        assert(borrowed_views(all@) =~= borrowed_views(before).push(documents@[i as int]@));
        assert(borrowed_views(all@) =~= record_views(documents@).take(i + 1));
        i += 1;
    }
    assert(borrowed_views(all@) =~= index@);
    sort_records(RecordOrder::Path, &all)
}

/// What is indexed of a document, from what was read of it: the text of its body stands behind its
/// front matter.
pub open spec fn document_indexed(
    record: RecordView,
    read: PinnedRead,
    maximum_markdown_bytes: u64,
    fields: SearchMetadataFields,
) -> Result<Seq<EntryView>, SearchFailure> {
    match markdown_read(record, read, maximum_markdown_bytes) {
        Err(failure) => Err(TantivySearchError::Committed(failure)),
        Ok(markdown) => if body_of(markdown) matches Some(body) && valid_utf8(body) {
            Ok(document_entries(record, decode_utf8(body_of(markdown)->0), fields))
        } else {
            Err(
                TantivySearchError::Committed(
                    CommittedReadError::InvalidMarkdownEncoding {
                        document_id: record.metadata.document_id,
                    },
                ),
            )
        },
    }
}

/// Decides what is indexed of a document.
pub fn index_document(
    fields: &SearchFields,
    record: &DocumentRecord,
    read: &PinnedRead,
    maximum_markdown_bytes: u64,
    metadata_fields: SearchMetadataFields,
) -> (result: Result<Vec<FieldEntry>, TantivySearchError>)
    requires
        are_numbered(*fields, metadata_fields),
    ensures
        (match result {
            Ok(entries) => Ok(entry_views(entries@)),
            Err(error) => Err(error@),
        }) == document_indexed(record@, *read, maximum_markdown_bytes, metadata_fields),
{
    let markdown = match take_markdown(record, read, maximum_markdown_bytes) {
        Err(error) => {
            return Err(TantivySearchError::Committed(error));
        },
        Ok(markdown) => markdown,
    };
    let document_id = record.metadata.document_id;
    let text = match markdown_body(markdown.as_slice()) {
        None => None,
        Some(body) => utf8_text(body.as_slice()),
    };
    match text {
        None => Err(
            TantivySearchError::Committed(
                CommittedReadError::InvalidMarkdownEncoding { document_id },
            ),
        ),
        Some(text) => {
            proof {
                vstd::utf8::encode_utf8_decode_utf8(text@);
            }
            Ok(fields.document(record, text.as_str(), metadata_fields))
        },
    }
}

/// What a persistent index records of itself.
#[derive(Debug)]
pub struct DiskManifest<T = String> {
    /// Version of the format.
    pub format_version: u16,
    /// The indexed commit.
    pub commit: T,
    /// The number of documents.
    pub document_count: u64,
    /// The selected metadata.
    pub metadata_fields: SearchMetadataFields,
}

/// What was observed of a persistent index.
#[derive(Debug)]
pub struct DiskFacts {
    /// The commit in the payload of the index, if it has one.
    pub payload: Option<String>,
    /// Whether its schema is the one of this release for the recorded metadata.
    pub same_schema: bool,
    /// The number of its documents.
    pub documents: u64,
}

/// Why a persistent index cannot be used: manifest, payload, schema and size must agree.
pub open spec fn disk_problem(manifest: DiskManifest, facts: DiskFacts) -> Option<SearchFailure> {
    if manifest.format_version != FORMAT_VERSION || !is_object_id(manifest.commit@) {
        Some(TantivySearchError::InvalidDiskManifest)
    } else if optional_text(facts.payload) != Some(manifest.commit@) {
        Some(TantivySearchError::DiskCommitMismatch)
    } else if !facts.same_schema {
        Some(TantivySearchError::DiskSchemaMismatch)
    } else if facts.documents != manifest.document_count {
        Some(
            TantivySearchError::DiskDocumentCountMismatch {
                manifest: manifest.document_count,
                index: facts.documents,
            },
        )
    } else if manifest.document_count > usize::MAX {
        Some(TantivySearchError::InvalidDiskManifest)
    } else {
        None
    }
}

/// Ends the line of a written manifest and checks its size.
pub fn frame_manifest(written: Vec<u8>) -> (result: Result<Vec<u8>, TantivySearchError>)
    requires
        written@.len() < usize::MAX,
    ensures
        match result {
            Ok(bytes) => bytes@ == written@.push(10) && bytes@.len() <= MAXIMUM_MANIFEST_BYTES,
            Err(error) => written@.len() + 1 > MAXIMUM_MANIFEST_BYTES && error@
                == SearchFailure::InvalidDiskManifest,
        },
{
    let mut bytes = written;
    bytes.push(10);
    if bytes.len() as u64 > MAXIMUM_MANIFEST_BYTES {
        return Err(TantivySearchError::InvalidDiskManifest);
    }
    Ok(bytes)
}

/// Checks a manifest alone.
pub fn check_manifest(manifest: &DiskManifest) -> (commit: Option<ObjectId>)
    ensures
        commit is Some <==> manifest.format_version == FORMAT_VERSION && is_object_id(
            manifest.commit@,
        ),
        commit matches Some(id) ==> id == ObjectId::named(manifest.commit@),
{
    if manifest.format_version != FORMAT_VERSION {
        return None;
    }
    ObjectId::parse(manifest.commit.as_str())
}

/// Checks a persistent index against its manifest, and gives its commit and its size.
pub fn open_directory(manifest: &DiskManifest, facts: &DiskFacts) -> (result: Result<
    (ObjectId, usize),
    TantivySearchError,
>)
    ensures
        match result {
            Ok((commit, count)) => disk_problem(*manifest, *facts) is None && commit
                == ObjectId::named(manifest.commit@) && count == manifest.document_count,
            Err(error) => disk_problem(*manifest, *facts) == Some(error@),
        },
{
    let commit = match check_manifest(manifest) {
        None => {
            return Err(TantivySearchError::InvalidDiskManifest);
        },
        Some(commit) => commit,
    };
    let bound = match &facts.payload {
        Some(payload) => same_text(payload.as_str(), manifest.commit.as_str()),
        None => false,
    };
    if !bound {
        return Err(TantivySearchError::DiskCommitMismatch);
    }
    if !facts.same_schema {
        return Err(TantivySearchError::DiskSchemaMismatch);
    }
    if facts.documents != manifest.document_count {
        return Err(
            TantivySearchError::DiskDocumentCountMismatch {
                manifest: manifest.document_count,
                index: facts.documents,
            },
        );
    }
    if manifest.document_count > usize::MAX as u64 {
        return Err(TantivySearchError::InvalidDiskManifest);
    }
    Ok((commit, manifest.document_count as usize))
}

} // verus!
