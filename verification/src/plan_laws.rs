//! Laws of planning.
use crate::apply::{
    after_archive, after_create, after_operation, after_operations, after_update,
    canonical_markdown, decoding, empty_draft, encodes, payload_bytes, payload_metadata, planned,
    reserved, resolved, ApplyError, DestinationProbe, DocumentRead, Draft, Facts, Halt, HaltView,
    Operation, PathView, PayloadRead, PlannedMutation, Setting, VirtualView,
};
use crate::document::{
    archiving_keeps_documents_canonical, document_path, DocumentLocation, DocumentStatus,
    DocumentType,
};
use crate::fields::first_match;
use crate::ids::{revision_of, DocumentId, Revision};
use crate::index::{
    canonical_paths_classify_back, document_found, is_canonical, position, violation_of,
    DecodedDocument, NameRules, RecordView,
};
use crate::path::optional_text;
use vstd::prelude::*;

verus! {

/// The document that an operation changes, and the revision that it expects of it.
pub open spec fn expectation(operation: Operation) -> Option<(DocumentId, Revision)> {
    match operation {
        Operation::UpdateDocument { document_id, expected_revision, .. } => Some(
            (document_id, expected_revision),
        ),
        Operation::MoveDocument { document_id, expected_revision, .. } => Some(
            (document_id, expected_revision),
        ),
        Operation::ArchiveDocument { document_id, expected_revision } => Some(
            (document_id, expected_revision),
        ),
        _ => None,
    }
}

/// Optimistic locking: an operation that expects another revision than the document has is never
/// planned. Where nothing else speaks against it, it is refused as a revision conflict.
pub proof fn stale_revisions_are_refused(draft: Draft, setting: Setting, operation: Operation)
    requires
        expectation(operation) matches Some((document_id, expected)) && resolved(
            draft,
            setting,
            document_id,
        ) matches Ok(document) && document.revision != expected,
    ensures
        after_operation(draft, setting, operation) is Err,
        !(operation is MoveDocument) ==> after_operation(draft, setting, operation) matches Err(
            Halt::Failed(ApplyError::RevisionConflict { .. }),
        ),
{
}

/// The existing document that an operation touches.
pub open spec fn subject(operation: Operation) -> Option<DocumentId> {
    match operation {
        Operation::CreateDocument { .. } => None,
        Operation::UpdateDocument { document_id, .. } => Some(document_id),
        Operation::MoveDocument { document_id, .. } => Some(document_id),
        Operation::ArchiveDocument { document_id, .. } => Some(document_id),
        Operation::AddAttachment { document_id, .. } => Some(document_id),
    }
}

/// No operation changes an archived document.
pub proof fn archived_documents_are_final(draft: Draft, setting: Setting, operation: Operation)
    requires
        subject(operation) matches Some(document_id) && resolved(draft, setting, document_id)
            matches Ok(document) && document.location.archived,
    ensures
        after_operation(draft, setting, operation) is Err,
{
}

/// Logs are append-only: they are never replaced, moved or archived.
pub proof fn logs_are_append_only(draft: Draft, setting: Setting, operation: Operation)
    requires
        subject(operation) matches Some(document_id) && resolved(draft, setting, document_id)
            matches Ok(document) && document.location.document_type == DocumentType::Log,
        !(operation is AddAttachment),
    ensures
        after_operation(draft, setting, operation) is Err,
{
}

/// A document that a plan has archived stays archived for the rest of the plan.
pub proof fn archiving_is_recorded(
    draft: Draft,
    setting: Setting,
    document_id: DocumentId,
    expected: Revision,
)
    ensures
        after_archive(draft, setting, document_id, expected) matches Ok(later) ==> {
            &&& later.documents.contains_key(document_id.value)
            &&& later.documents[document_id.value].location.archived
            &&& later.documents[document_id.value].status == DocumentStatus::Archived
        },
{
}

/// Whether a document of a plan stands at its only path, is archived exactly if it stands in the
/// archive, and has the revision of its Markdown.
pub open spec fn is_placed(document: VirtualView, document_id: DocumentId) -> bool {
    &&& document.relative_path == document_path(document.location, document.created, document_id)
    &&& document.location.archived == (document.status == DocumentStatus::Archived)
    &&& document.revision == revision_of(document.markdown)
}

/// Whether every document that a plan has touched is placed.
pub open spec fn documents_are_placed(draft: Draft) -> bool {
    forall|value: u128| #[trigger]
        draft.documents.contains_key(value) ==> is_placed(
            draft.documents[value],
            DocumentId { value },
        )
}

/// Whether every record of an index is canonical.
pub open spec fn is_canonical_index(records: Seq<RecordView>, names: NameRules) -> bool {
    forall|i: int| 0 <= i < records.len() ==> is_canonical(#[trigger] records[i], names)
}

proof fn positions_hold_the_identity(records: Seq<RecordView>, document_id: DocumentId)
    ensures
        position(records, document_id) matches Some(at) ==> 0 <= at < records.len()
            && records[at].metadata.document_id == document_id,
    decreases records.len(),
{
    if records.len() > 0 {
        positions_hold_the_identity(records.drop_last(), document_id);
    }
}

/// Documents stay canonical: in a canonical content tree, every operation leaves the documents
/// that it touches at their only paths, archived exactly if they stand in the archive, and under
/// the revisions of their Markdown.
pub proof fn operations_keep_documents_placed(
    draft: Draft,
    setting: Setting,
    operation: Operation,
    names: NameRules,
)
    requires
        documents_are_placed(draft),
        is_canonical_index(setting.index@, names),
    ensures
        after_operation(draft, setting, operation) matches Ok(later) ==> documents_are_placed(later),
{
    if let Some(document_id) = subject(operation) {
        positions_hold_the_identity(setting.index@, document_id);
        if let Ok(document) = resolved(draft, setting, document_id) {
            assert(is_placed(document, document_id));
            if document.location.document_type != DocumentType::Index
                && !document.location.archived {
                archiving_keeps_documents_canonical(
                    document.location,
                    document.created,
                    document_id,
                );
            }
        }
    }
}

/// A whole plan keeps documents canonical.
pub proof fn plans_keep_documents_placed(
    draft: Draft,
    setting: Setting,
    next: int,
    names: NameRules,
)
    requires
        documents_are_placed(draft),
        is_canonical_index(setting.index@, names),
        0 <= next,
    ensures
        after_operations(draft, setting, next) matches Ok(later) ==> documents_are_placed(later),
    decreases setting.request.operations@.len() - next,
{
    if next < setting.request.operations@.len() {
        let operation = setting.request.operations@[next];
        operations_keep_documents_placed(draft, setting, operation, names);
        if let Ok(later) = after_operation(draft, setting, operation) {
            plans_keep_documents_placed(later, setting, next + 1, names);
        }
    }
}

/// What a request writes is what an index finds: a created document, whose payload names its own
/// identity and is valid for its kind, is indexed where it was written, under the revision of the
/// payload and with the classification of the request.
pub proof fn created_documents_are_found(
    draft: Draft,
    setting: Setting,
    document_id: DocumentId,
    content: Seq<char>,
    names: NameRules,
)
    requires
        after_create(draft, setting, document_id, content) is Ok,
        optional_text(setting.request.project) matches Some(project) ==> names.is_project(project)
            && project.len() > 0,
        ({
            let bytes = payload_bytes(*setting.request, *setting.facts, content)->Ok_0;
            decoding(*setting.facts, bytes) matches Ok(
                DecodedDocument::Decoded { metadata, violations, .. },
            ) && metadata.document_id == document_id && violation_of(
                violations@,
                setting.request.document_type,
            ) is None
        }),
    ensures
        ({
            let bytes = payload_bytes(*setting.request, *setting.facts, content)->Ok_0;
            let later = after_create(draft, setting, document_id, content)->Ok_0;
            &&& later.plan.last() matches PlannedMutation::WriteNew { relative_path, bytes: written }
            &&& written == bytes
            &&& document_found(
                relative_path,
                bytes,
                decoding(*setting.facts, bytes)->Ok_0,
                names,
            ) matches Ok(record)
            &&& record.metadata.document_id == document_id
            &&& record.revision == revision_of(bytes)
            &&& record.relative_path == relative_path
            &&& record.location == (DocumentLocation {
                document_type: setting.request.document_type,
                project: optional_text(setting.request.project),
                archived: false,
            })
        }),
{
    let bytes = payload_bytes(*setting.request, *setting.facts, content)->Ok_0;
    let metadata = payload_metadata(*setting.facts, bytes, content)->Ok_0;
    let location = DocumentLocation {
        document_type: setting.request.document_type,
        project: optional_text(setting.request.project),
        archived: false,
    };
    canonical_paths_classify_back(location, metadata, names);
}

/// An update is read back too: a replaced document that was placed, whose payload names its own
/// identity, writes its creation time with the same calendar fields and is valid for its kind, is
/// indexed at the same path under the revision of the payload. The same instant under another
/// offset may show another date, and then belongs at another path.
pub proof fn updated_documents_are_found(
    draft: Draft,
    setting: Setting,
    document_id: DocumentId,
    expected: Revision,
    content: Seq<char>,
    names: NameRules,
)
    requires
        after_update(draft, setting, document_id, expected, content) is Ok,
        ({
            let document = resolved(draft, setting, document_id)->Ok_0;
            let bytes = payload_bytes(*setting.request, *setting.facts, content)->Ok_0;
            &&& is_placed(document, document_id)
            &&& document.location.project matches Some(project) ==> names.is_project(project)
                && project.len() > 0
            &&& decoding(*setting.facts, bytes) matches Ok(
                DecodedDocument::Decoded { metadata, violations, .. },
            )
            &&& metadata.document_id == document_id
            &&& metadata.created.fields() == document.created.fields()
            &&& violation_of(violations@, document.location.document_type) is None
        }),
    ensures
        ({
            let document = resolved(draft, setting, document_id)->Ok_0;
            let bytes = payload_bytes(*setting.request, *setting.facts, content)->Ok_0;
            let later = after_update(draft, setting, document_id, expected, content)->Ok_0;
            &&& document.revision == expected
            &&& later.plan.last() == (PlannedMutation::Replace {
                relative_path: document.relative_path,
                bytes,
            })
            &&& document_found(
                document.relative_path,
                bytes,
                decoding(*setting.facts, bytes)->Ok_0,
                names,
            ) matches Ok(record)
            &&& record.metadata.document_id == document_id
            &&& record.revision == revision_of(bytes)
            &&& record.location == document.location
        }),
{
    let document = resolved(draft, setting, document_id)->Ok_0;
    let bytes = payload_bytes(*setting.request, *setting.facts, content)->Ok_0;
    let metadata = payload_metadata(*setting.facts, bytes, content)->Ok_0;
    canonical_paths_classify_back(document.location, metadata, names);
}

/// Whether the destinations of a plan are distinct and were seen to be free.
pub open spec fn destinations_are_free(draft: Draft, facts: Facts) -> bool {
    &&& draft.destinations.no_duplicates()
    &&& forall|i: int|
        0 <= i < draft.destinations.len() ==> seen_absent(facts, #[trigger] draft.destinations[i])
}

/// Whether a path was seen to be free.
pub open spec fn seen_absent(facts: Facts, path: PathView) -> bool {
    first_match(facts.destinations@, |probe: DestinationProbe| probe.path@ == path, 0) matches Some(
        at,
    ) && facts.destinations@[at].probe is Absent
}

proof fn reserving_keeps_destinations_free(facts: Facts, destinations: Seq<PathView>, path: PathView)
    requires
        destinations.no_duplicates(),
        forall|i: int|
            0 <= i < destinations.len() ==> seen_absent(facts, #[trigger] destinations[i]),
    ensures
        reserved(facts, destinations, path) matches Ok(later) ==> later.no_duplicates() && forall|
            i: int,
        |
            0 <= i < later.len() ==> seen_absent(facts, #[trigger] later[i]),
{
    if let Ok(later) = reserved(facts, destinations, path) {
        assert(later == destinations.push(path));
        assert(seen_absent(facts, path));
        assert forall|i: int, j: int| 0 <= i < later.len() && 0 <= j < later.len() && i
            != j implies later[i] != later[j] by {
            if i == destinations.len() {
                assert(destinations.contains(later[j]));
            } else if j == destinations.len() {
                assert(destinations.contains(later[i]));
            }
        }
    }
}

proof fn operations_keep_destinations_free(draft: Draft, setting: Setting, operation: Operation)
    requires
        destinations_are_free(draft, *setting.facts),
    ensures
        after_operation(draft, setting, operation) matches Ok(later) ==> destinations_are_free(
            later,
            *setting.facts,
        ),
{
    assert forall|path: PathView|
        (#[trigger] reserved(*setting.facts, draft.destinations, path)) matches Ok(
            later,
        ) implies reserved(*setting.facts, draft.destinations, path)->Ok_0.no_duplicates()
        && forall|i: int|
        0 <= i < reserved(*setting.facts, draft.destinations, path)->Ok_0.len() ==> seen_absent(
            *setting.facts,
            #[trigger] reserved(*setting.facts, draft.destinations, path)->Ok_0[i],
        ) by {
        reserving_keeps_destinations_free(*setting.facts, draft.destinations, path);
    }
}

/// No plan takes a destination twice, and every destination that it takes was seen to be free.
pub proof fn plans_overwrite_nothing(draft: Draft, setting: Setting, next: int)
    requires
        destinations_are_free(draft, *setting.facts),
        0 <= next,
    ensures
        after_operations(draft, setting, next) matches Ok(later) ==> destinations_are_free(
            later,
            *setting.facts,
        ),
    decreases setting.request.operations@.len() - next,
{
    if next < setting.request.operations@.len() {
        let operation = setting.request.operations@[next];
        operations_keep_destinations_free(draft, setting, operation);
        if let Ok(later) = after_operation(draft, setting, operation) {
            plans_overwrite_nothing(later, setting, next + 1);
        }
    }
}

/// Whether one set of observations goes on from another.
pub open spec fn extends(more: Facts, less: Facts) -> bool {
    &&& less.payload@.is_prefix_of(more.payload@)
    &&& less.documents@.is_prefix_of(more.documents@)
    &&& less.destinations@.is_prefix_of(more.destinations@)
    &&& less.decodings@.is_prefix_of(more.decodings@)
    &&& less.encodings@.is_prefix_of(more.encodings@)
}

/// Whether a result does not wait for an observation.
pub open spec fn settled<A>(result: Result<A, HaltView>) -> bool {
    !(result matches Err(Halt::Needs(_)))
}

proof fn first_match_in_prefix<A>(
    less: Seq<A>,
    more: Seq<A>,
    holds: spec_fn(A) -> bool,
    from: int,
)
    requires
        less.is_prefix_of(more),
        0 <= from,
    ensures
        first_match(less, holds, from) matches Some(at) ==> from <= at < less.len() && more[at]
            == less[at] && first_match(more, holds, from) == Some(at),
    decreases less.len() - from,
{
    if from < less.len() {
        assert(less[from] == more.subrange(0, less.len() as int)[from]);
        first_match_in_prefix(less, more, holds, from + 1);
    }
}

/// Once an operation is settled, further observations do not change what comes of it.
pub proof fn settled_operations_stay(
    draft: Draft,
    less: Setting,
    more: Setting,
    operation: Operation,
)
    requires
        extends(*more.facts, *less.facts),
        more == (Setting { facts: more.facts, ..less }),
        settled(after_operation(draft, less, operation)),
    ensures
        after_operation(draft, more, operation) == after_operation(draft, less, operation),
{
    assert forall|path: Seq<char>|
        settled(
            #[trigger] payload_bytes(*less.request, *less.facts, path),
        ) implies payload_bytes(*less.request, *more.facts, path) == payload_bytes(
        *less.request,
        *less.facts,
        path,
    ) by {
        first_match_in_prefix(
            less.facts.payload@,
            more.facts.payload@,
            |read: PayloadRead| read.path@ == path,
            0,
        );
    }
    assert forall|bytes: Seq<u8>|
        settled(#[trigger] decoding(*less.facts, bytes)) implies decoding(*more.facts, bytes)
        == decoding(*less.facts, bytes) by {
        first_match_in_prefix(
            less.facts.decodings@,
            more.facts.decodings@,
            |decoding: crate::apply::Decoding| decoding.bytes@ == bytes,
            0,
        );
    }
    assert forall|path: PathView, maximum: u64, expected: Revision|
        settled(
            #[trigger] canonical_markdown(*less.facts, path, maximum, expected),
        ) implies canonical_markdown(*more.facts, path, maximum, expected) == canonical_markdown(
        *less.facts,
        path,
        maximum,
        expected,
    ) by {
        first_match_in_prefix(
            less.facts.documents@,
            more.facts.documents@,
            |read: DocumentRead| read.path@ == path,
            0,
        );
    }
    assert forall|destinations: Seq<PathView>, path: PathView|
        settled(#[trigger] reserved(*less.facts, destinations, path)) implies reserved(
        *more.facts,
        destinations,
        path,
    ) == reserved(*less.facts, destinations, path) by {
        first_match_in_prefix(
            less.facts.destinations@,
            more.facts.destinations@,
            |probe: DestinationProbe| probe.path@ == path,
            0,
        );
    }
    assert forall|metadata: crate::apply::MetadataView|
        (#[trigger] first_match(less.facts.encodings@, encodes(metadata), 0)) matches Some(
            at,
        ) implies first_match(more.facts.encodings@, encodes(metadata), 0) == first_match(
        less.facts.encodings@,
        encodes(metadata),
        0,
    ) && more.facts.encodings@[first_match(less.facts.encodings@, encodes(metadata), 0)->0]
        == less.facts.encodings@[first_match(less.facts.encodings@, encodes(metadata), 0)->0] by {
        first_match_in_prefix(
            less.facts.encodings@,
            more.facts.encodings@,
            encodes(metadata),
            0,
        );
    }
}

proof fn settled_drafts_stay(draft: Draft, less: Setting, more: Setting, next: int)
    requires
        extends(*more.facts, *less.facts),
        more == (Setting { facts: more.facts, ..less }),
        settled(after_operations(draft, less, next)),
        0 <= next,
    ensures
        after_operations(draft, more, next) == after_operations(draft, less, next),
    decreases less.request.operations@.len() - next,
{
    if next < less.request.operations@.len() {
        let operation = less.request.operations@[next];
        settled_operations_stay(draft, less, more, operation);
        if let Ok(later) = after_operation(draft, less, operation) {
            settled_drafts_stay(later, less, more, next + 1);
        }
    }
}

/// Once a plan is complete or refused, further observations do not change it. Planning anew with
/// each observation that was missing therefore comes to one result, whatever else is observed.
pub proof fn settled_plans_stay(less: Setting, more: Setting)
    requires
        extends(*more.facts, *less.facts),
        more == (Setting { facts: more.facts, ..less }),
        settled(planned(less)),
    ensures
        planned(more) == planned(less),
{
    if less.request.created_at.instant() <= less.request.time().instant() {
        settled_drafts_stay(empty_draft(), less, more, 0);
    }
}

} // verus!
