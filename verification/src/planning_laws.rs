//! Which operations are planned and what each plans, said of what the request asks and of what was
//! observed.
use crate::apply::{
    after_archive, after_attachment, after_create, after_move, after_operation, after_operations,
    after_update, decoding, empty_draft, encodes, payload_bytes, planned, reserved, resolved,
    ApplyError, ChangeRequest, Draft, Encoding, Facts, Halt, HaltView, MetadataView, MutationView,
    Operation, PathView, PayloadFile, PayloadRead, PlannedMutation, Setting, VirtualDocument,
    VirtualView,
};
use crate::clock::Timestamp;
use crate::document::{
    archive_path, document_path, year_text, DocumentLocation, DocumentMetadata, DocumentStatus,
    DocumentType,
};
use crate::fields::first_match;
use crate::ids::{revision_of, ulid_text, DocumentId, Revision};
use crate::index::{distinct, lookup_finds_records, DecodedDocument, FileRead};
use crate::markdown::{body_of, framed};
use crate::text::fixed_decimal;
use vstd::prelude::*;
use vstd::utf8::encode_utf8;

verus! {

proof fn matched_is_first<A>(items: Seq<A>, holds: spec_fn(A) -> bool, from: int)
    requires
        0 <= from,
    ensures
        match first_match(items, holds, from) {
            Some(at) => from <= at < items.len() && holds(items[at]) && forall|i: int|
                from <= i < at ==> !holds(#[trigger] items[i]),
            None => forall|i: int| from <= i < items.len() ==> !holds(#[trigger] items[i]),
        },
    decreases items.len() - from,
{
    if from < items.len() {
        matched_is_first(items, holds, from + 1);
    }
}

proof fn first_is_matched<A>(items: Seq<A>)
    ensures
        forall|holds: spec_fn(A) -> bool|
            #![trigger first_match(items, holds, 0)]
            match first_match(items, holds, 0) {
                Some(at) => 0 <= at < items.len() && holds(items[at]) && forall|i: int|
                    0 <= i < at ==> !holds(#[trigger] items[i]),
                None => forall|i: int| 0 <= i < items.len() ==> !holds(#[trigger] items[i]),
            },
{
    assert forall|holds: spec_fn(A) -> bool|
        #![trigger first_match(items, holds, 0)]
        match first_match(items, holds, 0) {
            Some(at) => 0 <= at < items.len() && holds(items[at]) && forall|i: int|
                0 <= i < at ==> !holds(#[trigger] items[i]),
            None => forall|i: int| 0 <= i < items.len() ==> !holds(#[trigger] items[i]),
        } by {
        matched_is_first(items, holds, 0);
    }
}

/// Whether the payload of a request holds given bytes at a path: a file of that path was
/// validated, and what was read of it has the validated length and revision.
pub open spec fn hands_in(
    request: ChangeRequest,
    facts: Facts,
    path: Seq<char>,
    bytes: Seq<u8>,
) -> bool {
    exists|file: int, read: int|
        #![trigger request.payload@[file], facts.payload@[read]]
        0 <= file < request.payload@.len() && request.payload@[file].path@ == path && (forall|i: int|
            0 <= i < file ==> (#[trigger] request.payload@[i]).path@ != path) && 0 <= read
            < facts.payload@.len() && facts.payload@[read].path@ == path && (forall|i: int|
            0 <= i < read ==> (#[trigger] facts.payload@[i]).path@ != path) && (
        facts.payload@[read].read matches FileRead::Bytes(found) && found@ == bytes)
            && bytes.len() == request.payload@[file].byte_length && revision_of(bytes)
            == request.payload@[file].revision
}

proof fn handed_in_is_read(request: ChangeRequest, facts: Facts, path: Seq<char>, bytes: Seq<u8>)
    requires
        hands_in(request, facts, path, bytes),
    ensures
        payload_bytes(request, facts, path) == Ok::<Seq<u8>, HaltView>(bytes),
{
    let (file, read) = choose|file: int, read: int|
        #![trigger request.payload@[file], facts.payload@[read]]
        0 <= file < request.payload@.len() && request.payload@[file].path@ == path && (forall|i: int|
            0 <= i < file ==> (#[trigger] request.payload@[i]).path@ != path) && 0 <= read
            < facts.payload@.len() && facts.payload@[read].path@ == path && (forall|i: int|
            0 <= i < read ==> (#[trigger] facts.payload@[i]).path@ != path) && (
        facts.payload@[read].read matches FileRead::Bytes(found) && found@ == bytes)
            && bytes.len() == request.payload@[file].byte_length && revision_of(bytes)
            == request.payload@[file].revision;
    first_is_matched(request.payload@);
    first_is_matched(facts.payload@);
}

/// Whether the front matter of bytes was decoded to metadata.
pub open spec fn describes(facts: Facts, bytes: Seq<u8>, metadata: MetadataView) -> bool {
    exists|at: int|
        0 <= at < facts.decodings@.len() && (#[trigger] facts.decodings@[at]).bytes@ == bytes && (
        forall|i: int| 0 <= i < at ==> (#[trigger] facts.decodings@[i]).bytes@ != bytes) && (
        facts.decodings@[at].decoded matches DecodedDocument::Decoded { metadata: found, .. }
            && found@ == metadata)
}

/// Whether the front matter of bytes was decoded to metadata that is valid.
pub open spec fn describes_validly(facts: Facts, bytes: Seq<u8>, metadata: MetadataView) -> bool {
    exists|at: int|
        0 <= at < facts.decodings@.len() && (#[trigger] facts.decodings@[at]).bytes@ == bytes && (
        forall|i: int| 0 <= i < at ==> (#[trigger] facts.decodings@[i]).bytes@ != bytes) && (
        facts.decodings@[at].decoded matches DecodedDocument::Decoded {
            metadata: found,
            common_violation,
            ..
        } && found@ == metadata && common_violation is None)
}

proof fn described_is_decoded(facts: Facts, bytes: Seq<u8>, metadata: MetadataView)
    ensures
        describes(facts, bytes, metadata) ==> (decoding(facts, bytes) matches Ok(
            DecodedDocument::Decoded { metadata: found, .. },
        ) && found@ == metadata),
        describes_validly(facts, bytes, metadata) ==> (decoding(facts, bytes) matches Ok(
            DecodedDocument::Decoded { metadata: found, common_violation, .. },
        ) && found@ == metadata && common_violation is None),
{
    if describes(facts, bytes, metadata) {
        let at = choose|at: int|
            0 <= at < facts.decodings@.len() && (#[trigger] facts.decodings@[at]).bytes@ == bytes
                && (forall|i: int|
                0 <= i < at ==> (#[trigger] facts.decodings@[i]).bytes@ != bytes) && (
            facts.decodings@[at].decoded matches DecodedDocument::Decoded { metadata: found, .. }
                && found@ == metadata);
        first_is_matched(facts.decodings@);
    }
    if describes_validly(facts, bytes, metadata) {
        let at = choose|at: int|
            0 <= at < facts.decodings@.len() && (#[trigger] facts.decodings@[at]).bytes@ == bytes
                && (forall|i: int|
                0 <= i < at ==> (#[trigger] facts.decodings@[i]).bytes@ != bytes) && (
            facts.decodings@[at].decoded matches DecodedDocument::Decoded {
                metadata: found,
                common_violation,
                ..
            } && found@ == metadata && common_violation is None);
        first_is_matched(facts.decodings@);
    }
}

/// Whether nothing was seen at a path.
pub open spec fn is_free(facts: Facts, path: PathView) -> bool {
    exists|at: int|
        0 <= at < facts.destinations@.len() && (#[trigger] facts.destinations@[at]).path@ == path
            && (forall|i: int|
            0 <= i < at ==> (#[trigger] facts.destinations@[i]).path@ != path)
            && facts.destinations@[at].probe is Absent
}

/// Whether something was seen at a path.
pub open spec fn is_taken(facts: Facts, path: PathView) -> bool {
    exists|at: int|
        0 <= at < facts.destinations@.len() && (#[trigger] facts.destinations@[at]).path@ == path
            && (forall|i: int|
            0 <= i < at ==> (#[trigger] facts.destinations@[i]).path@ != path)
            && facts.destinations@[at].probe is Present
}

/// A destination is taken up by a plan exactly where the plan has not taken it and nothing stands
/// there; where something does it is refused.
pub proof fn free_destinations_are_taken(facts: Facts, destinations: Seq<PathView>, path: PathView)
    ensures
        !destinations.contains(path) && is_free(facts, path) ==> reserved(
            facts,
            destinations,
            path,
        ) == Ok::<Seq<PathView>, HaltView>(destinations.push(path)),
        destinations.contains(path) || is_taken(facts, path) ==> reserved(facts, destinations, path)
            == Err::<Seq<PathView>, HaltView>(
            Halt::Failed(ApplyError::DestinationExists { path }),
        ),
{
    if is_free(facts, path) {
        let at = choose|at: int|
            0 <= at < facts.destinations@.len() && (#[trigger] facts.destinations@[at]).path@
                == path && (forall|i: int|
                0 <= i < at ==> (#[trigger] facts.destinations@[i]).path@ != path)
                && facts.destinations@[at].probe is Absent;
        first_is_matched(facts.destinations@);
    }
    if is_taken(facts, path) {
        let at = choose|at: int|
            0 <= at < facts.destinations@.len() && (#[trigger] facts.destinations@[at]).path@
                == path && (forall|i: int|
                0 <= i < at ==> (#[trigger] facts.destinations@[i]).path@ != path)
                && facts.destinations@[at].probe is Present;
        first_is_matched(facts.destinations@);
    }
}

/// Whether a document stands as described: as the plan has left it, or else as it is indexed, with
/// the Markdown that was read of it and that has the indexed revision.
pub open spec fn stands_as(
    draft: Draft,
    setting: Setting,
    document_id: DocumentId,
    document: VirtualView,
) -> bool {
    if draft.documents.contains_key(document_id.value) {
        document == draft.documents[document_id.value]
    } else {
        exists|at: int, read: int|
            #![trigger setting.index@[at], setting.facts.documents@[read]]
            0 <= at < setting.index@.len() && 0 <= read < setting.facts.documents@.len() && {
                let record = setting.index@[at];
                let found = setting.facts.documents@[read];
                &&& record.metadata.document_id == document_id
                &&& document.relative_path == record.relative_path
                &&& document.location == record.location
                &&& document.created == record.metadata.created
                &&& document.updated == record.metadata.updated
                &&& document.status == record.metadata.status
                &&& document.revision == record.revision
                &&& found.path@ == record.relative_path
                &&& forall|i: int|
                    0 <= i < read ==> (#[trigger] setting.facts.documents@[i]).path@
                        != record.relative_path
                &&& found.read matches FileRead::Bytes(bytes) && bytes@ == document.markdown
                &&& document.markdown.len() <= setting.policy.maximum_markdown_bytes
                &&& revision_of(document.markdown) == record.revision
            }
    }
}

proof fn standing_is_resolved(
    draft: Draft,
    setting: Setting,
    document_id: DocumentId,
    document: VirtualView,
)
    requires
        distinct(setting.index@),
        stands_as(draft, setting, document_id, document),
    ensures
        resolved(draft, setting, document_id) == Ok::<VirtualView, HaltView>(document),
{
    if !draft.documents.contains_key(document_id.value) {
        let (at, read) = choose|at: int, read: int|
            #![trigger setting.index@[at], setting.facts.documents@[read]]
            0 <= at < setting.index@.len() && 0 <= read < setting.facts.documents@.len() && {
                let record = setting.index@[at];
                let found = setting.facts.documents@[read];
                &&& record.metadata.document_id == document_id
                &&& document.relative_path == record.relative_path
                &&& document.location == record.location
                &&& document.created == record.metadata.created
                &&& document.updated == record.metadata.updated
                &&& document.status == record.metadata.status
                &&& document.revision == record.revision
                &&& found.path@ == record.relative_path
                &&& forall|i: int|
                    0 <= i < read ==> (#[trigger] setting.facts.documents@[i]).path@
                        != record.relative_path
                &&& found.read matches FileRead::Bytes(bytes) && bytes@ == document.markdown
                &&& document.markdown.len() <= setting.policy.maximum_markdown_bytes
                &&& revision_of(document.markdown) == record.revision
            };
        let record = setting.index@[at];
        lookup_finds_records(setting.index@, document_id);
        first_is_matched(setting.facts.documents@);
    }
}

/// Whether no document of an identity stands in the plan or in the content.
pub open spec fn is_unknown(draft: Draft, setting: Setting, document_id: DocumentId) -> bool {
    &&& !draft.documents.contains_key(document_id.value)
    &&& forall|i: int|
        0 <= i < setting.index@.len() ==> (#[trigger] setting.index@[i]).metadata.document_id
            != document_id
}

proof fn unknown_is_not_found(draft: Draft, setting: Setting, document_id: DocumentId)
    requires
        distinct(setting.index@),
    ensures
        is_unknown(draft, setting, document_id) == (!draft.documents.contains_key(
            document_id.value,
        ) && crate::index::lookup(setting.index@, document_id) is None),
{
    lookup_finds_records(setting.index@, document_id);
    if let Some(record) = crate::index::lookup(setting.index@, document_id) {
        let i = choose|i: int| 0 <= i < setting.index@.len() && setting.index@[i] == record;
        assert(setting.index@[i].metadata.document_id == document_id);
    }
}

/// When the changes of a request take place: when it was accepted, or else when it was made.
pub open spec fn takes_place(request: ChangeRequest) -> int {
    if request.accepted_at is Some {
        request.accepted_at->0.instant()
    } else {
        request.created_at.instant()
    }
}

/// When a document was last changed: when it was updated, or else when it was created.
pub open spec fn last_changed(updated: Option<Timestamp>, created: Timestamp) -> int {
    if updated is Some {
        updated->0.instant()
    } else {
        created.instant()
    }
}

/// Whether a request is about documents of a kind and a project.
pub open spec fn is_about(
    request: ChangeRequest,
    document_type: DocumentType,
    project: Option<Seq<char>>,
) -> bool {
    &&& request.document_type == document_type
    &&& request.project is Some == project is Some
    &&& request.project is Some ==> request.project->0@ == project->0
}

/// Whether a result refuses an operation on a document.
pub open spec fn refuses(result: Result<Draft, HaltView>, document_id: DocumentId) -> bool {
    result matches Err(Halt::Failed(ApplyError::OperationForbidden { document_id: refused, .. }))
        && refused == document_id
}

/// Whether a plan leaves all documents but one as they were.
pub open spec fn leaves_others(before: Draft, later: Draft, document_id: DocumentId) -> bool {
    forall|value: u128|
        value != document_id.value ==> (#[trigger] later.documents.contains_key(value)
            == before.documents.contains_key(value)) && (before.documents.contains_key(value)
            ==> later.documents[value] == before.documents[value])
}

/// An update is planned exactly where the client has seen the current revision, the document is
/// active, not archived, no log and of the classification of the request, and the new metadata
/// keeps the creation time, does not archive, and has an update time behind the last change and no
/// later than the acceptance. It replaces the Markdown by the payload and changes nothing else.
/// Another revision is a conflict, and everything else is refused.
pub proof fn updates_move_documents_forward(
    draft: Draft,
    setting: Setting,
    document_id: DocumentId,
    expected: Revision,
    content: Seq<char>,
    document: VirtualView,
    bytes: Seq<u8>,
    metadata: MetadataView,
)
    requires
        distinct(setting.index@),
        stands_as(draft, setting, document_id, document),
        hands_in(*setting.request, *setting.facts, content, bytes),
        describes_validly(*setting.facts, bytes, metadata),
    ensures
        ({
            let result = after_update(draft, setting, document_id, expected, content);
            let may_change = !document.location.archived && document.location.document_type
                != DocumentType::Log && document.status == DocumentStatus::Active && is_about(
                *setting.request,
                document.location.document_type,
                document.location.project,
            );
            let follows = metadata.created.instant() == document.created.instant()
                && metadata.status != DocumentStatus::Archived && metadata.updated is Some
                && last_changed(document.updated, document.created)
                < metadata.updated->0.instant() <= takes_place(*setting.request);
            &&& result is Ok <==> document.revision == expected && may_change && follows
            &&& document.revision != expected ==> result == Err::<Draft, HaltView>(
                Halt::Failed(
                    ApplyError::RevisionConflict {
                        document_id,
                        expected,
                        actual: document.revision,
                    },
                ),
            )
            &&& document.revision == expected && !(may_change && follows) ==> refuses(
                result,
                document_id,
            )
            &&& result matches Ok(later) ==> {
                &&& later.plan == draft.plan.push(
                    PlannedMutation::Replace { relative_path: document.relative_path, bytes },
                )
                &&& later.destinations == draft.destinations
                &&& leaves_others(draft, later, document_id)
                &&& later.documents.contains_key(document_id.value)
                &&& later.documents[document_id.value] == (VirtualDocument {
                    relative_path: document.relative_path,
                    location: document.location,
                    created: document.created,
                    updated: metadata.updated,
                    status: metadata.status,
                    revision: revision_of(bytes),
                    markdown: bytes,
                })
            }
        }),
{
    standing_is_resolved(draft, setting, document_id, document);
    handed_in_is_read(*setting.request, *setting.facts, content, bytes);
    described_is_decoded(*setting.facts, bytes, metadata);
}

/// A creation is planned exactly where its identity is new, no time of its metadata is later than
/// the acceptance, it is not archived, and its place is free. It writes the payload at the only
/// path for the classification of the request. A known identity is a conflict.
pub proof fn creations_add_documents(
    draft: Draft,
    setting: Setting,
    document_id: DocumentId,
    content: Seq<char>,
    bytes: Seq<u8>,
    metadata: MetadataView,
    location: DocumentLocation<Seq<char>>,
)
    requires
        distinct(setting.index@),
        hands_in(*setting.request, *setting.facts, content, bytes),
        describes_validly(*setting.facts, bytes, metadata),
        !location.archived,
        is_about(*setting.request, location.document_type, location.project),
        ({
            let path = document_path(location, metadata.created, document_id);
            let place = if location.document_type == DocumentType::Index {
                path
            } else {
                path.drop_last()
            };
            is_free(*setting.facts, place) || is_taken(*setting.facts, place)
        }),
    ensures
        ({
            let result = after_create(draft, setting, document_id, content);
            let path = document_path(location, metadata.created, document_id);
            let place = if location.document_type == DocumentType::Index {
                path
            } else {
                path.drop_last()
            };
            let new = is_unknown(draft, setting, document_id);
            let fits = metadata.created.instant() <= takes_place(*setting.request) && (
            metadata.updated is Some ==> metadata.updated->0.instant() <= takes_place(
                *setting.request,
            )) && metadata.status != DocumentStatus::Archived;
            let free = !draft.destinations.contains(place) && is_free(*setting.facts, place);
            &&& result is Ok <==> new && fits && free
            &&& !new ==> result == Err::<Draft, HaltView>(
                Halt::Failed(ApplyError::DocumentIdConflict { document_id }),
            )
            &&& new && !fits ==> refuses(result, document_id)
            &&& new && fits && !free ==> result == Err::<Draft, HaltView>(
                Halt::Failed(ApplyError::DestinationExists { path: place }),
            )
            &&& result matches Ok(later) ==> {
                &&& later.plan == draft.plan.push(
                    PlannedMutation::WriteNew { relative_path: path, bytes },
                )
                &&& later.destinations == draft.destinations.push(place)
                &&& leaves_others(draft, later, document_id)
                &&& later.documents.contains_key(document_id.value)
                &&& later.documents[document_id.value] == (VirtualDocument {
                    relative_path: path,
                    location,
                    created: metadata.created,
                    updated: metadata.updated,
                    status: metadata.status,
                    revision: revision_of(bytes),
                    markdown: bytes,
                })
            }
        }),
{
    let path = document_path(location, metadata.created, document_id);
    assert(path.len() > 0);
    let place = if location.document_type == DocumentType::Index {
        path
    } else {
        path.drop_last()
    };
    unknown_is_not_found(draft, setting, document_id);
    handed_in_is_read(*setting.request, *setting.facts, content, bytes);
    described_is_decoded(*setting.facts, bytes, metadata);
    free_destinations_are_taken(*setting.facts, draft.destinations, place);
    if is_free(*setting.facts, place) && is_taken(*setting.facts, place) {
        free_destinations_are_taken(*setting.facts, Seq::empty(), place);
    }
}

/// A move is planned exactly where the client has seen the current revision, the destination is
/// what the request is about and neither log nor index, the document is active, not archived and
/// neither log nor index, and the place is free. It moves the whole bundle and changes no byte.
pub proof fn moves_take_the_whole_bundle(
    draft: Draft,
    setting: Setting,
    document_id: DocumentId,
    expected: Revision,
    project: Option<Seq<char>>,
    document_type: DocumentType,
    document: VirtualView,
)
    requires
        distinct(setting.index@),
        stands_as(draft, setting, document_id, document),
        document.relative_path.len() > 0,
        ({
            let location = DocumentLocation { document_type, project, archived: false };
            let place = document_path(location, document.created, document_id).drop_last();
            is_free(*setting.facts, place) || is_taken(*setting.facts, place)
        }),
    ensures
        ({
            let result = after_move(draft, setting, document_id, expected, project, document_type);
            let location = DocumentLocation { document_type, project, archived: false };
            let path = document_path(location, document.created, document_id);
            let place = path.drop_last();
            let allowed = is_about(*setting.request, document_type, project) && document_type
                != DocumentType::Log && document_type != DocumentType::Index;
            let movable = !document.location.archived && document.location.document_type
                != DocumentType::Log && document.location.document_type != DocumentType::Index
                && document.status == DocumentStatus::Active;
            let free = !draft.destinations.contains(place) && is_free(*setting.facts, place);
            &&& result is Ok <==> allowed && document.revision == expected && movable && free
            &&& !allowed ==> refuses(result, document_id)
            &&& allowed && document.revision != expected ==> result == Err::<Draft, HaltView>(
                Halt::Failed(
                    ApplyError::RevisionConflict {
                        document_id,
                        expected,
                        actual: document.revision,
                    },
                ),
            )
            &&& allowed && document.revision == expected && !movable ==> refuses(
                result,
                document_id,
            )
            &&& allowed && document.revision == expected && movable && !free ==> result == Err::<
                Draft,
                HaltView,
            >(Halt::Failed(ApplyError::DestinationExists { path: place }))
            &&& result matches Ok(later) ==> {
                &&& later.plan == draft.plan.push(
                    PlannedMutation::Move {
                        source: document.relative_path.drop_last(),
                        destination: place,
                    },
                )
                &&& later.destinations == draft.destinations.push(place)
                &&& leaves_others(draft, later, document_id)
                &&& later.documents.contains_key(document_id.value)
                &&& later.documents[document_id.value] == (VirtualDocument {
                    relative_path: path,
                    location,
                    created: document.created,
                    updated: document.updated,
                    status: document.status,
                    revision: document.revision,
                    markdown: document.markdown,
                })
            }
        }),
{
    let location = DocumentLocation { document_type, project, archived: false };
    let path = document_path(location, document.created, document_id);
    assert(path.len() > 0);
    standing_is_resolved(draft, setting, document_id, document);
    free_destinations_are_taken(*setting.facts, draft.destinations, path.drop_last());
    if is_free(*setting.facts, path.drop_last()) && is_taken(*setting.facts, path.drop_last()) {
        free_destinations_are_taken(*setting.facts, Seq::empty(), path.drop_last());
    }
}

/// Whether metadata was encoded as a text.
pub open spec fn writes(facts: Facts, metadata: MetadataView, text: Seq<char>) -> bool {
    exists|at: int|
        0 <= at < facts.encodings@.len() && (#[trigger] facts.encodings@[at]).metadata@ == metadata
            && (forall|i: int|
            0 <= i < at ==> (#[trigger] facts.encodings@[i]).metadata@ != metadata) && (
        facts.encodings@[at].encoding matches Encoding::Encoded(found) && found@ == text)
}

proof fn written_is_encoded(facts: Facts, metadata: MetadataView, text: Seq<char>)
    requires
        writes(facts, metadata, text),
    ensures
        first_match(facts.encodings@, encodes(metadata), 0) matches Some(at) && (
        facts.encodings@[at].encoding matches Encoding::Encoded(found) && found@ == text),
{
    let at = choose|at: int|
        0 <= at < facts.encodings@.len() && (#[trigger] facts.encodings@[at]).metadata@ == metadata
            && (forall|i: int|
            0 <= i < at ==> (#[trigger] facts.encodings@[i]).metadata@ != metadata) && (
        facts.encodings@[at].encoding matches Encoding::Encoded(found) && found@ == text);
    first_is_matched(facts.encodings@);
}

/// Archiving is planned exactly where the client has seen the current revision, the request is
/// about the document, which is active, not archived and neither log nor index, and the
/// acceptance follows its last change. It writes new front matter before the same body, with the
/// acceptance as update time, the request as its last one and the archived status, and moves the
/// whole bundle below the archive directory of its kind.
pub proof fn archiving_marks_and_moves(
    draft: Draft,
    setting: Setting,
    document_id: DocumentId,
    expected: Revision,
    document: VirtualView,
    metadata: MetadataView,
    accepted: Timestamp,
    text: Seq<char>,
    body: Seq<u8>,
)
    requires
        distinct(setting.index@),
        stands_as(draft, setting, document_id, document),
        document.relative_path.len() > 1,
        document.markdown.len() <= setting.policy.maximum_markdown_bytes,
        describes(*setting.facts, document.markdown, metadata),
        body_of(document.markdown) == Some(body),
        accepted == (if setting.request.accepted_at is Some {
            setting.request.accepted_at->0
        } else {
            setting.request.created_at
        }),
        writes(
            *setting.facts,
            (DocumentMetadata {
                schema_version: metadata.schema_version,
                document_id: metadata.document_id,
                title: metadata.title,
                created: metadata.created,
                updated: Some(accepted),
                node: metadata.node,
                agent: metadata.agent,
                session: metadata.session,
                request_id: setting.request.request_id,
                tags: metadata.tags,
                status: DocumentStatus::Archived,
            }),
            text,
        ),
        is_free(
            *setting.facts,
            archive_path(document.relative_path, document.location, document_id).drop_last(),
        ),
        !draft.destinations.contains(
            archive_path(document.relative_path, document.location, document_id).drop_last(),
        ),
    ensures
        ({
            let result = after_archive(draft, setting, document_id, expected);
            let path = archive_path(document.relative_path, document.location, document_id);
            let bytes = framed(encode_utf8(text), body);
            let movable = is_about(
                *setting.request,
                document.location.document_type,
                document.location.project,
            ) && !document.location.archived && document.location.document_type
                != DocumentType::Log && document.location.document_type != DocumentType::Index
                && document.status == DocumentStatus::Active;
            let follows = last_changed(metadata.updated, metadata.created) < accepted.instant();
            &&& result is Ok <==> document.revision == expected && movable && follows
            &&& document.revision != expected ==> result == Err::<Draft, HaltView>(
                Halt::Failed(
                    ApplyError::RevisionConflict {
                        document_id,
                        expected,
                        actual: document.revision,
                    },
                ),
            )
            &&& document.revision == expected && !movable ==> refuses(result, document_id)
            &&& document.revision == expected && movable && !follows ==> refuses(
                result,
                metadata.document_id,
            )
            &&& result matches Ok(later) ==> {
                &&& later.plan == draft.plan.push(
                    PlannedMutation::Replace { relative_path: document.relative_path, bytes },
                ).push(
                    PlannedMutation::Move {
                        source: document.relative_path.drop_last(),
                        destination: path.drop_last(),
                    },
                )
                &&& later.destinations == draft.destinations.push(path.drop_last())
                &&& leaves_others(draft, later, document_id)
                &&& later.documents.contains_key(document_id.value)
                &&& later.documents[document_id.value] == (VirtualDocument {
                    relative_path: path,
                    location: DocumentLocation {
                        document_type: document.location.document_type,
                        project: document.location.project,
                        archived: true,
                    },
                    created: document.created,
                    updated: Some(accepted),
                    status: DocumentStatus::Archived,
                    revision: revision_of(bytes),
                    markdown: bytes,
                })
            }
        }),
{
    let path = archive_path(document.relative_path, document.location, document_id);
    let replaced = DocumentMetadata {
        schema_version: metadata.schema_version,
        document_id: metadata.document_id,
        title: metadata.title,
        created: metadata.created,
        updated: Some(accepted),
        node: metadata.node,
        agent: metadata.agent,
        session: metadata.session,
        request_id: setting.request.request_id,
        tags: metadata.tags,
        status: DocumentStatus::Archived,
    };
    assert(path.len() > 0);
    standing_is_resolved(draft, setting, document_id, document);
    described_is_decoded(*setting.facts, document.markdown, metadata);
    written_is_encoded(*setting.facts, replaced, text);
    free_destinations_are_taken(*setting.facts, draft.destinations, path.drop_last());
    assert(replaced == crate::apply::archived_metadata(
        metadata,
        setting.request.request_id,
        accepted,
    ));
}

/// An archived document stands below the archive directory of its kind and project, in a bundle
/// of the same name.
pub proof fn archived_bundles_keep_their_name(
    path: PathView,
    location: DocumentLocation<Seq<char>>,
    document_id: DocumentId,
    kind: Seq<char>,
)
    requires
        path.len() >= 2,
        path[path.len() - 2].len() > 0,
        is_kind_directory(location.document_type, kind),
    ensures
        location.project is None ==> archive_path(path, location, document_id) == seq![
            "archive"@,
            kind,
            path[path.len() - 2],
            "index.md"@,
        ],
        location.project is Some && location.project->0.len() > 0 ==> archive_path(
            path,
            location,
            document_id,
        ) == seq![
            "projects"@,
            location.project->0,
            "archive"@,
            kind,
            path[path.len() - 2],
            "index.md"@,
        ],
{
    kinds_have_directories(location.document_type);
    let result = archive_path(path, location, document_id);
    if location.project is None {
        assert(result =~= seq!["archive"@, kind, path[path.len() - 2], "index.md"@]);
    } else if location.project->0.len() > 0 {
        assert(result =~= seq![
            "projects"@,
            location.project->0,
            "archive"@,
            kind,
            path[path.len() - 2],
            "index.md"@,
        ]);
    }
}

/// Whether documents of a kind stand in directories of a name.
pub open spec fn is_kind_directory(document_type: DocumentType, name: Seq<char>) -> bool {
    match document_type {
        DocumentType::Index => false,
        DocumentType::Log => name == "logs"@,
        DocumentType::Experiment => name == "experiments"@,
        DocumentType::Decision => name == "decisions"@,
        DocumentType::Runbook => name == "runbooks"@,
        DocumentType::Reference => name == "references"@,
    }
}

proof fn kinds_have_directories(document_type: DocumentType)
    ensures
        document_type != DocumentType::Index ==> is_kind_directory(
            document_type,
            crate::document::category(document_type),
        ) && crate::document::category(document_type).len() > 0,
{
    reveal_strlit("logs");
    reveal_strlit("experiments");
    reveal_strlit("decisions");
    reveal_strlit("runbooks");
    reveal_strlit("references");
}

/// A document stands where its classification, its creation time and its identity put it: an index
/// page at the root of the store or of its project, a log in a directory of its day under the time
/// of day and its identity, and any other document under its date and its identity.
pub proof fn documents_stand_at_their_place(
    location: DocumentLocation<Seq<char>>,
    created: Timestamp,
    document_id: DocumentId,
    kind: Seq<char>,
)
    requires
        !location.archived,
        location.project is Some ==> location.project->0.len() > 0,
        location.document_type != DocumentType::Index ==> is_kind_directory(
            location.document_type,
            kind,
        ),
    ensures
        ({
            let path = document_path(location, created, document_id);
            let (year, month, day, hour, minute, second) = created.fields();
            let above = if location.project is Some {
                seq!["projects"@, location.project->0]
            } else if location.document_type == DocumentType::Index {
                Seq::<Seq<char>>::empty()
            } else {
                seq!["inbox"@]
            };
            let identity = ulid_text(document_id.value);
            let year_name = year_text(year as int);
            let month_name = fixed_decimal(2, month as nat);
            let day_name = fixed_decimal(2, day as nat);
            &&& location.document_type == DocumentType::Index ==> path == above + seq!["index.md"@]
            &&& location.document_type == DocumentType::Log ==> path == above + seq![
                kind,
                year_name,
                month_name,
                day_name,
                fixed_decimal(2, hour as nat) + fixed_decimal(2, minute as nat) + fixed_decimal(
                    2,
                    second as nat,
                ) + "-"@ + identity,
                "index.md"@,
            ]
            &&& location.document_type != DocumentType::Index && location.document_type
                != DocumentType::Log ==> path == above + seq![
                kind,
                year_name + "-"@ + month_name + "-"@ + day_name + "-"@ + identity,
                "index.md"@,
            ]
        }),
{
    kinds_have_directories(location.document_type);
    let path = document_path(location, created, document_id);
    let (year, month, day, hour, minute, second) = created.fields();
    let identity = ulid_text(document_id.value);
    let year_name = year_text(year as int);
    let month_name = fixed_decimal(2, month as nat);
    let day_name = fixed_decimal(2, day as nat);
    let above = if location.project is Some {
        seq!["projects"@, location.project->0]
    } else if location.document_type == DocumentType::Index {
        Seq::<Seq<char>>::empty()
    } else {
        seq!["inbox"@]
    };
    if location.document_type == DocumentType::Index {
        assert(path =~= above + seq!["index.md"@]);
    } else if location.document_type == DocumentType::Log {
        assert(path =~= above + seq![
            kind,
            year_name,
            month_name,
            day_name,
            fixed_decimal(2, hour as nat) + fixed_decimal(2, minute as nat) + fixed_decimal(
                2,
                second as nat,
            ) + "-"@ + identity,
            "index.md"@,
        ]);
    } else {
        assert(path =~= above + seq![
            kind,
            year_name + "-"@ + month_name + "-"@ + day_name + "-"@ + identity,
            "index.md"@,
        ]);
    }
}

/// An attachment is planned exactly where the document is active, not archived and of the
/// classification of the request, and its place in the directory of the document is free. It
/// writes the payload there and leaves every document as it is.
pub proof fn attachments_stand_beside_their_document(
    draft: Draft,
    setting: Setting,
    document_id: DocumentId,
    source: Seq<char>,
    name: Seq<char>,
    document: VirtualView,
    bytes: Seq<u8>,
)
    requires
        distinct(setting.index@),
        stands_as(draft, setting, document_id, document),
        document.relative_path.len() > 0,
        name.len() > 0,
        hands_in(*setting.request, *setting.facts, source, bytes),
        is_free(*setting.facts, document.relative_path.drop_last().push(name)) || is_taken(
            *setting.facts,
            document.relative_path.drop_last().push(name),
        ),
    ensures
        ({
            let result = after_attachment(draft, setting, document_id, source, name);
            let path = document.relative_path.drop_last().push(name);
            let open = !document.location.archived && document.status == DocumentStatus::Active
                && is_about(
                *setting.request,
                document.location.document_type,
                document.location.project,
            );
            let free = !draft.destinations.contains(path) && is_free(*setting.facts, path);
            &&& result is Ok <==> open && free
            &&& !open ==> refuses(result, document_id)
            &&& open && !free ==> result == Err::<Draft, HaltView>(
                Halt::Failed(ApplyError::DestinationExists { path }),
            )
            &&& result matches Ok(later) ==> {
                &&& later.plan == draft.plan.push(
                    PlannedMutation::WriteNew { relative_path: path, bytes },
                )
                &&& later.destinations == draft.destinations.push(path)
                &&& leaves_others(draft, later, document_id)
                &&& later.documents.contains_key(document_id.value)
                &&& later.documents[document_id.value] == document
            }
        }),
{
    let path = document.relative_path.drop_last().push(name);
    standing_is_resolved(draft, setting, document_id, document);
    handed_in_is_read(*setting.request, *setting.facts, source, bytes);
    free_destinations_are_taken(*setting.facts, draft.destinations, path);
    if is_free(*setting.facts, path) && is_taken(*setting.facts, path) {
        free_destinations_are_taken(*setting.facts, Seq::empty(), path);
    }
}

/// An operation on a document that stands nowhere is not planned: the document is not found.
pub proof fn unknown_documents_are_not_changed(
    draft: Draft,
    setting: Setting,
    document_id: DocumentId,
    expected: Revision,
    content: Seq<char>,
    name: Seq<char>,
)
    requires
        distinct(setting.index@),
        is_unknown(draft, setting, document_id),
    ensures
        ({
            let missing = Err::<Draft, HaltView>(
                Halt::Failed(ApplyError::DocumentNotFound { document_id }),
            );
            &&& after_update(draft, setting, document_id, expected, content) == missing
            &&& after_archive(draft, setting, document_id, expected) == missing
            &&& after_attachment(draft, setting, document_id, content, name) == missing
        }),
{
    unknown_is_not_found(draft, setting, document_id);
}

/// Payload that was not validated, or is no longer what was validated, is never written: a
/// creation, an update or an attachment with it is not planned.
pub proof fn changed_payload_is_never_written(
    draft: Draft,
    setting: Setting,
    document_id: DocumentId,
    expected: Revision,
    path: Seq<char>,
    name: Seq<char>,
)
    ensures
        after_create(draft, setting, document_id, path) matches Ok(later) ==> (
        later.plan.last() matches PlannedMutation::WriteNew { bytes: written, .. } && hands_in(
            *setting.request,
            *setting.facts,
            path,
            written,
        )),
        after_update(draft, setting, document_id, expected, path) matches Ok(later) ==> (
        later.plan.last() matches PlannedMutation::Replace { bytes: written, .. } && hands_in(
            *setting.request,
            *setting.facts,
            path,
            written,
        )),
        after_attachment(draft, setting, document_id, path, name) matches Ok(later) ==> (
        later.plan.last() matches PlannedMutation::WriteNew { bytes: written, .. } && hands_in(
            *setting.request,
            *setting.facts,
            path,
            written,
        )),
{
    read_is_handed_in(*setting.request, *setting.facts, path);
}

proof fn read_is_handed_in(request: ChangeRequest, facts: Facts, path: Seq<char>)
    ensures
        payload_bytes(request, facts, path) matches Ok(bytes) ==> hands_in(
            request,
            facts,
            path,
            bytes,
        ),
{
    first_is_matched(request.payload@);
    first_is_matched(facts.payload@);
    if let Ok(bytes) = payload_bytes(request, facts, path) {
        let file = first_match(request.payload@, |file: PayloadFile| file.path@ == path, 0)->0;
        let read = first_match(facts.payload@, |read: PayloadRead| read.path@ == path, 0)->0;
        assert(request.payload@[file].path@ == path && facts.payload@[read].path@ == path);
        assert(hands_in(request, facts, path, bytes));
    }
}

/// The draft after the first operations of a request, one after the other.
pub open spec fn drafted(setting: Setting, count: nat) -> Result<Draft, HaltView>
    decreases count,
{
    if count == 0 {
        Ok(Draft { plan: Seq::empty(), documents: Map::empty(), destinations: Seq::empty() })
    } else {
        match drafted(setting, (count - 1) as nat) {
            Err(halt) => Err(halt),
            Ok(draft) => after_operation(
                draft,
                setting,
                setting.request.operations@[count - 1],
            ),
        }
    }
}

proof fn drafts_go_on(setting: Setting, count: nat)
    requires
        count <= setting.request.operations@.len(),
    ensures
        drafted(setting, setting.request.operations@.len()) == (match drafted(setting, count) {
            Err(halt) => Err(halt),
            Ok(draft) => after_operations(draft, setting, count as int),
        }),
    decreases setting.request.operations@.len() - count,
{
    if count < setting.request.operations@.len() {
        drafts_go_on(setting, count + 1);
    }
}

/// A plan is what the operations of a request come to, all of them, in order and each on top of
/// those before; the first that is not planned ends it. A request that was made after it was
/// accepted is refused.
pub proof fn plans_take_operations_in_order(setting: Setting)
    ensures
        ({
            let made = setting.request.created_at.instant();
            let drafted = drafted(setting, setting.request.operations@.len());
            &&& made > takes_place(*setting.request) ==> planned(setting) == Err::<
                Seq<MutationView>,
                HaltView,
            >(Halt::Failed(ApplyError::RequestCreatedAfterAcceptance))
            &&& made <= takes_place(*setting.request) ==> planned(setting) == (match drafted {
                Err(halt) => Err(halt),
                Ok(draft) => Ok(draft.plan),
            })
        }),
{
    drafts_go_on(setting, 0);
    assert(empty_draft().documents =~= Map::<u128, VirtualView>::empty());
}

/// An operation is what it is called: each kind plans what that kind plans.
pub proof fn operations_are_what_they_are_called(
    draft: Draft,
    setting: Setting,
    operation: Operation,
)
    ensures
        operation matches Operation::CreateDocument { document_id, content } ==> after_operation(
            draft,
            setting,
            operation,
        ) == after_create(draft, setting, document_id, content@),
        operation matches Operation::UpdateDocument { document_id, expected_revision, content }
            ==> after_operation(draft, setting, operation) == after_update(
            draft,
            setting,
            document_id,
            expected_revision,
            content@,
        ),
        operation matches Operation::MoveDocument {
            document_id,
            expected_revision,
            project,
            document_type,
        } ==> after_operation(draft, setting, operation) == after_move(
            draft,
            setting,
            document_id,
            expected_revision,
            (if project is Some {
                Some(project->0@)
            } else {
                None
            }),
            document_type,
        ),
        operation matches Operation::ArchiveDocument { document_id, expected_revision }
            ==> after_operation(draft, setting, operation) == after_archive(
            draft,
            setting,
            document_id,
            expected_revision,
        ),
        operation matches Operation::AddAttachment { document_id, source, name }
            ==> after_operation(draft, setting, operation) == after_attachment(
            draft,
            setting,
            document_id,
            source@,
            name@,
        ),
{
}

} // verus!
