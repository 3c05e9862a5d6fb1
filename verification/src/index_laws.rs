//! What an index holds of a content tree, said of the files in it.
use crate::document::{document_path, DocumentStatus, DocumentType};
use crate::ids::revision_of;
use crate::index::{
    classified, descended, file_found, indexed, is_asset, is_markdown, nothing_gathered, scanned,
    violation_of, visited, visited_all, visiting_order, ContentEntry, ContentIndexError,
    ContentPolicy, DecodedDocument, EntryFacts, FileFacts, FileRead, Gathered, IndexFailure,
    Inspected, NameRules, PackageLimits, RecordView, ScanRules, TypeViolation,
};
use crate::path::texts;
use crate::reading_laws::{in_byte_order, not_before_is_byte_order};
use vstd::prelude::*;
use vstd::utf8::{decode_utf8, valid_utf8};

verus! {

/// Whether a name ends in `.md` and has something before that.
pub open spec fn ends_in_md(name: Seq<char>) -> bool {
    let n = name.len();
    n > 3 && name[n - 3] == '.' && name[n - 2] == 'm' && name[n - 1] == 'd'
}

proof fn markdown_ends_in_md(name: Seq<char>)
    ensures
        is_markdown(name) == ends_in_md(name),
{
    reveal_strlit(".md");
    if name.len() > 3 {
        let tail = name.skip(name.len() - 3);
        assert(tail[0] == name[name.len() - 3] && tail[1] == name[name.len() - 2] && tail[2]
            == name[name.len() - 1]);
        if ends_in_md(name) {
            assert(tail =~= ".md"@);
        }
    }
}

/// Whether something is held against metadata of a kind.
pub open spec fn is_violated(violations: Seq<TypeViolation>, document_type: DocumentType) -> bool {
    exists|i: int|
        0 <= i < violations.len() && (#[trigger] violations[i]).document_type == document_type
}

proof fn violations_are_found(violations: Seq<TypeViolation>, document_type: DocumentType)
    ensures
        violation_of(violations, document_type) is Some <==> is_violated(
            violations,
            document_type,
        ),
        violation_of(violations, document_type) matches Some(reason) ==> exists|i: int|
            0 <= i < violations.len() && (#[trigger] violations[i]).document_type == document_type
                && violations[i].reason@ == reason,
    decreases violations.len(),
{
    if violations.len() > 0 {
        let later = violations.skip(1);
        violations_are_found(later, document_type);
        if violations[0].document_type != document_type {
            if is_violated(violations, document_type) {
                let i = choose|i: int|
                    0 <= i < violations.len() && (#[trigger] violations[i]).document_type
                        == document_type;
                assert(later[i - 1] == violations[i]);
            }
            if violation_of(later, document_type) is Some {
                let i = choose|i: int|
                    0 <= i < later.len() && (#[trigger] later[i]).document_type == document_type
                        && later[i].reason@ == violation_of(later, document_type)->0;
                assert(violations[i + 1] == later[i]);
            }
        }
    }
}

/// Whether a file is one that anybody could have written: not executable and not linked twice.
pub open spec fn is_ordinary(file: FileFacts) -> bool {
    file.mode & 0o111 == 0 && file.links <= 1
}

/// Whether a Markdown file is one that an index takes in, and the record that it takes it in as:
/// small enough, readable, decoded, at the one path for its kind, its project, its creation and its
/// identity, in an archive exactly where it is marked as archived, and valid for its kind.
pub open spec fn is_taken_in(
    path: Seq<Seq<char>>,
    file: FileFacts,
    policy: ContentPolicy,
    names: NameRules,
    record: RecordView,
) -> bool {
    &&& file.length <= policy.maximum_markdown_bytes
    &&& file.read matches FileRead::Bytes(bytes)
    &&& bytes@.len() <= policy.maximum_markdown_bytes
    &&& file.decoded matches DecodedDocument::Decoded { metadata, violations, .. }
    &&& classified(path, names) == Some(record.location)
    &&& path == document_path(record.location, metadata.created, metadata.document_id)
    &&& record.location.archived <==> metadata.status == DocumentStatus::Archived
    &&& !is_violated(violations@, record.location.document_type)
    &&& record.relative_path == path
    &&& record.metadata == metadata@
    &&& record.revision == revision_of(bytes@)
    &&& record.byte_length == bytes@.len()
}

/// An attachment is accepted exactly where it is an ordinary file of an allowed type that is not
/// too large. A Markdown file is accepted exactly where it is an ordinary file that can be taken
/// in and the Markdown files together stay within their limit. The record says what the file
/// holds.
pub proof fn files_are_taken_in_as_they_are(
    path: Seq<Seq<char>>,
    file: FileFacts,
    total: u64,
    policy: ContentPolicy,
    limits: PackageLimits,
    names: NameRules,
    record: RecordView,
)
    ensures
        ({
            let found = file_found(path, file, total, policy, limits, names);
            let within = total + file.length <= policy.maximum_total_markdown_bytes;
            &&& found == Ok::<Inspected<RecordView>, IndexFailure>(Inspected::Attachment) <==> {
                &&& is_ordinary(file)
                &&& !ends_in_md(path.last())
                &&& file.length <= limits.maximum_file_bytes
                &&& texts(names.attachment_types@).contains(path.last())
            }
            &&& found == Ok::<Inspected<RecordView>, IndexFailure>(
                Inspected::Document { record, total: (total + file.length) as u64 },
            ) <==> is_ordinary(file) && ends_in_md(path.last()) && within && is_taken_in(
                path,
                file,
                policy,
                names,
                record,
            )
            &&& found matches Ok(Inspected::Document { total: sum, .. }) ==> sum == total
                + file.length
        }),
{
    markdown_ends_in_md(path.last());
    if let DecodedDocument::Decoded { metadata, violations, .. } = file.decoded {
        violations_are_found(violations@, record.location.document_type);
        if let Some(location) = classified(path, names) {
            violations_are_found(violations@, location.document_type);
        }
    }
}

/// A file that is refused is refused for what is wrong with it, and the first of these is named:
/// that it is executable, that it is linked twice; of an attachment its size or its type; of a
/// Markdown file its size, the size of all, that it cannot be read or decoded, that it stands at
/// the wrong path, on the wrong side of the archive, or is not valid for its kind.
pub proof fn files_are_refused_for_a_reason(
    path: Seq<Seq<char>>,
    file: FileFacts,
    total: u64,
    policy: ContentPolicy,
    limits: PackageLimits,
    names: NameRules,
)
    ensures
        ({
            let found = file_found(path, file, total, policy, limits, names);
            let large = file.length > policy.maximum_markdown_bytes;
            let much = total + file.length > policy.maximum_total_markdown_bytes;
            let plain = is_ordinary(file);
            let markdown = ends_in_md(path.last());
            &&& file.mode & 0o111 != 0 ==> found == Err::<Inspected<RecordView>, IndexFailure>(
                ContentIndexError::ExecutableFile(path),
            )
            &&& file.mode & 0o111 == 0 && file.links > 1 ==> found == Err::<
                Inspected<RecordView>,
                IndexFailure,
            >(ContentIndexError::HardLinkedFile(path))
            &&& plain && !markdown && file.length > limits.maximum_file_bytes ==> found == Err::<
                Inspected<RecordView>,
                IndexFailure,
            >(
                ContentIndexError::AttachmentTooLarge {
                    path,
                    maximum: limits.maximum_file_bytes,
                    actual: file.length,
                },
            )
            &&& plain && !markdown && file.length <= limits.maximum_file_bytes && !texts(
                names.attachment_types@,
            ).contains(path.last()) ==> found == Err::<Inspected<RecordView>, IndexFailure>(
                ContentIndexError::UnsupportedAttachment(path),
            )
            &&& plain && markdown && large ==> found == Err::<Inspected<RecordView>, IndexFailure>(
                ContentIndexError::MarkdownTooLarge {
                    path,
                    maximum: policy.maximum_markdown_bytes,
                    actual: file.length,
                },
            )
            &&& plain && markdown && !large && much ==> found == Err::<
                Inspected<RecordView>,
                IndexFailure,
            >(
                ContentIndexError::MarkdownByteLimitExceeded {
                    maximum: policy.maximum_total_markdown_bytes,
                },
            )
            &&& plain && markdown && !large && !much ==> {
                &&& file.read matches FileRead::Failed(reason) ==> found == Err::<
                    Inspected<RecordView>,
                    IndexFailure,
                >(ContentIndexError::Io(reason@))
                &&& file.read matches FileRead::Bytes(bytes) ==> bytes@.len()
                    <= policy.maximum_markdown_bytes ==> {
                    &&& file.decoded matches DecodedDocument::Malformed(reason) ==> found == Err::<
                        Inspected<RecordView>,
                        IndexFailure,
                    >(ContentIndexError::InvalidDocument { path, source: reason@ })
                    &&& file.decoded matches DecodedDocument::Decoded { metadata, violations, .. }
                        ==> {
                        let location = classified(path, names);
                        let placed = location is Some && path == document_path(
                            location->0,
                            metadata.created,
                            metadata.document_id,
                        );
                        let sided = location->0.archived <==> metadata.status
                            == DocumentStatus::Archived;
                        &&& !placed ==> found == Err::<Inspected<RecordView>, IndexFailure>(
                            ContentIndexError::InvalidDocumentPath(path),
                        )
                        &&& placed && !sided ==> found == Err::<
                            Inspected<RecordView>,
                            IndexFailure,
                        >(ContentIndexError::ArchiveStatusMismatch(path))
                        &&& placed && sided && is_violated(
                            violations@,
                            location->0.document_type,
                        ) ==> (found matches Err(
                            ContentIndexError::InvalidMetadata { path: named, source },
                        ) && named == path && exists|i: int|
                            0 <= i < violations@.len() && (
                            #[trigger] violations@[i]).document_type == location->0.document_type
                                && violations@[i].reason@ == source)
                    }
                }
            }
        }),
{
    markdown_ends_in_md(path.last());
    if let DecodedDocument::Decoded { metadata, violations, .. } = file.decoded {
        if let Some(location) = classified(path, names) {
            violations_are_found(violations@, location.document_type);
        }
    }
}

/// Whether a trail of positions leads from a directory to an entry below it. What stands under the
/// name `.git` at the root of a store is not content.
pub open spec fn leads(node: ContentEntry, root: bool, trail: Seq<int>) -> bool
    decreases trail.len(),
{
    trail.len() > 0 ==> {
        let child = node.children@[trail[0]];
        &&& 0 <= trail[0] < node.children@.len()
        &&& !(root && child.name@ == seq![46u8, 103, 105, 116])
        &&& trail.len() > 1 ==> (child.facts is Directory || child.facts is Unlisted)
        &&& leads(child, false, trail.skip(1))
    }
}

/// The entry at the end of a trail.
pub open spec fn entry_at(node: ContentEntry, trail: Seq<int>) -> ContentEntry
    decreases trail.len(),
{
    if trail.len() == 0 {
        node
    } else {
        entry_at(node.children@[trail[0]], trail.skip(1))
    }
}

/// The names along a trail.
pub open spec fn path_along(node: ContentEntry, trail: Seq<int>) -> Seq<Seq<char>>
    decreases trail.len(),
{
    if trail.len() == 0 {
        Seq::empty()
    } else {
        let child = node.children@[trail[0]];
        seq![decode_utf8(child.name@)] + path_along(child, trail.skip(1))
    }
}

/// Whether one entry is as an index can take it: its name is text, it is a directory or an ordinary
/// file, a Markdown file has its record and any other file is a small attachment of an allowed
/// type.
pub open spec fn is_in_order(
    entry: ContentEntry,
    path: Seq<Seq<char>>,
    records: Seq<RecordView>,
    rules: ScanRules,
) -> bool {
    &&& valid_utf8(entry.name@)
    &&& entry.facts is Directory || entry.facts is Unlisted || entry.facts is File
    &&& entry.facts matches EntryFacts::File(file) ==> {
        &&& is_ordinary(file)
        &&& ends_in_md(path.last()) ==> exists|i: int|
            0 <= i < records.len() && is_taken_in(
                path,
                file,
                *rules.policy,
                *rules.names,
                #[trigger] records[i],
            )
        &&& !ends_in_md(path.last()) ==> file.length <= rules.limits.maximum_file_bytes && texts(
            rules.names.attachment_types@,
        ).contains(path.last())
    }
}

/// Whether an attachment stands where one may: it is named as one, and stands beside a document or
/// among the assets of a project.
pub open spec fn is_placed(
    path: Seq<Seq<char>>,
    records: Seq<RecordView>,
    limits: PackageLimits,
    names: NameRules,
) -> bool {
    &&& texts(names.attachments@).contains(path.last())
    &&& {
        ||| exists|i: int|
            0 <= i < records.len() && (#[trigger] records[i]).relative_path.len() > 0
                && records[i].relative_path.drop_last() == path.drop_last()
        ||| {
            &&& path.len() >= 4
            &&& path[0] == "projects"@
            &&& texts(names.projects@).contains(path[1])
            &&& path[2] == "assets"@
            &&& path.len() - 3 <= limits.maximum_path_components
            &&& forall|i: int|
                3 <= i < path.len() ==> texts(names.attachments@).contains(#[trigger] path[i])
            &&& texts(names.payload_paths@).contains(crate::path::slashed(path.skip(3)))
        }
    }
}

proof fn attachments_are_placed(
    attachments: Seq<Seq<Seq<char>>>,
    records: Seq<RecordView>,
    limits: PackageLimits,
    names: NameRules,
    next: int,
)
    requires
        0 <= next,
        crate::index::first_misplaced(attachments, records, limits, names, next) is None,
    ensures
        forall|k: int|
            next <= k < attachments.len() ==> is_placed(
                #[trigger] attachments[k],
                records,
                limits,
                names,
            ),
    decreases attachments.len() - next,
{
    if next < attachments.len() {
        attachments_are_placed(attachments, records, limits, names, next + 1);
        let path = attachments[next];
        if is_asset(path, limits, names) {
            assert forall|i: int| 3 <= i < path.len() implies texts(names.attachments@).contains(
                #[trigger] path[i],
            ) by {
                assert(names.is_attachment(path[i]));
            }
        }
        assert(is_placed(path, records, limits, names));
    }
}

/// Whether an entry is in order, and is among what was gathered if it is an attachment.
spec fn is_met(
    entry: ContentEntry,
    path: Seq<Seq<char>>,
    gathered: Gathered,
    rules: ScanRules,
) -> bool {
    &&& is_in_order(entry, path, gathered.records, rules)
    &&& entry.facts is File && !ends_in_md(path.last()) ==> gathered.attachments.contains(path)
}

spec fn extends(gathered: Gathered, after: Gathered) -> bool {
    &&& gathered.records.len() <= after.records.len()
    &&& forall|i: int|
        0 <= i < gathered.records.len() ==> #[trigger] after.records[i] == gathered.records[i]
    &&& gathered.attachments.len() <= after.attachments.len()
    &&& forall|i: int|
        0 <= i < gathered.attachments.len() ==> #[trigger] after.attachments[i]
            == gathered.attachments[i]
}

proof fn order_stays(
    entry: ContentEntry,
    path: Seq<Seq<char>>,
    gathered: Gathered,
    after: Gathered,
    rules: ScanRules,
)
    requires
        extends(gathered, after),
        is_met(entry, path, gathered, rules),
    ensures
        is_met(entry, path, after, rules),
{
    let records = gathered.records;
    if let EntryFacts::File(file) = entry.facts {
        if ends_in_md(path.last()) {
            let i = choose|i: int|
                0 <= i < records.len() && is_taken_in(
                    path,
                    file,
                    *rules.policy,
                    *rules.names,
                    #[trigger] records[i],
                );
            assert(after.records[i] == records[i]);
        } else {
            let i = choose|i: int|
                0 <= i < gathered.attachments.len() && gathered.attachments[i] == path;
            assert(after.attachments[i] == path);
        }
    }
}

proof fn visits_take_in(
    gathered: Gathered,
    directory: Seq<Seq<char>>,
    entry: ContentEntry,
    rules: ScanRules,
)
    ensures
        visited(gathered, directory, entry, rules) matches Ok(after) ==> {
            &&& extends(gathered, after)
            &&& is_met(entry, directory.push(decode_utf8(entry.name@)), after, rules)
        },
{
    let path = directory.push(decode_utf8(entry.name@));
    if let EntryFacts::File(file) = entry.facts {
        if let Ok(after) = visited(gathered, directory, entry, rules) {
            let found = file_found(
                path,
                file,
                gathered.total,
                *rules.policy,
                *rules.limits,
                *rules.names,
            );
            if let Ok(Inspected::Document { record, total }) = found {
                files_are_taken_in_as_they_are(
                    path,
                    file,
                    gathered.total,
                    *rules.policy,
                    *rules.limits,
                    *rules.names,
                    record,
                );
                assert(after.records[gathered.records.len() as int] == record);
            } else {
                files_are_taken_in_as_they_are(
                    path,
                    file,
                    gathered.total,
                    *rules.policy,
                    *rules.limits,
                    *rules.names,
                    arbitrary(),
                );
                assert(after.attachments[gathered.attachments.len() as int] == path);
            }
        }
    }
}

proof fn all_visits_take_in(
    gathered: Gathered,
    directory: Seq<Seq<char>>,
    children: Seq<ContentEntry>,
    order: Seq<int>,
    next: int,
    rules: ScanRules,
)
    requires
        0 <= next,
    ensures
        visited_all(gathered, directory, children, order, next, rules) matches Ok(after) ==> {
            &&& extends(gathered, after)
            &&& forall|k: int|
                next <= k < order.len() ==> is_met(
                    children[#[trigger] order[k]],
                    directory.push(decode_utf8(children[order[k]].name@)),
                    after,
                    rules,
                )
        },
    decreases order.len() - next,
{
    if next < order.len() {
        let entry = children[order[next]];
        visits_take_in(gathered, directory, entry, rules);
        if let Ok(middle) = visited(gathered, directory, entry, rules) {
            all_visits_take_in(middle, directory, children, order, next + 1, rules);
            if let Ok(after) = visited_all(middle, directory, children, order, next + 1, rules) {
                order_stays(
                    entry,
                    directory.push(decode_utf8(entry.name@)),
                    middle,
                    after,
                    rules,
                );
            }
        }
    }
}

/// Whether everything below a directory is in order.
spec fn holds_order(
    node: ContentEntry,
    root: bool,
    directory: Seq<Seq<char>>,
    gathered: Gathered,
    rules: ScanRules,
) -> bool {
    forall|trail: Seq<int>|
        trail.len() > 0 && #[trigger] leads(node, root, trail) ==> {
            &&& is_met(
                entry_at(node, trail),
                directory + path_along(node, trail),
                gathered,
                rules,
            )
            &&& entry_at(node, trail).facts !is Unlisted
        }
}

proof fn order_stays_below(
    node: ContentEntry,
    root: bool,
    directory: Seq<Seq<char>>,
    gathered: Gathered,
    after: Gathered,
    rules: ScanRules,
)
    requires
        extends(gathered, after),
        holds_order(node, root, directory, gathered, rules),
    ensures
        holds_order(node, root, directory, after, rules),
{
    assert forall|trail: Seq<int>| trail.len() > 0 && #[trigger] leads(node, root, trail) implies {
        &&& is_met(entry_at(node, trail), directory + path_along(node, trail), after, rules)
        &&& entry_at(node, trail).facts !is Unlisted
    } by {
        order_stays(
            entry_at(node, trail),
            directory + path_along(node, trail),
            gathered,
            after,
            rules,
        );
    }
}

proof fn insertion_keeps(children: Seq<ContentEntry>, order: Seq<int>, entry: int)
    ensures
        ({
            let more = crate::index::inserted(children, order, entry);
            &&& more.len() == order.len() + 1
            &&& more.contains(entry)
            &&& forall|k: int| 0 <= k < order.len() ==> more.contains(#[trigger] order[k])
            &&& forall|k: int|
                0 <= k < more.len() ==> #[trigger] more[k] == entry || order.contains(more[k])
        }),
    decreases order.len(),
{
    let more = crate::index::inserted(children, order, entry);
    if order.len() > 0 && crate::text::bytes_before(
        children[entry].name@,
        children[order.last()].name@,
        0,
    ) {
        let fewer = order.drop_last();
        let inner = crate::index::inserted(children, fewer, entry);
        insertion_keeps(children, fewer, entry);
        let at = choose|at: int| 0 <= at < inner.len() && inner[at] == entry;
        assert(more[at] == entry);
        assert forall|k: int| 0 <= k < order.len() implies more.contains(#[trigger] order[k]) by {
            if k < fewer.len() {
                assert(inner.contains(fewer[k]));
                let at = choose|at: int| 0 <= at < inner.len() && inner[at] == fewer[k];
                assert(more[at] == order[k]);
            } else {
                assert(more[inner.len() as int] == order[k]);
            }
        }
        assert forall|k: int| 0 <= k < more.len() implies #[trigger] more[k] == entry
            || order.contains(more[k]) by {
            if k < inner.len() {
                assert(more[k] == inner[k]);
                if inner[k] != entry {
                    let at = choose|at: int| 0 <= at < fewer.len() && fewer[at] == inner[k];
                    assert(order[at] == more[k]);
                }
            } else {
                assert(more[k] == order[order.len() - 1]);
            }
        }
    } else {
        assert(more[order.len() as int] == entry);
        assert forall|k: int| 0 <= k < order.len() implies more.contains(#[trigger] order[k]) by {
            assert(more[k] == order[k]);
        }
        assert forall|k: int| 0 <= k < more.len() implies #[trigger] more[k] == entry
            || order.contains(more[k]) by {
            if k < order.len() {
                assert(order[k] == more[k]);
            }
        }
    }
}

proof fn all_are_visited(children: Seq<ContentEntry>, root: bool, count: nat)
    requires
        count <= children.len(),
    ensures
        ({
            let order = visiting_order(children, root, count);
            &&& order.len() <= count
            &&& forall|k: int| 0 <= k < order.len() ==> 0 <= #[trigger] order[k] < count
            &&& forall|i: int|
                0 <= i < count && !(root && (#[trigger] children[i]).name@ == seq![
                    46u8,
                    103,
                    105,
                    116,
                ]) ==> order.contains(i)
        }),
    decreases count,
{
    if count > 0 {
        let earlier = visiting_order(children, root, (count - 1) as nat);
        all_are_visited(children, root, (count - 1) as nat);
        insertion_keeps(children, earlier, count - 1);
        let order = visiting_order(children, root, count);
        assert forall|i: int| 0 <= i < count && !(root && (#[trigger] children[i]).name@ == seq![
            46u8,
            103,
            105,
            116,
        ]) implies order.contains(i) by {
            if i < count - 1 {
                assert(earlier.contains(i));
                let k = choose|k: int| 0 <= k < earlier.len() && earlier[k] == i;
                assert(order.contains(earlier[k]));
            }
        }
        assert forall|k: int| 0 <= k < order.len() implies 0 <= #[trigger] order[k] < count by {
            if order[k] != count - 1 {
                assert(earlier.contains(order[k]));
            }
        }
    }
}

proof fn scans_take_in(
    gathered: Gathered,
    directory: Seq<Seq<char>>,
    node: ContentEntry,
    rules: ScanRules,
)
    ensures
        scanned(gathered, directory, node, rules) matches Ok(after) ==> {
            &&& extends(gathered, after)
            &&& node.facts !is Unlisted
            &&& holds_order(node, directory.len() == 0, directory, after, rules)
        },
    decreases node, node.children@.len() + 1,
{
    let root = directory.len() == 0;
    let children = node.children@;
    let order = visiting_order(children, root, children.len());
    all_visits_take_in(gathered, directory, children, order, 0, rules);
    if let Ok(middle) = visited_all(gathered, directory, children, order, 0, rules) {
        all_are_visited(children, root, children.len());
        descents_take_in(middle, directory, node, order, 0, rules);
        if let Ok(after) = scanned(gathered, directory, node, rules) {
            assert forall|trail: Seq<int>| trail.len() > 0 && #[trigger] leads(
                node,
                root,
                trail,
            ) implies {
                &&& is_met(
                    entry_at(node, trail),
                    directory + path_along(node, trail),
                    after,
                    rules,
                )
                &&& entry_at(node, trail).facts !is Unlisted
            } by {
                let i = trail[0];
                let child = children[i];
                let path = directory.push(decode_utf8(child.name@));
                assert(order.contains(i));
                let k = choose|k: int| 0 <= k < order.len() && order[k] == i;
                assert(is_met(children[order[k]], path, middle, rules));
                order_stays(child, path, middle, after, rules);
                let rest = trail.skip(1);
                assert(directory + path_along(node, trail) =~= path + path_along(child, rest));
                if rest.len() == 0 {
                    assert(entry_at(child, rest) == child);
                    assert(path + path_along(child, rest) =~= path);
                    assert(stays_listed(child, path, after, rules));
                } else {
                    assert(stays_listed(child, path, after, rules));
                    assert(leads(child, false, rest));
                }
            }
        }
    }
}

/// Whether a directory is listed and everything below it is in order.
spec fn stays_listed(
    child: ContentEntry,
    path: Seq<Seq<char>>,
    gathered: Gathered,
    rules: ScanRules,
) -> bool {
    valid_utf8(child.name@) && (child.facts is Directory || child.facts is Unlisted) ==> {
        &&& child.facts !is Unlisted
        &&& holds_order(child, false, path, gathered, rules)
    }
}

proof fn descents_take_in(
    gathered: Gathered,
    directory: Seq<Seq<char>>,
    node: ContentEntry,
    order: Seq<int>,
    next: int,
    rules: ScanRules,
)
    requires
        0 <= next,
        order.len() <= node.children@.len(),
        forall|k: int| 0 <= k < order.len() ==> 0 <= #[trigger] order[k] < node.children@.len(),
    ensures
        descended(gathered, directory, node, order, next, rules) matches Ok(after) ==> {
            &&& extends(gathered, after)
            &&& forall|k: int|
                next <= k < order.len() ==> stays_listed(
                    node.children@[#[trigger] order[k]],
                    directory.push(decode_utf8(node.children@[order[k]].name@)),
                    after,
                    rules,
                )
        },
    decreases
            node,
            (if 0 <= next <= order.len() && order.len() <= node.children@.len() {
                order.len() - next
            } else {
                0
            }),
{
    if next < order.len() {
        let child = node.children@[order[next]];
        let path = directory.push(decode_utf8(child.name@));
        if valid_utf8(child.name@) && (child.facts is Directory || child.facts is Unlisted) {
            assert(decreases_to!(node => node.children@[order[next]]));
            scans_take_in(gathered, path, child, rules);
            if let Ok(middle) = scanned(gathered, path, child, rules) {
                descents_take_in(middle, directory, node, order, next + 1, rules);
                if let Ok(after) = descended(middle, directory, node, order, next + 1, rules) {
                    order_stays_below(child, false, path, middle, after, rules);
                }
            }
        } else {
            descents_take_in(gathered, directory, node, order, next + 1, rules);
        }
    }
}

/// In a tree that was indexed, every entry is in order: there are no links and other special
/// entries, every file is ordinary, every Markdown file has its record, and every other file is an
/// attachment that is allowed and stands where one may.
pub proof fn indexed_trees_are_in_order(root: ContentEntry, rules: ScanRules)
    ensures
        indexed(root, rules) matches Ok(records) ==> root.facts is Directory && forall|
            trail: Seq<int>,
        |
            trail.len() > 0 && #[trigger] leads(root, true, trail) ==> {
                let entry = entry_at(root, trail);
                let path = path_along(root, trail);
                &&& is_in_order(entry, path, records, rules)
                &&& entry.facts is Directory || entry.facts is File
                &&& entry.facts is File && !ends_in_md(path.last()) ==> is_placed(
                    path,
                    records,
                    *rules.limits,
                    *rules.names,
                )
            },
{
    scans_take_in(nothing_gathered(), Seq::empty(), root, rules);
    if let Ok(records) = indexed(root, rules) {
        let gathered = scanned(nothing_gathered(), Seq::empty(), root, rules)->Ok_0;
        attachments_are_placed(gathered.attachments, records, *rules.limits, *rules.names, 0);
        assert forall|trail: Seq<int>| trail.len() > 0 && #[trigger] leads(
            root,
            true,
            trail,
        ) implies {
            let entry = entry_at(root, trail);
            let path = path_along(root, trail);
            &&& is_in_order(entry, path, records, rules)
            &&& entry.facts is Directory || entry.facts is File
            &&& entry.facts is File && !ends_in_md(path.last()) ==> is_placed(
                path,
                records,
                *rules.limits,
                *rules.names,
            )
        } by {
            assert(Seq::<Seq<char>>::empty() + path_along(root, trail) =~= path_along(root, trail));
            assert(is_met(entry_at(root, trail), path_along(root, trail), gathered, rules));
        }
    }
}

/// Whether a record was taken in from a file below a directory.
pub open spec fn is_found_below(
    node: ContentEntry,
    root: bool,
    directory: Seq<Seq<char>>,
    record: RecordView,
    rules: ScanRules,
) -> bool {
    exists|trail: Seq<int>|
        trail.len() > 0 && #[trigger] leads(node, root, trail) && is_file_of(
            entry_at(node, trail),
            directory + path_along(node, trail),
            record,
            rules,
        )
}

/// Whether an entry is the file that a record was taken in from.
pub open spec fn is_file_of(
    entry: ContentEntry,
    path: Seq<Seq<char>>,
    record: RecordView,
    rules: ScanRules,
) -> bool {
    entry.facts matches EntryFacts::File(file) && ends_in_md(path.last()) && is_taken_in(
        path,
        file,
        *rules.policy,
        *rules.names,
        record,
    )
}

proof fn visits_take_in_files(
    gathered: Gathered,
    directory: Seq<Seq<char>>,
    children: Seq<ContentEntry>,
    order: Seq<int>,
    next: int,
    rules: ScanRules,
)
    requires
        0 <= next,
    ensures
        visited_all(gathered, directory, children, order, next, rules) matches Ok(after) ==> {
            &&& gathered.records.len() <= after.records.len()
            &&& forall|i: int|
                gathered.records.len() <= i < after.records.len() ==> exists|k: int|
                    next <= k < order.len() && is_file_of(
                        children[#[trigger] order[k]],
                        directory.push(decode_utf8(children[order[k]].name@)),
                        #[trigger] after.records[i],
                        rules,
                    )
        },
    decreases order.len() - next,
{
    if next < order.len() {
        let entry = children[order[next]];
        let path = directory.push(decode_utf8(entry.name@));
        if let Ok(middle) = visited(gathered, directory, entry, rules) {
            if let EntryFacts::File(file) = entry.facts {
                if let Ok(Inspected::Document { record, total }) = file_found(
                    path,
                    file,
                    gathered.total,
                    *rules.policy,
                    *rules.limits,
                    *rules.names,
                ) {
                    files_are_taken_in_as_they_are(
                        path,
                        file,
                        gathered.total,
                        *rules.policy,
                        *rules.limits,
                        *rules.names,
                        record,
                    );
                    assert(middle.records == gathered.records.push(record));
                    assert(is_file_of(children[order[next]], path, record, rules));
                }
            }
            all_visits_take_in(middle, directory, children, order, next + 1, rules);
            visits_take_in_files(middle, directory, children, order, next + 1, rules);
            if let Ok(after) = visited_all(middle, directory, children, order, next + 1, rules) {
                assert forall|i: int|
                    gathered.records.len() <= i < after.records.len() implies exists|k: int|
                    next <= k < order.len() && is_file_of(
                        children[#[trigger] order[k]],
                        directory.push(decode_utf8(children[order[k]].name@)),
                        #[trigger] after.records[i],
                        rules,
                    ) by {
                    if i < middle.records.len() {
                        assert(after.records[i] == middle.records[i]);
                        assert(is_file_of(children[order[next]], path, after.records[i], rules));
                    } else {
                        let k = choose|k: int|
                            next + 1 <= k < order.len() && is_file_of(
                                children[#[trigger] order[k]],
                                directory.push(decode_utf8(children[order[k]].name@)),
                                after.records[i],
                                rules,
                            );
                        assert(is_file_of(
                            children[order[k]],
                            directory.push(decode_utf8(children[order[k]].name@)),
                            after.records[i],
                            rules,
                        ));
                    }
                }
            }
        }
    }
}

proof fn scans_take_in_files(
    gathered: Gathered,
    directory: Seq<Seq<char>>,
    node: ContentEntry,
    rules: ScanRules,
)
    ensures
        scanned(gathered, directory, node, rules) matches Ok(after) ==> {
            &&& gathered.records.len() <= after.records.len()
            &&& forall|i: int|
                gathered.records.len() <= i < after.records.len() ==> is_found_below(
                    node,
                    directory.len() == 0,
                    directory,
                    #[trigger] after.records[i],
                    rules,
                )
        },
    decreases node, node.children@.len() + 1,
{
    let root = directory.len() == 0;
    let children = node.children@;
    let order = visiting_order(children, root, children.len());
    visits_take_in_files(gathered, directory, children, order, 0, rules);
    if let Ok(middle) = visited_all(gathered, directory, children, order, 0, rules) {
        all_are_visited(children, root, children.len());
        if root {
            git_is_passed_over(children, root, children.len());
        }
        descents_take_in(middle, directory, node, order, 0, rules);
        descents_take_in_files(middle, directory, node, order, 0, rules);
        if let Ok(after) = scanned(gathered, directory, node, rules) {
            assert forall|i: int|
                gathered.records.len() <= i < after.records.len() implies is_found_below(
                node,
                root,
                directory,
                #[trigger] after.records[i],
                rules,
            ) by {
                let record = after.records[i];
                if i < middle.records.len() {
                    assert(middle.records[i] == record);
                    let k = choose|k: int|
                        0 <= k < order.len() && is_file_of(
                            children[#[trigger] order[k]],
                            directory.push(decode_utf8(children[order[k]].name@)),
                            middle.records[i],
                            rules,
                        );
                    let child = children[order[k]];
                    let trail = seq![order[k]];
                    assert(trail.skip(1) =~= Seq::<int>::empty());
                    reveal_with_fuel(leads, 2);
                    reveal_with_fuel(entry_at, 2);
                    reveal_with_fuel(path_along, 2);
                    assert(leads(node, root, trail));
                    assert(entry_at(node, trail) == child);
                    assert(directory + path_along(node, trail) =~= directory.push(
                        decode_utf8(child.name@),
                    ));
                }
            }
        }
    }
}

proof fn git_is_passed_over(children: Seq<ContentEntry>, root: bool, count: nat)
    requires
        count <= children.len(),
        root,
    ensures
        forall|k: int|
            0 <= k < visiting_order(children, root, count).len() ==> children[
            #[trigger] visiting_order(children, root, count)[k]].name@ != seq![
                46u8,
                103,
                105,
                116,
            ],
    decreases count,
{
    if count > 0 {
        let earlier = visiting_order(children, root, (count - 1) as nat);
        git_is_passed_over(children, root, (count - 1) as nat);
        insertion_keeps(children, earlier, count - 1);
        let order = visiting_order(children, root, count);
        assert forall|k: int| 0 <= k < order.len() implies children[
        #[trigger] order[k]].name@ != seq![46u8, 103, 105, 116] by {
            if order[k] != count - 1 {
                assert(earlier.contains(order[k]));
                let at = choose|at: int| 0 <= at < earlier.len() && earlier[at] == order[k];
                assert(children[earlier[at]].name@ != seq![46u8, 103, 105, 116]);
            }
        }
    }
}

proof fn descents_take_in_files(
    gathered: Gathered,
    directory: Seq<Seq<char>>,
    node: ContentEntry,
    order: Seq<int>,
    next: int,
    rules: ScanRules,
)
    requires
        0 <= next,
        order.len() <= node.children@.len(),
        forall|k: int| 0 <= k < order.len() ==> 0 <= #[trigger] order[k] < node.children@.len(),
        directory.len() == 0 ==> forall|k: int|
            0 <= k < order.len() ==> node.children@[#[trigger] order[k]].name@ != seq![
                46u8,
                103,
                105,
                116,
            ],
    ensures
        descended(gathered, directory, node, order, next, rules) matches Ok(after) ==> {
            &&& gathered.records.len() <= after.records.len()
            &&& forall|i: int|
                gathered.records.len() <= i < after.records.len() ==> is_found_below(
                    node,
                    directory.len() == 0,
                    directory,
                    #[trigger] after.records[i],
                    rules,
                )
        },
    decreases
            node,
            (if 0 <= next <= order.len() && order.len() <= node.children@.len() {
                order.len() - next
            } else {
                0
            }),
{
    let root = directory.len() == 0;
    if next < order.len() {
        let child = node.children@[order[next]];
        let path = directory.push(decode_utf8(child.name@));
        if valid_utf8(child.name@) && (child.facts is Directory || child.facts is Unlisted) {
            assert(decreases_to!(node => node.children@[order[next]]));
            scans_take_in_files(gathered, path, child, rules);
            if let Ok(middle) = scanned(gathered, path, child, rules) {
                descents_take_in(middle, directory, node, order, next + 1, rules);
                descents_take_in_files(middle, directory, node, order, next + 1, rules);
                if let Ok(after) = descended(middle, directory, node, order, next + 1, rules) {
                    assert forall|i: int|
                        gathered.records.len() <= i < after.records.len() implies is_found_below(
                        node,
                        root,
                        directory,
                        #[trigger] after.records[i],
                        rules,
                    ) by {
                        let record = after.records[i];
                        if i < middle.records.len() {
                            assert(middle.records[i] == record);
                            assert(is_found_below(child, false, path, middle.records[i], rules));
                            let rest = choose|rest: Seq<int>|
                                rest.len() > 0 && #[trigger] leads(child, false, rest)
                                    && is_file_of(
                                    entry_at(child, rest),
                                    path + path_along(child, rest),
                                    record,
                                    rules,
                                );
                            let trail = seq![order[next]] + rest;
                            assert(trail.skip(1) =~= rest);
                            assert(trail[0] == order[next]);
                            assert(leads(node, root, trail));
                            assert(entry_at(node, trail) == entry_at(child, rest));
                            assert(directory + path_along(node, trail) =~= path + path_along(
                                child,
                                rest,
                            ));
                        }
                    }
                }
            }
        } else {
            descents_take_in_files(gathered, directory, node, order, next + 1, rules);
        }
    }
}

/// Every record of an index is that of a Markdown file of the tree: it stands at the path of the
/// file and says what the file holds.
pub proof fn records_are_those_of_files(root: ContentEntry, rules: ScanRules)
    ensures
        indexed(root, rules) matches Ok(records) ==> forall|i: int|
            0 <= i < records.len() ==> is_found_below(
                root,
                true,
                Seq::empty(),
                #[trigger] records[i],
                rules,
            ),
{
    scans_take_in_files(nothing_gathered(), Seq::empty(), root, rules);
}

/// An entry is refused once the deadline has passed, where its name is no text, where it is a link
/// or special, and where it cannot be inspected. A directory counts as one entry. A file is taken
/// in as what it was found to be; a document of an identity that was met before is refused with
/// both paths, and every other one is added behind those met before.
pub proof fn entries_are_taken_in_one_by_one(
    gathered: Gathered,
    directory: Seq<Seq<char>>,
    entry: ContentEntry,
    rules: ScanRules,
)
    ensures
        ({
            let result = visited(gathered, directory, entry, rules);
            let late = rules.policy.scan_deadline matches Some(deadline) && entry.observed_at
                >= deadline;
            let text = valid_utf8(entry.name@);
            let path = directory.push(decode_utf8(entry.name@));
            &&& late ==> result == Err::<Gathered, IndexFailure>(
                ContentIndexError::ScanDeadlineExceeded,
            )
            &&& !late && !text ==> result == Err::<Gathered, IndexFailure>(
                ContentIndexError::InvalidPathEncoding { directory, name: entry.name@ },
            )
            &&& !late && text ==> {
                &&& entry.facts is Special ==> result == Err::<Gathered, IndexFailure>(
                    ContentIndexError::InvalidEntryType(path),
                )
                &&& entry.facts matches EntryFacts::Unreadable(reason) ==> result == Err::<
                    Gathered,
                    IndexFailure,
                >(ContentIndexError::Io(reason@))
                &&& entry.facts is Directory ==> (result matches Ok(after) && after.entries
                    == gathered.entries + 1 && after.total == gathered.total && after.records
                    == gathered.records && after.attachments == gathered.attachments)
                &&& entry.facts matches EntryFacts::File(file) ==> {
                    let found = file_found(
                        path,
                        file,
                        gathered.total,
                        *rules.policy,
                        *rules.limits,
                        *rules.names,
                    );
                    &&& found matches Err(failure) ==> result == Err::<Gathered, IndexFailure>(
                        failure,
                    )
                    &&& found matches Ok(Inspected::Attachment) ==> (result matches Ok(after)
                        && after.entries == gathered.entries + 1 && after.total == gathered.total
                        && after.records == gathered.records && after.attachments
                        == gathered.attachments.push(path))
                    &&& found matches Ok(Inspected::Document { record, total }) ==> {
                        let met = exists|i: int|
                            0 <= i < gathered.records.len() && (
                            #[trigger] gathered.records[i]).metadata.document_id
                                == record.metadata.document_id;
                        &&& !met ==> (result matches Ok(after) && after.entries
                            == gathered.entries + 1 && after.total == total && after.records
                            == gathered.records.push(record) && after.attachments
                            == gathered.attachments)
                        &&& met ==> (result matches Err(
                            ContentIndexError::DuplicateDocumentId {
                                document_id,
                                first_path,
                                second_path,
                            },
                        ) && document_id == record.metadata.document_id && second_path
                            == record.relative_path && exists|i: int|
                            0 <= i < gathered.records.len() && (
                            #[trigger] gathered.records[i]).metadata.document_id == document_id
                                && gathered.records[i].relative_path == first_path)
                    }
                }
            }
        }),
{
    let path = directory.push(decode_utf8(entry.name@));
    if let EntryFacts::File(file) = entry.facts {
        if let Ok(Inspected::Document { record, total }) = file_found(
            path,
            file,
            gathered.total,
            *rules.policy,
            *rules.limits,
            *rules.names,
        ) {
            positions_are_found(gathered.records, record.metadata.document_id);
        }
    }
}

proof fn positions_are_found(records: Seq<RecordView>, document_id: crate::ids::DocumentId)
    ensures
        crate::index::position(records, document_id) matches Some(i) ==> 0 <= i < records.len()
            && records[i].metadata.document_id == document_id,
        crate::index::position(records, document_id) is None ==> forall|i: int|
            0 <= i < records.len() ==> (#[trigger] records[i]).metadata.document_id != document_id,
    decreases records.len(),
{
    if records.len() > 0 {
        positions_are_found(records.drop_last(), document_id);
        assert forall|i: int|
            0 <= i < records.len() - 1 implies #[trigger] records.drop_last()[i] == records[i] by {}
        if crate::index::position(records, document_id) is None {
            assert forall|i: int| 0 <= i < records.len() implies (
            #[trigger] records[i]).metadata.document_id != document_id by {
                if i < records.len() - 1 {
                    assert(records.drop_last()[i] == records[i]);
                }
            }
        }
    }
}

proof fn all_are_counted(children: Seq<ContentEntry>, root: bool, count: nat)
    requires
        count <= children.len(),
        !root || forall|i: int|
            0 <= i < children.len() ==> (#[trigger] children[i]).name@ != seq![46u8, 103, 105, 116],
    ensures
        visiting_order(children, root, count).len() == count,
    decreases count,
{
    if count > 0 {
        all_are_counted(children, root, (count - 1) as nat);
        insertion_keeps(
            children,
            visiting_order(children, root, (count - 1) as nat),
            count - 1,
        );
        assert(children[count - 1].name@ == children[count - 1].name@);
    }
}

/// A directory is entered only before the deadline, where it can be listed, and where the entries
/// met so far and its own are together no more than there may be.
pub proof fn directories_are_entered_within_limits(
    gathered: Gathered,
    directory: Seq<Seq<char>>,
    node: ContentEntry,
    rules: ScanRules,
)
    requires
        directory.len() > 0 || forall|i: int|
            0 <= i < node.children@.len() ==> (#[trigger] node.children@[i]).name@ != seq![
                46u8,
                103,
                105,
                116,
            ],
    ensures
        ({
            let result = scanned(gathered, directory, node, rules);
            let maximum = rules.policy.maximum_entry_count;
            let late = rules.policy.scan_deadline matches Some(deadline) && node.listed_at
                >= deadline;
            let many = gathered.entries + node.children@.len() > maximum;
            &&& late ==> result == Err::<Gathered, IndexFailure>(
                ContentIndexError::ScanDeadlineExceeded,
            )
            &&& !late ==> (node.facts matches EntryFacts::Unlisted(reason) ==> result == Err::<
                Gathered,
                IndexFailure,
            >(ContentIndexError::Io(reason@)))
            &&& !late && node.facts !is Unlisted && many ==> result == Err::<
                Gathered,
                IndexFailure,
            >(ContentIndexError::EntryLimitExceeded { maximum })
            &&& result is Ok ==> !late && node.facts !is Unlisted && !many
        }),
{
    all_are_counted(node.children@, directory.len() == 0, node.children@.len());
}

/// Whether a directory cannot be entered.
pub open spec fn is_not_entered(
    node: ContentEntry,
    failure: IndexFailure,
    rules: ScanRules,
) -> bool {
    ||| failure is ScanDeadlineExceeded && (rules.policy.scan_deadline matches Some(deadline)
        && node.listed_at >= deadline)
    ||| node.facts matches EntryFacts::Unlisted(reason) && failure == IndexFailure::Io(reason@)
    ||| failure == (IndexFailure::EntryLimitExceeded {
        maximum: rules.policy.maximum_entry_count,
    })
}

/// Whether something below a directory, or the directory itself, is what a tree is refused for.
pub open spec fn is_refused_below(
    node: ContentEntry,
    root: bool,
    directory: Seq<Seq<char>>,
    failure: IndexFailure,
    rules: ScanRules,
) -> bool {
    exists|trail: Seq<int>| #[trigger]
        leads(node, root, trail) && {
            ||| is_not_entered(entry_at(node, trail), failure, rules)
            ||| trail.len() > 0 && is_refused(
                entry_at(node, trail),
                directory + path_along(node, trail).drop_last(),
                failure,
                rules,
            )
        }
}

/// Whether an entry is refused behind something that was met before.
pub open spec fn is_refused(
    entry: ContentEntry,
    directory: Seq<Seq<char>>,
    failure: IndexFailure,
    rules: ScanRules,
) -> bool {
    exists|before: Gathered| #[trigger]
        visited(before, directory, entry, rules) == Err::<Gathered, IndexFailure>(failure)
}

proof fn visits_are_refused(
    gathered: Gathered,
    directory: Seq<Seq<char>>,
    children: Seq<ContentEntry>,
    order: Seq<int>,
    next: int,
    rules: ScanRules,
)
    requires
        0 <= next,
    ensures
        visited_all(gathered, directory, children, order, next, rules) matches Err(failure)
            ==> exists|k: int|
            next <= k < order.len() && is_refused(
                children[#[trigger] order[k]],
                directory,
                failure,
                rules,
            ),
    decreases order.len() - next,
{
    if next < order.len() {
        match visited(gathered, directory, children[order[next]], rules) {
            Err(failure) => {
                assert(is_refused(children[order[next]], directory, failure, rules));
            },
            Ok(middle) => {
                visits_are_refused(middle, directory, children, order, next + 1, rules);
            },
        }
    }
}

proof fn scans_are_refused(
    gathered: Gathered,
    directory: Seq<Seq<char>>,
    node: ContentEntry,
    rules: ScanRules,
)
    ensures
        scanned(gathered, directory, node, rules) matches Err(failure) ==> is_refused_below(
            node,
            directory.len() == 0,
            directory,
            failure,
            rules,
        ),
    decreases node, node.children@.len() + 1,
{
    let root = directory.len() == 0;
    let children = node.children@;
    let order = visiting_order(children, root, children.len());
    all_are_visited(children, root, children.len());
    if root {
        git_is_passed_over(children, root, children.len());
    }
    visits_are_refused(gathered, directory, children, order, 0, rules);
    if let Err(failure) = scanned(gathered, directory, node, rules) {
        let none = Seq::<int>::empty();
        assert(leads(node, root, none));
        assert(entry_at(node, none) == node);
        if !is_not_entered(node, failure, rules) {
            match visited_all(gathered, directory, children, order, 0, rules) {
                Err(_) => {
                    let k = choose|k: int|
                        0 <= k < order.len() && is_refused(
                            children[#[trigger] order[k]],
                            directory,
                            failure,
                            rules,
                        );
                    let trail = seq![order[k]];
                    assert(trail.skip(1) =~= Seq::<int>::empty());
                    reveal_with_fuel(leads, 2);
                    reveal_with_fuel(entry_at, 2);
                    reveal_with_fuel(path_along, 2);
                    assert(leads(node, root, trail));
                    assert(directory + path_along(node, trail).drop_last() =~= directory);
                },
                Ok(middle) => {
                    descents_are_refused(middle, directory, node, order, 0, rules);
                },
            }
        }
    }
}

proof fn descents_are_refused(
    gathered: Gathered,
    directory: Seq<Seq<char>>,
    node: ContentEntry,
    order: Seq<int>,
    next: int,
    rules: ScanRules,
)
    requires
        0 <= next,
        order.len() <= node.children@.len(),
        forall|k: int| 0 <= k < order.len() ==> 0 <= #[trigger] order[k] < node.children@.len(),
        directory.len() == 0 ==> forall|k: int|
            0 <= k < order.len() ==> node.children@[#[trigger] order[k]].name@ != seq![
                46u8,
                103,
                105,
                116,
            ],
    ensures
        descended(gathered, directory, node, order, next, rules) matches Err(failure)
            ==> is_refused_below(node, directory.len() == 0, directory, failure, rules),
    decreases
            node,
            (if 0 <= next <= order.len() && order.len() <= node.children@.len() {
                order.len() - next
            } else {
                0
            }),
{
    let root = directory.len() == 0;
    if next < order.len() {
        let child = node.children@[order[next]];
        let path = directory.push(decode_utf8(child.name@));
        if valid_utf8(child.name@) && (child.facts is Directory || child.facts is Unlisted) {
            assert(decreases_to!(node => node.children@[order[next]]));
            scans_are_refused(gathered, path, child, rules);
            match scanned(gathered, path, child, rules) {
                Err(failure) => {
                    let rest = choose|rest: Seq<int>| #[trigger]
                        leads(child, false, rest) && {
                            ||| is_not_entered(entry_at(child, rest), failure, rules)
                            ||| rest.len() > 0 && is_refused(
                                entry_at(child, rest),
                                path + path_along(child, rest).drop_last(),
                                failure,
                                rules,
                            )
                        };
                    let trail = seq![order[next]] + rest;
                    assert(trail.skip(1) =~= rest);
                    assert(trail[0] == order[next]);
                    assert(leads(node, root, trail));
                    assert(entry_at(node, trail) == entry_at(child, rest));
                    if rest.len() > 0 {
                        path_is_as_long(child, rest);
                        assert(directory + path_along(node, trail).drop_last() =~= path
                            + path_along(child, rest).drop_last());
                    }
                },
                Ok(middle) => {
                    descents_are_refused(middle, directory, node, order, next + 1, rules);
                },
            }
        } else {
            descents_are_refused(gathered, directory, node, order, next + 1, rules);
        }
    }
}

proof fn path_is_as_long(node: ContentEntry, trail: Seq<int>)
    ensures
        path_along(node, trail).len() == trail.len(),
    decreases trail.len(),
{
    if trail.len() > 0 {
        path_is_as_long(node.children@[trail[0]], trail.skip(1));
    }
}

/// A tree is refused only for something in it: its root is no directory or cannot be inspected, a
/// directory cannot be entered, an entry is refused, or an attachment stands where none may.
pub proof fn trees_are_refused_for_what_they_hold(root: ContentEntry, rules: ScanRules)
    ensures
        indexed(root, rules) matches Err(failure) ==> {
            ||| root.facts matches EntryFacts::Unreadable(reason) && failure == IndexFailure::Io(
                reason@,
            )
            ||| (root.facts is File || root.facts is Special) && failure is InvalidRoot
            ||| is_refused_below(root, true, Seq::empty(), failure, rules)
            ||| scanned(nothing_gathered(), Seq::empty(), root, rules) matches Ok(gathered) && exists|
                k: int,
            |
                0 <= k < gathered.attachments.len() && !is_placed(
                    #[trigger] gathered.attachments[k],
                    gathered.records,
                    *rules.limits,
                    *rules.names,
                ) && (failure == IndexFailure::InvalidAttachmentPath(gathered.attachments[k])
                    || failure == IndexFailure::OrphanAttachment(gathered.attachments[k]))
        },
{
    scans_are_refused(nothing_gathered(), Seq::empty(), root, rules);
    if let Ok(gathered) = scanned(nothing_gathered(), Seq::empty(), root, rules) {
        if crate::index::first_misplaced(
            gathered.attachments,
            gathered.records,
            *rules.limits,
            *rules.names,
            0,
        ) is Some {
            misplaced_are_found(
                gathered.attachments,
                gathered.records,
                *rules.limits,
                *rules.names,
                0,
            );
        }
    }
}

proof fn misplaced_are_found(
    attachments: Seq<Seq<Seq<char>>>,
    records: Seq<RecordView>,
    limits: PackageLimits,
    names: NameRules,
    next: int,
)
    requires
        0 <= next,
    ensures
        crate::index::first_misplaced(attachments, records, limits, names, next) matches Some(
            failure,
        ) ==> exists|k: int|
            next <= k < attachments.len() && !is_placed(
                #[trigger] attachments[k],
                records,
                limits,
                names,
            ) && (failure == IndexFailure::InvalidAttachmentPath(attachments[k]) || failure
                == IndexFailure::OrphanAttachment(attachments[k])),
    decreases attachments.len() - next,
{
    if next < attachments.len() {
        misplaced_are_found(attachments, records, limits, names, next + 1);
        let path = attachments[next];
        if crate::index::misplaced(path, records, limits, names) is Some {
            if is_placed(path, records, limits, names) {
                assert(names.is_attachment(path.last()));
                assert(!crate::index::beside_document(path, records));
                assert forall|i: int| 3 <= i < path.len() implies names.is_attachment(
                    #[trigger] path[i],
                ) by {
                    assert(texts(names.attachments@).contains(path[i]));
                }
                assert(is_asset(path, limits, names));
            }
            assert(!is_placed(attachments[next], records, limits, names));
        }
    }
}

/// Whether entries stand in the order of their names.
spec fn stand_in_order(children: Seq<ContentEntry>, order: Seq<int>) -> bool {
    forall|a: int, b: int|
        0 <= a < b < order.len() ==> !crate::text::bytes_before(
            children[#[trigger] order[b]].name@,
            children[#[trigger] order[a]].name@,
            0,
        )
}

proof fn insertion_keeps_order(children: Seq<ContentEntry>, order: Seq<int>, entry: int)
    requires
        stand_in_order(children, order),
    ensures
        stand_in_order(children, crate::index::inserted(children, order, entry)),
    decreases order.len(),
{
    let more = crate::index::inserted(children, order, entry);
    let name = children[entry].name@;
    if order.len() > 0 {
        let last = children[order.last()].name@;
        let fewer = order.drop_last();
        assert(stand_in_order(children, fewer)) by {
            assert forall|a: int, b: int| 0 <= a < b < fewer.len() implies !crate::text::bytes_before(
                children[#[trigger] fewer[b]].name@,
                children[#[trigger] fewer[a]].name@,
                0,
            ) by {
                assert(fewer[a] == order[a] && fewer[b] == order[b]);
            }
        }
        if crate::text::bytes_before(name, last, 0) {
            let inner = crate::index::inserted(children, fewer, entry);
            insertion_keeps_order(children, fewer, entry);
            insertion_keeps(children, fewer, entry);
            assert forall|a: int, b: int| 0 <= a < b < more.len() implies !crate::text::bytes_before(
                children[#[trigger] more[b]].name@,
                children[#[trigger] more[a]].name@,
                0,
            ) by {
                if b < inner.len() {
                    assert(more[a] == inner[a] && more[b] == inner[b]);
                } else {
                    assert(more[a] == inner[a]);
                    assert(more[b] == order.last());
                    if inner[a] == entry {
                        crate::text::bytes_before_is_an_order(name, last, name, 0);
                    } else {
                        let k = choose|k: int| 0 <= k < fewer.len() && fewer[k] == inner[a];
                        assert(order[k] == inner[a]);
                        assert(order[order.len() - 1] == order.last());
                    }
                }
            }
        } else {
            assert forall|a: int, b: int| 0 <= a < b < more.len() implies !crate::text::bytes_before(
                children[#[trigger] more[b]].name@,
                children[#[trigger] more[a]].name@,
                0,
            ) by {
                if b < order.len() {
                    assert(more[a] == order[a] && more[b] == order[b]);
                } else {
                    assert(more[a] == order[a] && more[b] == entry);
                    let other = children[order[a]].name@;
                    assert(order[order.len() - 1] == order.last());
                    crate::text::bytes_before_is_an_order(name, other, last, 0);
                    crate::text::bytes_before_is_an_order(other, last, other, 0);
                    assert(other.skip(0) =~= other && last.skip(0) =~= last);
                }
            }
        }
    }
}

proof fn visits_stand_in_order(children: Seq<ContentEntry>, root: bool, count: nat)
    ensures
        stand_in_order(children, visiting_order(children, root, count)),
    decreases count,
{
    if count > 0 {
        visits_stand_in_order(children, root, (count - 1) as nat);
        insertion_keeps_order(
            children,
            visiting_order(children, root, (count - 1) as nat),
            count - 1,
        );
    }
}

/// The entries of a directory are visited in the order of their names, each of them once, but for
/// what stands under the name `.git` at the root of a store.
pub proof fn entries_are_visited_in_name_order(children: Seq<ContentEntry>, root: bool)
    ensures
        ({
            let order = visiting_order(children, root, children.len());
            &&& forall|a: int, b: int|
                0 <= a < b < order.len() ==> in_byte_order(
                    children[#[trigger] order[a]].name@,
                    children[#[trigger] order[b]].name@,
                )
            &&& forall|i: int|
                0 <= i < children.len() && !(root && (#[trigger] children[i]).name@ == seq![
                    46u8,
                    103,
                    105,
                    116,
                ]) ==> order.contains(i)
            &&& forall|k: int| 0 <= k < order.len() ==> 0 <= #[trigger] order[k] < children.len()
            &&& order.len() <= children.len()
        }),
{
    let order = visiting_order(children, root, children.len());
    all_are_visited(children, root, children.len());
    visits_stand_in_order(children, root, children.len());
    assert forall|a: int, b: int| 0 <= a < b < order.len() implies in_byte_order(
        children[#[trigger] order[a]].name@,
        children[#[trigger] order[b]].name@,
    ) by {
        not_before_is_byte_order(children[order[a]].name@, children[order[b]].name@);
    }
}

} // verus!
