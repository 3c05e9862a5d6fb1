//! What holds of every bundle: its names, their order and its bounds.
use crate::ids::DocumentId;
use crate::index::{
    attachment_paths, attachments_below, inserted, own_attachments, tree_attachments,
    visiting_order, visiting_order_is_in_range, ContentEntry, RecordView,
};
use crate::order::{path_before, path_order_is_total, paths_differ_or_order};
use crate::read::{
    attachment_placed, attachment_views, attachments_beside, bundle_of, bundled,
    stands_beside, total_bytes, AttachmentView, BundleReads, CommittedSnapshot, EntryView,
    PinnedRead,
};
use crate::text::bytes_before;
use vstd::prelude::*;
use vstd::utf8::{decode_utf8, decode_utf8_encode_utf8, encode_utf8, valid_utf8};

verus! {

/// Whether attachments stand in strictly ascending path order.
pub open spec fn is_rising(attachments: Seq<AttachmentView>) -> bool {
    forall|i: int, j: int|
        0 <= i < j < attachments.len() ==> path_before(
            (#[trigger] attachments[i]).relative_path,
            (#[trigger] attachments[j]).relative_path,
            0,
        )
}

proof fn placing_keeps_rising(attachments: Seq<AttachmentView>, added: AttachmentView)
    requires
        is_rising(attachments),
        forall|i: int|
            0 <= i < attachments.len() ==> (#[trigger] attachments[i]).relative_path
                != added.relative_path,
    ensures
        is_rising(attachment_placed(attachments, added)),
        forall|other: AttachmentView| #[trigger]
            attachment_placed(attachments, added).contains(other) <==> attachments.contains(other)
                || other == added,
    decreases attachments.len(),
{
    let placed = attachment_placed(attachments, added);
    if attachments.len() == 0 || !path_before(
        added.relative_path,
        attachments.last().relative_path,
        0,
    ) {
        assert forall|i: int, j: int| 0 <= i < j < placed.len() implies path_before(
            (#[trigger] placed[i]).relative_path,
            (#[trigger] placed[j]).relative_path,
            0,
        ) by {
            if j == attachments.len() {
                let last = attachments.last().relative_path;
                assert(attachments[attachments.len() - 1].relative_path != added.relative_path);
                if !path_before(last, added.relative_path, 0) {
                    paths_differ_or_order(last, added.relative_path, 0);
                    assert(last.skip(0) =~= last);
                    assert(added.relative_path.skip(0) =~= added.relative_path);
                }
                if i < attachments.len() - 1 {
                    path_order_is_total(placed[i].relative_path, last, added.relative_path, 0);
                }
            }
        }
        assert forall|other: AttachmentView| #[trigger] placed.contains(other)
            <==> attachments.contains(other) || other == added by {
            pushing_adds(attachments, added, other);
        }
    } else {
        let rest = attachments.drop_last();
        let last = attachments.last();
        assert(attachments =~= rest.push(last));
        placing_keeps_rising(rest, added);
        let inner = attachment_placed(rest, added);
        assert forall|i: int, j: int| 0 <= i < j < placed.len() implies path_before(
            (#[trigger] placed[i]).relative_path,
            (#[trigger] placed[j]).relative_path,
            0,
        ) by {
            assert(placed[i] == inner[i]);
            if j == inner.len() {
                assert(inner.contains(inner[i]));
                if inner[i] != added {
                    let k = choose|k: int| 0 <= k < rest.len() && rest[k] == inner[i];
                    assert(attachments[k] == inner[i]);
                    assert(attachments[attachments.len() - 1] == last);
                }
            } else {
                assert(placed[j] == inner[j]);
            }
        }
        assert forall|other: AttachmentView| #[trigger] placed.contains(other)
            <==> attachments.contains(other) || other == added by {
            pushing_adds(inner, last, other);
            pushing_adds(rest, last, other);
        }
    }
}

proof fn pushing_adds(attachments: Seq<AttachmentView>, added: AttachmentView, other: AttachmentView)
    ensures
        attachments.push(added).contains(other) <==> attachments.contains(other) || other == added,
{
    let more = attachments.push(added);
    if attachments.contains(other) {
        let i = choose|i: int| 0 <= i < attachments.len() && attachments[i] == other;
        assert(more[i] == other);
    }
    if other == added {
        assert(more[attachments.len() as int] == other);
    }
    if more.contains(other) {
        let i = choose|i: int| 0 <= i < more.len() && more[i] == other;
        if i < attachments.len() {
            assert(attachments[i] == other);
        }
    }
}

/// The attachments beside a document are exactly those that stand in its directory, in strictly
/// ascending path order.
pub proof fn attachments_beside_are_sorted(attachments: Seq<AttachmentView>, record: RecordView)
    requires
        attachment_paths(attachments).no_duplicates(),
    ensures
        is_rising(attachments_beside(attachments, record)),
        forall|other: AttachmentView| #[trigger]
            attachments_beside(attachments, record).contains(other) <==> attachments.contains(other)
                && stands_beside(other, record),
    decreases attachments.len(),
{
    if attachments.len() > 0 {
        let rest = attachments.drop_last();
        let last = attachments.last();
        let paths = attachment_paths(attachments);
        assert(attachments =~= rest.push(last));
        assert(attachment_paths(rest) =~= paths.drop_last());
        attachments_beside_are_sorted(rest, record);
        let earlier = attachments_beside(rest, record);
        if stands_beside(last, record) {
            assert forall|i: int| 0 <= i < earlier.len() implies (
            #[trigger] earlier[i]).relative_path != last.relative_path by {
                assert(earlier.contains(earlier[i]));
                let k = choose|k: int| 0 <= k < rest.len() && rest[k] == earlier[i];
                assert(paths[k] != paths[attachments.len() - 1]);
            }
            placing_keeps_rising(earlier, last);
        }
        assert forall|other: AttachmentView| #[trigger]
            attachments_beside(attachments, record).contains(other) <==> attachments.contains(other)
                && stands_beside(other, record) by {
            pushing_adds(rest, last, other);
            assert(earlier.contains(other) <==> rest.contains(other) && stands_beside(
                other,
                record,
            ));
        }
    }
}

/// In one directory, paths stand in the byte order of their names.
proof fn names_order_one_directory(left: Seq<Seq<char>>, right: Seq<Seq<char>>, index: int)
    requires
        left.len() == right.len() > 0,
        left.drop_last() == right.drop_last(),
        0 <= index < left.len(),
        path_before(left, right, index),
    ensures
        bytes_before(encode_utf8(left.last()), encode_utf8(right.last()), 0),
    decreases left.len() - index,
{
    if index < left.len() - 1 {
        assert(left.drop_last()[index] == right.drop_last()[index]);
        names_order_one_directory(left, right, index + 1);
    } else {
        assert(!path_before(left, right, index + 1));
    }
}

/// The bytes of entries.
pub open spec fn entry_bytes(entries: Seq<EntryView>) -> nat
    decreases entries.len(),
{
    if entries.len() == 0 {
        0
    } else {
        entry_bytes(entries.drop_last()) + entries.last().1.len()
    }
}

proof fn bundled_entries(
    document_id: DocumentId,
    attachments: Seq<AttachmentView>,
    reads: Seq<(PinnedRead, PinnedRead)>,
    count: nat,
)
    requires
        count <= attachments.len(),
    ensures
        bundled(document_id, attachments, reads, count) matches Ok(entries) ==> {
            &&& entries.len() == count
            &&& entry_bytes(entries) == total_bytes(attachments.take(count as int))
            &&& forall|i: int|
                0 <= i < count ==> (#[trigger] entries[i]).0 == attachments[i].relative_path.last()
        },
    decreases count,
{
    if count > 0 {
        bundled_entries(document_id, attachments, reads, (count - 1) as nat);
        if let Ok(entries) = bundled(document_id, attachments, reads, count) {
            let earlier = bundled(document_id, attachments, reads, (count - 1) as nat)->Ok_0;
            assert(entries.drop_last() =~= earlier);
            assert(attachments.take(count as int).drop_last() =~= attachments.take(count - 1));
        }
    } else {
        assert(attachments.take(0) =~= Seq::<AttachmentView>::empty());
    }
}

/// Entry bytes add up over two lists.
proof fn entry_bytes_add(first: Seq<EntryView>, second: Seq<EntryView>)
    ensures
        entry_bytes(first + second) == entry_bytes(first) + entry_bytes(second),
    decreases second.len(),
{
    if second.len() == 0 {
        assert(first + second =~= first);
    } else {
        assert((first + second).drop_last() =~= first + second.drop_last());
        entry_bytes_add(first, second.drop_last());
    }
}

/// In a bundle the document comes first, as `index.md`. The names behind it ascend strictly, and
/// are exactly those of the attachments that stand beside the document.
pub proof fn bundles_stand_in_name_order(
    snapshot: CommittedSnapshot,
    document_id: DocumentId,
    reads: BundleReads,
    begun: u64,
)
    requires
        attachment_paths(attachment_views(snapshot.attachments@)).no_duplicates(),
    ensures
        bundle_of(snapshot, document_id, reads, begun) matches Ok((record, entries)) ==> {
            let attachments = attachment_views(snapshot.attachments@);
            &&& entries.len() > 0
            &&& entries[0].0 == "index.md"@
            &&& forall|i: int, j: int|
                1 <= i < j < entries.len() ==> bytes_before(
                    encode_utf8((#[trigger] entries[i]).0),
                    encode_utf8((#[trigger] entries[j]).0),
                    0,
                )
            &&& forall|i: int|
                1 <= i < entries.len() ==> names_one_beside(attachments, record, (
                #[trigger] entries[i]).0)
            &&& forall|name: Seq<char>| #[trigger]
                names_one_beside(attachments, record, name) ==> exists|i: int|
                    1 <= i < entries.len() && (#[trigger] entries[i]).0 == name
        },
{
    if let Ok((record, entries)) = bundle_of(snapshot, document_id, reads, begun) {
        let attachments = attachment_views(snapshot.attachments@);
        let beside = attachments_beside(attachments, record);
        attachments_beside_are_sorted(attachments, record);
        bundled_entries(document_id, beside, reads.attachments@, beside.len());
        assert forall|i: int| 1 <= i < entries.len() implies (#[trigger] entries[i]).0 == beside[i
            - 1].relative_path.last() && beside.contains(beside[i - 1]) by {
        }
        assert forall|i: int, j: int| 1 <= i < j < entries.len() implies bytes_before(
            encode_utf8((#[trigger] entries[i]).0),
            encode_utf8((#[trigger] entries[j]).0),
            0,
        ) by {
            let left = beside[i - 1].relative_path;
            let right = beside[j - 1].relative_path;
            assert(beside.contains(beside[i - 1]) && beside.contains(beside[j - 1]));
            assert(left.drop_last().len() == right.drop_last().len());
            names_order_one_directory(left, right, 0);
        }
        assert forall|i: int| 1 <= i < entries.len() implies names_one_beside(
            attachments,
            record,
            (#[trigger] entries[i]).0,
        ) by {
            assert(beside.contains(beside[i - 1]));
            assert(is_named(attachments, record, beside[i - 1], entries[i].0));
        }
        assert forall|name: Seq<char>| #[trigger]
            names_one_beside(attachments, record, name) implies exists|i: int|
            1 <= i < entries.len() && (#[trigger] entries[i]).0 == name by {
            let one = choose|one: AttachmentView| #[trigger] is_named(attachments, record, one, name);
            assert(beside.contains(one));
            let k = choose|k: int| 0 <= k < beside.len() && beside[k] == one;
            assert(entries[k + 1].0 == name);
        }
    }
}

/// Whether an attachment of a list stands beside a document under a name.
pub open spec fn is_named(
    attachments: Seq<AttachmentView>,
    record: RecordView,
    attachment: AttachmentView,
    name: Seq<char>,
) -> bool {
    attachments.contains(attachment) && stands_beside(attachment, record)
        && attachment.relative_path.last() == name
}

/// Whether some attachment of a list stands beside a document under a name.
pub open spec fn names_one_beside(
    attachments: Seq<AttachmentView>,
    record: RecordView,
    name: Seq<char>,
) -> bool {
    exists|attachment: AttachmentView| #[trigger] is_named(attachments, record, attachment, name)
}

/// A bundle stays within the bounds of its snapshot: it has no more entries than it may have, and
/// no more bytes.
pub proof fn bundles_stay_within_bounds(
    snapshot: CommittedSnapshot,
    document_id: DocumentId,
    reads: BundleReads,
    begun: u64,
)
    ensures
        bundle_of(snapshot, document_id, reads, begun) matches Ok((record, entries)) ==> {
            &&& entries.len() <= snapshot.maximum_bundle_entries
            &&& entry_bytes(entries) <= snapshot.maximum_bundle_bytes
        },
{
    if let Ok((record, entries)) = bundle_of(snapshot, document_id, reads, begun) {
        let beside = attachments_beside(attachment_views(snapshot.attachments@), record);
        bundled_entries(document_id, beside, reads.attachments@, beside.len());
        assert(beside.take(beside.len() as int) =~= beside);
        let behind = bundled(document_id, beside, reads.attachments@, beside.len())->Ok_0;
        let first = seq![entries[0]];
        assert(entries =~= first + behind);
        assert(entry_bytes(first) == entries[0].1.len()) by {
            reveal_with_fuel(entry_bytes, 2);
        }
        entry_bytes_add(first, behind);
    }
}

/// Whether no directory of a content tree holds two entries of one name.
pub open spec fn has_distinct_names(node: ContentEntry) -> bool
    decreases node,
{
    &&& forall|i: int, j: int|
        0 <= i < j < node.children@.len() ==> (#[trigger] node.children@[i]).name@ != (
        #[trigger] node.children@[j]).name@
    &&& forall|i: int|
        0 <= i < node.children@.len() ==> has_distinct_names(#[trigger] node.children@[i])
}

proof fn inserted_once(children: Seq<ContentEntry>, order: Seq<int>, entry: int)
    requires
        order.no_duplicates(),
        !order.contains(entry),
    ensures
        inserted(children, order, entry).no_duplicates(),
        forall|i: int|
            0 <= i < inserted(children, order, entry).len() ==> (#[trigger] inserted(
                children,
                order,
                entry,
            )[i]) == entry || order.contains(inserted(children, order, entry)[i]),
    decreases order.len(),
{
    let result = inserted(children, order, entry);
    if order.len() > 0 && bytes_before(children[entry].name@, children[order.last()].name@, 0) {
        let rest = order.drop_last();
        assert forall|i: int| 0 <= i < rest.len() implies rest[i] != entry by {
            assert(order.contains(order[i]));
        }
        inserted_once(children, rest, entry);
        let inner = inserted(children, rest, entry);
        assert forall|i: int| 0 <= i < inner.len() implies #[trigger] inner[i] != order.last() && (
        inner[i] == entry || order.contains(inner[i])) by {
            if inner[i] != entry {
                let k = choose|k: int| 0 <= k < rest.len() && rest[k] == inner[i];
                assert(order[k] == inner[i]);
                assert(order[k] != order[order.len() - 1]);
            } else {
                assert(order.contains(order[order.len() - 1]));
            }
        }
        assert forall|i: int| 0 <= i < result.len() implies #[trigger] result[i] == entry
            || order.contains(result[i]) by {
            if i < inner.len() {
                assert(result[i] == inner[i]);
            } else {
                assert(order[order.len() - 1] == result[i]);
            }
        }
        assert forall|i: int, j: int| 0 <= i < result.len() && 0 <= j < result.len() && i
            != j implies result[i] != result[j] by {
            if i < inner.len() && j < inner.len() {
                assert(inner[i] != inner[j]);
            } else if i < inner.len() {
                assert(inner[i] != order.last());
            } else {
                assert(inner[j] != order.last());
            }
        }
    } else {
        assert forall|i: int| 0 <= i < result.len() implies #[trigger] result[i] == entry
            || order.contains(result[i]) by {
            if i < order.len() {
                assert(result[i] == order[i]);
            }
        }
        assert forall|i: int, j: int| 0 <= i < result.len() && 0 <= j < result.len() && i
            != j implies result[i] != result[j] by {
            if i < order.len() {
                assert(order.contains(order[i]));
            }
            if j < order.len() {
                assert(order.contains(order[j]));
            }
        }
    }
}

proof fn visited_once(children: Seq<ContentEntry>, root: bool, count: nat)
    requires
        count <= children.len(),
    ensures
        visiting_order(children, root, count).no_duplicates(),
    decreases count,
{
    if count > 0 {
        let earlier = visiting_order(children, root, (count - 1) as nat);
        visited_once(children, root, (count - 1) as nat);
        visiting_order_is_in_range(children, root, (count - 1) as nat);
        inserted_once(children, earlier, count - 1);
    }
}

/// Whether an entry of a directory lies on the way to a path.
spec fn leads_to(
    directory: Seq<Seq<char>>,
    children: Seq<ContentEntry>,
    order: Seq<int>,
    at: int,
    path: Seq<Seq<char>>,
) -> bool {
    &&& path.len() > directory.len()
    &&& path.take(directory.len() as int) == directory
    &&& valid_utf8(children[order[at]].name@)
    &&& path[directory.len() as int] == decode_utf8(children[order[at]].name@)
}

/// Whether a path is reached through an entry of a directory from position `next` on.
spec fn is_reached(
    directory: Seq<Seq<char>>,
    children: Seq<ContentEntry>,
    order: Seq<int>,
    next: int,
    path: Seq<Seq<char>>,
) -> bool {
    exists|at: int|
        next <= at < order.len() && #[trigger] leads_to(directory, children, order, at, path)
}

/// Whether each attachment is reached through an entry of a directory from position `next` on.
spec fn all_reached(
    directory: Seq<Seq<char>>,
    children: Seq<ContentEntry>,
    order: Seq<int>,
    next: int,
    attachments: Seq<AttachmentView>,
) -> bool {
    forall|i: int|
        0 <= i < attachments.len() ==> is_reached(
            directory,
            children,
            order,
            next,
            (#[trigger] attachments[i]).relative_path,
        )
}

/// Two entries of one directory lead to different paths.
proof fn ways_differ(
    directory: Seq<Seq<char>>,
    node: ContentEntry,
    order: Seq<int>,
    first: int,
    second: int,
    path: Seq<Seq<char>>,
    other: Seq<Seq<char>>,
)
    requires
        has_distinct_names(node),
        order.no_duplicates(),
        forall|i: int|
            0 <= i < order.len() ==> 0 <= #[trigger] order[i] < node.children@.len(),
        0 <= first < second < order.len(),
        leads_to(directory, node.children@, order, first, path),
        leads_to(directory, node.children@, order, second, other),
    ensures
        path != other,
{
    assert(order[first] != order[second]);
    let left = node.children@[order[first]].name@;
    let right = node.children@[order[second]].name@;
    assert(left != right);
    decode_utf8_encode_utf8(left);
    decode_utf8_encode_utf8(right);
}

/// Attachments that are each there once, behind others that are reached through earlier entries.
proof fn joined_once(
    directory: Seq<Seq<char>>,
    node: ContentEntry,
    order: Seq<int>,
    next: int,
    first: Seq<AttachmentView>,
    later: Seq<AttachmentView>,
)
    requires
        has_distinct_names(node),
        order.no_duplicates(),
        forall|i: int|
            0 <= i < order.len() ==> 0 <= #[trigger] order[i] < node.children@.len(),
        0 <= next < order.len(),
        forall|i: int|
            0 <= i < first.len() ==> leads_to(
                directory,
                node.children@,
                order,
                next,
                (#[trigger] first[i]).relative_path,
            ),
        attachment_paths(first).no_duplicates(),
        all_reached(directory, node.children@, order, next + 1, later),
        attachment_paths(later).no_duplicates(),
    ensures
        attachment_paths(first + later).no_duplicates(),
        all_reached(directory, node.children@, order, next, first + later),
{
    let all = first + later;
    let paths = attachment_paths(all);
    assert forall|i: int, j: int| 0 <= i < paths.len() && 0 <= j < paths.len() && i != j implies paths[i]
        != paths[j] by {
        if i < first.len() && j < first.len() {
            assert(attachment_paths(first)[i] != attachment_paths(first)[j]);
        } else if i >= first.len() && j >= first.len() {
            assert(attachment_paths(later)[i - first.len()] != attachment_paths(later)[j
                - first.len()]);
        } else {
            let near = if i < first.len() {
                i
            } else {
                j
            };
            let far = if i < first.len() {
                j
            } else {
                i
            };
            let beyond = later[far - first.len()].relative_path;
            assert(is_reached(directory, node.children@, order, next + 1, beyond));
            let at = choose|at: int|
                next + 1 <= at < order.len() && #[trigger] leads_to(
                    directory,
                    node.children@,
                    order,
                    at,
                    beyond,
                );
            assert(first[near] == all[near] && later[far - first.len()] == all[far]);
            ways_differ(directory, node, order, next, at, first[near].relative_path, beyond);
        }
    }
    assert forall|i: int| 0 <= i < all.len() implies is_reached(
        directory,
        node.children@,
        order,
        next,
        (#[trigger] all[i]).relative_path,
    ) by {
        if i < first.len() {
            assert(all[i] == first[i]);
            assert(leads_to(directory, node.children@, order, next, all[i].relative_path));
        } else {
            let path = later[i - first.len()].relative_path;
            assert(all[i] == later[i - first.len()]);
            assert(is_reached(directory, node.children@, order, next + 1, path));
        }
    }
}

proof fn own_once(directory: Seq<Seq<char>>, node: ContentEntry, order: Seq<int>, next: int)
    requires
        has_distinct_names(node),
        order.no_duplicates(),
        forall|i: int|
            0 <= i < order.len() ==> 0 <= #[trigger] order[i] < node.children@.len(),
        0 <= next <= order.len(),
    ensures
        attachment_paths(own_attachments(directory, node.children@, order, next)).no_duplicates(),
        all_reached(
            directory,
            node.children@,
            order,
            next,
            own_attachments(directory, node.children@, order, next),
        ),
        forall|i: int|
            0 <= i < own_attachments(directory, node.children@, order, next).len() ==> (
            #[trigger] own_attachments(
                directory,
                node.children@,
                order,
                next,
            )[i]).relative_path.len() == directory.len() + 1,
    decreases order.len() - next,
{
    if next < order.len() {
        own_once(directory, node, order, next + 1);
        let later = own_attachments(directory, node.children@, order, next + 1);
        let child = node.children@[order[next]];
        let name = decode_utf8(child.name@);
        let own = own_attachments(directory, node.children@, order, next);
        if own != later {
            let first = seq![own[0]];
            assert(own =~= first + later);
            assert(directory.push(name).take(directory.len() as int) =~= directory);
            joined_once(directory, node, order, next, first, later);
        } else {
            assert forall|i: int| 0 <= i < own.len() implies is_reached(
                directory,
                node.children@,
                order,
                next,
                (#[trigger] own[i]).relative_path,
            ) by {
                assert(own[i] == later[i]);
                assert(is_reached(
                    directory,
                    node.children@,
                    order,
                    next + 1,
                    later[i].relative_path,
                ));
            }
        }
    }
}

proof fn tree_once(directory: Seq<Seq<char>>, node: ContentEntry)
    requires
        has_distinct_names(node),
    ensures
        attachment_paths(tree_attachments(directory, node)).no_duplicates(),
        forall|i: int|
            0 <= i < tree_attachments(directory, node).len() ==> {
                let path = (#[trigger] tree_attachments(directory, node)[i]).relative_path;
                path.len() > directory.len() && path.take(directory.len() as int) == directory
            },
    decreases node, node.children@.len() + 1,
{
    let children = node.children@;
    let order = visiting_order(children, directory.len() == 0, children.len());
    visited_once(children, directory.len() == 0, children.len());
    visiting_order_is_in_range(children, directory.len() == 0, children.len());
    own_once(directory, node, order, 0);
    below_once(directory, node, order, 0);
    let own = own_attachments(directory, children, order, 0);
    let below = attachments_below(directory, node, order, 0);
    let all = tree_attachments(directory, node);
    let paths = attachment_paths(all);
    assert forall|i: int, j: int| 0 <= i < paths.len() && 0 <= j < paths.len() && i != j implies paths[i]
        != paths[j] by {
        if i < own.len() && j < own.len() {
            assert(attachment_paths(own)[i] != attachment_paths(own)[j]);
        } else if i >= own.len() && j >= own.len() {
            assert(attachment_paths(below)[i - own.len()] != attachment_paths(below)[j
                - own.len()]);
        } else if i < own.len() {
            assert(own[i] == all[i] && below[j - own.len()] == all[j]);
        } else {
            assert(own[j] == all[j] && below[i - own.len()] == all[i]);
        }
    }
    assert forall|i: int| 0 <= i < all.len() implies {
        let path = (#[trigger] all[i]).relative_path;
        path.len() > directory.len() && path.take(directory.len() as int) == directory
    } by {
        if i < own.len() {
            assert(all[i] == own[i]);
        } else {
            assert(all[i] == below[i - own.len()]);
        }
    }
}

proof fn below_once(directory: Seq<Seq<char>>, node: ContentEntry, order: Seq<int>, next: int)
    requires
        has_distinct_names(node),
        order.no_duplicates(),
        order.len() <= node.children@.len(),
        forall|i: int|
            0 <= i < order.len() ==> 0 <= #[trigger] order[i] < node.children@.len(),
        0 <= next <= order.len(),
    ensures
        attachment_paths(attachments_below(directory, node, order, next)).no_duplicates(),
        all_reached(
            directory,
            node.children@,
            order,
            next,
            attachments_below(directory, node, order, next),
        ),
        forall|i: int|
            0 <= i < attachments_below(directory, node, order, next).len() ==> (
            #[trigger] attachments_below(directory, node, order, next)[i]).relative_path.len()
                > directory.len() + 1,
    decreases node, order.len() - next,
{
    if next < order.len() {
        below_once(directory, node, order, next + 1);
        let child = node.children@[order[next]];
        let path = directory.push(decode_utf8(child.name@));
        let later = attachments_below(directory, node, order, next + 1);
        let all = attachments_below(directory, node, order, next);
        if valid_utf8(child.name@) && (child.facts is Directory || child.facts is Unlisted) {
            assert(decreases_to!(node => node.children@[order[next]]));
            tree_once(path, child);
            let first = tree_attachments(path, child);
            assert forall|i: int| 0 <= i < first.len() implies leads_to(
                directory,
                node.children@,
                order,
                next,
                (#[trigger] first[i]).relative_path,
            ) by {
                let found = first[i].relative_path;
                assert(found.take(path.len() as int)[directory.len() as int] == path.last());
                assert(found.take(directory.len() as int) =~= path.take(directory.len() as int));
                assert(path.take(directory.len() as int) =~= directory);
            }
            joined_once(directory, node, order, next, first, later);
            assert forall|i: int| 0 <= i < all.len() implies (#[trigger] all[i]).relative_path.len()
                > directory.len() + 1 by {
                if i < first.len() {
                    assert(all[i] == first[i]);
                } else {
                    assert(all[i] == later[i - first.len()]);
                }
            }
        } else {
            assert(all =~= later);
            assert forall|i: int| 0 <= i < all.len() implies is_reached(
                directory,
                node.children@,
                order,
                next,
                (#[trigger] all[i]).relative_path,
            ) by {
                assert(all[i] == later[i]);
                assert(is_reached(
                    directory,
                    node.children@,
                    order,
                    next + 1,
                    later[i].relative_path,
                ));
            }
        }
    }
}

/// A content tree whose directories hold no two entries of one name has no two attachments of one
/// path.
pub proof fn trees_hold_each_attachment_once(root: ContentEntry)
    requires
        has_distinct_names(root),
    ensures
        attachment_paths(tree_attachments(Seq::empty(), root)).no_duplicates(),
{
    tree_once(Seq::empty(), root);
}

} // verus!
