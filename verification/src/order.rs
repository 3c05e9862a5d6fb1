//! Stable ordering of document records.
use crate::apply::PathView;
use crate::index::{DocumentRecord, RecordView};
use crate::path::ContentPath;
use crate::text::{before, bytes_before, bytes_before_is_an_order, same_text};
use vstd::prelude::*;
use vstd::string::*;
use vstd::utf8::{encode_utf8, encode_utf8_decode_utf8};

verus! {

/// Whether a path comes before another from a component on: components are compared as bytes, and
/// a directory comes before what it holds.
pub open spec fn path_before(left: PathView, right: PathView, index: int) -> bool
    decreases right.len() - index,
{
    if index < 0 || index >= right.len() {
        false
    } else if index >= left.len() {
        true
    } else if left[index] == right[index] {
        path_before(left, right, index + 1)
    } else {
        bytes_before(encode_utf8(left[index]), encode_utf8(right[index]), 0)
    }
}

/// Whether a path comes before another.
pub fn comes_before(left: &ContentPath, right: &ContentPath) -> (result: bool)
    ensures
        result == path_before(left@, right@, 0),
{
    let mut index: usize = 0;
    while index < right.len()
        invariant
            index <= right@.len(),
            path_before(left@, right@, 0) == path_before(left@, right@, index as int),
        decreases right@.len() - index,
    {
        if index >= left.len() {
            return true;
        }
        let first = left.component(index);
        let second = right.component(index);
        if !same_text(first.as_str(), second.as_str()) {
            return before(first.as_str().as_bytes(), second.as_str().as_bytes());
        }
        index += 1;
    }
    false
}

/// How records are ordered.
#[derive(Clone, Copy, Debug, PartialEq, Eq, Structural)]
pub enum RecordOrder {
    /// By path.
    Path,
    /// By the time of the last change, the latest first, and then by identity.
    Recency,
}

/// Whether a record comes before another.
pub open spec fn record_before(order: RecordOrder, left: RecordView, right: RecordView) -> bool {
    match order {
        RecordOrder::Path => path_before(left.relative_path, right.relative_path, 0),
        RecordOrder::Recency => {
            let first = left.metadata.last_change().instant();
            let second = right.metadata.last_change().instant();
            first > second || (first == second && left.metadata.document_id.value
                < right.metadata.document_id.value)
        },
    }
}

/// Whether a record comes before another.
fn goes_before(order: RecordOrder, left: &DocumentRecord, right: &DocumentRecord) -> (result: bool)
    ensures
        result == record_before(order, left@, right@),
{
    match order {
        RecordOrder::Path => comes_before(&left.relative_path, &right.relative_path),
        RecordOrder::Recency => {
            let first = left.metadata.changed_at();
            let second = right.metadata.changed_at();
            first.after(&second) || (first.same_instant(&second) && left.metadata.document_id.value
                < right.metadata.document_id.value)
        },
    }
}

/// Ordered records with one more at its place, behind those that it does not come before.
pub open spec fn placed(order: RecordOrder, records: Seq<RecordView>, record: RecordView) -> Seq<
    RecordView,
>
    decreases records.len(),
{
    if records.len() == 0 || !record_before(order, record, records.last()) {
        records.push(record)
    } else {
        placed(order, records.drop_last(), record).push(records.last())
    }
}

/// Records in order; where none of two comes before the other, in the order in which they came.
pub open spec fn ordered(order: RecordOrder, records: Seq<RecordView>) -> Seq<RecordView>
    decreases records.len(),
{
    if records.len() == 0 {
        Seq::empty()
    } else {
        placed(order, ordered(order, records.drop_last()), records.last())
    }
}

/// The views of borrowed records.
pub open spec fn borrowed_views(records: Seq<&DocumentRecord>) -> Seq<RecordView> {
    records.map_values(|record: &DocumentRecord| record@)
}

/// Places one more record among ordered ones.
fn place<'a>(order: RecordOrder, records: &mut Vec<&'a DocumentRecord>, record: &'a DocumentRecord)
    ensures
        borrowed_views(final(records)@) == placed(order, borrowed_views(old(records)@), record@),
{
    let ghost views = borrowed_views(records@);
    let ghost first = records@;
    let mut at: usize = records.len();
    assert(views.take(at as int) =~= views);
    assert(views.skip(at as int) =~= Seq::<RecordView>::empty());
    assert(placed(order, views, record@) =~= placed(order, views.take(at as int), record@)
        + views.skip(at as int));
    while at > 0 && goes_before(order, record, records[at - 1])
        invariant
            at <= records@.len(),
            records@ == first,
            views == borrowed_views(records@),
            placed(order, views, record@) == placed(order, views.take(at as int), record@)
                + views.skip(at as int),
        decreases at,
    {
        proof {
            let head = views.take(at as int);
            assert(head.last() == records@[at - 1]@);
            assert(head.drop_last() =~= views.take(at - 1));
            assert(placed(order, head, record@) + views.skip(at as int) =~= placed(
                order,
                views.take(at - 1),
                record@,
            ) + views.skip(at - 1));
        }
        at -= 1;
    }
    proof {
        if at > 0 {
            assert(views.take(at as int).last() == records@[at - 1]@);
        }
        assert(placed(order, views.take(at as int), record@) == views.take(at as int).push(record@));
    }
    records.insert(at, record);
    assert(borrowed_views(records@) =~= views.take(at as int).push(record@) + views.skip(at as int));
}

/// Orders records.
pub fn sort_records<'a>(order: RecordOrder, records: &Vec<&'a DocumentRecord>) -> (result: Vec<
    &'a DocumentRecord,
>)
    ensures
        borrowed_views(result@) == ordered(order, borrowed_views(records@)),
{
    let ghost views = borrowed_views(records@);
    let mut result: Vec<&'a DocumentRecord> = Vec::new();
    let mut i: usize = 0;
    assert(borrowed_views(result@) =~= ordered(order, views.take(0)));
    while i < records.len()
        invariant
            i <= records@.len(),
            views == borrowed_views(records@),
            borrowed_views(result@) == ordered(order, views.take(i as int)),
        decreases records@.len() - i,
    {
        place(order, &mut result, records[i]);
        assert(views.take(i + 1).drop_last() =~= views.take(i as int));
        assert(views.take(i + 1).last() == records@[i as int]@);
        i += 1;
    }
    assert(views.take(views.len() as int) =~= views);
    result
}

/// The first records.
pub fn truncate_records<'a>(records: Vec<&'a DocumentRecord>, maximum: usize) -> (result: Vec<
    &'a DocumentRecord,
>)
    ensures
        borrowed_views(result@) == first_records(borrowed_views(records@), maximum as int),
{
    let mut result = records;
    let ghost views = borrowed_views(result@);
    result.truncate(maximum);
    assert(borrowed_views(result@) =~= first_records(views, maximum as int));
    result
}

/// The first records.
pub open spec fn first_records(records: Seq<RecordView>, maximum: int) -> Seq<RecordView> {
    if maximum < records.len() {
        records.take(maximum)
    } else {
        records
    }
}

pub(crate) proof fn record_order_is_total(order: RecordOrder, a: RecordView, b: RecordView, c: RecordView)
    ensures
        record_before(order, a, b) && record_before(order, b, c) ==> record_before(order, a, c),
        !(record_before(order, a, b) && record_before(order, b, a)),
{
    if order == RecordOrder::Path {
        path_order_is_total(a.relative_path, b.relative_path, c.relative_path, 0);
    }
}

pub(crate) proof fn path_order_is_total(a: PathView, b: PathView, c: PathView, index: int)
    requires
        0 <= index,
    ensures
        path_before(a, b, index) && path_before(b, c, index) ==> path_before(a, c, index),
        !(path_before(a, b, index) && path_before(b, a, index)),
    decreases a.len() + b.len() + c.len() - index,
{
    if index < a.len() || index < b.len() || index < c.len() {
        path_order_is_total(a, b, c, index + 1);
        if index < a.len() && index < b.len() {
            bytes_before_is_an_order(
                encode_utf8(a[index]),
                encode_utf8(b[index]),
                encode_utf8(if index < c.len() { c[index] } else { a[index] }),
                0,
            );
            bytes_before_is_an_order(
                encode_utf8(b[index]),
                encode_utf8(a[index]),
                encode_utf8(if index < c.len() { c[index] } else { a[index] }),
                0,
            );
            if index < c.len() && a[index] == c[index] && a[index] != b[index] {
                assert(!(bytes_before(encode_utf8(a[index]), encode_utf8(b[index]), 0)
                    && bytes_before(encode_utf8(b[index]), encode_utf8(a[index]), 0)));
            }
        }
    }
}

/// Whether no record comes before an earlier one.
pub open spec fn is_ordered(order: RecordOrder, records: Seq<RecordView>) -> bool {
    forall|i: int, j: int|
        0 <= i < j < records.len() ==> !record_before(
            order,
            #[trigger] records[j],
            #[trigger] records[i],
        )
}

pub(crate) proof fn paths_differ_or_order(a: PathView, b: PathView, index: int)
    requires
        0 <= index <= a.len(),
        index <= b.len(),
        !path_before(a, b, index),
        !path_before(b, a, index),
    ensures
        a.skip(index) == b.skip(index),
    decreases a.len() - index,
{
    if index < a.len() && index < b.len() {
        if a[index] == b[index] {
            paths_differ_or_order(a, b, index + 1);
            assert(a.skip(index) =~= seq![a[index]] + a.skip(index + 1));
            assert(b.skip(index) =~= seq![b[index]] + b.skip(index + 1));
        } else {
            let first = encode_utf8(a[index]);
            let second = encode_utf8(b[index]);
            bytes_before_is_an_order(first, second, first, 0);
            bytes_before_is_an_order(second, first, second, 0);
            assert(first.skip(0) =~= first);
            assert(second.skip(0) =~= second);
            encode_utf8_decode_utf8(a[index]);
            encode_utf8_decode_utf8(b[index]);
        }
    } else {
        assert(a.skip(index) =~= b.skip(index));
    }
}

pub(crate) proof fn not_before_is_transitive(order: RecordOrder, a: RecordView, b: RecordView, c: RecordView)
    requires
        !record_before(order, b, a),
        !record_before(order, c, b),
    ensures
        !record_before(order, c, a),
{
    if order == RecordOrder::Path {
        let (x, y, z) = (a.relative_path, b.relative_path, c.relative_path);
        if path_before(z, x, 0) {
            if path_before(x, y, 0) {
                path_order_is_total(z, x, y, 0);
            } else {
                paths_differ_or_order(x, y, 0);
                assert(x.skip(0) =~= x);
                assert(y.skip(0) =~= y);
            }
        }
    }
}

proof fn placing_keeps_order(order: RecordOrder, records: Seq<RecordView>, record: RecordView)
    requires
        is_ordered(order, records),
    ensures
        is_ordered(order, placed(order, records, record)),
        placed(order, records, record).to_multiset() == records.to_multiset().insert(record),
        forall|i: int|
            #![trigger placed(order, records, record)[i]]
            0 <= i < placed(order, records, record).len() ==> placed(order, records, record)[i]
                == record || records.contains(placed(order, records, record)[i]),
    decreases records.len(),
{
    broadcast use vstd::seq_lib::group_to_multiset_ensures;

    let result = placed(order, records, record);
    if records.len() == 0 || !record_before(order, record, records.last()) {
        assert forall|i: int, j: int| 0 <= i < j < result.len() implies !record_before(
            order,
            #[trigger] result[j],
            #[trigger] result[i],
        ) by {
            if j == records.len() {
                if i < records.len() - 1 {
                    not_before_is_transitive(order, records[i], records.last(), record);
                }
            }
        }
    } else {
        let rest = records.drop_last();
        placing_keeps_order(order, rest, record);
        let inner = placed(order, rest, record);
        assert(records =~= rest.push(records.last()));
        assert(result.to_multiset() =~= records.to_multiset().insert(record));
        assert forall|i: int| 0 <= i < result.len() implies #[trigger] result[i] == record
            || records.contains(result[i]) by {
            if i < inner.len() {
                assert(result[i] == inner[i]);
                if inner[i] != record {
                    assert(rest.contains(inner[i]));
                    let k = choose|k: int| 0 <= k < rest.len() && rest[k] == inner[i];
                    assert(records[k] == inner[i]);
                }
            } else {
                assert(records[records.len() - 1] == result[i]);
            }
        }
        assert forall|i: int, j: int| 0 <= i < j < result.len() implies !record_before(
            order,
            #[trigger] result[j],
            #[trigger] result[i],
        ) by {
            if j == inner.len() {
                assert(result[i] == inner[i]);
                if inner[i] == record {
                    record_order_is_total(order, record, records.last(), record);
                } else {
                    assert(rest.contains(inner[i]));
                    let k = choose|k: int| 0 <= k < rest.len() && rest[k] == inner[i];
                    assert(!record_before(order, records[records.len() - 1], records[k]));
                }
            } else {
                assert(result[i] == inner[i] && result[j] == inner[j]);
            }
        }
    }
}

/// Ordering keeps every record, and puts none behind one that it comes before.
pub proof fn ordering_is_a_sort(order: RecordOrder, records: Seq<RecordView>)
    ensures
        is_ordered(order, ordered(order, records)),
        ordered(order, records).to_multiset() == records.to_multiset(),
    decreases records.len(),
{
    broadcast use vstd::seq_lib::group_to_multiset_ensures;

    if records.len() > 0 {
        let earlier = records.drop_last();
        ordering_is_a_sort(order, earlier);
        placing_keeps_order(order, ordered(order, earlier), records.last());
        assert(records =~= earlier.push(records.last()));
    } else {
        assert(records =~= Seq::<RecordView>::empty());
    }
}

} // verus!
