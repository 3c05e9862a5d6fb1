//! What a listed difference says, and which moves explain its deletions.
use crate::apply::{AppliedFileMove, PathView};
use crate::changes::{
    after_moves, coming_from, components_of, counted, explained, is_inner_component, is_rooted,
    moved_to, origins_differ, reduced, staged_from, standing_at, Followed, Staged,
};
use crate::fields::{split, split_from};
use crate::git_error::{GitFailure, GitTransactionError};
use crate::path::slashed;
use crate::search_laws::path_texts_join_components;
use vstd::prelude::*;
use vstd::utf8::{decode_utf8, valid_utf8};

verus! {

/// Parts with a separator between each two.
pub open spec fn put_together<A>(parts: Seq<Seq<A>>, separator: A) -> Seq<A>
    decreases parts.len(),
{
    if parts.len() == 0 {
        Seq::empty()
    } else if parts.len() == 1 {
        parts[0]
    } else {
        parts[0] + seq![separator] + put_together(parts.skip(1), separator)
    }
}

proof fn split_behind<A>(prefix: Seq<A>, rest: Seq<A>, separator: A, start: int, at: int)
    requires
        0 <= start <= at,
        start <= rest.len(),
    ensures
        split_from(prefix + rest, separator, prefix.len() + start, prefix.len() + at) == split_from(
            rest,
            separator,
            start,
            at,
        ),
    decreases rest.len() - at,
{
    let items = prefix + rest;
    if at < rest.len() {
        assert(items[prefix.len() + at] == rest[at]);
        split_behind(prefix, rest, separator, start, at + 1);
        split_behind(prefix, rest, separator, at + 1, at + 1);
        assert(items.subrange(prefix.len() + start, prefix.len() + at) =~= rest.subrange(start, at));
    } else {
        assert(items.subrange(prefix.len() + start, items.len() as int) =~= rest.subrange(
            start,
            rest.len() as int,
        ));
    }
}

proof fn split_first<A>(part: Seq<A>, rest: Seq<A>, separator: A, at: int)
    requires
        0 <= at <= part.len(),
        forall|i: int| 0 <= i < part.len() ==> part[i] != separator,
    ensures
        split_from(part + seq![separator] + rest, separator, 0, at) == seq![part] + split_from(
            part + seq![separator] + rest,
            separator,
            part.len() as int + 1,
            part.len() as int + 1,
        ),
    decreases part.len() - at,
{
    let items = part + seq![separator] + rest;
    if at < part.len() {
        assert(items[at] == part[at]);
        split_first(part, rest, separator, at + 1);
    } else {
        assert(items[at] == separator);
        assert(items.subrange(0, at) =~= part);
    }
}

proof fn split_only<A>(part: Seq<A>, separator: A, at: int)
    requires
        0 <= at <= part.len(),
        forall|i: int| 0 <= i < part.len() ==> part[i] != separator,
    ensures
        split_from(part, separator, 0, at) == seq![part],
    decreases part.len() - at,
{
    if at < part.len() {
        split_only(part, separator, at + 1);
    } else {
        assert(part.subrange(0, part.len() as int) =~= part);
    }
}

/// Splitting takes apart what separators put together: parts that hold no separator come back, as
/// they were and in order.
pub proof fn parts_come_back<A>(parts: Seq<Seq<A>>, separator: A)
    requires
        parts.len() > 0,
        forall|i: int, j: int|
            0 <= i < parts.len() && 0 <= j < parts[i].len() ==> #[trigger] parts[i][j] != separator,
    ensures
        split(put_together(parts, separator), separator) == parts,
    decreases parts.len(),
{
    let first = parts[0];
    assert forall|j: int| 0 <= j < first.len() implies first[j] != separator by {
        assert(parts[0][j] != separator);
    }
    if parts.len() == 1 {
        split_only(first, separator, 0);
        assert(seq![first] =~= parts);
    } else {
        let others = parts.skip(1);
        let rest = put_together(others, separator);
        assert forall|i: int, j: int|
            0 <= i < others.len() && 0 <= j < others[i].len() implies #[trigger] others[i][j]
            != separator by {
            assert(parts[i + 1][j] != separator);
        }
        parts_come_back(others, separator);
        split_first(first, rest, separator, 0);
        let prefix = first + seq![separator];
        split_behind(prefix, rest, separator, 0, 0);
        assert(seq![first] + others =~= parts);
    }
}

proof fn slashes_put_together(components: PathView)
    ensures
        slashed(components) == put_together(components, '/'),
    decreases components.len(),
{
    if components.len() > 1 {
        let first = components.take(1);
        let rest = components.skip(1);
        slashes_put_together(rest);
        path_texts_join_components(first, rest);
        assert(first + rest =~= components);
    }
}

/// A path comes back from its text: components that are not empty, are no single point and hold
/// no slash are those of the slashed text.
pub proof fn paths_come_back(components: PathView)
    requires
        components.len() > 0,
        forall|i: int|
            0 <= i < components.len() ==> (#[trigger] components[i]).len() > 0 && components[i]
                != "."@,
        forall|i: int, j: int|
            0 <= i < components.len() && 0 <= j < components[i].len()
                ==> #[trigger] components[i][j] != '/',
    ensures
        components_of(slashed(components)) == components,
{
    slashes_put_together(components);
    parts_come_back(components, '/');
    let text = slashed(components);
    let rest = components.skip(1);
    let inner = |part: Seq<char>| is_inner_component(part);
    assert(text.len() > 0) by {
        if components.len() > 1 {
            assert(put_together(components, '/').len() >= components[0].len());
        }
        assert(components[0].len() > 0);
    }
    keeping_all(rest, inner);
    assert(components.take(1) + rest =~= components);
}

proof fn keeping_all(parts: PathView, holds: spec_fn(Seq<char>) -> bool)
    requires
        forall|i: int| 0 <= i < parts.len() ==> holds(#[trigger] parts[i]),
    ensures
        parts.filter(holds) == parts,
    decreases parts.len(),
{
    reveal(Seq::filter);
    if parts.len() > 0 {
        let earlier = parts.drop_last();
        assert forall|i: int| 0 <= i < earlier.len() implies holds(#[trigger] earlier[i]) by {
            assert(holds(parts[i]));
        }
        keeping_all(earlier, holds);
        assert(holds(parts[parts.len() - 1]));
        assert(earlier.push(parts.last()) =~= parts);
    } else {
        assert(parts.filter(holds) =~= parts);
    }
}

/// The fields of a listed difference: for each change its letter and its path.
pub open spec fn listed_fields(changes: Seq<(u8, Seq<u8>)>) -> Seq<Seq<u8>>
    decreases changes.len(),
{
    if changes.len() == 0 {
        Seq::empty()
    } else {
        listed_fields(changes.drop_last()).push(seq![changes.last().0]).push(changes.last().1)
    }
}

/// The paths of the changes of one letter, in order.
pub open spec fn paths_of(changes: Seq<(u8, Seq<u8>)>, letter: u8) -> Seq<PathView>
    decreases changes.len(),
{
    if changes.len() == 0 {
        Seq::empty()
    } else if changes.last().0 == letter {
        paths_of(changes.drop_last(), letter).push(components_of(decode_utf8(changes.last().1)))
    } else {
        paths_of(changes.drop_last(), letter)
    }
}

proof fn listed_at(changes: Seq<(u8, Seq<u8>)>, at: int)
    requires
        0 <= at < changes.len(),
    ensures
        listed_fields(changes).len() == 2 * changes.len(),
        listed_fields(changes)[2 * at] == seq![changes[at].0],
        listed_fields(changes)[2 * at + 1] == changes[at].1,
    decreases changes.len(),
{
    listed_length(changes.drop_last());
    if at < changes.len() - 1 {
        listed_at(changes.drop_last(), at);
    }
}

proof fn listed_length(changes: Seq<(u8, Seq<u8>)>)
    ensures
        listed_fields(changes).len() == 2 * changes.len(),
    decreases changes.len(),
{
    if changes.len() > 0 {
        listed_length(changes.drop_last());
    }
}

proof fn paths_are_kept(changes: Seq<(u8, Seq<u8>)>, letter: u8, count: int)
    requires
        0 <= count < changes.len(),
    ensures
        paths_of(changes.take(count + 1), letter) == if changes[count].0 == letter {
            paths_of(changes.take(count), letter).push(
                components_of(decode_utf8(changes[count].1)),
            )
        } else {
            paths_of(changes.take(count), letter)
        },
{
    assert(changes.take(count + 1).drop_last() =~= changes.take(count));
    assert(changes.take(count + 1).last() == changes[count]);
}

proof fn prefix_has_no_duplicates(changes: Seq<(u8, Seq<u8>)>, letter: u8, count: int)
    requires
        0 <= count <= changes.len(),
        paths_of(changes, letter).no_duplicates(),
    ensures
        paths_of(changes.take(count), letter).no_duplicates(),
        count < changes.len() && changes[count].0 == letter ==> !paths_of(
            changes.take(count),
            letter,
        ).contains(components_of(decode_utf8(changes[count].1))),
    decreases changes.len() - count,
{
    if count < changes.len() {
        prefix_has_no_duplicates(changes, letter, count + 1);
        paths_are_kept(changes, letter, count);
        let before = paths_of(changes.take(count), letter);
        let more = paths_of(changes.take(count + 1), letter);
        if changes[count].0 == letter {
            let added = components_of(decode_utf8(changes[count].1));
            if before.contains(added) {
                let i = choose|i: int| 0 <= i < before.len() && before[i] == added;
                assert(more[i] == added && more[before.len() as int] == added);
            }
            assert forall|i: int, j: int|
                0 <= i < before.len() && 0 <= j < before.len() && i != j implies before[i]
                != before[j] by {
                assert(more[i] == before[i] && more[j] == before[j]);
            }
        }
    } else {
        assert(changes.take(count) =~= changes);
    }
}

proof fn staged_goes_on(changes: Seq<(u8, Seq<u8>)>, tail: Seq<Seq<u8>>, count: int)
    requires
        0 <= count <= changes.len(),
        paths_of(changes, 65).no_duplicates(),
        forall|i: int|
            0 <= i < changes.len() ==> ((#[trigger] changes[i]).0 == 65 || changes[i].0 == 77
                || changes[i].0 == 68) && changes[i].1.len() > 0 && valid_utf8(changes[i].1),
        tail.len() == 0 || tail[0].len() == 0,
    ensures
        staged_from(
            listed_fields(changes) + tail,
            2 * count,
            (Staged {
                added: paths_of(changes.take(count), 65),
                modified: paths_of(changes.take(count), 77).len() as int,
                deleted: paths_of(changes.take(count), 68),
            }),
        ) == Some(
            Staged {
                added: paths_of(changes, 65),
                modified: paths_of(changes, 77).len() as int,
                deleted: paths_of(changes, 68),
            },
        ),
    decreases changes.len() - count,
{
    let fields = listed_fields(changes) + tail;
    listed_length(changes);
    if count < changes.len() {
        listed_at(changes, count);
        staged_goes_on(changes, tail, count + 1);
        paths_are_kept(changes, 65, count);
        paths_are_kept(changes, 77, count);
        paths_are_kept(changes, 68, count);
        prefix_has_no_duplicates(changes, 65, count);
        assert(fields[2 * count] == seq![changes[count].0]);
        assert(fields[2 * count + 1] == changes[count].1);
        let letter = fields[2 * count];
        assert(letter[0] == changes[count].0);
        if letter == seq![65u8] {
            assert(seq![65u8][0] == 65);
        }
        if letter == seq![77u8] {
            assert(seq![77u8][0] == 77);
        }
        if letter == seq![68u8] {
            assert(seq![68u8][0] == 68);
        }
    } else {
        assert(changes.take(count) =~= changes);
        if tail.len() > 0 {
            assert(fields[2 * count] == tail[0]);
        }
    }
}

/// A listed difference says what it lists: behind the letter `A` stand the added paths, behind `M`
/// the modified ones and behind `D` the deleted ones.
pub proof fn differences_say_what_they_list(changes: Seq<(u8, Seq<u8>)>, tail: Seq<Seq<u8>>)
    requires
        paths_of(changes, 65).no_duplicates(),
        forall|i: int|
            0 <= i < changes.len() ==> ((#[trigger] changes[i]).0 == 65 || changes[i].0 == 77
                || changes[i].0 == 68) && changes[i].1.len() > 0 && valid_utf8(changes[i].1),
        tail.len() == 0 || tail[0].len() == 0,
    ensures
        staged_from(
            listed_fields(changes) + tail,
            0,
            (Staged { added: Seq::empty(), modified: 0, deleted: Seq::empty() }),
        ) == Some(
            Staged {
                added: paths_of(changes, 65),
                modified: paths_of(changes, 77).len() as int,
                deleted: paths_of(changes, 68),
            },
        ),
{
    staged_goes_on(changes, tail, 0);
    assert(changes.take(0) =~= Seq::<(u8, Seq<u8>)>::empty());
    assert(paths_of(changes.take(0), 65) =~= Seq::<PathView>::empty());
}

/// Whether moves have nothing to do with one another: no two begin at one path, no two end at one,
/// and none begins where one ends.
pub open spec fn are_separate(moves: Seq<AppliedFileMove<PathView>>) -> bool {
    &&& forall|i: int, j: int|
        0 <= i < j < moves.len() ==> (#[trigger] moves[i]).source != (#[trigger] moves[j]).source
            && moves[i].destination != moves[j].destination
    &&& forall|i: int, j: int|
        0 <= i < moves.len() && 0 <= j < moves.len() ==> (#[trigger] moves[i]).source != (
        #[trigger] moves[j]).destination
}

/// The moves themselves, each as one file that is followed.
pub open spec fn each_followed(moves: Seq<AppliedFileMove<PathView>>) -> Seq<Followed<PathView>> {
    Seq::new(
        moves.len(),
        |i: int| Followed { destination: moves[i].destination, origin: moves[i].source },
    )
}

proof fn nothing_stands(files: Seq<Followed<PathView>>, path: PathView, from: int)
    requires
        0 <= from,
        forall|i: int| from <= i < files.len() ==> (#[trigger] files[i]).destination != path,
    ensures
        standing_at(files, path, from) is None,
    decreases files.len() - from,
{
    if from < files.len() {
        assert(files[from].destination != path);
        nothing_stands(files, path, from + 1);
    }
}

proof fn separate_so_far(moves: Seq<AppliedFileMove<PathView>>, count: nat)
    requires
        are_separate(moves),
        count <= moves.len(),
    ensures
        after_moves(moves, count) == Some(each_followed(moves.take(count as int))),
    decreases count,
{
    if count > 0 {
        separate_so_far(moves, (count - 1) as nat);
        let files = each_followed(moves.take(count - 1));
        let step = moves[count - 1];
        assert forall|i: int| 0 <= i < files.len() implies (#[trigger] files[i]).destination
            != step.source && files[i].destination != step.destination by {
            assert(files[i].destination == moves[i].destination);
        }
        nothing_stands(files, step.source, 0);
        nothing_stands(files, step.destination, 0);
        assert(files.push(Followed { destination: step.destination, origin: step.source })
            =~= each_followed(moves.take(count as int)));
    } else {
        assert(each_followed(moves.take(0)) =~= Seq::<Followed<PathView>>::empty());
    }
}

/// Moves that have nothing to do with one another come to exactly themselves.
pub proof fn separate_moves_stay(moves: Seq<AppliedFileMove<PathView>>)
    requires
        are_separate(moves),
    ensures
        reduced(moves) == Some(each_followed(moves)),
{
    separate_so_far(moves, moves.len());
    assert(moves.take(moves.len() as int) =~= moves);
    let files = each_followed(moves);
    assert forall|i: int, j: int| 0 <= i < j < files.len() implies (#[trigger] files[i]).origin != (
    #[trigger] files[j]).origin by {
        assert(moves[i].source != moves[j].source);
    }
}

proof fn comes_from(files: Seq<Followed<PathView>>, path: PathView, from: int)
    requires
        0 <= from,
    ensures
        match coming_from(files, path, from) {
            Some(at) => from <= at < files.len() && files[at].origin == path,
            None => forall|i: int|
                from <= i < files.len() ==> (#[trigger] files[i]).origin != path,
        },
    decreases files.len() - from,
{
    if from < files.len() {
        comes_from(files, path, from + 1);
    }
}

proof fn nearest_moves(
    files: Seq<Followed<PathView>>,
    path: PathView,
    length: int,
    at: int,
    from: int,
)
    requires
        origins_differ(files),
        0 <= at < files.len(),
        0 <= length <= from <= path.len(),
        length > 0 || !is_rooted(path),
        files[at].origin == path.take(length),
        forall|longer: int, i: int|
            length < longer <= from && 0 <= i < files.len() ==> (#[trigger] files[i]).origin
                != #[trigger] path.take(longer),
    ensures
        moved_to(files, path, from) == Some(files[at].destination + path.skip(length)),
    decreases from - length,
{
    comes_from(files, path.take(from), 0);
    if from > length {
        if let Some(found) = coming_from(files, path.take(from), 0) {
            assert(files[found].origin != path.take(from));
        }
        nearest_moves(files, path, length, at, from - 1);
    } else {
        let found = coming_from(files, path.take(from), 0)->0;
        assert(files[found].origin == files[at].origin);
        if found < at {
            assert(files[found].origin != files[at].origin);
        } else if at < found {
            assert(files[at].origin != files[found].origin);
        }
    }
}

/// What moves takes along what stands in it: a path goes with the nearest directory above it that
/// moved, and keeps its place in it.
pub proof fn directories_take_their_files(
    files: Seq<Followed<PathView>>,
    path: PathView,
    length: int,
    at: int,
)
    requires
        origins_differ(files),
        0 <= at < files.len(),
        0 < length <= path.len(),
        files[at].origin == path.take(length),
        forall|longer: int, i: int|
            length < longer <= path.len() && 0 <= i < files.len() ==> (#[trigger] files[i]).origin
                != #[trigger] path.take(longer),
    ensures
        moved_to(files, path, path.len() as int) == Some(
            files[at].destination + path.skip(length),
        ),
{
    nearest_moves(files, path, length, at, path.len() as int);
}

proof fn nothing_above(files: Seq<Followed<PathView>>, path: PathView, from: int)
    requires
        from <= path.len(),
        forall|length: int, i: int|
            0 <= length <= from && 0 <= i < files.len() ==> (#[trigger] files[i]).origin
                != #[trigger] path.take(length),
    ensures
        moved_to(files, path, from) is None,
    decreases from + 1,
{
    if from >= 0 {
        comes_from(files, path.take(from), 0);
        if let Some(found) = coming_from(files, path.take(from), 0) {
            assert(files[found].origin != path.take(from));
        }
        nothing_above(files, path, from - 1);
    }
}

/// A path of which nothing at or above it moved has not moved.
pub proof fn unmoved_files_stay(files: Seq<Followed<PathView>>, path: PathView)
    requires
        forall|length: int, i: int|
            0 <= length <= path.len() && 0 <= i < files.len() ==> (#[trigger] files[i]).origin
                != #[trigger] path.take(length),
    ensures
        moved_to(files, path, path.len() as int) is None,
{
    nothing_above(files, path, path.len() as int);
}

/// Where a deleted path went, by the moves.
pub open spec fn gone_to(files: Seq<Followed<PathView>>, path: PathView) -> Option<PathView> {
    moved_to(files, path, path.len() as int)
}

/// Whether the deletions from a position on are moves: each went to another path, which was added,
/// and no two went to one.
pub open spec fn are_moves(
    files: Seq<Followed<PathView>>,
    deleted: Seq<PathView>,
    next: int,
    added: Seq<PathView>,
) -> bool {
    &&& forall|i: int|
        #![trigger deleted[i]]
        next <= i < deleted.len() ==> (gone_to(files, deleted[i]) matches Some(to) && to
            != deleted[i] && added.contains(to))
    &&& forall|i: int, j: int|
        #![trigger deleted[i], deleted[j]]
        next <= i < j < deleted.len() ==> gone_to(files, deleted[i]) != gone_to(files, deleted[j])
}

proof fn removing_one(paths: Seq<PathView>, path: PathView)
    requires
        paths.no_duplicates(),
        paths.contains(path),
    ensures
        ({
            let rest = paths.remove(paths.index_of(path));
            &&& rest.no_duplicates()
            &&& rest.len() == paths.len() - 1
            &&& forall|other: PathView| #[trigger]
                rest.contains(other) <==> paths.contains(other) && other != path
        }),
{
    let k = paths.index_of(path);
    assert(0 <= k < paths.len() && paths[k] == path);
    let rest = paths.remove(k);
    assert forall|i: int, j: int| 0 <= i < rest.len() && 0 <= j < rest.len() && i != j implies rest[i]
        != rest[j] by {
        assert(rest[i] == paths[if i < k { i } else { i + 1 }]);
        assert(rest[j] == paths[if j < k { j } else { j + 1 }]);
    }
    assert forall|other: PathView| #[trigger] rest.contains(other) <==> paths.contains(other)
        && other != path by {
        if rest.contains(other) {
            let i = choose|i: int| 0 <= i < rest.len() && rest[i] == other;
            assert(rest[i] == paths[if i < k { i } else { i + 1 }]);
        }
        if paths.contains(other) && other != path {
            let i = choose|i: int| 0 <= i < paths.len() && paths[i] == other;
            assert(rest[if i < k { i } else { i - 1 }] == other);
        }
    }
}

proof fn explained_are_moves(
    files: Seq<Followed<PathView>>,
    deleted: Seq<PathView>,
    next: int,
    added: Seq<PathView>,
    modified: int,
)
    requires
        0 <= next <= deleted.len(),
        added.no_duplicates(),
    ensures
        explained(files, deleted, next, added, modified) is Some <==> are_moves(
            files,
            deleted,
            next,
            added,
        ),
        explained(files, deleted, next, added, modified) matches Some((left, count)) ==> left.len()
            == added.len() - (deleted.len() - next) && count == modified + (deleted.len() - next),
    decreases deleted.len() - next,
{
    if next < deleted.len() {
        let gone = gone_to(files, deleted[next]);
        if gone is Some && gone->0 != deleted[next] && added.contains(gone->0) {
            let to = gone->0;
            let rest = added.remove(added.index_of(to));
            removing_one(added, to);
            explained_are_moves(files, deleted, next + 1, rest, modified + 1);
            if are_moves(files, deleted, next, added) {
                assert forall|i: int|
                    #![trigger deleted[i]]
                    next + 1 <= i < deleted.len() implies (gone_to(files, deleted[i]) matches Some(
                    other,
                ) && other != deleted[i] && rest.contains(other)) by {
                    assert(gone_to(files, deleted[next]) != gone_to(files, deleted[i]));
                }
            }
            if are_moves(files, deleted, next + 1, rest) {
                assert forall|i: int|
                    #![trigger deleted[i]]
                    next <= i < deleted.len() implies (gone_to(files, deleted[i]) matches Some(other)
                    && other != deleted[i] && added.contains(other)) by {
                    if i > next {
                        assert(rest.contains(gone_to(files, deleted[i])->0));
                    }
                }
                assert forall|i: int, j: int|
                    #![trigger deleted[i], deleted[j]]
                    next <= i < j < deleted.len() implies gone_to(files, deleted[i]) != gone_to(
                    files,
                    deleted[j],
                ) by {
                    if i == next {
                        assert(rest.contains(gone_to(files, deleted[j])->0));
                    }
                }
            }
        }
    }
}

/// Nothing is deleted: a difference is counted exactly where each deletion is the old place of
/// something that the moves took to a path that was added. Such a file is modified, and no
/// longer added. A deletion that no move explains is refused.
pub proof fn only_moves_explain_deletions(
    output: Seq<u8>,
    moves: Seq<AppliedFileMove<PathView>>,
    files: Seq<Followed<PathView>>,
    added: Seq<PathView>,
    modified: int,
    deleted: Seq<PathView>,
)
    requires
        reduced(moves) == Some(files),
        staged_from(
            split(output, 0u8),
            0,
            (Staged { added: Seq::empty(), modified: 0, deleted: Seq::empty() }),
        ) == Some(Staged { added, modified, deleted }),
        added.no_duplicates(),
    ensures
        are_moves(files, deleted, 0, added) ==> counted(output, moves) == Ok::<
            (nat, int),
            GitFailure,
        >(((added.len() - deleted.len()) as nat, modified + deleted.len())),
        !are_moves(files, deleted, 0, added) ==> counted(output, moves) == Err::<
            (nat, int),
            GitFailure,
        >(GitTransactionError::PhysicalDeletion),
{
    explained_are_moves(files, deleted, 0, added, modified);
}

} // verus!
