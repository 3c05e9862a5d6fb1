//! What a prepared batch changes: the staged files, explained by the moves that were applied.
use crate::apply::{move_views, AppliedFileMove, PathView};
use crate::fields::{byte_views, split, split_bytes, split_is_not_empty, split_text};
use crate::git_error::{GitFailure, GitTransactionError};
use crate::path::{holds_path, path_views, texts, ContentPath};
use crate::text::{same_text, utf8_text};
use vstd::prelude::*;
use vstd::string::*;
use vstd::utf8::{decode_utf8, valid_utf8};

verus! {

/// Where a file stands, and where it stood before all moves.
#[derive(Debug)]
pub struct Followed<P = ContentPath> {
    /// Present path.
    pub destination: P,
    /// Original path.
    pub origin: P,
}

impl View for Followed {
    type V = Followed<PathView>;

    open spec fn view(&self) -> Followed<PathView> {
        Followed { destination: self.destination@, origin: self.origin@ }
    }
}

/// The followed files of a list, with their paths as sequences.
pub open spec fn followed_views(files: Seq<Followed>) -> Seq<Followed<PathView>> {
    files.map_values(|file: Followed| file@)
}

/// The position of the file that stands at a path.
pub open spec fn standing_at(files: Seq<Followed<PathView>>, path: PathView, from: int) -> Option<
    int,
>
    decreases files.len() - from,
{
    if from < 0 || from >= files.len() {
        None
    } else if files[from].destination == path {
        Some(from)
    } else {
        standing_at(files, path, from + 1)
    }
}

/// The position of the file that stood at a path before all moves.
pub open spec fn coming_from(files: Seq<Followed<PathView>>, path: PathView, from: int) -> Option<
    int,
>
    decreases files.len() - from,
{
    if from < 0 || from >= files.len() {
        None
    } else if files[from].origin == path {
        Some(from)
    } else {
        coming_from(files, path, from + 1)
    }
}

/// The followed files after one more move. Two files cannot stand at one path.
pub open spec fn after_one(files: Seq<Followed<PathView>>, step: AppliedFileMove<PathView>) -> Option<
    Seq<Followed<PathView>>,
> {
    let (rest, origin) = match standing_at(files, step.source, 0) {
        Some(at) => (files.remove(at), files[at].origin),
        None => (files, step.source),
    };
    if standing_at(rest, step.destination, 0) is Some {
        None
    } else {
        Some(rest.push(Followed { destination: step.destination, origin }))
    }
}

/// The followed files after the first `count` moves.
pub open spec fn after_moves(moves: Seq<AppliedFileMove<PathView>>, count: nat) -> Option<
    Seq<Followed<PathView>>,
>
    decreases count,
{
    if count == 0 {
        Some(Seq::empty())
    } else {
        match after_moves(moves, (count - 1) as nat) {
            None => None,
            Some(files) => after_one(files, moves[count - 1]),
        }
    }
}

/// Whether no two files came from one path.
pub open spec fn origins_differ(files: Seq<Followed<PathView>>) -> bool {
    forall|i: int, j: int|
        0 <= i < j < files.len() ==> (#[trigger] files[i]).origin != (#[trigger] files[j]).origin
}

/// What all moves together do: one origin and one destination for each file.
pub open spec fn reduced(moves: Seq<AppliedFileMove<PathView>>) -> Option<Seq<Followed<PathView>>> {
    match after_moves(moves, moves.len()) {
        Some(files) => if origins_differ(files) {
            Some(files)
        } else {
            None
        },
        None => None,
    }
}

/// Finds the file that stands at a path.
fn find_standing(files: &Vec<Followed>, path: &ContentPath) -> (result: Option<usize>)
    ensures
        match standing_at(followed_views(files@), path@, 0) {
            Some(at) => result matches Some(found) && found == at && at < files@.len(),
            None => result is None,
        },
{
    let ghost views = followed_views(files@);
    let mut i: usize = 0;
    while i < files.len()
        invariant
            i <= files@.len(),
            views == followed_views(files@),
            standing_at(views, path@, 0) == standing_at(views, path@, i as int),
        decreases files@.len() - i,
    {
        assert(views[i as int] == files@[i as int]@);
        if files[i].destination.same(path) {
            return Some(i);
        }
        i += 1;
    }
    None
}

/// Finds the file that came from a path.
fn find_origin(files: &Vec<Followed>, path: &ContentPath, from: usize) -> (result: Option<usize>)
    requires
        from <= files@.len(),
    ensures
        match coming_from(followed_views(files@), path@, from as int) {
            Some(at) => result matches Some(found) && found == at && from <= at < files@.len(),
            None => result is None,
        },
{
    let ghost views = followed_views(files@);
    let mut i: usize = from;
    while i < files.len()
        invariant
            from <= i <= files@.len(),
            views == followed_views(files@),
            coming_from(views, path@, from as int) == coming_from(views, path@, i as int),
        decreases files@.len() - i,
    {
        assert(views[i as int] == files@[i as int]@);
        if files[i].origin.same(path) {
            return Some(i);
        }
        i += 1;
    }
    None
}

proof fn coming_from_finds(files: Seq<Followed<PathView>>, path: PathView, from: int)
    requires
        0 <= from,
    ensures
        coming_from(files, path, from) matches Some(at) ==> from <= at < files.len()
            && files[at].origin == path,
        coming_from(files, path, from) is None ==> forall|i: int|
            from <= i < files.len() ==> (#[trigger] files[i]).origin != path,
    decreases files.len() - from,
{
    if from < files.len() {
        coming_from_finds(files, path, from + 1);
    }
}

/// Reduces the applied moves to one origin and one destination for each file.
pub fn reduce_moves(moves: &Vec<AppliedFileMove>) -> (result: Option<Vec<Followed>>)
    ensures
        match result {
            Some(files) => reduced(move_views(moves@)) == Some(followed_views(files@)),
            None => reduced(move_views(moves@)) is None,
        },
{
    let mut files: Vec<Followed> = Vec::new();
    let ghost views = move_views(moves@);
    assert(followed_views(files@) =~= Seq::<Followed<PathView>>::empty());
    let mut count: usize = 0;
    while count < moves.len()
        invariant
            count <= moves@.len(),
            views == move_views(moves@),
            after_moves(views, count as nat) == Some(followed_views(files@)),
        decreases moves@.len() - count,
    {
        let step = &moves[count];
        assert(views[count as int] == step@);
        let ghost earlier = followed_views(files@);
        let origin = match find_standing(&files, &step.source) {
            Some(at) => {
                let taken = files.remove(at);
                assert(followed_views(files@) =~= earlier.remove(at as int));
                taken.origin
            },
            None => step.source.clone(),
        };
        let ghost rest = followed_views(files@);
        if find_standing(&files, &step.destination).is_some() {
            proof {
                assert(after_moves(views, (count + 1) as nat) is None);
                later_moves_stay_spoiled(views, (count + 1) as nat, views.len());
            }
            return None;
        }
        let added = Followed { destination: step.destination.clone(), origin };
        files.push(added);
        assert(followed_views(files@) =~= rest.push(added@));
        count += 1;
    }
    let ghost all = followed_views(files@);
    let mut i: usize = 0;
    while i < files.len()
        invariant
            i <= files@.len(),
            all == followed_views(files@),
            views == move_views(moves@),
            after_moves(views, views.len()) == Some(all),
            forall|a: int, b: int|
                0 <= a < i && a < b < all.len() ==> (#[trigger] all[a]).origin != (
                #[trigger] all[b]).origin,
        decreases files@.len() - i,
    {
        assert(all[i as int] == files@[i as int]@);
        proof {
            coming_from_finds(all, all[i as int].origin, i + 1);
        }
        if find_origin(&files, &files[i].origin, i + 1).is_some() {
            return None;
        }
        i += 1;
    }
    Some(files)
}

proof fn later_moves_stay_spoiled(
    moves: Seq<AppliedFileMove<PathView>>,
    count: nat,
    later: nat,
)
    requires
        count <= later,
        after_moves(moves, count) is None,
    ensures
        after_moves(moves, later) is None,
    decreases later,
{
    if count < later {
        later_moves_stay_spoiled(moves, count, (later - 1) as nat);
    }
}

/// Whether a path begins at the root.
pub open spec fn is_rooted(path: PathView) -> bool {
    path.len() > 0 && path[0].len() == 0
}

/// Where a path stands after all moves, found by its nearest ancestor of length `length` or less
/// that moved. Nothing stands above the root.
pub open spec fn moved_to(files: Seq<Followed<PathView>>, path: PathView, length: int) -> Option<
    PathView,
>
    decreases length + 1,
{
    if length < 0 || length > path.len() || (length == 0 && is_rooted(path)) {
        None
    } else {
        match coming_from(files, path.take(length), 0) {
            Some(at) => Some(files[at].destination + path.skip(length)),
            None => moved_to(files, path, length - 1),
        }
    }
}

/// Where a path stands after all moves, if it or a directory above it moved.
pub fn moved_file_destination(path: &ContentPath, files: &Vec<Followed>) -> (result: Option<
    ContentPath,
>)
    ensures
        match result {
            Some(destination) => moved_to(followed_views(files@), path@, path@.len() as int)
                == Some(destination@),
            None => moved_to(followed_views(files@), path@, path@.len() as int) is None,
        },
{
    let ghost views = followed_views(files@);
    let mut length: usize = path.len();
    let mut ancestor = path.clone();
    assert(path@.take(length as int) =~= path@);
    loop
        invariant
            length <= path@.len(),
            is_rooted(path@) ==> length > 0,
            views == followed_views(files@),
            ancestor@ == path@.take(length as int),
            moved_to(views, path@, path@.len() as int) == moved_to(views, path@, length as int),
        decreases length,
    {
        if let Some(at) = find_origin(files, &ancestor, 0) {
            assert(views[at as int] == files@[at as int]@);
            return Some(path.rebase(length, &files[at].destination));
        }
        if length == 1 && path.component(0).as_str().is_empty() {
            assert(moved_to(views, path@, 0) is None);
            return None;
        }
        match ancestor.parent() {
            None => {
                assert(moved_to(views, path@, -1) is None);
                return None;
            },
            Some(parent) => {
                assert(path@.take(length as int).drop_last() =~= path@.take(length - 1));
                ancestor = parent;
                length -= 1;
            },
        }
    }
}

/// Where a file stands after the first `count` moves, if it stood at `path` before them.
pub open spec fn traced(moves: Seq<AppliedFileMove<PathView>>, path: PathView, count: nat) -> PathView
    decreases count,
{
    if count == 0 {
        path
    } else {
        let before = traced(moves, path, (count - 1) as nat);
        if moves[count - 1].source == before {
            moves[count - 1].destination
        } else {
            before
        }
    }
}

/// Whether a file moves at all in the first `count` moves.
pub open spec fn ever_moved(moves: Seq<AppliedFileMove<PathView>>, path: PathView, count: nat) -> bool {
    exists|i: int|
        0 <= i < count && (#[trigger] moves[i]).source == traced(moves, path, i as nat)
}

/// Whether no move ends where a file stands at that time.
pub open spec fn undisturbed(moves: Seq<AppliedFileMove<PathView>>, path: PathView, count: nat) -> bool {
    forall|i: int|
        0 <= i < count ==> (#[trigger] moves[i]).destination != traced(moves, path, i as nat)
}

proof fn standing_at_finds(files: Seq<Followed<PathView>>, path: PathView, from: int)
    requires
        0 <= from,
    ensures
        standing_at(files, path, from) matches Some(at) ==> from <= at < files.len()
            && files[at].destination == path,
        standing_at(files, path, from) is None ==> forall|i: int|
            from <= i < files.len() ==> (#[trigger] files[i]).destination != path,
    decreases files.len() - from,
{
    if from < files.len() {
        standing_at_finds(files, path, from + 1);
    }
}

/// Whether no two files stand at one path.
spec fn destinations_differ(files: Seq<Followed<PathView>>) -> bool {
    forall|i: int, j: int|
        0 <= i < j < files.len() ==> (#[trigger] files[i]).destination != (
        #[trigger] files[j]).destination
}

/// Whether a followed file of the given origin stands where tracing takes it.
spec fn follows(
    files: Seq<Followed<PathView>>,
    moves: Seq<AppliedFileMove<PathView>>,
    path: PathView,
    count: nat,
) -> bool {
    let now = traced(moves, path, count);
    if ever_moved(moves, path, count) {
        exists|i: int|
            0 <= i < files.len() && (#[trigger] files[i]).destination == now && files[i].origin
                == path
    } else {
        now == path && forall|i: int|
            0 <= i < files.len() ==> (#[trigger] files[i]).destination != path
    }
}

proof fn files_stand_apart(moves: Seq<AppliedFileMove<PathView>>, count: nat)
    requires
        count <= moves.len(),
        after_moves(moves, count) is Some,
    ensures
        destinations_differ(after_moves(moves, count)->0),
    decreases count,
{
    if count > 0 {
        let last = (count - 1) as nat;
        let files = after_moves(moves, last)->0;
        let step = moves[count - 1];
        files_stand_apart(moves, last);
        standing_at_finds(files, step.source, 0);
        let rest = match standing_at(files, step.source, 0) {
            Some(at) => files.remove(at),
            None => files,
        };
        standing_at_finds(rest, step.destination, 0);
        let later = after_moves(moves, count)->0;
        assert forall|i: int, j: int| 0 <= i < j < later.len() implies (
        #[trigger] later[i]).destination != (#[trigger] later[j]).destination by {
            if j < rest.len() {
                match standing_at(files, step.source, 0) {
                    Some(at) => {
                        assert(rest[i] == files[if i < at { i } else { i + 1 }]);
                        assert(rest[j] == files[if j < at { j } else { j + 1 }]);
                    },
                    None => {},
                }
            } else {
                assert(rest[i].destination != step.destination);
            }
        }
    }
}

#[verifier::rlimit(40)]
proof fn moves_are_followed(moves: Seq<AppliedFileMove<PathView>>, path: PathView, count: nat)
    requires
        count <= moves.len(),
        undisturbed(moves, path, count),
        after_moves(moves, count) is Some,
    ensures
        follows(after_moves(moves, count)->0, moves, path, count),
    decreases count,
{
    if count > 0 {
        let last = (count - 1) as nat;
        let files = after_moves(moves, last)->0;
        let step = moves[count - 1];
        let now = traced(moves, path, last);
        moves_are_followed(moves, path, last);
        files_stand_apart(moves, last);
        standing_at_finds(files, step.source, 0);
        let (rest, origin) = match standing_at(files, step.source, 0) {
            Some(at) => (files.remove(at), files[at].origin),
            None => (files, step.source),
        };
        standing_at_finds(rest, step.destination, 0);
        let later = after_moves(moves, count)->0;
        let added = Followed { destination: step.destination, origin };
        assert(later == rest.push(added));
        assert(later[rest.len() as int] == added);
        if step.source == now {
            assert(moves[last as int].source == traced(moves, path, last));
            assert(ever_moved(moves, path, count));
            if ever_moved(moves, path, last) {
                let i = choose|i: int|
                    0 <= i < files.len() && (#[trigger] files[i]).destination == now
                        && files[i].origin == path;
                let at = standing_at(files, step.source, 0)->0;
                assert(files[at].destination == files[i].destination);
                assert(i == at);
            }
            assert(added.origin == path);
        } else {
            assert(step.destination != now);
            if ever_moved(moves, path, last) {
                let k = choose|k: int|
                    0 <= k < last && (#[trigger] moves[k]).source == traced(moves, path, k as nat);
                assert(ever_moved(moves, path, count));
                let i = choose|i: int|
                    0 <= i < files.len() && (#[trigger] files[i]).destination == now
                        && files[i].origin == path;
                match standing_at(files, step.source, 0) {
                    Some(at) => {
                        let j = if i < at {
                            i
                        } else {
                            i - 1
                        };
                        assert(rest[j] == files[i]);
                        assert(later[j] == files[i]);
                    },
                    None => {
                        assert(later[i] == files[i]);
                    },
                }
            } else {
                assert(!ever_moved(moves, path, count)) by {
                    if ever_moved(moves, path, count) {
                        let k = choose|k: int|
                            0 <= k < count && (#[trigger] moves[k]).source == traced(
                                moves,
                                path,
                                k as nat,
                            );
                        assert(k < last);
                    }
                }
                assert forall|i: int| 0 <= i < later.len() implies (
                #[trigger] later[i]).destination != path by {
                    if i < rest.len() {
                        match standing_at(files, step.source, 0) {
                            Some(at) => {
                                let j = if i < at {
                                    i
                                } else {
                                    i + 1
                                };
                                assert(rest[i] == files[j]);
                            },
                            None => {},
                        }
                    }
                }
            }
        }
    }
}

/// Reduced moves take a file where the single moves take it, one after the other: for every file
/// that stood at a path before them and onto which no other was moved.
pub proof fn reduced_moves_follow_files(moves: Seq<AppliedFileMove<PathView>>, path: PathView)
    requires
        undisturbed(moves, path, moves.len()),
        reduced(moves) is Some,
        ever_moved(moves, path, moves.len()),
    ensures
        coming_from(reduced(moves)->0, path, 0) matches Some(at) && reduced(
            moves,
        )->0[at].destination == traced(moves, path, moves.len()),
{
    let files = reduced(moves)->0;
    moves_are_followed(moves, path, moves.len());
    coming_from_finds(files, path, 0);
    let i = choose|i: int|
        0 <= i < files.len() && (#[trigger] files[i]).destination == traced(
            moves,
            path,
            moves.len(),
        ) && files[i].origin == path;
    let at = coming_from(files, path, 0)->0;
    assert(files[i].origin == files[at].origin);
}

/// Whether a part of a slashed path, behind its first, is a component of it: nothing and a single
/// point are not.
pub open spec fn is_inner_component(part: Seq<char>) -> bool {
    part.len() > 0 && part != "."@
}

/// The components of a slashed path. The first part stands as it is: it is empty where the path
/// begins at the root, and a single point where it begins at the present directory. Only the
/// empty text has no first component.
pub open spec fn components_of(text: Seq<char>) -> PathView {
    let parts = split(text, '/');
    (if text.len() == 0 {
        Seq::empty()
    } else {
        parts.take(1)
    }) + parts.skip(1).filter(|part: Seq<char>| is_inner_component(part))
}

/// The path that a slashed text names.
pub fn path_from_text(text: &str) -> (path: ContentPath)
    ensures
        path@ == components_of(text@),
{
    let parts = split_text(text, '/');
    let ghost views = split(text@, '/');
    let ghost inner = |part: Seq<char>| is_inner_component(part);
    let ghost rest = views.skip(1);
    proof {
        split_is_not_empty(text@, '/', 0, 0);
        assert(views.len() == parts@.len());
        assert(views[0] == parts@[0]@);
    }
    let mut path = ContentPath::root();
    if !text.is_empty() {
        path = path.child(parts[0].clone());
    }
    let ghost first = path@;
    proof {
        assert(first =~= if text@.len() == 0 {
            Seq::empty()
        } else {
            views.take(1)
        });
    }
    let mut i: usize = 1;
    assert(rest.take(0).filter(inner) =~= Seq::<Seq<char>>::empty()) by {
        reveal(Seq::filter);
    }
    assert(path@ =~= first + rest.take(0).filter(inner));
    while i < parts.len()
        invariant
            1 <= i <= parts@.len(),
            views == texts(parts@),
            rest == views.skip(1),
            inner == (|part: Seq<char>| is_inner_component(part)),
            path@ == first + rest.take(i - 1).filter(inner),
        decreases parts@.len() - i,
    {
        proof {
            reveal(Seq::filter);
            assert(rest[i - 1] == parts@[i as int]@);
            assert(rest.take(i as int).drop_last() =~= rest.take(i - 1));
        }
        let ghost before = path@;
        if !parts[i].as_str().is_empty() && !same_text(parts[i].as_str(), ".") {
            path = path.child(parts[i].clone());
            assert(path@ =~= first + rest.take(i - 1).filter(inner).push(parts@[i as int]@));
        }
        i += 1;
    }
    assert(rest.take(rest.len() as int) =~= rest);
    path
}

/// The staged changes that were read so far.
pub struct Staged {
    /// Paths of added files.
    pub added: Seq<PathView>,
    /// Number of modified files.
    pub modified: int,
    /// Paths of deleted files.
    pub deleted: Seq<PathView>,
}

/// The staged changes in a list of status letters and paths, from field `at` on. The list ends
/// with an empty field or where there are no more; a status without a path, an unknown status, a
/// path that is not text and a path that is added twice spoil it.
pub open spec fn staged_from(fields: Seq<Seq<u8>>, at: int, before: Staged) -> Option<Staged>
    decreases fields.len() - at,
{
    if at < 0 || at >= fields.len() || fields[at].len() == 0 {
        Some(before)
    } else if at + 1 >= fields.len() || !valid_utf8(fields[at + 1]) || fields[at + 1].len() == 0 {
        None
    } else {
        let path = components_of(decode_utf8(fields[at + 1]));
        if fields[at] == seq![65u8] {
            if before.added.contains(path) {
                None
            } else {
                staged_from(fields, at + 2, Staged { added: before.added.push(path), ..before })
            }
        } else if fields[at] == seq![77u8] {
            staged_from(fields, at + 2, Staged { modified: before.modified + 1, ..before })
        } else if fields[at] == seq![68u8] {
            staged_from(fields, at + 2, Staged { deleted: before.deleted.push(path), ..before })
        } else {
            None
        }
    }
}

/// The added paths and the number of modified files once the deletions from `next` on are
/// explained: each must be the source of a move whose destination was added.
pub open spec fn explained(
    files: Seq<Followed<PathView>>,
    deleted: Seq<PathView>,
    next: int,
    added: Seq<PathView>,
    modified: int,
) -> Option<(Seq<PathView>, int)>
    decreases deleted.len() - next,
{
    if next < 0 || next >= deleted.len() {
        Some((added, modified))
    } else {
        match moved_to(files, deleted[next], deleted[next].len() as int) {
            None => None,
            Some(destination) => if destination == deleted[next] || !added.contains(destination) {
                None
            } else {
                explained(
                    files,
                    deleted,
                    next + 1,
                    added.remove(added.index_of(destination)),
                    modified + 1,
                )
            },
        }
    }
}

/// The numbers of files that a batch changes.
#[derive(Clone, Copy, Debug, PartialEq, Eq, Structural)]
pub struct FileStats {
    /// Added files.
    pub added: usize,
    /// Modified files, moved ones among them.
    pub modified: usize,
    /// Deleted files: there are none.
    pub deleted: usize,
}

/// The numbers of files that a batch changes, from the listed difference and the applied moves.
/// Nothing is physically deleted: every deletion must be one side of a move.
pub open spec fn counted(output: Seq<u8>, moves: Seq<AppliedFileMove<PathView>>) -> Result<
    (nat, int),
    GitFailure,
> {
    let start = Staged { added: Seq::empty(), modified: 0, deleted: Seq::empty() };
    match (reduced(moves), staged_from(split(output, 0u8), 0, start)) {
        (Some(files), Some(staged)) => match explained(
            files,
            staged.deleted,
            0,
            staged.added,
            staged.modified,
        ) {
            Some((added, modified)) => Ok((added.len(), modified)),
            None => Err(GitTransactionError::PhysicalDeletion),
        },
        _ => Err(GitTransactionError::InvalidGitOutput),
    }
}

/// Whether a field is one given byte.
fn is_letter(field: &Vec<u8>, letter: u8) -> (result: bool)
    ensures
        result == (field@ == seq![letter]),
{
    let result = field.len() == 1 && field[0] == letter;
    proof {
        if result {
            assert(field@ =~= seq![letter]);
        } else if field@ == seq![letter] {
            assert(field@[0] == letter);
        }
    }
    result
}

/// Finds a path in a list.
fn find_path(paths: &Vec<ContentPath>, path: &ContentPath) -> (result: Option<usize>)
    requires
        path_views(paths@).no_duplicates(),
    ensures
        result is Some <==> path_views(paths@).contains(path@),
        result matches Some(at) ==> at < paths@.len() && path_views(paths@).index_of(path@) == at,
{
    let ghost views = path_views(paths@);
    let mut i: usize = 0;
    while i < paths.len()
        invariant
            i <= paths@.len(),
            views == path_views(paths@),
            views.no_duplicates(),
            forall|j: int| 0 <= j < i ==> views[j] != path@,
        decreases paths@.len() - i,
    {
        assert(views[i as int] == paths@[i as int]@);
        if paths[i].same(path) {
            proof {
                assert(views.contains(path@));
                let k = views.index_of(path@);
                assert(views[k] == path@ && 0 <= k < views.len());
            }
            return Some(i);
        }
        i += 1;
    }
    None
}

/// The staged changes that were read.
struct StagedFiles {
    added: Vec<ContentPath>,
    modified: usize,
    deleted: Vec<ContentPath>,
}

/// Reads the staged changes from a list of status letters and paths.
fn read_staged(output: &[u8]) -> (result: Option<StagedFiles>)
    ensures
        match result {
            Some(staged) => {
                &&& staged_from(
                    split(output@, 0u8),
                    0,
                    (Staged { added: Seq::empty(), modified: 0, deleted: Seq::empty() }),
                ) == Some(
                    Staged {
                        added: path_views(staged.added@),
                        modified: staged.modified as int,
                        deleted: path_views(staged.deleted@),
                    },
                )
                &&& path_views(staged.added@).no_duplicates()
                &&& staged.modified + staged.deleted@.len() <= usize::MAX
            },
            None => staged_from(
                split(output@, 0u8),
                0,
                (Staged { added: Seq::empty(), modified: 0, deleted: Seq::empty() }),
            ) is None,
        },
{
    let fields = split_bytes(output, 0);
    let ghost views = split(output@, 0u8);
    let ghost start = Staged { added: Seq::empty(), modified: 0, deleted: Seq::empty() };
    let mut added: Vec<ContentPath> = Vec::new();
    let mut modified: usize = 0;
    let mut deleted: Vec<ContentPath> = Vec::new();
    let mut at: usize = 0;
    proof {
        assert(path_views(added@) =~= Seq::<PathView>::empty());
        assert(path_views(deleted@) =~= Seq::<PathView>::empty());
    }
    while at < fields.len() && fields[at].len() > 0
        invariant
            at <= fields@.len(),
            views == split(output@, 0u8),
            views == byte_views(fields@),
            start == (Staged { added: Seq::empty(), modified: 0, deleted: Seq::empty() }),
            path_views(added@).no_duplicates(),
            modified + deleted@.len() <= at,
            staged_from(views, 0, start) == staged_from(
                views,
                at as int,
                (Staged {
                    added: path_views(added@),
                    modified: modified as int,
                    deleted: path_views(deleted@),
                }),
            ),
        decreases fields@.len() - at,
    {
        assert(views[at as int] == fields@[at as int]@);
        if fields.len() - at < 2 {
            return None;
        }
        assert(views[at + 1] == fields@[at + 1]@);
        let text = match utf8_text(fields[at + 1].as_slice()) {
            Some(text) => text,
            None => {
                return None;
            },
        };
        proof {
            vstd::utf8::encode_utf8_decode_utf8(text@);
        }
        if fields[at + 1].len() == 0 {
            return None;
        }
        let path = path_from_text(text.as_str());
        if is_letter(&fields[at], 65) {
            if holds_path(&added, &path) {
                return None;
            }
            let ghost earlier = path_views(added@);
            added.push(path);
            proof {
                let later = path_views(added@);
                assert(later =~= earlier.push(path@));
                assert forall|i: int, j: int| 0 <= i < later.len() && 0 <= j < later.len() && i
                    != j implies later[i] != later[j] by {
                    if i == earlier.len() {
                        assert(earlier.contains(later[j]));
                    } else if j == earlier.len() {
                        assert(earlier.contains(later[i]));
                    }
                }
            }
        } else if is_letter(&fields[at], 77) {
            modified += 1;
        } else if is_letter(&fields[at], 68) {
            let ghost earlier = path_views(deleted@);
            deleted.push(path);
            assert(path_views(deleted@) =~= earlier.push(path@));
        } else {
            return None;
        }
        at += 2;
    }
    proof {
        if at < fields@.len() {
            assert(views[at as int] == fields@[at as int]@);
        }
    }
    Some(StagedFiles { added, modified, deleted })
}

/// Counts the files that a batch changes, from the listed difference and the applied moves.
pub fn staged_stats(output: &[u8], moves: &Vec<AppliedFileMove>) -> (result: Result<
    FileStats,
    GitTransactionError,
>)
    ensures
        match result {
            Ok(stats) => counted(output@, move_views(moves@)) == Ok::<(nat, int), GitFailure>(
                (stats.added as nat, stats.modified as int),
            ) && stats.deleted == 0,
            Err(error) => counted(output@, move_views(moves@)) == Err::<(nat, int), GitFailure>(
                error@,
            ),
        },
{
    let files = match reduce_moves(moves) {
        Some(files) => files,
        None => {
            return Err(GitTransactionError::InvalidGitOutput);
        },
    };
    let staged = match read_staged(output) {
        Some(staged) => staged,
        None => {
            return Err(GitTransactionError::InvalidGitOutput);
        },
    };
    let ghost views = followed_views(files@);
    let ghost gone = path_views(staged.deleted@);
    let ghost first = path_views(staged.added@);
    let ghost counted_before = staged.modified as int;
    let deleted = staged.deleted;
    let mut added = staged.added;
    let mut modified: usize = staged.modified;
    let mut next: usize = 0;
    while next < deleted.len()
        invariant
            next <= deleted@.len(),
            views == followed_views(files@),
            gone == path_views(deleted@),
            path_views(added@).no_duplicates(),
            modified + (deleted@.len() - next) <= usize::MAX,
            explained(views, gone, 0, first, counted_before) == explained(
                views,
                gone,
                next as int,
                path_views(added@),
                modified as int,
            ),
            counted(output@, move_views(moves@)) == (match explained(
                views,
                gone,
                0,
                first,
                counted_before,
            ) {
                Some((left, count)) => Ok::<(nat, int), GitFailure>((left.len(), count)),
                None => Err::<(nat, int), GitFailure>(GitTransactionError::PhysicalDeletion),
            }),
        decreases deleted@.len() - next,
    {
        let source = &deleted[next];
        assert(gone[next as int] == source@);
        let destination = match moved_file_destination(source, &files) {
            Some(destination) => destination,
            None => {
                return Err(GitTransactionError::PhysicalDeletion);
            },
        };
        if destination.same(source) {
            return Err(GitTransactionError::PhysicalDeletion);
        }
        match find_path(&added, &destination) {
            None => {
                return Err(GitTransactionError::PhysicalDeletion);
            },
            Some(at) => {
                let ghost earlier = path_views(added@);
                let _moved = added.remove(at);
                proof {
                    let later = path_views(added@);
                    assert(later =~= earlier.remove(at as int));
                    assert forall|i: int, j: int| 0 <= i < later.len() && 0 <= j < later.len() && i
                        != j implies later[i] != later[j] by {
                        assert(later[i] == earlier[if i < at { i } else { i + 1 }]);
                        assert(later[j] == earlier[if j < at { j } else { j + 1 }]);
                    }
                }
            },
        }
        modified += 1;
        next += 1;
    }
    Ok(FileStats { added: added.len(), modified, deleted: 0 })
}

} // verus!
