//! What is ordered of a store of search indexes after each reply, and what comes of it.
use crate::ids::{is_ulid, ulid_text};
use crate::index_store::{
    work_begun, work_stepped, ActiveSearchIndex, CurrentEntry, PreparedSearchIndex, StoreActionView,
    StoreOutcome, StoreReply, StoreStep, StoreTask, TargetComponent,
};
use crate::search_error::SearchIndexStoreError;
use vstd::prelude::*;

verus! {

/// Whether `current` is a link to a generation.
pub open spec fn selects(entry: CurrentEntry, generation_id: Seq<char>) -> bool {
    entry matches CurrentEntry::Link(target) && target@.len() == 2 && (target@[0] matches
        TargetComponent::Name(directory) && directory@ == "by-id"@) && (target@[1] matches
        TargetComponent::Name(generation) && generation@ == generation_id)
}

/// Whether a generation is named after a commit and a ULID.
pub open spec fn is_named_after(generation_id: Seq<char>, commit: Seq<char>) -> bool {
    exists|suffix: Seq<char>| #[trigger]
        is_ulid(suffix) && generation_id == commit + "-"@ + suffix
}

proof fn names_are_read(generation_id: Seq<char>, commit: Seq<char>)
    ensures
        crate::index_store::is_generation(generation_id, commit) <==> is_named_after(
            generation_id,
            commit,
        ),
{
    reveal_strlit("-");
    let count = commit.len() as int;
    if crate::index_store::is_generation(generation_id, commit) {
        let suffix = generation_id.skip(count + 1);
        assert(generation_id =~= generation_id.take(count) + "-"@ + suffix);
        assert(is_ulid(suffix));
    }
    if is_named_after(generation_id, commit) {
        let suffix = choose|suffix: Seq<char>| #[trigger]
            is_ulid(suffix) && generation_id == commit + "-"@ + suffix;
        assert(generation_id.take(count) =~= commit);
        assert(generation_id.skip(count + 1) =~= suffix);
    }
}

/// Where work stands once it has read `current` in the look-up that it begins or goes on with.
pub open spec fn read_current(step: StoreStep, entry: CurrentEntry) -> StoreStep {
    let reading = work_stepped(step.0, StoreReply::Done);
    work_stepped(reading.0, StoreReply::Current(entry))
}

/// A read gives what `current` selects: nothing where it is absent, and otherwise the selected
/// generation with the commit that its index was opened with, which it must be named after.
pub proof fn reads_give_what_is_selected(
    unique: u128,
    entry: CurrentEntry,
    generation_id: Seq<char>,
    opened: String,
    error: SearchIndexStoreError,
)
    ensures
        ({
            let begun = work_begun(StoreTask::Read, unique);
            let absent = read_current(begun, CurrentEntry::Absent);
            let selected = read_current(begun, entry);
            let ended = work_stepped(selected.0, StoreReply::Commit(opened));
            &&& begun.1 is CheckStorage
            &&& work_stepped(begun.0, StoreReply::Done).1 is ReadCurrent
            &&& absent.1 == StoreActionView::Finish(Ok(StoreOutcome::Active(None)))
            &&& selects(entry, generation_id) ==> {
                &&& selected.1 == (StoreActionView::OpenGeneration { generation_id })
                &&& is_named_after(generation_id, opened@) ==> ended.1 == StoreActionView::Finish(
                    Ok(
                        StoreOutcome::Active(
                            Some(ActiveSearchIndex { generation_id, commit: opened@ }),
                        ),
                    ),
                )
                &&& !is_named_after(generation_id, opened@) ==> ended.1 == StoreActionView::Finish(
                    Err(SearchIndexStoreError::InvalidGeneration),
                )
                &&& work_stepped(selected.0, StoreReply::Failed(error)).1
                    == StoreActionView::Finish(Err(error@))
            }
            &&& entry is Other ==> selected.1 == StoreActionView::Finish(
                Err(SearchIndexStoreError::InvalidCurrentEntry),
            )
        }),
{
    names_are_read(generation_id, opened@);
}

/// A preparation builds, under the lock, a generation that is named after the commit and the unique
/// number, moves it to its place and opens it there; it ends well exactly where both times it is of
/// that commit. Where the selected index is of that commit already, it gives that one.
pub proof fn preparations_build_of_their_commit(
    commit: Seq<char>,
    unique: u128,
    entry: CurrentEntry,
    generation_id: Seq<char>,
    selected: String,
    built: String,
    opened: String,
)
    ensures
        ({
            let made = commit + "-"@ + ulid_text(unique);
            let locking = work_begun(StoreTask::Prepare { commit }, unique);
            let checking = work_stepped(locking.0, StoreReply::Done);
            let looking = work_stepped(checking.0, StoreReply::Done);
            let building = read_current(looking, CurrentEntry::Absent);
            let promoting = work_stepped(building.0, StoreReply::Commit(built));
            let reopening = work_stepped(promoting.0, StoreReply::Done);
            let rechecking = work_stepped(reopening.0, StoreReply::Commit(opened));
            let ended = work_stepped(rechecking.0, StoreReply::Done);
            let found = read_current(looking, entry);
            let present = work_stepped(found.0, StoreReply::Commit(selected));
            &&& locking.1 is Lock
            &&& checking.1 is CheckStorage
            &&& building.1 == (StoreActionView::Build { generation_id: made })
            &&& built@ != commit ==> promoting.1 == StoreActionView::Finish(
                Err(SearchIndexStoreError::GenerationCommitMismatch),
            )
            &&& built@ == commit ==> {
                &&& promoting.1 == (StoreActionView::Promote { generation_id: made })
                &&& reopening.1 == (StoreActionView::OpenGeneration { generation_id: made })
                &&& opened@ != commit ==> rechecking.1 == StoreActionView::Finish(
                    Err(SearchIndexStoreError::GenerationCommitMismatch),
                )
                &&& opened@ == commit ==> rechecking.1 is CheckStorage && ended.1
                    == StoreActionView::Finish(
                    Ok(
                        StoreOutcome::Prepared(
                            PreparedSearchIndex { generation_id: made, commit },
                        ),
                    ),
                )
            }
            &&& selects(entry, generation_id) && is_named_after(generation_id, selected@) ==> {
                &&& selected@ == commit ==> present.1 == StoreActionView::Finish(
                    Ok(StoreOutcome::Prepared(PreparedSearchIndex { generation_id, commit })),
                )
                &&& selected@ != commit ==> present.1 == (StoreActionView::Build {
                    generation_id: made,
                })
            }
        }),
{
    names_are_read(generation_id, selected@);
}

/// Where an activation stands once it has opened the generation under the lock and looked at
/// `current`.
pub open spec fn activated_until(
    generation_id: Seq<char>,
    commit: Seq<char>,
    unique: u128,
    verified: String,
    entry: CurrentEntry,
) -> StoreStep {
    let locking = work_begun(StoreTask::Activate { generation_id, commit }, unique);
    let checking = work_stepped(locking.0, StoreReply::Done);
    let verifying = work_stepped(checking.0, StoreReply::Done);
    let looking = work_stepped(verifying.0, StoreReply::Commit(verified));
    read_current(looking, entry)
}

/// An activation opens the generation, under the lock, and goes on only where it is of the commit.
/// Then it selects the generation, unless it is selected, and ends well exactly where `current`
/// then selects that generation of that commit.
pub proof fn activations_select_their_generation(
    generation_id: Seq<char>,
    commit: Seq<char>,
    unique: u128,
    verified: String,
    other: String,
    entry: CurrentEntry,
    conflicting: CurrentEntry,
    taken: Seq<char>,
)
    requires
        is_named_after(generation_id, commit),
        verified@ == commit,
        other@ != commit,
        selects(entry, generation_id),
        selects(conflicting, taken),
        is_named_after(taken, other@),
    ensures
        ({
            let locking = work_begun(StoreTask::Activate { generation_id, commit }, unique);
            let checking = work_stepped(locking.0, StoreReply::Done);
            let verifying = work_stepped(checking.0, StoreReply::Done);
            let selecting = activated_until(
                generation_id,
                commit,
                unique,
                verified,
                CurrentEntry::Absent,
            );
            let settling = work_stepped(selecting.0, StoreReply::Done);
            let again = work_stepped(settling.0, StoreReply::Done);
            let reread = read_current(again, entry);
            let disputed = read_current(again, conflicting);
            let chosen = activated_until(generation_id, commit, unique, verified, entry);
            let syncing = work_stepped(chosen.0, StoreReply::Commit(verified));
            let active = StoreActionView::Finish(
                Ok(StoreOutcome::Active(Some(ActiveSearchIndex { generation_id, commit }))),
            );
            &&& locking.1 is Lock
            &&& verifying.1 == (StoreActionView::OpenGeneration { generation_id })
            &&& work_stepped(verifying.0, StoreReply::Commit(other)).1 == StoreActionView::Finish(
                Err(SearchIndexStoreError::GenerationCommitMismatch),
            )
            &&& selecting.1 == (StoreActionView::Select {
                generation_id,
                temporary: ".current-"@ + ulid_text(unique),
            })
            &&& settling.1 is CheckStorage
            &&& reread.1 == (StoreActionView::OpenGeneration { generation_id })
            &&& work_stepped(reread.0, StoreReply::Commit(verified)).1 == active
            &&& work_stepped(disputed.0, StoreReply::Commit(other)).1 == StoreActionView::Finish(
                Err(SearchIndexStoreError::ActivationConflict),
            )
            &&& read_current(again, CurrentEntry::Absent).1 == StoreActionView::Finish(
                Err(SearchIndexStoreError::InvalidCurrentEntry),
            )
            &&& syncing.1 is SyncRoot
            &&& work_stepped(syncing.0, StoreReply::Done).1 == active
        }),
{
    names_are_read(generation_id, commit);
    names_are_read(taken, other@);
}

/// A generation that is not named after its commit is not activated.
pub proof fn misnamed_generations_are_refused(
    generation_id: Seq<char>,
    commit: Seq<char>,
    unique: u128,
)
    requires
        !is_named_after(generation_id, commit),
    ensures
        ({
            let locking = work_begun(StoreTask::Activate { generation_id, commit }, unique);
            let checking = work_stepped(locking.0, StoreReply::Done);
            work_stepped(checking.0, StoreReply::Done).1 == StoreActionView::Finish(
                Err(SearchIndexStoreError::InvalidGeneration),
            )
        }),
{
    names_are_read(generation_id, commit);
}

/// A recovery sets aside, under the lock, what is selected and cannot be used: the link, and the
/// generation that it names if it names one. Where what is selected can be used, or cannot be used
/// for another reason than its own data, nothing is set aside.
pub proof fn recoveries_set_aside_what_is_corrupt(
    unique: u128,
    entry: CurrentEntry,
    generation_id: Seq<char>,
    opened: String,
    error: SearchIndexStoreError,
)
    requires
        selects(entry, generation_id),
        is_named_after(generation_id, opened@),
    ensures
        ({
            let begun = work_begun(StoreTask::Recover, unique);
            let first = read_current(begun, entry);
            let locking = work_stepped(first.0, StoreReply::Failed(error));
            let checking = work_stepped(locking.0, StoreReply::Done);
            let looking = work_stepped(checking.0, StoreReply::Done);
            let second = read_current(looking, entry);
            let inspecting = work_stepped(second.0, StoreReply::Failed(error));
            let moving = work_stepped(inspecting.0, StoreReply::Current(entry));
            let next = work_stepped(moving.0, StoreReply::Done);
            let settled = work_stepped(next.0, StoreReply::Done);
            let releasing = work_stepped(settled.0, StoreReply::Done);
            let last = work_stepped(releasing.0, StoreReply::Done);
            let corrupt = error@ is Search || error@ is InvalidGeneration
                || error@ is GenerationCommitMismatch || error@ is InvalidCurrentEntry;
            &&& work_stepped(first.0, StoreReply::Commit(opened)).1 == StoreActionView::Finish(
                Ok(
                    StoreOutcome::Active(
                        Some(ActiveSearchIndex { generation_id, commit: opened@ }),
                    ),
                ),
            )
            &&& !corrupt ==> locking.1 == StoreActionView::Finish(Err(error@))
            &&& corrupt ==> {
                &&& locking.1 is Lock
                &&& checking.1 is CheckStorage
                &&& second.1 == (StoreActionView::OpenGeneration { generation_id })
                &&& inspecting.1 is ReadCurrent
                &&& moving.1 == (StoreActionView::MoveCurrent {
                    name: "invalid-current-"@ + ulid_text(unique),
                })
                &&& next.1 == (StoreActionView::MoveGeneration {
                    generation_id,
                    name: "invalid-generation-"@ + generation_id + "-"@ + ulid_text(unique),
                })
                &&& settled.1 is CheckStorage
                &&& releasing.1 is Unlock
                &&& last.1 is CheckStorage
                &&& read_current(last, CurrentEntry::Absent).1 == StoreActionView::Finish(
                    Ok(StoreOutcome::Active(None)),
                )
            }
        }),
{
    names_are_read(generation_id, opened@);
}

} // verus!
