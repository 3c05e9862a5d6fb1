//! What holds across several works on the store of search indexes.
use crate::index_store::{
    current_generation, finished_work_gives_what_was_wanted, generation_name, is_generation,
    work_suits, worked, ActiveSearchIndex, ActiveView, PreparedView, Round, StoreAction, StoreActionView, StoreOutcome, StorePhase, StoreReply, StoreTask, TaskView,
    WorkView,
};
use crate::search_error::StoreFailure;
use vstd::prelude::*;

verus! {

/// The generation that `current` selects after the first `count` replies of a work, where it
/// selected a given one before.
pub open spec fn selection(
    task: TaskView,
    unique: u128,
    replies: Seq<StoreReply>,
    count: nat,
    before: Option<Seq<char>>,
) -> Option<Seq<char>>
    decreases count,
{
    if count == 0 {
        before
    } else {
        let earlier = (count - 1) as nat;
        match (worked(task, unique, replies, earlier).1, replies[count - 1]) {
            (StoreAction::Select { generation_id, .. }, StoreReply::Done) => Some(generation_id),
            (StoreAction::MoveCurrent { .. }, StoreReply::Done) => None,
            _ => selection(task, unique, replies, earlier, before),
        }
    }
}

/// Whether a reply says what the store holds: what `current` selects, and of which commit each
/// generation is.
pub open spec fn tells(
    action: StoreActionView,
    reply: StoreReply,
    selected: Option<Seq<char>>,
    commits: spec_fn(Seq<char>) -> Seq<char>,
) -> bool {
    match (action, reply) {
        (StoreAction::ReadCurrent, StoreReply::Current(entry)) => current_generation(entry) == Ok::<
            Option<Seq<char>>,
            StoreFailure,
        >(selected),
        (StoreAction::OpenGeneration { generation_id }, StoreReply::Commit(commit)) => commit@
            == commits(generation_id),
        (StoreAction::Build { generation_id }, StoreReply::Commit(commit)) => commit@ == commits(
            generation_id,
        ),
        (StoreAction::Promote { .. }, StoreReply::Done) => true,
        (StoreAction::Lock, StoreReply::Done) => true,
        (StoreAction::CheckStorage, StoreReply::Done) => true,
        (StoreAction::Select { .. }, StoreReply::Done) => true,
        (StoreAction::SyncRoot, StoreReply::Done) => true,
        _ => false,
    }
}

/// Whether the first `count` replies of a work on a store that selected a given generation say
/// what the store holds. What fails says nothing.
pub open spec fn is_told(
    task: TaskView,
    unique: u128,
    replies: Seq<StoreReply>,
    count: nat,
    before: Option<Seq<char>>,
    commits: spec_fn(Seq<char>) -> Seq<char>,
) -> bool {
    forall|k: nat|
        #![trigger worked(task, unique, replies, k)]
        k < count ==> replies[k as int] is Failed || tells(
            worked(task, unique, replies, k).1,
            replies[k as int],
            selection(task, unique, replies, k, before),
            commits,
        )
}

/// Whether none of the first `count` replies is a failure.
pub open spec fn nothing_fails(replies: Seq<StoreReply>, count: nat) -> bool {
    forall|k: int| 0 <= k < count ==> !(#[trigger] replies[k] is Failed)
}

/// What holds of an activation or a read on a store that says what it holds.
spec fn keeps_selection(
    work: WorkView,
    action: StoreActionView,
    selected: Option<Seq<char>>,
    commits: spec_fn(Seq<char>) -> Seq<char>,
) -> bool {
    let in_order = match work.phase {
        StorePhase::Locking => action == StoreActionView::Lock,
        StorePhase::Checking => action == StoreActionView::CheckStorage,
        StorePhase::LookupChecking(_) => action == StoreActionView::CheckStorage,
        StorePhase::LookupReading(_) => action == StoreActionView::ReadCurrent,
        StorePhase::LookupOpening(_, generation_id) => action == (StoreActionView::OpenGeneration {
            generation_id,
        }) && selected == Some(generation_id),
        StorePhase::Verifying => action is OpenGeneration,
        StorePhase::Syncing => action == StoreActionView::SyncRoot,
        StorePhase::Selecting => action is Select,
        StorePhase::SelectChecking => action == StoreActionView::CheckStorage,
        _ => true,
    };
    &&& in_order
    &&& match work.task {
        StoreTask::Activate { generation_id, commit } => {
            &&& action matches StoreAction::Select { generation_id: next, .. } ==> next
                == generation_id
            &&& work.phase is Verifying ==> action == (StoreActionView::OpenGeneration {
                generation_id,
            })
            &&& work.phase is Syncing || (action matches StoreAction::Finish(Ok(_)))
                ==> selected == Some(generation_id) && commits(generation_id) == commit
        },
        _ => action matches StoreAction::Finish(Ok(outcome)) ==> (
        outcome matches StoreOutcome::Active(active) && match active {
            Some(index) => selected == Some(index.generation_id) && index.commit == commits(
                index.generation_id,
            ),
            None => selected is None,
        }),
    }
}

proof fn run_keeps_selection(
    task: TaskView,
    unique: u128,
    replies: Seq<StoreReply>,
    count: nat,
    before: Option<Seq<char>>,
    commits: spec_fn(Seq<char>) -> Seq<char>,
)
    requires
        task is Activate || task is Read,
        is_told(task, unique, replies, count, before, commits),
    ensures
        ({
            let (work, action) = worked(task, unique, replies, count);
            keeps_selection(
                work,
                action,
                selection(task, unique, replies, count, before),
                commits,
            )
        }),
    decreases count,
{
    if count > 0 {
        let earlier = (count - 1) as nat;
        run_keeps_selection(task, unique, replies, earlier, before, commits);
        work_suits(task, unique, replies, earlier);
        work_suits(task, unique, replies, count);
        let (work, action) = worked(task, unique, replies, earlier);
        assert(replies[count - 1] is Failed || tells(
            action,
            replies[count - 1],
            selection(task, unique, replies, earlier, before),
            commits,
        ));
    }
}

/// An index that was activated is what `current` selects, as long as the store says what it
/// holds.
pub proof fn activated_indexes_are_selected(
    active: ActiveView,
    unique: u128,
    replies: Seq<StoreReply>,
    count: nat,
    before: Option<Seq<char>>,
    commits: spec_fn(Seq<char>) -> Seq<char>,
)
    requires
        is_told(wanted(active), unique, replies, count, before, commits),
        worked(wanted(active), unique, replies, count).1 matches StoreAction::Finish(Ok(_)),
    ensures
        selection(wanted(active), unique, replies, count, before) == Some(active.generation_id),
        commits(active.generation_id) == active.commit,
{
    run_keeps_selection(wanted(active), unique, replies, count, before, commits);
    work_suits(wanted(active), unique, replies, count);
}

/// The selection of an index, as a task.
pub open spec fn wanted(active: ActiveView) -> TaskView {
    StoreTask::Activate { generation_id: active.generation_id, commit: active.commit }
}

/// A read right after an activation gives exactly the activated index: it can end well with no
/// other, and it ends well where nothing fails.
pub proof fn activated_indexes_are_read(
    active: ActiveView,
    unique: u128,
    replies: Seq<StoreReply>,
    count: nat,
    before: Option<Seq<char>>,
    commits: spec_fn(Seq<char>) -> Seq<char>,
    reading: u128,
    answers: Seq<StoreReply>,
    length: nat,
)
    requires
        is_told(wanted(active), unique, replies, count, before, commits),
        worked(wanted(active), unique, replies, count).1 matches StoreAction::Finish(Ok(_)),
        is_told(
            StoreTask::Read,
            reading,
            answers,
            length,
            selection(wanted(active), unique, replies, count, before),
            commits,
        ),
    ensures
        ({
            let step = worked(StoreTask::Read, reading, answers, length);
            &&& step.1 matches StoreAction::Finish(Ok(outcome)) ==> outcome == StoreOutcome::Active(
                Some(active),
            )
            &&& length == 3 && nothing_fails(answers, length) ==> step.1 == StoreActionView::Finish(
                Ok(StoreOutcome::Active(Some(active))),
            )
        }),
{
    activated_indexes_are_selected(active, unique, replies, count, before, commits);
    activations_are_named(active, unique, replies, count);
    reads_give_selection(active, reading, answers, length, commits);
}

proof fn activations_are_named(
    active: ActiveView,
    unique: u128,
    replies: Seq<StoreReply>,
    count: nat,
)
    ensures
        ({
            let (work, action) = worked(wanted(active), unique, replies, count);
            &&& work.phase is Ended || work.phase is Locking || work.phase is Checking
                || is_generation(active.generation_id, active.commit)
            &&& action matches StoreAction::Finish(Ok(_)) ==> is_generation(
                active.generation_id,
                active.commit,
            )
        }),
    decreases count,
{
    if count > 0 {
        activations_are_named(active, unique, replies, (count - 1) as nat);
        work_suits(wanted(active), unique, replies, (count - 1) as nat);
    }
}

proof fn reads_give_selection(
    active: ActiveView,
    unique: u128,
    replies: Seq<StoreReply>,
    count: nat,
    commits: spec_fn(Seq<char>) -> Seq<char>,
)
    requires
        commits(active.generation_id) == active.commit,
        is_generation(active.generation_id, active.commit),
        is_told(StoreTask::Read, unique, replies, count, Some(active.generation_id), commits),
    ensures
        ({
            let (work, action) = worked(StoreTask::Read, unique, replies, count);
            &&& selection(StoreTask::Read, unique, replies, count, Some(active.generation_id))
                == Some(active.generation_id)
            &&& !(action is Select)
            &&& !(action is MoveCurrent)
            &&& action matches StoreAction::Finish(Ok(outcome)) ==> outcome == StoreOutcome::Active(
                Some(active),
            )
            &&& nothing_fails(replies, count) && count <= 3 ==> match work.phase {
                StorePhase::LookupChecking(_) => count == 0,
                StorePhase::LookupReading(_) => count == 1,
                StorePhase::LookupOpening(_, _) => count == 2,
                _ => count == 3 && action == StoreActionView::Finish(
                    Ok(StoreOutcome::Active(Some(active))),
                ),
            }
        }),
    decreases count,
{
    if count > 0 {
        let earlier = (count - 1) as nat;
        let task = StoreTask::<Seq<char>>::Read;
        let before = Some(active.generation_id);
        reads_give_selection(active, unique, replies, earlier, commits);
        run_keeps_selection(task, unique, replies, earlier, before, commits);
        work_suits(task, unique, replies, earlier);
        let (work, action) = worked(task, unique, replies, earlier);
        assert(replies[count - 1] is Failed || tells(
            action,
            replies[count - 1],
            selection(task, unique, replies, earlier, before),
            commits,
        ));
        assert(ActiveSearchIndex {
            generation_id: active.generation_id,
            commit: active.commit,
        } == active);
    }
}

/// The number of replies to an activation where nothing fails: the selected index is only looked
/// up, and another one is selected and looked up then.
pub open spec fn activation_length(before: Option<Seq<char>>, generation_id: Seq<char>) -> nat {
    if before == Some(generation_id) {
        7
    } else if before is None {
        10
    } else {
        11
    }
}

/// Whether what `current` selects is a generation of its commit, if it selects any.
pub open spec fn stands(
    selected: Option<Seq<char>>,
    commits: spec_fn(Seq<char>) -> Seq<char>,
) -> bool {
    selected matches Some(generation_id) ==> is_generation(generation_id, commits(generation_id))
}

/// Activating an index again leaves `current` as it is and gives that index again: it can end well
/// with no other, and it ends well where nothing fails.
pub proof fn activated_indexes_are_activated_again(
    active: ActiveView,
    unique: u128,
    replies: Seq<StoreReply>,
    count: nat,
    before: Option<Seq<char>>,
    commits: spec_fn(Seq<char>) -> Seq<char>,
    repeating: u128,
    answers: Seq<StoreReply>,
    length: nat,
)
    requires
        is_told(wanted(active), unique, replies, count, before, commits),
        worked(wanted(active), unique, replies, count).1 matches StoreAction::Finish(Ok(_)),
        is_told(
            wanted(active),
            repeating,
            answers,
            length,
            selection(wanted(active), unique, replies, count, before),
            commits,
        ),
    ensures
        ({
            let step = worked(wanted(active), repeating, answers, length);
            &&& !(step.1 is Select)
            &&& step.1 matches StoreAction::Finish(Ok(outcome)) ==> outcome == StoreOutcome::Active(
                Some(active),
            )
            &&& length == activation_length(Some(active.generation_id), active.generation_id)
                && nothing_fails(answers, length) ==> step.1 == StoreActionView::Finish(
                Ok(StoreOutcome::Active(Some(active))),
            )
        }),
{
    activated_indexes_are_selected(active, unique, replies, count, before, commits);
    activations_are_named(active, unique, replies, count);
    activation_proceeds(
        active,
        repeating,
        answers,
        length,
        Some(active.generation_id),
        commits,
    );
}

/// A prepared index can be activated: where nothing fails the activation ends well, with exactly
/// the generation and the commit that were prepared.
pub proof fn prepared_indexes_are_activated(
    commit: Seq<char>,
    unique: u128,
    replies: Seq<StoreReply>,
    count: nat,
    before: Option<Seq<char>>,
    commits: spec_fn(Seq<char>) -> Seq<char>,
    prepared: PreparedView,
    activating: u128,
    answers: Seq<StoreReply>,
)
    requires
        is_told(StoreTask::Prepare { commit }, unique, replies, count, before, commits),
        worked(StoreTask::Prepare { commit }, unique, replies, count).1 == StoreActionView::Finish(
            Ok(StoreOutcome::Prepared(prepared)),
        ),
        is_told(
            activation_of(prepared),
            activating,
            answers,
            activation_length(before, prepared.generation_id),
            selection(StoreTask::Prepare { commit }, unique, replies, count, before),
            commits,
        ),
        nothing_fails(answers, activation_length(before, prepared.generation_id)),
    ensures
        prepared.commit == commit,
        worked(
            activation_of(prepared),
            activating,
            answers,
            activation_length(before, prepared.generation_id),
        ).1 == StoreActionView::Finish(
            Ok(
                StoreOutcome::Active(
                    Some(
                        ActiveSearchIndex {
                            generation_id: prepared.generation_id,
                            commit: prepared.commit,
                        },
                    ),
                ),
            ),
        ),
{
    let active = ActiveSearchIndex {
        generation_id: prepared.generation_id,
        commit: prepared.commit,
    };
    preparation_proceeds(commit, unique, replies, count, before, commits);
    assert(wanted(active) == activation_of(prepared));
    activation_proceeds(
        active,
        activating,
        answers,
        activation_length(before, prepared.generation_id),
        before,
        commits,
    );
}

/// The selection of a prepared index, as a task.
pub open spec fn activation_of(prepared: PreparedView) -> TaskView {
    StoreTask::Activate { generation_id: prepared.generation_id, commit: prepared.commit }
}

/// What holds of a preparation on a store that says what it holds.
spec fn keeps_prepared(
    work: WorkView,
    action: StoreActionView,
    before: Option<Seq<char>>,
    commits: spec_fn(Seq<char>) -> Seq<char>,
) -> bool {
    let commit = work.task->Prepare_commit;
    let name = generation_name(commit, work.unique);
    &&& !(action is Select)
    &&& !(action is MoveCurrent)
    &&& match work.phase {
        StorePhase::LookupReading(_) => action == StoreActionView::ReadCurrent,
        StorePhase::LookupOpening(_, generation_id) => action == (StoreActionView::OpenGeneration {
            generation_id,
        }) && before == Some(generation_id),
        StorePhase::Building => stands(before, commits),
        StorePhase::Promoting => stands(before, commits),
        StorePhase::Reopening => stands(before, commits) && action == (
        StoreActionView::OpenGeneration { generation_id: name }),
        StorePhase::Rechecking => stands(before, commits) && commits(name) == commit,
        _ => true,
    }
    &&& action matches StoreAction::Finish(Ok(outcome)) ==> (
    outcome matches StoreOutcome::Prepared(prepared) && stands(before, commits) && prepared.commit
        == commit && commits(prepared.generation_id) == commit)
}

proof fn preparation_proceeds(
    commit: Seq<char>,
    unique: u128,
    replies: Seq<StoreReply>,
    count: nat,
    before: Option<Seq<char>>,
    commits: spec_fn(Seq<char>) -> Seq<char>,
)
    requires
        is_told(StoreTask::Prepare { commit }, unique, replies, count, before, commits),
    ensures
        ({
            let task = StoreTask::Prepare { commit };
            let (work, action) = worked(task, unique, replies, count);
            &&& selection(task, unique, replies, count, before) == before
            &&& keeps_prepared(work, action, before, commits)
            &&& action matches StoreAction::Finish(Ok(StoreOutcome::Prepared(prepared)))
                ==> is_generation(prepared.generation_id, prepared.commit) && prepared.commit
                == commit && commits(prepared.generation_id) == commit && stands(before, commits)
        }),
    decreases count,
{
    let task = StoreTask::Prepare { commit };
    finished_work_gives_what_was_wanted(task, unique, replies, count);
    work_suits(task, unique, replies, count);
    if count > 0 {
        let earlier = (count - 1) as nat;
        preparation_proceeds(commit, unique, replies, earlier, before, commits);
        work_suits(task, unique, replies, earlier);
        let (work, action) = worked(task, unique, replies, earlier);
        assert(replies[count - 1] is Failed || tells(
            action,
            replies[count - 1],
            selection(task, unique, replies, earlier, before),
            commits,
        ));
    }
}

/// The number of replies that an activation still waits for, where nothing fails.
spec fn awaited(
    phase: StorePhase<Seq<char>>,
    before: Option<Seq<char>>,
    generation_id: Seq<char>,
) -> int {
    let length = activation_length(before, generation_id);
    match phase {
        StorePhase::Locking => length as int,
        StorePhase::Checking => length - 1,
        StorePhase::Verifying => length - 2,
        StorePhase::LookupChecking(Round::First) => length - 3,
        StorePhase::LookupReading(Round::First) => length - 4,
        StorePhase::LookupOpening(Round::First, _) => length - 5,
        StorePhase::Selecting => 5,
        StorePhase::SelectChecking => 4,
        StorePhase::LookupChecking(_) => 3,
        StorePhase::LookupReading(_) => 2,
        StorePhase::LookupOpening(_, _) => 1,
        StorePhase::Syncing => 1,
        _ => 0,
    }
}

/// Whether a phase of an activation comes before the selection.
spec fn is_early(phase: StorePhase<Seq<char>>) -> bool {
    match phase {
        StorePhase::Locking => true,
        StorePhase::Checking => true,
        StorePhase::Verifying => true,
        StorePhase::LookupChecking(round) => round == Round::First,
        StorePhase::LookupReading(round) => round == Round::First,
        StorePhase::LookupOpening(round, _) => round == Round::First,
        StorePhase::Selecting => true,
        _ => false,
    }
}

/// What holds of an activation on a store that says what it holds and selected a given generation.
spec fn keeps_activating(
    active: ActiveView,
    work: WorkView,
    action: StoreActionView,
    selected: Option<Seq<char>>,
    before: Option<Seq<char>>,
) -> bool {
    let same = before == Some(active.generation_id);
    &&& !(action is MoveCurrent)
    &&& is_early(work.phase) ==> selected == before
    &&& !is_early(work.phase) && !(work.phase is Ended) ==> selected == Some(active.generation_id)
    &&& same ==> selected == before && !(action is Select) && (is_early(work.phase)
        || work.phase is Syncing || work.phase is Ended) && !(work.phase is Selecting)
    &&& action is Select ==> work.phase is Selecting
    &&& action matches StoreAction::Finish(Ok(outcome)) ==> outcome == StoreOutcome::Active(
        Some(active),
    )
}

#[verifier::spinoff_prover]
#[verifier::rlimit(60)]
proof fn activation_proceeds(
    active: ActiveView,
    unique: u128,
    replies: Seq<StoreReply>,
    count: nat,
    before: Option<Seq<char>>,
    commits: spec_fn(Seq<char>) -> Seq<char>,
)
    requires
        commits(active.generation_id) == active.commit,
        is_generation(active.generation_id, active.commit),
        stands(before, commits),
        is_told(wanted(active), unique, replies, count, before, commits),
    ensures
        ({
            let (work, action) = worked(wanted(active), unique, replies, count);
            let selected = selection(wanted(active), unique, replies, count, before);
            let length = activation_length(before, active.generation_id);
            &&& keeps_activating(active, work, action, selected, before)
            &&& nothing_fails(replies, count) && count <= length ==> {
                &&& awaited(work.phase, before, active.generation_id) == length - count
                &&& work.phase is Ended || count == length ==> action == StoreActionView::Finish(
                    Ok(StoreOutcome::Active(Some(active))),
                )
            }
        }),
    decreases count,
{
    if count > 0 {
        let earlier = (count - 1) as nat;
        let task = wanted(active);
        activation_proceeds(active, unique, replies, earlier, before, commits);
        run_keeps_selection(task, unique, replies, earlier, before, commits);
        work_suits(task, unique, replies, earlier);
        work_suits(task, unique, replies, count);
        let (work, action) = worked(task, unique, replies, earlier);
        assert(replies[count - 1] is Failed || tells(
            action,
            replies[count - 1],
            selection(task, unique, replies, earlier, before),
            commits,
        ));
        assert(ActiveSearchIndex {
            generation_id: active.generation_id,
            commit: active.commit,
        } == active);
    }
}

} // verus!
