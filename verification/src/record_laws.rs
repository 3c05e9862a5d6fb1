//! What is written down of batches and read of configurations, said field by field.
use crate::changes::FileStats;
use crate::commit_message::{commit_problem, entry_lines, message_lines, CommitFacts};
use crate::config::{
    config_problem, host_components, settings_of, unusable_from, ConfigClock, ConfigFailure,
    WireView, WorkerSettings,
};
use crate::fields::{lines_of, words};
use crate::git_error::{GitFailure, GitTransactionError};
use crate::git_text::{is_object_id, printed_text, ObjectId};
use crate::ids::{ulid_text, BatchId, RequestId};
use crate::journal::{
    accepted, claims_problem, claims_request, failures_in, is_consistent, journaled_all, outcome_of,
    token_in, tokens_in, BatchCommitOutcome, Claim, ClaimToken, JournalClaim, JournalFailure,
    JournalState, JournalView, OutcomeView, StoredTransactionJournal,
};
use crate::text::decimal;
use vstd::prelude::*;
use vstd::utf8::{decode_utf8, valid_utf8};

verus! {

/// A journal is written with the claims of its batch, one for one and in their order.
pub proof fn claims_are_written_as_made(claims: Seq<Claim>)
    ensures
        journaled_all(claims).len() == claims.len(),
        forall|i: int|
            0 <= i < claims.len() ==> {
                let written = #[trigger] journaled_all(claims)[i];
                &&& written.request_id == claims[i].token.request_id
                &&& written.attempt == claims[i].token.attempt
                &&& claims[i].sequence matches Some(sequence) ==> written.acceptance_sequence
                    == sequence
            },
{
}

/// Whether a journal names a request, once among its claims, with an attempt.
pub open spec fn owns(journal: JournalView, request_id: RequestId, attempt: u32) -> bool {
    exists|i: int|
        0 <= i < journal.claims.len() && (#[trigger] journal.claims[i]).request_id == request_id
            && journal.claims[i].attempt == attempt
}

/// Whether a journal names a request among its claims.
pub open spec fn is_claimed(journal: JournalView, request_id: RequestId) -> bool {
    exists|attempt: u32| owns(journal, request_id, attempt)
}

/// Whether claims name each request once, and count attempts from one.
pub open spec fn are_single(claims: Seq<JournalClaim>) -> bool {
    &&& forall|i: int, j: int|
        0 <= i < j < claims.len() ==> (#[trigger] claims[i]).request_id != (
        #[trigger] claims[j]).request_id
    &&& forall|i: int| 0 <= i < claims.len() ==> (#[trigger] claims[i]).attempt > 0
}

proof fn first_claim_matches(claims: Seq<JournalClaim>, request_id: RequestId, from: int)
    requires
        0 <= from,
    ensures
        crate::fields::first_match(claims, claims_request(request_id), from) matches Some(at)
            ==> from <= at < claims.len() && claims[at].request_id == request_id,
        crate::fields::first_match(claims, claims_request(request_id), from) is None ==> forall|
            i: int,
        |
            from <= i < claims.len() ==> (#[trigger] claims[i]).request_id != request_id,
    decreases claims.len() - from,
{
    if from < claims.len() {
        first_claim_matches(claims, request_id, from + 1);
    }
}

proof fn tokens_are_owned(journal: JournalView, request_id: RequestId)
    requires
        are_single(journal.claims),
    ensures
        forall|attempt: u32| #[trigger]
            owns(journal, request_id, attempt) ==> token_in(journal, request_id) == Some(
                ClaimToken { request_id, batch_id: journal.batch_id, attempt },
            ),
        token_in(journal, request_id) is Some <==> is_claimed(journal, request_id),
{
    first_claim_matches(journal.claims, request_id, 0);
    if let Some(at) = crate::fields::first_match(
        journal.claims,
        claims_request(request_id),
        0,
    ) {
        assert(owns(journal, request_id, journal.claims[at].attempt));
    }
}

proof fn all_tokens_are_owned(journal: JournalView, requests: Seq<RequestId>)
    requires
        are_single(journal.claims),
        forall|i: int|
            0 <= i < requests.len() ==> is_claimed(journal, #[trigger] requests[i]),
    ensures
        tokens_in(journal, requests) matches Some(tokens) && tokens.len() == requests.len()
            && forall|i: int|
            0 <= i < tokens.len() ==> (#[trigger] tokens[i]).request_id == requests[i]
                && tokens[i].batch_id == journal.batch_id && owns(
                journal,
                requests[i],
                tokens[i].attempt,
            ),
    decreases requests.len(),
{
    if requests.len() > 0 {
        let earlier = requests.drop_last();
        assert forall|i: int| 0 <= i < earlier.len() implies is_claimed(journal, #[trigger] earlier[i]) by {
            assert(earlier[i] == requests[i]);
        }
        all_tokens_are_owned(journal, earlier);
        tokens_are_owned(journal, requests.last());
        let last = requests.len() - 1;
        assert(requests[last] == requests.last());
        assert(is_claimed(journal, requests[last]));
        let attempt = choose|attempt: u32| owns(journal, requests.last(), attempt);
        assert(owns(journal, requests.last(), attempt));
        let tokens = tokens_in(journal, requests)->0;
        let before = tokens_in(journal, earlier)->0;
        assert forall|i: int| 0 <= i < tokens.len() implies (#[trigger] tokens[i]).request_id
            == requests[i] && tokens[i].batch_id == journal.batch_id && owns(
            journal,
            requests[i],
            tokens[i].attempt,
        ) by {
            if i < before.len() {
                assert(tokens[i] == before[i]);
                assert(earlier[i] == requests[i]);
            }
        }
    }
}

proof fn all_failures_are_owned(journal: JournalView, failures: Seq<JournalFailure>)
    requires
        are_single(journal.claims),
        forall|i: int|
            0 <= i < failures.len() ==> is_claimed(journal, (#[trigger] failures[i]).request_id),
    ensures
        failures_in(journal, failures) matches Some(found) && found.len() == failures.len()
            && forall|i: int|
            0 <= i < found.len() ==> (#[trigger] found[i]).error_code == failures[i].error_code
                && found[i].token.request_id == failures[i].request_id && found[i].token.batch_id
                == journal.batch_id && owns(
                journal,
                failures[i].request_id,
                found[i].token.attempt,
            ),
    decreases failures.len(),
{
    if failures.len() > 0 {
        let earlier = failures.drop_last();
        assert forall|i: int| 0 <= i < earlier.len() implies is_claimed(journal, (#[trigger] earlier[i]).request_id) by {
            assert(earlier[i] == failures[i]);
        }
        all_failures_are_owned(journal, earlier);
        tokens_are_owned(journal, failures.last().request_id);
        let last = failures.len() - 1;
        assert(failures[last] == failures.last());
        assert(is_claimed(journal, failures[last].request_id));
        let attempt = choose|attempt: u32| owns(journal, failures.last().request_id, attempt);
        assert(owns(journal, failures.last().request_id, attempt));
        let found = failures_in(journal, failures)->0;
        let before = failures_in(journal, earlier)->0;
        assert forall|i: int| 0 <= i < found.len() implies (#[trigger] found[i]).error_code
            == failures[i].error_code && found[i].token.request_id == failures[i].request_id
            && found[i].token.batch_id == journal.batch_id && owns(
            journal,
            failures[i].request_id,
            found[i].token.attempt,
        ) by {
            if i < before.len() {
                assert(found[i] == before[i]);
                assert(earlier[i] == failures[i]);
            }
        }
    }
}

/// A journal of a decided batch tells what became of each request, with the attempt under which it
/// was claimed: the commit, the requests in it and the failures, one for one and in the order in
/// which they were written. One that is still preparing tells nothing.
pub proof fn journals_tell_what_became(journal: JournalView)
    requires
        are_single(journal.claims),
        journal.state matches JournalState::Committed { successful, .. } ==> forall|i: int|
            0 <= i < successful.len() ==> is_claimed(journal, #[trigger] successful[i]),
        journal.state matches JournalState::Committed { failures, .. } ==> forall|i: int|
            0 <= i < failures.len() ==> is_claimed(journal, (#[trigger] failures[i]).request_id),
        journal.state matches JournalState::NoChanges { failures } ==> forall|i: int|
            0 <= i < failures.len() ==> is_claimed(journal, (#[trigger] failures[i]).request_id),
    ensures
        journal.state is Preparing <==> outcome_of(journal) == Err::<OutcomeView, GitFailure>(
            GitTransactionError::JournalState,
        ),
        journal.state matches JournalState::NoChanges { failures } ==> (outcome_of(journal) matches Ok(
            BatchCommitOutcome::NoChanges { failures: found },
        ) && found.len() == failures.len() && forall|i: int|
            0 <= i < found.len() ==> (#[trigger] found[i]).error_code == failures[i].error_code
                && found[i].token.request_id == failures[i].request_id && found[i].token.batch_id
                == journal.batch_id && owns(
                journal,
                failures[i].request_id,
                found[i].token.attempt,
            )),
        journal.state matches JournalState::Committed { commit, successful, failures, .. } ==> (
        outcome_of(journal) matches Ok(
            BatchCommitOutcome::Committed { commit: made, successful: tokens, failures: found },
        ) && made == commit && tokens.len() == successful.len() && found.len() == failures.len()
            && (forall|i: int|
            0 <= i < tokens.len() ==> (#[trigger] tokens[i]).request_id == successful[i]
                && tokens[i].batch_id == journal.batch_id && owns(
                journal,
                successful[i],
                tokens[i].attempt,
            )) && forall|i: int|
            0 <= i < found.len() ==> (#[trigger] found[i]).error_code == failures[i].error_code
                && found[i].token.request_id == failures[i].request_id && found[i].token.batch_id
                == journal.batch_id && owns(
                journal,
                failures[i].request_id,
                found[i].token.attempt,
            )),
{
    match journal.state {
        JournalState::Preparing => {},
        JournalState::NoChanges { failures } => {
            all_failures_are_owned(journal, failures);
        },
        JournalState::Committed { commit, successful, failures, .. } => {
            all_tokens_are_owned(journal, successful);
            all_failures_are_owned(journal, failures);
        },
    }
}

/// A journal is consistent exactly where it is of its batch, its claims stand in the order of the
/// queue, and a decided one decides each of its claims once and nothing else.
pub proof fn consistent_journals_decide_their_claims(journal: JournalView, batch_id: BatchId)
    requires
        is_consistent(journal, batch_id),
    ensures
        journal.batch_id == batch_id,
        forall|i: int, j: int|
            0 <= i < j < journal.claims.len() ==> (#[trigger] journal.claims[i]).acceptance_sequence
                < (#[trigger] journal.claims[j]).acceptance_sequence,
        forall|i: int|
            0 <= i < journal.claims.len() ==> (#[trigger] journal.claims[i]).attempt > 0
                && journal.claims[i].acceptance_sequence > 0,
        journal.state !is Preparing ==> are_single(journal.claims),
        journal.state matches JournalState::NoChanges { failures } ==> failures.len()
            == journal.claims.len() && forall|i: int|
            0 <= i < failures.len() ==> is_claimed(journal, (#[trigger] failures[i]).request_id),
        journal.state matches JournalState::Committed { successful, failures, .. } ==> {
            &&& successful.len() + failures.len() == journal.claims.len()
            &&& forall|i: int|
                0 <= i < successful.len() ==> is_claimed(journal, #[trigger] successful[i])
            &&& forall|i: int|
                0 <= i < failures.len() ==> is_claimed(journal, (#[trigger] failures[i]).request_id)
            &&& forall|i: int, j: int|
                0 <= i < successful.len() && 0 <= j < failures.len() ==> #[trigger] successful[i]
                    != (#[trigger] failures[j]).request_id
        },
{
    if journal.state !is Preparing {
        let outcomes = crate::journal::decided(journal.state);
        let claimed = crate::journal::claimed_requests(journal.claims);
        outcomes.unique_seq_to_set();
        claimed.unique_seq_to_set();
        assert forall|i: int, j: int| 0 <= i < j < journal.claims.len() implies (
        #[trigger] journal.claims[i]).request_id != (#[trigger] journal.claims[j]).request_id by {
            assert(claimed[i] != claimed[j]);
        }
        assert forall|i: int| 0 <= i < outcomes.len() implies is_claimed(journal, #[trigger] outcomes[i]) by {
            assert(outcomes.to_set().contains(outcomes[i]));
            assert(claimed.contains(outcomes[i]));
            let at = choose|at: int| 0 <= at < claimed.len() && claimed[at] == outcomes[i];
            assert(journal.claims[at].request_id == outcomes[i]);
            assert(owns(journal, outcomes[i], journal.claims[at].attempt));
        }
        match journal.state {
            JournalState::NoChanges { failures } => {
                assert forall|i: int| 0 <= i < failures.len() implies is_claimed(journal, (#[trigger] failures[i]).request_id) by {
                    assert(outcomes[i] == failures[i].request_id);
                }
            },
            JournalState::Committed { successful, failures, .. } => {
                let count = successful.len() as int;
                assert forall|i: int| 0 <= i < successful.len() implies is_claimed(journal, #[trigger] successful[i]) by {
                    assert(outcomes[i] == successful[i]);
                }
                assert forall|i: int| 0 <= i < failures.len() implies is_claimed(journal, (#[trigger] failures[i]).request_id) by {
                    assert(outcomes[count + i] == failures[i].request_id);
                }
                assert forall|i: int, j: int| 0 <= i < successful.len() && 0 <= j
                    < failures.len() implies #[trigger] successful[i] != (
                #[trigger] failures[j]).request_id by {
                    assert(outcomes[i] == successful[i]);
                    assert(outcomes[count + j] == failures[j].request_id);
                }
            },
            _ => {},
        }
    }
}

/// A stored journal is read field by field. One of an unknown schema is invalid; one with a commit
/// that has no name, or that is not consistent, is a mismatch. The previous schema counted no
/// requests that were rejected while they were claimed.
pub proof fn journals_are_read_as_stored(stored: StoredTransactionJournal, batch_id: BatchId)
    ensures
        ({
            let current = stored is Current;
            let version = if current {
                stored->Current_schema_version
            } else {
                stored->Previous_schema_version
            };
            let journal = if current {
                stored->Current_journal
            } else {
                stored->Previous_journal
            };
            let known = current && version == 3 || !current && version == 2;
            let named = is_object_id(journal.base_commit@) && (journal.state matches
                JournalState::Committed { commit, .. } ==> is_object_id(commit@));
            let found = accepted(stored, batch_id);
            &&& !known <==> found == Err::<JournalView, GitFailure>(
                GitTransactionError::InvalidJournal,
            )
            &&& known && !named ==> found == Err::<JournalView, GitFailure>(
                GitTransactionError::JournalMismatch,
            )
            &&& found matches Ok(read) ==> {
                &&& known && named
                &&& is_consistent(read, batch_id)
                &&& read.batch_id == journal.batch_id
                &&& read.queue_identity == journal.queue_identity
                &&& read.base_commit == ObjectId::named(journal.base_commit@)
                &&& read.claims == journal.claims@
                &&& read.claim_failures == if current {
                    journal.claim_failures
                } else {
                    0
                }
                &&& journal.state is Preparing <==> read.state is Preparing
                &&& journal.state matches JournalState::NoChanges { failures } ==> (
                read.state matches JournalState::NoChanges { failures: kept } && kept == failures@)
                &&& journal.state matches JournalState::Committed {
                    commit,
                    successful,
                    failures,
                    publication_started,
                } ==> (read.state matches JournalState::Committed {
                    commit: made,
                    successful: kept,
                    failures: refused,
                    publication_started: started,
                } && made == ObjectId::named(commit@) && kept == successful@ && refused
                    == failures@ && started == publication_started)
            }
        }),
{
}

/// Claims are accepted exactly where they are of the batch, are all owned, name each request once
/// and stand in the order of the queue.
pub proof fn accepted_claims_stand_in_order(
    batch_id: BatchId,
    claims: Seq<Claim>,
    ownership: Seq<Option<String>>,
)
    requires
        ownership.len() == claims.len(),
    ensures
        claims_problem(batch_id, claims, ownership, 0) is None <==> {
            &&& forall|i: int|
                0 <= i < claims.len() ==> (#[trigger] claims[i]).token.batch_id == batch_id
                    && claims[i].sequence is Some && ownership[i] is None
            &&& forall|i: int, j: int|
                0 <= i < j < claims.len() ==> (#[trigger] claims[i]).token.request_id != (
                #[trigger] claims[j]).token.request_id && claims[i].sequence->0
                    < claims[j].sequence->0
        },
{
    claims_are_checked(batch_id, claims, ownership, 0);
    if claims_problem(batch_id, claims, ownership, 0) is None {
        assert forall|k: int| 0 <= k < claims.len() implies (#[trigger] claims[k]).sequence is Some
            && claims[k].token.batch_id == batch_id && ownership[k] is None by {
            assert(stands_well(batch_id, claims, ownership, k));
        }
        assert forall|k: int| 0 < k < claims.len() implies claims[k - 1].sequence->0 < (
        #[trigger] claims[k]).sequence->0 by {
            assert(stands_well(batch_id, claims, ownership, k));
        }
        assert forall|i: int, j: int| 0 <= i < j < claims.len() implies (
        #[trigger] claims[i]).token.request_id != (#[trigger] claims[j]).token.request_id
            && claims[i].sequence->0 < claims[j].sequence->0 by {
            assert(stands_well(batch_id, claims, ownership, j));
            sequences_grow(claims, i, j);
        }
    }
}

/// Whether one claim stands well behind those before it.
spec fn stands_well(
    batch_id: BatchId,
    claims: Seq<Claim>,
    ownership: Seq<Option<String>>,
    i: int,
) -> bool {
    &&& claims[i].token.batch_id == batch_id
    &&& claims[i].sequence is Some
    &&& ownership[i] is None
    &&& forall|j: int|
        0 <= j < i ==> (#[trigger] claims[j]).token.request_id != claims[i].token.request_id
    &&& i > 0 && claims[i - 1].sequence is Some ==> claims[i - 1].sequence->0
        < claims[i].sequence->0
}

proof fn claims_are_checked(
    batch_id: BatchId,
    claims: Seq<Claim>,
    ownership: Seq<Option<String>>,
    next: int,
)
    requires
        0 <= next,
    ensures
        claims_problem(batch_id, claims, ownership, next) is None <==> forall|i: int|
            next <= i < claims.len() ==> #[trigger] stands_well(batch_id, claims, ownership, i),
    decreases claims.len() - next,
{
    if next < claims.len() {
        claims_are_checked(batch_id, claims, ownership, next + 1);
        let well = stands_well(batch_id, claims, ownership, next);
        assert(claims_problem(batch_id, claims, ownership, next) is None <==> well
            && claims_problem(batch_id, claims, ownership, next + 1) is None);
    }
}

proof fn sequences_grow(claims: Seq<Claim>, i: int, j: int)
    requires
        0 <= i < j < claims.len(),
        forall|k: int| 0 <= k < claims.len() ==> (#[trigger] claims[k]).sequence is Some,
        forall|k: int|
            0 < k < claims.len() ==> claims[k - 1].sequence->0 < (#[trigger] claims[k]).sequence->0,
    ensures
        claims[i].sequence->0 < claims[j].sequence->0,
    decreases j - i,
{
    if i < j - 1 {
        sequences_grow(claims, i, j - 1);
    }
}

/// The claims that are named in a message, in their order.
pub open spec fn are_named(
    claims: Seq<Claim>,
    successful: Seq<ClaimToken>,
    count: int,
    which: Seq<int>,
) -> bool {
    &&& forall|i: int|
        0 <= i < which.len() ==> 0 <= #[trigger] which[i] < count && successful.contains(
            claims[which[i]].token,
        )
    &&& forall|i: int, j: int|
        0 <= i < j < which.len() ==> #[trigger] which[i] < #[trigger] which[j]
    &&& forall|k: int|
        0 <= k < count && successful.contains((#[trigger] claims[k]).token) ==> which.contains(k)
}

proof fn entries_name_claims(claims: Seq<Claim>, successful: Seq<ClaimToken>, count: nat) -> (which:
    Seq<int>)
    requires
        count <= claims.len(),
    ensures
        are_named(claims, successful, count as int, which),
        entry_lines(claims, successful, count).len() == which.len(),
        forall|i: int|
            0 <= i < which.len() ==> #[trigger] entry_lines(claims, successful, count)[i] == "- ["@
                + ulid_text(claims[which[i]].token.request_id.value) + "] "@
                + claims[which[i]].title@,
    decreases count,
{
    if count == 0 {
        Seq::empty()
    } else {
        let earlier = entries_name_claims(claims, successful, (count - 1) as nat);
        let last = count - 1;
        if successful.contains(claims[last].token) {
            let which = earlier.push(last);
            assert forall|k: int|
                0 <= k < count && successful.contains((#[trigger] claims[k]).token) implies which.contains(
                k,
            ) by {
                if k < last {
                    assert(earlier.contains(k));
                    let at = choose|at: int| 0 <= at < earlier.len() && earlier[at] == k;
                    assert(which[at] == k);
                } else {
                    assert(which[earlier.len() as int] == k);
                }
            }
            which
        } else {
            earlier
        }
    }
}

/// The message of a batch begins with the number of its successes and names each successful claim
/// with its title, in the order of the claims. Then come the counts of requests and of files that
/// were added, modified and deleted, the batch, and each successful request.
pub proof fn messages_tell_what_was_done(
    batch_id: BatchId,
    claims: Seq<Claim>,
    successful: Seq<ClaimToken>,
    stats: FileStats,
) -> (which: Seq<int>)
    ensures
        are_named(claims, successful, claims.len() as int, which),
        ({
            let lines = message_lines(batch_id, claims, successful, stats);
            let named = which.len() as int;
            &&& lines.len() == named + 9 + successful.len()
            &&& lines[0] == "knowledge snapshot: "@ + decimal(successful.len()) + " changes"@
            &&& lines[1] == ""@
            &&& forall|i: int|
                0 <= i < named ==> lines[2 + #[trigger] (i + 0)] == "- ["@ + ulid_text(
                    claims[which[i]].token.request_id.value,
                ) + "] "@ + claims[which[i]].title@
            &&& lines[named + 2] == ""@
            &&& lines[named + 3] == "Requests: "@ + decimal(successful.len())
            &&& lines[named + 4] == "Files-Added: "@ + decimal(stats.added as nat)
            &&& lines[named + 5] == "Files-Modified: "@ + decimal(stats.modified as nat)
            &&& lines[named + 6] == "Files-Deleted: "@ + decimal(stats.deleted as nat)
            &&& lines[named + 7] == ""@
            &&& lines[named + 8] == "Batch-ID: "@ + ulid_text(batch_id.value)
            &&& forall|i: int|
                0 <= i < successful.len() ==> lines[named + 9 + i] == "Knowledge-Request: "@
                    + ulid_text((#[trigger] successful[i]).request_id.value)
        }),
{
    let which = entries_name_claims(claims, successful, claims.len());
    let lines = message_lines(batch_id, claims, successful, stats);
    let entries = entry_lines(claims, successful, claims.len());
    assert forall|i: int| 0 <= i < which.len() implies lines[2 + #[trigger] (i + 0)] == "- ["@
        + ulid_text(claims[which[i]].token.request_id.value) + "] "@ + claims[which[i]].title@ by {
        assert(lines[2 + i] == entries[i]);
    }
    which
}

/// A commit belongs to a committed journal only where it is the recorded one, has the recorded base
/// as its only parent, and its message names this batch alone and the recorded requests, all of
/// them and no others.
pub proof fn commits_belong_to_their_journal(journal: JournalView, facts: CommitFacts)
    requires
        commit_problem(journal, facts) is None,
    ensures
        ({
            let lines = lines_of(decode_utf8(facts.message@));
            let batch = "Batch-ID: "@ + ulid_text(journal.batch_id.value);
            &&& journal.state matches JournalState::Committed { commit, successful, .. }
            &&& facts.resolved == commit
            &&& printed_text(facts.parents@) matches Some(text)
            &&& words(text).len() == 2
            &&& words(text)[0] == commit.spec_text()
            &&& words(text)[1] == journal.base_commit.spec_text()
            &&& valid_utf8(facts.message@)
            &&& lines.contains(batch)
            &&& forall|i: int|
                0 <= i < lines.len() && "Batch-ID:"@.is_prefix_of(#[trigger] lines[i]) ==> lines[i]
                    == batch
            &&& forall|k: int|
                0 <= k < successful.len() ==> lines.contains(
                    "Knowledge-Request: "@ + ulid_text((#[trigger] successful[k]).value),
                )
            &&& forall|i: int|
                0 <= i < lines.len() && "Knowledge-Request:"@.is_prefix_of(#[trigger] lines[i])
                    ==> exists|k: int|
                    0 <= k < successful.len() && lines[i] == "Knowledge-Request: "@ + ulid_text(
                        (#[trigger] successful[k]).value,
                    )
        }),
{
    let lines = lines_of(decode_utf8(facts.message@));
    let batch_line = |line: Seq<char>| "Batch-ID:"@.is_prefix_of(line);
    let request_line = |line: Seq<char>| "Knowledge-Request:"@.is_prefix_of(line);
    let batches = crate::commit_message::lines_with(lines, "Batch-ID:"@);
    let requests = crate::commit_message::lines_with(lines, "Knowledge-Request:"@);
    lines_are_kept(lines, "Batch-ID:"@);
    lines_are_kept(lines, "Knowledge-Request:"@);
    let batch = "Batch-ID: "@ + ulid_text(journal.batch_id.value);
    assert(batches[0] == batch);
    assert forall|i: int| 0 <= i < lines.len() && "Batch-ID:"@.is_prefix_of(
        #[trigger] lines[i],
    ) implies lines[i] == batch by {
        assert(batches.contains(lines[i]));
    }
    if let JournalState::Committed { successful, .. } = journal.state {
        assert forall|k: int| 0 <= k < successful.len() implies lines.contains(
            "Knowledge-Request: "@ + ulid_text((#[trigger] successful[k]).value),
        ) by {
            assert(requests[k] == "Knowledge-Request: "@ + ulid_text(successful[k].value));
        }
        assert forall|i: int| 0 <= i < lines.len() && "Knowledge-Request:"@.is_prefix_of(
            #[trigger] lines[i],
        ) implies exists|k: int|
            0 <= k < successful.len() && lines[i] == "Knowledge-Request: "@ + ulid_text(
                (#[trigger] successful[k]).value,
            ) by {
            assert(requests.contains(lines[i]));
            let k = choose|k: int| 0 <= k < requests.len() && requests[k] == lines[i];
            assert(lines[i] == "Knowledge-Request: "@ + ulid_text(successful[k].value));
        }
    }
}

proof fn lines_are_kept(lines: Seq<Seq<char>>, prefix: Seq<char>)
    ensures
        forall|i: int|
            0 <= i < lines.len() && prefix.is_prefix_of(#[trigger] lines[i])
                ==> crate::commit_message::lines_with(lines, prefix).contains(lines[i]),
        forall|i: int|
            0 <= i < crate::commit_message::lines_with(lines, prefix).len() ==> lines.contains(
                #[trigger] crate::commit_message::lines_with(lines, prefix)[i],
            ),
    decreases lines.len(),
{
    reveal(Seq::filter);
    let kept = crate::commit_message::lines_with(lines, prefix);
    if lines.len() > 0 {
        let earlier = lines.drop_last();
        let before = crate::commit_message::lines_with(earlier, prefix);
        lines_are_kept(earlier, prefix);
        assert forall|i: int| 0 <= i < lines.len() && prefix.is_prefix_of(
            #[trigger] lines[i],
        ) implies kept.contains(lines[i]) by {
            if i < earlier.len() {
                assert(before.contains(earlier[i]));
                let at = choose|at: int| 0 <= at < before.len() && before[at] == earlier[i];
                assert(kept[at] == lines[i]);
            } else {
                assert(kept.last() == lines[i]);
            }
        }
        assert forall|i: int| 0 <= i < kept.len() implies lines.contains(#[trigger] kept[i]) by {
            if i < before.len() {
                assert(kept[i] == before[i]);
                let at = choose|at: int| 0 <= at < earlier.len() && earlier[at] == before[i];
                assert(lines[at] == kept[i]);
            } else {
                assert(kept[i] == lines[lines.len() - 1]);
            }
        }
    }
}

/// Whether a path is absolute and none of its parts, between slashes, is a point or two points.
pub open spec fn is_plain(path: Seq<char>) -> bool {
    &&& path.len() > 0
    &&& path[0] == '/'
    &&& host_components(path).len() > 0
    &&& !crate::fields::split(path, '/').contains("."@)
    &&& !crate::fields::split(path, '/').contains(".."@)
}

/// Whether neither of two paths is the other or lies below it.
pub open spec fn lie_apart(first: Seq<char>, second: Seq<char>) -> bool {
    &&& !host_components(first).is_prefix_of(host_components(second))
    &&& !host_components(second).is_prefix_of(host_components(first))
}

/// Whether the paths of a configuration can be used together: all are plain, no two storage
/// directories overlap, and none overlaps with what belongs to Quartz.
pub open spec fn has_paths(wire: WireView) -> bool {
    let queue = wire.storage.queue_root;
    let repository = wire.storage.repository_root;
    let content = wire.storage.content_root;
    let work = wire.storage.work_root;
    let release = wire.storage.release_root;
    let program = wire.quartz.program;
    let integration = wire.quartz.integration_root;
    &&& is_plain(queue) && is_plain(repository) && is_plain(content) && is_plain(work)
    &&& is_plain(release) && is_plain(program) && is_plain(integration)
    &&& lie_apart(queue, repository) && lie_apart(queue, content) && lie_apart(queue, work)
    &&& lie_apart(queue, release) && lie_apart(queue, program) && lie_apart(queue, integration)
    &&& lie_apart(repository, content) && lie_apart(repository, work)
    &&& lie_apart(repository, release) && lie_apart(repository, program)
    &&& lie_apart(repository, integration)
    &&& lie_apart(content, work) && lie_apart(content, release) && lie_apart(content, program)
    &&& lie_apart(content, integration)
    &&& lie_apart(work, release) && lie_apart(work, program) && lie_apart(work, integration)
    &&& lie_apart(release, program) && lie_apart(release, integration)
}

#[verifier::spinoff_prover]
#[verifier::rlimit(40)]
proof fn paths_are_checked(wire: WireView)
    ensures
        crate::config::path_problem(wire) is None <==> has_paths(wire),
{
    let texts = crate::config::configured_paths(wire);
    let paths = crate::config::configured_components(wire);
    reveal_with_fuel(unusable_from, 7);
    reveal_with_fuel(crate::topology::resolved_pair, 22);
    reveal_with_fuel(crate::topology::resolved_trusted_pair, 22);
    assert forall|i: int| 0 <= i < 7 implies #[trigger] paths[i] == host_components(texts[i]) by {}
    assert(paths[0] == host_components(wire.storage.queue_root));
    assert(paths[1] == host_components(wire.storage.repository_root));
    assert(paths[2] == host_components(wire.storage.content_root));
    assert(paths[3] == host_components(wire.storage.work_root));
    assert(paths[4] == host_components(wire.storage.release_root));
    assert(paths[5] == host_components(wire.quartz.program));
    assert(paths[6] == host_components(wire.quartz.integration_root));
}

/// A configuration is accepted exactly where it is of this version, its paths can be used
/// together, its branch and author are named, its replication and its timeout are possible, and
/// its numbers are not zero and fit, with room to recover every batch.
#[verifier::spinoff_prover]
#[verifier::rlimit(40)]
pub proof fn sound_configurations_are_accepted(wire: WireView, clock: ConfigClock)
    ensures
        config_problem(wire, clock) is None <==> {
            let named = |text: Seq<char>| crate::repository::is_identity_value(text);
            &&& wire.schema_version == 1
            &&& has_paths(wire)
            &&& named(wire.repository.official_branch)
            &&& named(wire.repository.author_name)
            &&& named(wire.repository.author_email)
            &&& wire.repository.replication matches Some(replication) ==> {
                let initial = replication.initial_backoff_seconds * 1_000_000_000;
                let maximum = replication.maximum_backoff_seconds * 1_000_000_000;
                &&& crate::replication::is_remote_name(replication.remote)
                &&& crate::replication::is_destination(replication.branch)
                &&& replication.timeout_seconds > 0
                &&& 0 < initial <= maximum
                &&& maximum <= crate::replication::MAXIMUM_SIGNED_SPAN
                &&& clock.replication_fits
                &&& clock.now.reaches(maximum)
            }
            &&& wire.quartz.timeout_seconds > 0 && clock.timeout_fits
            &&& 0 < wire.batch.debounce_seconds <= 0x7fff_ffff_ffff_ffff
            &&& 0 < wire.batch.maximum_age_seconds <= 0x7fff_ffff_ffff_ffff
            &&& 0 < wire.batch.maximum_scan_entries <= usize::MAX
            &&& 0 < wire.batch.maximum_requests <= usize::MAX
            &&& wire.batch.maximum_requests <= wire.batch.maximum_recovery_requests <= usize::MAX
        },
{
    paths_are_checked(wire);
}

/// Settings are those that were configured, each under its own name, with spans in nanoseconds.
pub proof fn settings_are_those_configured(settings: WorkerSettings, wire: WireView)
    requires
        settings_of(settings, wire),
    ensures
        settings.storage.queue_root@ == wire.storage.queue_root,
        settings.storage.repository_root@ == wire.storage.repository_root,
        settings.storage.content_root@ == wire.storage.content_root,
        settings.storage.work_root@ == wire.storage.work_root,
        settings.storage.release_root@ == wire.storage.release_root,
        settings.official_branch@ == wire.repository.official_branch,
        settings.identity.spec_name() == wire.repository.author_name,
        settings.identity.spec_email() == wire.repository.author_email,
        settings.replication is Some <==> wire.repository.replication is Some,
        settings.replication matches Some(policy) ==> {
            let replication = wire.repository.replication->0;
            &&& policy.spec_remote() == replication.remote
            &&& policy.spec_branch() == replication.branch
            &&& policy.spec_timeout() == replication.timeout_seconds * 1_000_000_000
            &&& policy.spec_initial_backoff() == replication.initial_backoff_seconds
                * 1_000_000_000
            &&& policy.spec_maximum_backoff() == replication.maximum_backoff_seconds
                * 1_000_000_000
        },
        settings.quartz_program@ == wire.quartz.program,
        settings.quartz_integration_root@ == wire.quartz.integration_root,
        settings.quartz_timeout == wire.quartz.timeout_seconds,
        settings.schedule.spec_debounce() == wire.batch.debounce_seconds * 1_000_000_000,
        settings.schedule.spec_maximum_age() == wire.batch.maximum_age_seconds * 1_000_000_000,
        settings.limits.spec_scan_entries() == wire.batch.maximum_scan_entries,
        settings.limits.spec_requests() == wire.batch.maximum_requests,
        settings.limits.spec_recovery_requests() == wire.batch.maximum_recovery_requests,
{
}

/// What a row of decimal digits counts.
pub open spec fn counted(digits: Seq<char>) -> int
    decreases digits.len(),
{
    if digits.len() == 0 {
        0
    } else {
        counted(digits.drop_last()) * 10 + (digits.last() as int - '0' as int)
    }
}

/// Numbers are written in decimal digits that count them, without a leading zero.
pub proof fn numerals_count(value: nat)
    ensures
        counted(decimal(value)) == value,
        decimal(value).len() > 0,
        forall|i: int| 0 <= i < decimal(value).len() ==> '0' <= #[trigger] decimal(value)[i] <= '9',
        value > 0 ==> decimal(value)[0] != '0',
    decreases value,
{
    reveal_with_fuel(counted, 2);
    if value >= 10 {
        numerals_count(value / 10);
        let earlier = decimal(value / 10);
        assert(decimal(value).drop_last() =~= earlier);
        assert(decimal(value)[0] == earlier[0]);
    } else {
        assert(decimal(value).drop_last() =~= Seq::<char>::empty());
    }
}

/// The smallest number that needs more than so many decimal digits.
pub open spec fn tens(width: nat) -> nat
    decreases width,
{
    if width == 0 {
        1
    } else {
        10 * tens((width - 1) as nat)
    }
}

/// Numbers of a fixed width are written in that many decimal digits, which count them.
pub proof fn fixed_numerals_count(width: nat, value: nat)
    requires
        value < tens(width),
    ensures
        crate::text::fixed_decimal(width, value).len() == width,
        counted(crate::text::fixed_decimal(width, value)) == value,
        forall|i: int|
            0 <= i < width ==> '0' <= #[trigger] crate::text::fixed_decimal(width, value)[i] <= '9',
    decreases width,
{
    if width > 0 {
        fixed_numerals_count((width - 1) as nat, value / 10);
        let earlier = crate::text::fixed_decimal((width - 1) as nat, value / 10);
        assert(crate::text::fixed_decimal(width, value).drop_last() =~= earlier);
    }
}

/// A configuration that is refused for a value names the first field whose value is wrong, in the
/// order in which the fields stand.
#[verifier::spinoff_prover]
#[verifier::rlimit(40)]
pub proof fn refused_configurations_name_the_field(wire: WireView, clock: ConfigClock)
    requires
        has_paths(wire),
        wire.repository.replication is None,
    ensures
        ({
            let problem = config_problem(wire, clock);
            let named = |field: Seq<char>| Some(ConfigFailure::InvalidValue { field });
            let batch = wire.batch;
            let version = wire.schema_version == 1;
            let branch = version && crate::repository::is_identity_value(
                wire.repository.official_branch,
            );
            let author = branch && crate::repository::is_identity_value(
                wire.repository.author_name,
            ) && crate::repository::is_identity_value(wire.repository.author_email);
            let timeout = author && wire.quartz.timeout_seconds > 0 && clock.timeout_fits;
            let debounce = timeout && 0 < batch.debounce_seconds <= 0x7fff_ffff_ffff_ffff;
            let age = debounce && 0 < batch.maximum_age_seconds <= 0x7fff_ffff_ffff_ffff;
            let entries = age && 0 < batch.maximum_scan_entries <= usize::MAX;
            let requests = entries && 0 < batch.maximum_requests <= usize::MAX;
            let recovery = requests && batch.maximum_requests <= batch.maximum_recovery_requests
                <= usize::MAX;
            &&& !version ==> problem == Some(
                ConfigFailure::UnsupportedSchemaVersion { found: wire.schema_version },
            )
            &&& version && !branch ==> problem == named("repository.official_branch"@)
            &&& branch && !author ==> problem == named("repository author identity"@)
            &&& author && !timeout ==> problem == named("quartz.timeout_seconds"@)
            &&& timeout && !debounce ==> problem == named("batch.debounce_seconds"@)
            &&& debounce && !age ==> problem == named("batch.maximum_age_seconds"@)
            &&& age && !entries ==> problem == named("batch.maximum_scan_entries"@)
            &&& entries && !requests ==> problem == named("batch.maximum_requests"@)
            &&& requests && !recovery ==> problem == named("batch.maximum_recovery_requests"@)
            &&& recovery ==> problem is None
        }),
{
    paths_are_checked(wire);
}

/// A configuration with a path that cannot be used names the first such field: of the storage
/// directories before they are compared, and of what belongs to Quartz behind that.
#[verifier::spinoff_prover]
#[verifier::rlimit(40)]
pub proof fn refused_paths_are_named(wire: WireView, clock: ConfigClock)
    requires
        wire.schema_version == 1,
    ensures
        ({
            let problem = config_problem(wire, clock);
            let named = |field: Seq<char>| Some(ConfigFailure::InvalidPath { field });
            let queue = is_plain(wire.storage.queue_root);
            let repository = queue && is_plain(wire.storage.repository_root);
            let content = repository && is_plain(wire.storage.content_root);
            let work = content && is_plain(wire.storage.work_root);
            let release = work && is_plain(wire.storage.release_root);
            &&& !queue ==> problem == named("storage.queue_root"@)
            &&& queue && !repository ==> problem == named("storage.repository_root"@)
            &&& repository && !content ==> problem == named("storage.content_root"@)
            &&& content && !work ==> problem == named("storage.work_root"@)
            &&& work && !release ==> problem == named("storage.release_root"@)
            &&& release && !lie_apart(wire.storage.queue_root, wire.storage.repository_root)
                ==> problem == Some(
                ConfigFailure::OverlappingPaths {
                    first: "storage.queue_root"@,
                    second: "storage.repository_root"@,
                },
            )
        }),
{
    let texts = crate::config::configured_paths(wire);
    let paths = crate::config::configured_components(wire);
    reveal_with_fuel(unusable_from, 7);
    reveal_with_fuel(crate::topology::resolved_pair, 3);
    assert(paths[0] == host_components(wire.storage.queue_root));
    assert(paths[1] == host_components(wire.storage.repository_root));
    assert(texts[0] == wire.storage.queue_root && texts[1] == wire.storage.repository_root
        && texts[2] == wire.storage.content_root && texts[3] == wire.storage.work_root && texts[4]
        == wire.storage.release_root);
}

} // verus!
