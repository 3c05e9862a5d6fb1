//! The message of a batch commit, and what a commit must show to belong to a journal.
use crate::changes::FileStats;
use crate::fields::{
    join_lines, lines_of, split_lines, split_of_unlines, split_words, strip_prefix, unlines,
    without_return, words,
};
use crate::git_error::{GitFailure, GitTransactionError};
use crate::git_text::{parse_text, printed_text, ObjectId};
use crate::ids::{is_ulid_digit, ulid_text, ulid_text_is_ulid, BatchId, RequestId};
use crate::journal::{
    token_requests, Claim, ClaimToken, JournalState, JournalView, TransactionJournal,
};
use crate::path::{same_texts, texts};
use crate::text::{decimal, decimal_text, join2, join3, join4, utf8_text};
use vstd::prelude::*;
use vstd::string::*;
use vstd::utf8::{decode_utf8, valid_utf8};

verus! {

/// The lines of a message that name the successful ones among the first `count` claims.
pub open spec fn entry_lines(claims: Seq<Claim>, successful: Seq<ClaimToken>, count: nat) -> Seq<
    Seq<char>,
>
    decreases count,
{
    if count == 0 {
        Seq::empty()
    } else {
        let earlier = entry_lines(claims, successful, (count - 1) as nat);
        let claim = claims[count - 1];
        if successful.contains(claim.token) {
            earlier.push(
                "- ["@ + ulid_text(claim.token.request_id.value) + "] "@ + claim.title@,
            )
        } else {
            earlier
        }
    }
}

/// The trailer that names a batch.
pub open spec fn batch_trailer(batch_id: BatchId) -> Seq<char> {
    "Batch-ID: "@ + ulid_text(batch_id.value)
}

/// The trailers that name requests.
pub open spec fn request_trailers(requests: Seq<RequestId>) -> Seq<Seq<char>> {
    requests.map_values(
        |request: RequestId| "Knowledge-Request: "@ + ulid_text(request.value),
    )
}

/// The lines of a message between the successful requests and the request trailers.
pub open spec fn summary_lines(batch_id: BatchId, count: nat, stats: FileStats) -> Seq<Seq<char>> {
    seq![
        ""@,
        "Requests: "@ + decimal(count),
        "Files-Added: "@ + decimal(stats.added as nat),
        "Files-Modified: "@ + decimal(stats.modified as nat),
        "Files-Deleted: "@ + decimal(stats.deleted as nat),
        ""@,
        batch_trailer(batch_id),
    ]
}

/// The lines of the message of a batch commit.
pub open spec fn message_lines(
    batch_id: BatchId,
    claims: Seq<Claim>,
    successful: Seq<ClaimToken>,
    stats: FileStats,
) -> Seq<Seq<char>> {
    seq!["knowledge snapshot: "@ + decimal(successful.len()) + " changes"@, ""@] + entry_lines(
        claims,
        successful,
        claims.len(),
    ) + summary_lines(batch_id, successful.len(), stats) + request_trailers(
        token_requests(successful),
    )
}

/// Whether a list of tokens holds a token.
fn holds_token(tokens: &Vec<ClaimToken>, token: ClaimToken) -> (result: bool)
    ensures
        result == tokens@.contains(token),
{
    let mut i: usize = 0;
    while i < tokens.len()
        invariant
            i <= tokens@.len(),
            forall|j: int| 0 <= j < i ==> tokens@[j] != token,
        decreases tokens@.len() - i,
    {
        if tokens[i] == token {
            assert(tokens@[i as int] == token);
            return true;
        }
        i += 1;
    }
    false
}

/// Adds one line to a list.
fn add_line(lines: &mut Vec<String>, line: String)
    ensures
        texts(final(lines)@) == texts(old(lines)@).push(line@),
{
    lines.push(line);
    assert(texts(lines@) =~= texts(old(lines)@).push(line@));
}

/// The message of a batch commit.
pub fn commit_message(
    batch_id: BatchId,
    claims: &Vec<Claim>,
    successful: &Vec<ClaimToken>,
    stats: FileStats,
) -> (text: String)
    ensures
        text@ == unlines(message_lines(batch_id, claims@, successful@, stats)),
{
    let mut lines: Vec<String> = Vec::new();
    let count: u64 = successful.len() as u64;
    let ghost head = seq![
        "knowledge snapshot: "@ + decimal(successful@.len()) + " changes"@,
        ""@,
    ];
    add_line(
        &mut lines,
        join3("knowledge snapshot: ", decimal_text(count).as_str(), " changes"),
    );
    add_line(&mut lines, "".to_owned());
    assert(texts(lines@) =~= head + entry_lines(claims@, successful@, 0));
    let mut i: usize = 0;
    while i < claims.len()
        invariant
            i <= claims@.len(),
            texts(lines@) == head + entry_lines(claims@, successful@, i as nat),
        decreases claims@.len() - i,
    {
        let claim = &claims[i];
        let ghost earlier = entry_lines(claims@, successful@, i as nat);
        if holds_token(successful, claim.token) {
            let line = join4(
                "- [",
                claim.token.request_id.text().as_str(),
                "] ",
                claim.title.as_str(),
            );
            add_line(&mut lines, line);
            assert(texts(lines@) =~= head + earlier.push(line@));
        }
        i += 1;
    }
    let ghost start = head + entry_lines(claims@, successful@, claims@.len());
    add_line(&mut lines, "".to_owned());
    add_line(&mut lines, join2("Requests: ", decimal_text(count).as_str()));
    add_line(
        &mut lines,
        join2("Files-Added: ", decimal_text(stats.added as u64).as_str()),
    );
    add_line(
        &mut lines,
        join2("Files-Modified: ", decimal_text(stats.modified as u64).as_str()),
    );
    add_line(
        &mut lines,
        join2("Files-Deleted: ", decimal_text(stats.deleted as u64).as_str()),
    );
    add_line(&mut lines, "".to_owned());
    add_line(&mut lines, join2("Batch-ID: ", batch_id.text().as_str()));
    let ghost middle = start + summary_lines(batch_id, successful@.len(), stats);
    assert(texts(lines@) =~= middle);
    let ghost requests = token_requests(successful@);
    assert(texts(lines@) =~= middle + request_trailers(requests.take(0)));
    let mut i: usize = 0;
    while i < successful.len()
        invariant
            i <= successful@.len(),
            requests == token_requests(successful@),
            texts(lines@) == middle + request_trailers(requests.take(i as int)),
        decreases successful@.len() - i,
    {
        let line = join2("Knowledge-Request: ", successful[i].request_id.text().as_str());
        add_line(&mut lines, line);
        assert(texts(lines@) =~= middle + request_trailers(requests.take(i + 1)));
        i += 1;
    }
    assert(requests.take(requests.len() as int) =~= requests);
    assert(texts(lines@) =~= message_lines(batch_id, claims@, successful@, stats));
    join_lines(&lines)
}

/// The lines that begin with a prefix.
pub open spec fn lines_with(lines: Seq<Seq<char>>, prefix: Seq<char>) -> Seq<Seq<char>> {
    lines.filter(|line: Seq<char>| prefix.is_prefix_of(line))
}

/// The lines that begin with a prefix.
fn select_lines(lines: &Vec<String>, prefix: &str) -> (result: Vec<String>)
    ensures
        texts(result@) == lines_with(texts(lines@), prefix@),
{
    let ghost views = texts(lines@);
    let ghost begins = |line: Seq<char>| prefix@.is_prefix_of(line);
    let mut result: Vec<String> = Vec::new();
    let mut i: usize = 0;
    assert(texts(result@) =~= views.take(0).filter(begins)) by {
        reveal(Seq::filter);
    }
    while i < lines.len()
        invariant
            i <= lines@.len(),
            views == texts(lines@),
            begins == (|line: Seq<char>| prefix@.is_prefix_of(line)),
            texts(result@) == views.take(i as int).filter(begins),
        decreases lines@.len() - i,
    {
        assert(views[i as int] == lines@[i as int]@);
        proof {
            reveal(Seq::filter);
            assert(views.take(i + 1).drop_last() =~= views.take(i as int));
        }
        if strip_prefix(lines[i].as_str(), prefix).is_some() {
            add_line(&mut result, lines[i].clone());
        }
        i += 1;
    }
    assert(views.take(views.len() as int) =~= views);
    result
}

/// Whether a message names exactly a batch and its requests.
pub open spec fn names_batch(message: Seq<char>, batch_id: BatchId, requests: Seq<RequestId>) -> bool {
    &&& lines_with(lines_of(message), "Batch-ID:"@) == seq![batch_trailer(batch_id)]
    &&& lines_with(lines_of(message), "Knowledge-Request:"@) == request_trailers(requests)
}

/// Whether a message names exactly a batch and its requests.
fn naming_batch(message: &str, batch_id: BatchId, requests: &Vec<RequestId>) -> (result: bool)
    ensures
        result == names_batch(message@, batch_id, requests@),
{
    let lines = split_lines(message);
    let batches = select_lines(&lines, "Batch-ID:");
    let named = select_lines(&lines, "Knowledge-Request:");
    let mut expected_batch: Vec<String> = Vec::new();
    add_line(&mut expected_batch, join2("Batch-ID: ", batch_id.text().as_str()));
    assert(texts(expected_batch@) =~= seq![batch_trailer(batch_id)]);
    let mut expected: Vec<String> = Vec::new();
    let mut i: usize = 0;
    assert(texts(expected@) =~= request_trailers(requests@.take(0)));
    while i < requests.len()
        invariant
            i <= requests@.len(),
            texts(expected@) == request_trailers(requests@.take(i as int)),
        decreases requests@.len() - i,
    {
        add_line(&mut expected, join2("Knowledge-Request: ", requests[i].text().as_str()));
        assert(texts(expected@) =~= request_trailers(requests@.take(i + 1)));
        i += 1;
    }
    assert(requests@.take(requests@.len() as int) =~= requests@);
    same_texts(&batches, &expected_batch) && same_texts(&named, &expected)
}

/// What was read of a commit.
#[derive(Debug)]
pub struct CommitFacts {
    /// The commit that its own name resolves to.
    pub resolved: ObjectId,
    /// The listed commit and its parents, as printed.
    pub parents: Vec<u8>,
    /// The message, as printed.
    pub message: Vec<u8>,
}

/// Whether printed parents are one commit and its only parent.
pub open spec fn only_parent(output: Seq<u8>, commit: ObjectId, base: ObjectId) -> Result<
    bool,
    GitFailure,
> {
    match printed_text(output) {
        None => Err(GitTransactionError::InvalidGitOutput),
        Some(text) => Ok(words(text) == seq![commit.spec_text(), base.spec_text()]),
    }
}

/// Whether printed parents are one commit and its only parent.
pub fn has_only_parent(output: &[u8], commit: ObjectId, base: ObjectId) -> (result: Result<
    bool,
    GitTransactionError,
>)
    ensures
        (match result {
            Ok(single) => Ok(single),
            Err(error) => Err(error@),
        }) == only_parent(output@, commit, base),
{
    match parse_text(output) {
        None => Err(GitTransactionError::InvalidGitOutput),
        Some(text) => {
            let found = split_words(text.as_str());
            let mut expected: Vec<String> = Vec::new();
            add_line(&mut expected, commit.text());
            add_line(&mut expected, base.text());
            assert(texts(expected@) =~= seq![commit.spec_text(), base.spec_text()]);
            Ok(same_texts(&found, &expected))
        },
    }
}

/// Why a commit does not belong to a committed journal: it must be the named one, have the base as
/// its only parent, and name exactly the batch and its requests.
pub open spec fn commit_problem(journal: JournalView, facts: CommitFacts) -> Option<GitFailure> {
    match journal.state {
        JournalState::Committed { commit, successful, .. } => if facts.resolved != commit {
            Some(GitTransactionError::JournalMismatch)
        } else {
            match only_parent(facts.parents@, commit, journal.base_commit) {
                Err(failure) => Some(failure),
                Ok(false) => Some(GitTransactionError::JournalMismatch),
                Ok(true) => if !valid_utf8(facts.message@) {
                    Some(GitTransactionError::InvalidGitOutput)
                } else if !names_batch(
                    decode_utf8(facts.message@),
                    journal.batch_id,
                    successful,
                ) {
                    Some(GitTransactionError::JournalMismatch)
                } else {
                    None
                },
            }
        },
        _ => Some(GitTransactionError::JournalState),
    }
}

/// Checks that a commit belongs to a committed journal.
pub fn validate_committed_journal(journal: &TransactionJournal, facts: &CommitFacts) -> (result:
    Result<(), GitTransactionError>)
    ensures
        match result {
            Ok(()) => commit_problem(journal@, *facts) is None,
            Err(error) => commit_problem(journal@, *facts) == Some(error@),
        },
{
    match &journal.state {
        JournalState::Committed { commit, successful, .. } => {
            if facts.resolved != *commit {
                return Err(GitTransactionError::JournalMismatch);
            }
            match has_only_parent(facts.parents.as_slice(), *commit, journal.base_commit) {
                Err(error) => {
                    return Err(error);
                },
                Ok(single) => {
                    if !single {
                        return Err(GitTransactionError::JournalMismatch);
                    }
                },
            }
            match utf8_text(facts.message.as_slice()) {
                None => Err(GitTransactionError::InvalidGitOutput),
                Some(message) => {
                    proof {
                        vstd::utf8::encode_utf8_decode_utf8(message@);
                    }
                    if naming_batch(message.as_str(), journal.batch_id, successful) {
                        Ok(())
                    } else {
                        Err(GitTransactionError::JournalMismatch)
                    }
                },
            }
        },
        _ => Err(GitTransactionError::JournalState),
    }
}

/// Whether a text holds no line feed.
spec fn is_line(line: Seq<char>) -> bool {
    !line.contains('\u{a}')
}

proof fn decimal_is_line(value: nat)
    ensures
        decimal(value).len() > 0,
        forall|i: int| 0 <= i < decimal(value).len() ==> '0' <= #[trigger] decimal(value)[i] <= '9',
    decreases value,
{
    if value >= 10 {
        decimal_is_line(value / 10);
    }
}

proof fn filtered_out<A>(items: Seq<A>, keep: spec_fn(A) -> bool)
    requires
        forall|i: int| 0 <= i < items.len() ==> !keep(#[trigger] items[i]),
    ensures
        items.filter(keep) == Seq::<A>::empty(),
    decreases items.len(),
{
    reveal(Seq::filter);
    if items.len() > 0 {
        filtered_out(items.drop_last(), keep);
    }
}

proof fn all_filtered<A>(items: Seq<A>, keep: spec_fn(A) -> bool)
    requires
        forall|i: int| 0 <= i < items.len() ==> keep(#[trigger] items[i]),
    ensures
        items.filter(keep) == items,
    decreases items.len(),
{
    reveal(Seq::filter);
    if items.len() > 0 {
        all_filtered(items.drop_last(), keep);
        assert(items.drop_last().push(items.last()) =~= items);
    }
}

/// Whether a line begins as no trailer does.
spec fn is_other(line: Seq<char>) -> bool {
    &&& is_line(line)
    &&& line.len() > 0 ==> line[0] != 'B' && line[0] != 'K'
}

proof fn entries_are_other(claims: Seq<Claim>, successful: Seq<ClaimToken>, count: nat)
    requires
        count <= claims.len(),
        forall|i: int| 0 <= i < claims.len() ==> is_line(#[trigger] claims[i].title@),
    ensures
        forall|i: int|
            0 <= i < entry_lines(claims, successful, count).len() ==> is_other(
                #[trigger] entry_lines(claims, successful, count)[i],
            ),
    decreases count,
{
    if count > 0 {
        entries_are_other(claims, successful, (count - 1) as nat);
        let claim = claims[count - 1];
        let id = ulid_text(claim.token.request_id.value);
        ulid_text_is_ulid(claim.token.request_id.value);
        reveal_strlit("- [");
        reveal_strlit("] ");
        let line = "- ["@ + id + "] "@ + claim.title@;
        assert(is_line(claims[count - 1].title@));
        assert forall|i: int| 0 <= i < line.len() implies line[i] != '\u{a}' by {
            if i < 3 {
            } else if i < 29 {
                assert(is_ulid_digit(id[i - 3]));
            } else if i < 31 {
            } else {
                assert(line[i] == claim.title@[i - 31]);
            }
        }
        assert(is_other(line));
        let earlier = entry_lines(claims, successful, (count - 1) as nat);
        let lines = entry_lines(claims, successful, count);
        assert(lines == earlier || lines == earlier.push(line));
        assert forall|i: int| 0 <= i < lines.len() implies is_other(#[trigger] lines[i]) by {
            if i < earlier.len() {
                assert(is_other(earlier[i]));
            }
        }
    }
}

proof fn labelled_number_is_other(label: Seq<char>, value: nat)
    requires
        label.len() > 0,
        is_other(label),
    ensures
        is_other(label + decimal(value)),
{
    decimal_is_line(value);
    let line = label + decimal(value);
    assert forall|i: int| 0 <= i < line.len() implies line[i] != '\u{a}' by {
        if i < label.len() {
            assert(line[i] == label[i]);
        } else {
            assert(line[i] == decimal(value)[i - label.len()]);
        }
    }
}

proof fn heads_are_other(count: nat, stats: FileStats)
    ensures
        is_other("knowledge snapshot: "@ + decimal(count) + " changes"@),
        is_other("Requests: "@ + decimal(count)),
        is_other("Files-Added: "@ + decimal(stats.added as nat)),
        is_other("Files-Modified: "@ + decimal(stats.modified as nat)),
        is_other("Files-Deleted: "@ + decimal(stats.deleted as nat)),
        is_other(""@),
{
    reveal_strlit("");
    reveal_strlit("knowledge snapshot: ");
    reveal_strlit(" changes");
    reveal_strlit("Requests: ");
    reveal_strlit("Files-Added: ");
    reveal_strlit("Files-Modified: ");
    reveal_strlit("Files-Deleted: ");
    labelled_number_is_other("knowledge snapshot: "@, count);
    labelled_number_is_other("Requests: "@, count);
    labelled_number_is_other("Files-Added: "@, stats.added as nat);
    labelled_number_is_other("Files-Modified: "@, stats.modified as nat);
    labelled_number_is_other("Files-Deleted: "@, stats.deleted as nat);
    let start = "knowledge snapshot: "@ + decimal(count);
    let line = start + " changes"@;
    assert forall|i: int| 0 <= i < line.len() implies line[i] != '\u{a}' by {
        if i < start.len() {
            assert(line[i] == start[i]);
            assert(start.contains(start[i]));
        } else {
            assert(line[i] == " changes"@[i - start.len()]);
        }
    }
}

proof fn batch_trailer_is_line(batch_id: BatchId)
    ensures
        is_line(batch_trailer(batch_id)),
        "Batch-ID:"@.is_prefix_of(batch_trailer(batch_id)),
        !"Knowledge-Request:"@.is_prefix_of(batch_trailer(batch_id)),
        without_return(batch_trailer(batch_id)) == batch_trailer(batch_id),
{
    reveal_strlit("Batch-ID: ");
    reveal_strlit("Batch-ID:");
    reveal_strlit("Knowledge-Request:");
    ulid_text_is_ulid(batch_id.value);
    let id = ulid_text(batch_id.value);
    let line = batch_trailer(batch_id);
    assert forall|i: int| 10 <= i < line.len() implies is_ulid_digit(line[i]) by {
        assert(line[i] == id[i - 10]);
    }
    assert(is_ulid_digit(line.last()));
    assert("Batch-ID:"@ =~= line.subrange(0, 9));
    assert(line.subrange(0, 18)[0] == 'B');
}

proof fn request_trailer_is_line(value: u128)
    ensures
        is_line("Knowledge-Request: "@ + ulid_text(value)),
        "Knowledge-Request:"@.is_prefix_of("Knowledge-Request: "@ + ulid_text(value)),
        !"Batch-ID:"@.is_prefix_of("Knowledge-Request: "@ + ulid_text(value)),
        without_return("Knowledge-Request: "@ + ulid_text(value)) == "Knowledge-Request: "@
            + ulid_text(value),
{
    reveal_strlit("Knowledge-Request: ");
    reveal_strlit("Batch-ID:");
    reveal_strlit("Knowledge-Request:");
    ulid_text_is_ulid(value);
    let id = ulid_text(value);
    let line = "Knowledge-Request: "@ + id;
    assert forall|i: int| 19 <= i < line.len() implies is_ulid_digit(line[i]) by {
        assert(line[i] == id[i - 19]);
    }
    assert(is_ulid_digit(line.last()));
    assert("Knowledge-Request:"@ =~= line.subrange(0, 18));
    assert(line.subrange(0, 9)[0] == 'K');
}

proof fn other_is_no_trailer(line: Seq<char>)
    requires
        is_other(line),
    ensures
        !"Batch-ID:"@.is_prefix_of(without_return(line)),
        !"Knowledge-Request:"@.is_prefix_of(without_return(line)),
{
    reveal_strlit("Batch-ID:");
    reveal_strlit("Knowledge-Request:");
    let kept = without_return(line);
    if "Batch-ID:"@.is_prefix_of(kept) {
        assert(kept.subrange(0, 9)[0] == kept[0]);
    }
    if "Knowledge-Request:"@.is_prefix_of(kept) {
        assert(kept.subrange(0, 18)[0] == kept[0]);
    }
}

proof fn lines_of_unlines(lines: Seq<Seq<char>>)
    requires
        forall|i: int| 0 <= i < lines.len() ==> is_line(#[trigger] lines[i]),
    ensures
        lines_of(unlines(lines)) == lines.map_values(|line: Seq<char>| without_return(line)),
{
    split_of_unlines(lines);
    assert(lines.push(Seq::empty()).drop_last() =~= lines);
    assert(lines_of(unlines(lines)) =~= lines.map_values(|line: Seq<char>| without_return(line)));
}

/// The message of a batch commit names exactly that batch and its successful requests, whenever
/// no title holds a line feed.
#[verifier::spinoff_prover]
pub proof fn messages_name_their_batch(
    batch_id: BatchId,
    claims: Seq<Claim>,
    successful: Seq<ClaimToken>,
    stats: FileStats,
)
    requires
        forall|i: int|
            0 <= i < claims.len() ==> !(#[trigger] claims[i].title@).contains('\u{a}'),
    ensures
        names_batch(
            unlines(message_lines(batch_id, claims, successful, stats)),
            batch_id,
            token_requests(successful),
        ),
{
    let head = seq!["knowledge snapshot: "@ + decimal(successful.len()) + " changes"@, ""@];
    let entries = entry_lines(claims, successful, claims.len());
    let summary = summary_lines(batch_id, successful.len(), stats);
    let requests = token_requests(successful);
    let trailers = request_trailers(requests);
    let lines = message_lines(batch_id, claims, successful, stats);
    assert forall|i: int| 0 <= i < claims.len() implies is_line(#[trigger] claims[i].title@) by {}
    entries_are_other(claims, successful, claims.len());
    heads_are_other(successful.len(), stats);
    batch_trailer_is_line(batch_id);
    let last = batch_trailer(batch_id);
    let others = head + entries + summary.drop_last();
    assert(summary.drop_last().push(last) =~= summary);
    assert(lines =~= others + seq![last] + trailers);
    assert forall|i: int| 0 <= i < others.len() implies is_other(#[trigger] others[i]) by {
        if i < 2 {
            assert(others[i] == head[i]);
        } else if i < 2 + entries.len() {
            assert(others[i] == entries[i - 2]);
        } else {
            assert(others[i] == summary[i - 2 - entries.len()]);
        }
    }
    assert forall|i: int| 0 <= i < trailers.len() implies is_line(#[trigger] trailers[i]) by {
        request_trailer_is_line(requests[i].value);
    }
    assert forall|i: int| 0 <= i < lines.len() implies is_line(#[trigger] lines[i]) by {
        if i < others.len() {
            assert(is_other(others[i]));
        } else if i > others.len() {
            assert(is_line(trailers[i - others.len() - 1]));
        }
    }
    lines_of_unlines(lines);
    let kept = lines.map_values(|line: Seq<char>| without_return(line));
    let kept_others = others.map_values(|line: Seq<char>| without_return(line));
    assert(trailers.map_values(|line: Seq<char>| without_return(line)) =~= trailers) by {
        assert forall|i: int| 0 <= i < trailers.len() implies without_return(trailers[i])
            == #[trigger] trailers[i] by {
            request_trailer_is_line(requests[i].value);
        }
    }
    assert(kept =~= kept_others + seq![last] + trailers);
    let batch_line = |line: Seq<char>| "Batch-ID:"@.is_prefix_of(line);
    let request_line = |line: Seq<char>| "Knowledge-Request:"@.is_prefix_of(line);
    assert forall|i: int| 0 <= i < kept_others.len() implies !batch_line(
        #[trigger] kept_others[i],
    ) && !request_line(kept_others[i]) by {
        other_is_no_trailer(others[i]);
    }
    assert forall|i: int| 0 <= i < trailers.len() implies request_line(#[trigger] trailers[i])
        && !batch_line(trailers[i]) by {
        request_trailer_is_line(requests[i].value);
    }
    filtered_out(kept_others, batch_line);
    filtered_out(kept_others, request_line);
    all_filtered(seq![last], batch_line);
    filtered_out(seq![last], request_line);
    filtered_out(trailers, batch_line);
    all_filtered(trailers, request_line);
    Seq::filter_distributes_over_add(kept_others + seq![last], trailers, batch_line);
    Seq::filter_distributes_over_add(kept_others, seq![last], batch_line);
    Seq::filter_distributes_over_add(kept_others + seq![last], trailers, request_line);
    Seq::filter_distributes_over_add(kept_others, seq![last], request_line);
    assert(kept.filter(batch_line) =~= seq![last]);
    assert(kept.filter(request_line) =~= trailers);
}

} // verus!
