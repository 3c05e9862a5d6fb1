//! How documents are framed and what small texts say, character by character.
use crate::changes::components_of;
use crate::clock::Timestamp;
use crate::document::year_text;
use crate::fields::{all_digits, decimal_number, split, unsigned_number};
use crate::git_output::{is_allowed_key, last_position, paths_among, untracked};
use crate::history::{
    entry_document, found_in, one_entry, selection_problem, Ancestry, BlobRead, EntryRead,
    FoundView, HistoryHalt, HistoryWork,
};
use crate::ids::DocumentId;
use crate::index::{ContentPolicy, NameRules, RecordView};
use crate::markdown::{body_of, body_start, delimiter, line_content, line_end, opening_length};
use crate::path::joined;
use crate::read_error::{CommittedReadError, ReadFailure};
use crate::record_laws::{counted, fixed_numerals_count, tens};
use crate::text::decimal;
use vstd::prelude::*;
use vstd::utf8::{decode_utf8, valid_utf8};

verus! {

/// Lines one behind the other, each ended by a line feed.
pub open spec fn ended(lines: Seq<Seq<u8>>) -> Seq<u8>
    decreases lines.len(),
{
    if lines.len() == 0 {
        Seq::empty()
    } else {
        lines[0] + seq![10u8] + ended(lines.skip(1))
    }
}

/// A line of three hyphens, ended by a line feed or by a carriage return and a line feed.
pub open spec fn fence(returned: bool) -> Seq<u8> {
    if returned {
        seq![45u8, 45, 45, 13, 10]
    } else {
        seq![45u8, 45, 45, 10]
    }
}

/// Whether lines can stand between two fences: none holds a line feed or is a fence itself.
pub open spec fn are_inner(lines: Seq<Seq<u8>>) -> bool {
    forall|i: int|
        0 <= i < lines.len() ==> !(#[trigger] lines[i]).contains(10) && lines[i] != seq![
            45u8,
            45,
            45,
        ] && lines[i] != seq![45u8, 45, 45, 13]
}

proof fn lines_end_at_their_feed(bytes: Seq<u8>, start: int, feed: int)
    requires
        0 <= start <= feed < bytes.len(),
        bytes[feed] == 10,
        forall|i: int| start <= i < feed ==> bytes[i] != 10,
    ensures
        line_end(bytes, start) == feed + 1,
    decreases feed - start,
{
    if start < feed {
        lines_end_at_their_feed(bytes, start + 1, feed);
    }
}

#[verifier::spinoff_prover]
#[verifier::rlimit(40)]
proof fn bodies_begin_behind_the_fence(
    before: Seq<u8>,
    lines: Seq<Seq<u8>>,
    returned: bool,
    body: Seq<u8>,
)
    requires
        are_inner(lines),
    ensures
        body_start(before + ended(lines) + fence(returned) + body, before.len() as int) == Some(
            (before.len() + ended(lines).len() + fence(returned).len()) as int,
        ),
    decreases lines.len(),
{
    let bytes = before + ended(lines) + fence(returned) + body;
    let start = before.len() as int;
    if lines.len() == 0 {
        let feed = start + fence(returned).len() - 1;
        assert(ended(lines) =~= Seq::<u8>::empty());
        assert forall|i: int| 0 <= i < fence(returned).len() implies #[trigger] bytes[start + i]
            == fence(returned)[i] by {}
        assert(bytes[start + 0] == 45 && bytes[start + 1] == 45 && bytes[start + 2] == 45);
        assert(bytes[start + 3] == fence(returned)[3]);
        assert(bytes[start + (fence(returned).len() - 1)] == 10);
        lines_end_at_their_feed(bytes, start, feed);
        let line = bytes.subrange(start, feed + 1);
        assert(line =~= fence(returned));
        assert(line_content(line) =~= seq![45u8, 45, 45]);
    } else {
        let line = lines[0];
        let rest = lines.skip(1);
        let feed = start + line.len();
        assert forall|i: int| 0 <= i < line.len() implies #[trigger] bytes[start + i] == line[i] by {}
        assert(bytes[feed] == 10);
        assert forall|i: int| start <= i < feed implies bytes[i] != 10 by {
            assert(bytes[start + (i - start)] == line[i - start]);
            assert(line.contains(line[i - start]));
        }
        lines_end_at_their_feed(bytes, start, feed);
        let whole = bytes.subrange(start, feed + 1);
        assert(whole =~= line.push(10));
        assert(whole.drop_last() =~= line);
        if line_content(whole) == seq![45u8, 45, 45] {
            if line.len() > 0 && line.last() == 13 {
                assert(line =~= line.drop_last().push(13));
                assert(line =~= seq![45u8, 45, 45, 13]);
            }
            assert(false);
        }
        assert forall|i: int| 0 <= i < rest.len() implies !(#[trigger] rest[i]).contains(10)
            && rest[i] != seq![45u8, 45, 45] && rest[i] != seq![45u8, 45, 45, 13] by {
            assert(rest[i] == lines[i + 1]);
        }
        bodies_begin_behind_the_fence(before + line + seq![10u8], rest, returned, body);
        assert(before + line + seq![10u8] + ended(rest) + fence(returned) + body =~= bytes);
    }
}

/// The body of a document is what stands behind its front matter: a fence, lines that are none, and
/// another fence, each ended either way. Text that does not begin with a fence has no body.
#[verifier::spinoff_prover]
#[verifier::rlimit(40)]
pub proof fn bodies_stand_behind_front_matter(
    opened: bool,
    lines: Seq<Seq<u8>>,
    closed: bool,
    body: Seq<u8>,
    other: Seq<u8>,
)
    requires
        are_inner(lines),
    ensures
        ({
            let document = fence(opened) + ended(lines) + fence(closed) + body;
            valid_utf8(document) ==> body_of(document) == Some(body)
        }),
        !fence(true).is_prefix_of(other) && !fence(false).is_prefix_of(other) ==> body_of(
            other,
        ) is None,
        !valid_utf8(other) ==> body_of(other) is None,
{
    let document = fence(opened) + ended(lines) + fence(closed) + body;
    let opening = fence(opened);
    bodies_begin_behind_the_fence(opening, lines, closed, body);
    openings_are_found(opened, ended(lines) + fence(closed) + body);
    assert(document =~= opening + (ended(lines) + fence(closed) + body));
    let start = (opening.len() + ended(lines).len() + fence(closed).len()) as int;
    assert(document.skip(start) =~= body);
    if !fence(true).is_prefix_of(other) && !fence(false).is_prefix_of(other) {
        nothing_is_opened_without_a_fence(other);
    }
}

proof fn openings_are_found(opened: bool, rest: Seq<u8>)
    ensures
        opening_length(fence(opened) + rest) == Some(fence(opened).len() as int),
{
    let document = fence(opened) + rest;
    assert(document[3] == fence(opened)[3]);
    if opened {
        assert(document.take(5) =~= delimiter() + seq![13u8, 10u8]);
    } else {
        assert(document.take(4) =~= delimiter() + seq![10u8]);
        if document.len() >= 5 {
            assert(document.take(5)[3] == 10);
            assert((delimiter() + seq![13u8, 10u8])[3] == 13);
        }
    }
}

proof fn nothing_is_opened_without_a_fence(other: Seq<u8>)
    requires
        !fence(true).is_prefix_of(other),
        !fence(false).is_prefix_of(other),
    ensures
        opening_length(other) is None,
{
    if other.len() >= 5 && other.take(5) == delimiter() + seq![13u8, 10u8] {
        assert(other.take(5) =~= fence(true));
    }
    if other.len() >= 4 && other.take(4) == delimiter() + seq![10u8] {
        assert(other.take(4) =~= fence(false));
    }
}

/// Whether a setting of a remote may stand in the configuration of a repository.
pub open spec fn is_remote_setting(field: Seq<char>) -> bool {
    field == "url"@ || field == "pushurl"@ || field == "fetch"@ || field == "mirror"@
}

/// Whether a setting of a branch may stand in the configuration of a repository.
pub open spec fn is_branch_setting(field: Seq<char>) -> bool {
    field == "remote"@ || field == "merge"@
}

/// Of a remote with a name its addresses, what is fetched and whether it is a mirror may be
/// configured, and of a branch with a name its remote and what is merged.
pub proof fn plain_settings_are_allowed(name: Seq<char>, field: Seq<char>)
    requires
        name.len() > 0,
    ensures
        is_remote_setting(field) ==> is_allowed_key("remote."@ + name + "."@ + field),
        is_branch_setting(field) ==> is_allowed_key("branch."@ + name + "."@ + field),
        is_allowed_key("core.bare"@),
        is_allowed_key("core.filemode"@),
        is_allowed_key("core.repositoryformatversion"@),
        is_allowed_key("core.logallrefupdates"@),
        is_allowed_key("extensions.objectformat"@),
{
    reveal_strlit("url");
    reveal_strlit("pushurl");
    reveal_strlit("fetch");
    reveal_strlit("mirror");
    reveal_strlit("remote");
    reveal_strlit("merge");
    reveal_strlit(".");
    let value = name + "."@ + field;
    if is_remote_setting(field) || is_branch_setting(field) {
        assert(forall|i: int| 0 <= i < field.len() ==> field[i] != '.');
        last_dots_are_found(value, name.len() as int, value.len() as int);
        assert(value.skip(name.len() as int + 1) =~= field);
    }
    if is_remote_setting(field) {
        let fields = crate::git_output::remote_fields();
        assert(fields[0] == "url"@ && fields[1] == "pushurl"@ && fields[2] == "fetch"@ && fields[3]
            == "mirror"@);
        assert(fields.contains(field));
        let key = "remote."@ + name + "."@ + field;
        assert(key =~= "remote."@ + value);
        assert(key.skip("remote."@.len() as int) =~= value);
        assert(key.take("remote."@.len() as int) =~= "remote."@);
    }
    if is_branch_setting(field) {
        let fields = crate::git_output::branch_fields();
        assert(fields[0] == "remote"@ && fields[1] == "merge"@);
        assert(fields.contains(field));
        let key = "branch."@ + name + "."@ + field;
        assert(key =~= "branch."@ + value);
        assert(key.skip("branch."@.len() as int) =~= value);
        assert(key.take("branch."@.len() as int) =~= "branch."@);
    }
}

proof fn last_dots_are_found(text: Seq<char>, at: int, end: int)
    requires
        0 <= at < end <= text.len(),
        text[at] == '.',
        forall|i: int| at < i < text.len() ==> text[i] != '.',
    ensures
        last_position(text, '.', end) == Some(at),
    decreases end,
{
    if end - 1 > at {
        last_dots_are_found(text, at, end - 1);
    }
}

/// Whether a path is named by some text of a list.
pub open spec fn is_listed(paths: Seq<Seq<char>>, field: Seq<u8>) -> bool {
    exists|i: int|
        0 <= i < paths.len() && components_of(#[trigger] paths[i]) == components_of(
            decode_utf8(field),
        )
}

/// Whether a text is one of the fields of a list.
pub open spec fn is_printed(fields: Seq<Seq<u8>>, path: Seq<char>) -> bool {
    exists|k: int|
        0 <= k < fields.len() && (#[trigger] fields[k]).len() > 0 && decode_utf8(fields[k]) == path
}

/// The untracked files are all that are listed, visible or ignored, and no others; a list with a
/// name that is no text cannot be read.
pub proof fn untracked_files_are_those_listed(visible: Seq<u8>, ignored: Seq<u8>)
    ensures
        ({
            let shown = split(visible, 0u8);
            let hidden = split(ignored, 0u8);
            let text = |fields: Seq<Seq<u8>>|
                forall|k: int| 0 <= k < fields.len() ==> valid_utf8(#[trigger] fields[k])
                    || fields[k].len() == 0;
            &&& untracked(visible, ignored) is Some <==> text(shown) && text(hidden)
            &&& untracked(visible, ignored) matches Some(paths) ==> {
                &&& forall|k: int|
                    0 <= k < shown.len() && (#[trigger] shown[k]).len() > 0 ==> is_listed(
                        paths,
                        shown[k],
                    )
                &&& forall|k: int|
                    0 <= k < hidden.len() && (#[trigger] hidden[k]).len() > 0 ==> is_listed(
                        paths,
                        hidden[k],
                    )
                &&& forall|i: int|
                    0 <= i < paths.len() ==> is_printed(shown, #[trigger] paths[i]) || is_printed(
                        hidden,
                        paths[i],
                    )
            }
        }),
{
    let shown = split(visible, 0u8);
    let hidden = split(ignored, 0u8);
    listed_paths_are_found(shown, Seq::empty(), 0);
    if let Some(found) = paths_among(shown, Seq::empty(), 0) {
        listed_paths_are_found(hidden, found, 0);
        if let Some(paths) = paths_among(hidden, found, 0) {
            assert forall|k: int| 0 <= k < shown.len() && (
            #[trigger] shown[k]).len() > 0 implies is_listed(paths, shown[k]) by {
                assert(is_listed(found, shown[k]));
                let i = choose|i: int|
                    0 <= i < found.len() && components_of(#[trigger] found[i]) == components_of(
                        decode_utf8(shown[k]),
                    );
                assert(paths[i] == found[i]);
            }
            assert forall|i: int| 0 <= i < paths.len() implies is_printed(
                shown,
                #[trigger] paths[i],
            ) || is_printed(hidden, paths[i]) by {
                if i < found.len() {
                    assert(paths[i] == found[i]);
                }
            }
        }
    }
}

proof fn listed_paths_are_found(fields: Seq<Seq<u8>>, found: Seq<Seq<char>>, next: int)
    requires
        0 <= next,
    ensures
        paths_among(fields, found, next) is Some <==> forall|k: int|
            next <= k < fields.len() ==> valid_utf8(#[trigger] fields[k]) || fields[k].len() == 0,
        paths_among(fields, found, next) matches Some(paths) ==> {
            &&& found.len() <= paths.len()
            &&& forall|i: int| 0 <= i < found.len() ==> #[trigger] paths[i] == found[i]
            &&& forall|k: int|
                next <= k < fields.len() && (#[trigger] fields[k]).len() > 0 ==> is_listed(
                    paths,
                    fields[k],
                )
            &&& forall|i: int|
                found.len() <= i < paths.len() ==> is_printed(fields, #[trigger] paths[i])
        },
    decreases fields.len() - next,
{
    if next < fields.len() {
        let field = fields[next];
        if field.len() == 0 {
            listed_paths_are_found(fields, found, next + 1);
        } else if valid_utf8(field) {
            let path = decode_utf8(field);
            if crate::git_output::names_path(found, components_of(path)) {
                listed_paths_are_found(fields, found, next + 1);
                if let Some(paths) = paths_among(fields, found, next + 1) {
                    let i = choose|i: int|
                        0 <= i < found.len() && components_of(#[trigger] found[i])
                            == components_of(path);
                    assert(paths[i] == found[i]);
                    assert(is_listed(paths, fields[next]));
                }
            } else {
                let more = found.push(path);
                listed_paths_are_found(fields, more, next + 1);
                if let Some(paths) = paths_among(fields, more, next + 1) {
                    assert(paths[found.len() as int] == more[found.len() as int]);
                    assert(is_listed(paths, fields[next]));
                    assert(is_printed(fields, paths[found.len() as int]));
                    assert forall|i: int| 0 <= i < found.len() implies #[trigger] paths[i]
                        == found[i] by {
                        assert(paths[i] == more[i]);
                    }
                }
            }
        }
    }
}

/// A printed number is read as the number that was printed.
pub proof fn printed_numbers_are_read(value: u64)
    ensures
        unsigned_number(decimal(value as nat)) == Some(value as nat),
{
    digits_are_read(value as nat);
}

proof fn digits_are_read(value: nat)
    ensures
        decimal_number(decimal(value)) == value,
        all_digits(decimal(value)),
        decimal(value).len() > 0,
        decimal(value)[0] != '+',
    decreases value,
{
    reveal_with_fuel(decimal_number, 2);
    if value >= 10 {
        digits_are_read(value / 10);
        let earlier = decimal(value / 10);
        assert(decimal(value).drop_last() =~= earlier);
        assert(decimal(value)[0] == earlier[0]);
        assert forall|i: int| 0 <= i < decimal(value).len() implies crate::fields::digit_value(
            #[trigger] decimal(value)[i],
        ) is Some by {
            if i < earlier.len() {
                assert(decimal(value)[i] == earlier[i]);
            }
        }
    } else {
        assert(decimal(value).drop_last() =~= Seq::<char>::empty());
    }
}

/// A commit of the past is selected exactly where it is named in full and is an ancestor.
pub proof fn ancestors_are_selected(
    commit: Seq<char>,
    anchor: crate::git_text::ObjectId,
    ancestry: Ancestry,
)
    ensures
        ({
            let full = crate::git_text::is_object_id(commit) && commit.len()
                == anchor.spec_text().len();
            let problem = selection_problem(commit, anchor, ancestry);
            &&& problem is None <==> full && ancestry is Ancestor
            &&& !full || ancestry is Unrelated ==> problem == Some(
                ReadFailure::InvalidHistorySelector,
            )
            &&& full ==> (ancestry matches Ancestry::Unknown(error) ==> problem == Some(error@))
        }),
{
}

/// A document of the past is read only within what may be read of one and what is left of all, and
/// the bytes that were read count.
pub proof fn past_documents_are_read_within_limits(
    policy: ContentPolicy,
    names: NameRules,
    path: Seq<char>,
    blob: BlobRead,
    work: HistoryWork,
    size: nat,
)
    requires
        crate::history::printed_size(blob.size@) == Some(size),
        work.bytes <= policy.maximum_total_markdown_bytes,
    ensures
        ({
            let (result, done) = entry_document(policy, names, path, blob, work);
            let left = policy.maximum_total_markdown_bytes - work.bytes;
            let one = policy.maximum_markdown_bytes;
            &&& size > left && left < one ==> result == Err::<RecordView, ReadFailure>(
                CommittedReadError::SearchMarkdownByteLimitExceeded {
                    maximum: policy.maximum_total_markdown_bytes,
                },
            )
            &&& size > one && one <= left ==> result == Err::<RecordView, ReadFailure>(
                CommittedReadError::SearchMarkdownByteLimitExceeded { maximum: one },
            )
            &&& size <= left && size <= one ==> {
                &&& crate::index::document_found(
                    components_of(path),
                    blob.bytes@,
                    blob.decoded,
                    names,
                ) matches Ok(record) ==> result == Ok::<RecordView, ReadFailure>(record)
                &&& work.bytes + blob.bytes@.len() <= u64::MAX ==> done.bytes == work.bytes
                    + blob.bytes@.len()
                &&& done.entries == work.entries
            }
            &&& work.entries < usize::MAX ==> one_entry(work).entries == work.entries + 1
                && one_entry(work).bytes == work.bytes
        }),
{
}

/// A year is shown in four digits, one before the year zero with a minus sign before its digits.
pub proof fn years_show_four_characters(year: int)
    requires
        -9999 <= year <= 9999,
    ensures
        year >= 0 ==> year_text(year).len() == 4 && counted(year_text(year)) == year,
        year < 0 ==> year_text(year).len() >= 4 && year_text(year)[0] == '-' && counted(
            year_text(year).skip(1),
        ) == -year,
{
    reveal_strlit("-");
    reveal_with_fuel(tens, 6);
    if year >= 0 {
        fixed_numerals_count(4, year as nat);
    } else if year > -1000 {
        fixed_numerals_count(3, (-year) as nat);
        assert(year_text(year).skip(1) =~= crate::text::fixed_decimal(3, (-year) as nat));
    } else {
        fixed_numerals_count(4, (-year) as nat);
        assert(year_text(year).skip(1) =~= crate::text::fixed_decimal(4, (-year) as nat));
    }
}

/// Of two clocks that show the same, the one that is further ahead shows an earlier instant; one
/// clock shows later readings at later instants.
pub proof fn clocks_ahead_show_earlier_instants(first: Timestamp, second: Timestamp)
    ensures
        first.spec_local() == second.spec_local() ==> second.instant() - first.instant() == (
        first.spec_offset() - second.spec_offset()) * 1_000_000_000,
        first.spec_offset() == second.spec_offset() ==> second.instant() - first.instant()
            == second.spec_local() - first.spec_local(),
{
}

/// A name stands last in the path that it is joined to; an empty one leaves the path as it is.
pub proof fn names_stand_last(components: Seq<Seq<char>>, name: Seq<char>)
    ensures
        name.len() > 0 ==> joined(components, name).len() == components.len() + 1 && joined(
            components,
            name,
        ).last() == name && joined(components, name).drop_last() == components,
        name.len() == 0 ==> joined(components, name) == components,
{
    assert(components.push(name).drop_last() =~= components);
}

/// An entry of a tree of the past is looked at only before the deadline and within the number of
/// entries that may be; one that was not looked at yet is asked for, with the bytes that may be
/// read of it.
pub proof fn past_entries_are_looked_at_in_turn(
    policy: ContentPolicy,
    names: NameRules,
    id: DocumentId,
    entries: Seq<Seq<u8>>,
    reads: Seq<EntryRead>,
    at: int,
    work: HistoryWork,
    found: FoundView,
)
    requires
        0 <= at < entries.len() <= usize::MAX,
        work.entries < usize::MAX,
        work.bytes <= policy.maximum_total_markdown_bytes,
    ensures
        ({
            let result = found_in(policy, names, id, entries, reads, at, work, found).0;
            let late = policy.scan_deadline matches Some(deadline) && reads[at].now >= deadline;
            let many = work.entries + 1 > policy.maximum_entry_count;
            let left = policy.maximum_total_markdown_bytes - work.bytes;
            &&& at >= reads.len() ==> (result matches Err(HistoryHalt::Needs { at: next, limit })
                && next == at && limit <= policy.maximum_markdown_bytes && limit <= left && (limit
                == policy.maximum_markdown_bytes || limit == left))
            &&& at < reads.len() && late ==> result == Err::<FoundView, HistoryHalt<ReadFailure>>(
                HistoryHalt::Failed(CommittedReadError::OperationDeadlineExceeded),
            )
            &&& at < reads.len() && !late && many ==> result == Err::<
                FoundView,
                HistoryHalt<ReadFailure>,
            >(
                HistoryHalt::Failed(
                    CommittedReadError::SearchDocumentLimitExceeded {
                        maximum: policy.maximum_entry_count,
                    },
                ),
            )
        }),
{
}

} // verus!
