//! The repository around a batch: its identity, its names, its layout and its binding.
use crate::fields::{
    byte_views, ends_with, has_suffix, slice_bytes, split, split_bytes, split_words, strip_prefix,
    words,
};
use crate::changes::{components_of, path_from_text};
use crate::apply::{same_bytes, PathView};
use crate::git_error::{GitFailure, GitTransactionError};
use crate::git_output::{config_is_safe, printed_is, safe_config};
use crate::git_text::{
    has_control, holds_control, is_object_id, printed_text, trim, trimmed, ObjectId,
};
use crate::ids::{is_ulid, ulid_number, ulid_text, ulid_text_reads_back, BatchId, Revision};
use crate::journal::{
    accepted, decode_journal, Claim, JournalState, JournalView, StoredTransactionJournal,
};
use crate::path::{optional_text, texts, ContentPath};
use crate::text::{characters, join2, same_text, slice_text, utf8_text};
use vstd::bytes::{spec_u64_to_le_bytes, u64_to_le_bytes};
use vstd::prelude::*;
use vstd::string::*;
use vstd::utf8::{decode_utf8, encode_utf8, valid_utf8};

verus! {

/// Maximum bytes of a repository binding.
pub const MAXIMUM_BINDING_BYTES: usize = 65_536;

/// Whether a value can stand in a commit identity: it shows something and holds no control.
pub open spec fn is_identity_value(value: Seq<char>) -> bool {
    trimmed(value).len() > 0 && !has_control(value)
}

/// Whether a value can stand in a commit identity.
pub(crate) fn valid_identity_value(value: &str) -> (result: bool)
    ensures
        result == is_identity_value(value@),
{
    let chars = characters(value);
    let shown = trim(&chars);
    shown.len() > 0 && !holds_control(&chars)
}

/// Fixed author identity for mechanically generated knowledge commits.
#[derive(Debug)]
pub struct GitIdentity {
    name: String,
    email: String,
}

impl Clone for GitIdentity {
    fn clone(&self) -> (result: GitIdentity)
        ensures
            result.spec_name() == self.spec_name(),
            result.spec_email() == self.spec_email(),
    {
        proof {
            use_type_invariant(self);
        }
        GitIdentity { name: self.name.clone(), email: self.email.clone() }
    }
}

impl GitIdentity {
    /// The author's name.
    pub closed spec fn spec_name(self) -> Seq<char> {
        self.name@
    }

    /// The author's address.
    pub closed spec fn spec_email(self) -> Seq<char> {
        self.email@
    }

    #[verifier::type_invariant]
    spec fn is_usable(self) -> bool {
        is_identity_value(self.name@) && is_identity_value(self.email@)
    }

    /// Creates a commit identity after rejecting empty or control-containing values.
    pub fn new(name: &str, email: &str) -> (result: Result<GitIdentity, GitTransactionError>)
        ensures
            match result {
                Ok(identity) => is_identity_value(name@) && is_identity_value(email@)
                    && identity.spec_name() == name@ && identity.spec_email() == email@,
                Err(error) => !(is_identity_value(name@) && is_identity_value(email@)) && error@
                    == GitFailure::InvalidIdentity,
            },
    {
        if !valid_identity_value(name) || !valid_identity_value(email) {
            return Err(GitTransactionError::InvalidIdentity);
        }
        Ok(GitIdentity { name: name.to_owned(), email: email.to_owned() })
    }

    /// The author's name.
    pub fn name(&self) -> (name: &String)
        ensures
            name@ == self.spec_name(),
            is_identity_value(name@),
    {
        proof {
            use_type_invariant(self);
        }
        &self.name
    }

    /// The author's address.
    pub fn email(&self) -> (email: &String)
        ensures
            email@ == self.spec_email(),
            is_identity_value(email@),
    {
        proof {
            use_type_invariant(self);
        }
        &self.email
    }
}

/// Bounded signal returned when a derived-publication callback fails.
#[derive(Clone, Copy, Debug, PartialEq, Eq, Structural)]
pub struct PublicationError;

impl PublicationError {
    /// Creates a callback failure after the caller retained its detailed error.
    pub fn new() -> (result: PublicationError)
        ensures
            result == PublicationError,
    {
        PublicationError
    }

    /// What the failure is reported as.
    pub fn message(&self) -> (text: String)
        ensures
            text@ == "derived publication callback failed"@,
    {
        "derived publication callback failed".to_owned()
    }
}

impl Default for PublicationError {
    fn default() -> (result: PublicationError)
        ensures
            result == PublicationError,
    {
        PublicationError::new()
    }
}

/// Callbacks that build and durably prepare derived output around one commit.
#[derive(Debug)]
pub struct BatchPublication<F, H> {
    /// Builds the prepared worktree.
    pub trial_build: F,
    /// Prepares derived output before the official branch advances.
    pub before_publish: H,
}

impl<F, H> BatchPublication<F, H> {
    /// Groups the trial build and pre-publication preparation callbacks.
    pub fn new(trial_build: F, before_publish: H) -> (result: BatchPublication<F, H>)
        ensures
            result.trial_build == trial_build,
            result.before_publish == before_publish,
    {
        BatchPublication { trial_build, before_publish }
    }
}

/// Ordered claims and queue-stage outcomes entering one repository transaction.
#[derive(Clone, Copy, Debug)]
pub struct ClaimedBatch<'a> {
    claims: &'a Vec<Claim>,
    claim_failures: usize,
}

impl<'a> ClaimedBatch<'a> {
    /// The claims.
    pub closed spec fn spec_claims(self) -> Seq<Claim> {
        self.claims@
    }

    /// Requests rejected before repository processing began.
    pub closed spec fn spec_claim_failures(self) -> usize {
        self.claim_failures
    }

    /// Creates one batch from ordered claims and prior validation failures.
    pub fn new(claims: &'a Vec<Claim>, claim_failures: usize) -> (result: ClaimedBatch<'a>)
        ensures
            result.spec_claims() == claims@,
            result.spec_claim_failures() == claim_failures,
    {
        ClaimedBatch { claims, claim_failures }
    }

    /// Returns the ordered, durably owned requests.
    pub fn claims(self) -> (result: &'a Vec<Claim>)
        ensures
            result@ == self.spec_claims(),
    {
        self.claims
    }

    /// Returns requests rejected before repository processing began.
    pub fn claim_failures(self) -> (result: usize)
        ensures
            result == self.spec_claim_failures(),
    {
        self.claim_failures
    }
}

/// Durable repository work that must be resumed before a new batch starts.
#[derive(Clone, Copy, Debug, PartialEq, Eq, Structural)]
pub enum RepositoryTransaction {
    /// Claims were recorded, but no terminal repository outcome exists yet.
    Preparing {
        /// Batch that owns the transaction.
        batch_id: BatchId,
        /// Requests rejected while the batch was claimed.
        claim_failures: usize,
    },
    /// A terminal outcome exists and publication or reconciliation must resume.
    Recoverable {
        /// Batch that owns the transaction.
        batch_id: BatchId,
        /// Requests rejected while the batch was claimed.
        claim_failures: usize,
    },
}

impl RepositoryTransaction {
    /// The batch that owns the transaction.
    pub open spec fn spec_batch_id(self) -> BatchId {
        match self {
            RepositoryTransaction::Preparing { batch_id, .. } => batch_id,
            RepositoryTransaction::Recoverable { batch_id, .. } => batch_id,
        }
    }

    /// Requests rejected before repository processing began.
    pub open spec fn spec_claim_failures(self) -> usize {
        match self {
            RepositoryTransaction::Preparing { claim_failures, .. } => claim_failures,
            RepositoryTransaction::Recoverable { claim_failures, .. } => claim_failures,
        }
    }

    /// Returns the batch that owns this durable transaction.
    pub fn batch_id(self) -> (result: BatchId)
        ensures
            result == self.spec_batch_id(),
    {
        match self {
            RepositoryTransaction::Preparing { batch_id, .. } => batch_id,
            RepositoryTransaction::Recoverable { batch_id, .. } => batch_id,
        }
    }

    /// Returns requests rejected before repository processing began.
    pub fn claim_failures(self) -> (result: usize)
        ensures
            result == self.spec_claim_failures(),
    {
        match self {
            RepositoryTransaction::Preparing { claim_failures, .. } => claim_failures,
            RepositoryTransaction::Recoverable { claim_failures, .. } => claim_failures,
        }
    }
}

/// The name of the journal of a batch.
pub open spec fn journal_name(batch_id: BatchId) -> Seq<char> {
    ulid_text(batch_id.value) + ".json"@
}

/// The name of the journal of a batch.
pub fn journal_file_name(batch_id: BatchId) -> (name: String)
    ensures
        name@ == journal_name(batch_id),
{
    join2(batch_id.text().as_str(), ".json")
}

/// The name of the worktree of a batch.
pub fn worktree_name(batch_id: BatchId) -> (name: String)
    ensures
        name@ == "batch-"@ + ulid_text(batch_id.value),
{
    join2("batch-", batch_id.text().as_str())
}

/// The reference that keeps the commit of a batch.
pub fn transaction_ref(batch_id: BatchId) -> (name: String)
    ensures
        name@ == "refs/agent-knowledge/transactions/"@ + ulid_text(batch_id.value),
{
    join2("refs/agent-knowledge/transactions/", batch_id.text().as_str())
}

/// The batch that a text names in canonical form.
pub open spec fn named_batch(text: Seq<char>) -> Option<BatchId> {
    let batch_id = BatchId { value: (ulid_number(text) % (u128::MAX as nat + 1)) as u128 };
    if is_ulid(text) && ulid_text(batch_id.value) == text {
        Some(batch_id)
    } else {
        None
    }
}

/// Every batch is named by its own text.
pub proof fn batches_are_named(batch_id: BatchId)
    ensures
        named_batch(ulid_text(batch_id.value)) == Some(batch_id),
{
    ulid_text_reads_back(batch_id.value);
    vstd::arithmetic::div_mod::lemma_small_mod(batch_id.value as nat, u128::MAX as nat + 1);
}

/// The batch that a text names in canonical form.
fn read_batch(text: &str) -> (result: Option<BatchId>)
    ensures
        result == named_batch(text@),
{
    match BatchId::parse(text) {
        Some(batch_id) => if same_text(batch_id.text().as_str(), text) {
            Some(batch_id)
        } else {
            None
        },
        None => None,
    }
}

/// Whether a directory may be removed although no worktree is registered for it: it must stand
/// directly under the worktree root and be named after a batch.
pub open spec fn is_removable(direct_child: bool, name: Option<Seq<char>>) -> bool {
    direct_child && (name matches Some(text) && "batch-"@.is_prefix_of(text) && named_batch(
        text.skip("batch-"@.len() as int),
    ) is Some)
}

/// Whether a directory may be removed although no worktree is registered for it.
pub fn removable_worktree(direct_child: bool, name: &Option<String>) -> (result: bool)
    ensures
        result == is_removable(direct_child, optional_text(*name)),
{
    if !direct_child {
        return false;
    }
    match name {
        Some(text) => match strip_prefix(text.as_str(), "batch-") {
            Some(identifier) => read_batch(identifier.as_str()).is_some(),
            None => false,
        },
        None => false,
    }
}

/// Whether no journal stands beside that of a batch.
pub open spec fn is_alone(names: Seq<Seq<char>>, batch_id: BatchId) -> bool {
    forall|i: int|
        0 <= i < names.len() && ends_with(#[trigger] names[i], ".json"@) ==> names[i]
            == journal_name(batch_id)
}

/// Whether no journal stands beside that of a batch.
pub fn no_other_journal(names: &Vec<String>, batch_id: BatchId) -> (result: bool)
    ensures
        result == is_alone(texts(names@), batch_id),
{
    let ghost views = texts(names@);
    let expected = journal_file_name(batch_id);
    let mut i: usize = 0;
    while i < names.len()
        invariant
            i <= names@.len(),
            views == texts(names@),
            expected@ == journal_name(batch_id),
            forall|j: int|
                0 <= j < i && ends_with(#[trigger] views[j], ".json"@) ==> views[j]
                    == journal_name(batch_id),
        decreases names@.len() - i,
    {
        assert(views[i as int] == names@[i as int]@);
        if has_suffix(names[i].as_str(), ".json") && !same_text(
            names[i].as_str(),
            expected.as_str(),
        ) {
            return false;
        }
        i += 1;
    }
    true
}

/// The transaction that a journal leaves unfinished.
pub open spec fn left_by(journal: JournalView) -> RepositoryTransaction {
    let batch_id = journal.batch_id;
    let claim_failures = journal.claim_failures as usize;
    match journal.state {
        JournalState::Preparing => RepositoryTransaction::Preparing { batch_id, claim_failures },
        _ => RepositoryTransaction::Recoverable { batch_id, claim_failures },
    }
}

/// The transaction recorded by the stored journal of a batch in a queue.
pub open spec fn recorded(
    stored: Option<StoredTransactionJournal>,
    batch_id: BatchId,
    queue_identity: Revision,
) -> Result<RepositoryTransaction, GitFailure> {
    match stored {
        None => Err(GitTransactionError::JournalMissing),
        Some(stored) => match accepted(stored, batch_id) {
            Err(failure) => Err(failure),
            Ok(journal) => if journal.queue_identity != queue_identity || journal.claim_failures
                > usize::MAX {
                Err(GitTransactionError::JournalMismatch)
            } else {
                Ok(left_by(journal))
            },
        },
    }
}

/// The single transaction among the entries of the journal directory from `next` on, with `found`
/// what the earlier ones hold and `stored` what the first journal among them holds. A name that is
/// not text, or that names no batch, makes a journal invalid; a second journal, or one under
/// another name than its batch, is another transaction.
pub open spec fn unfinished_from(
    names: Seq<Option<Seq<char>>>,
    stored: Option<StoredTransactionJournal>,
    queue_identity: Revision,
    next: int,
    found: Option<RepositoryTransaction>,
) -> Result<Option<RepositoryTransaction>, GitFailure>
    decreases names.len() - next,
{
    if next < 0 || next >= names.len() {
        Ok(found)
    } else {
        match names[next] {
            None => Err(GitTransactionError::InvalidJournal),
            Some(name) => if !ends_with(name, ".json"@) {
                unfinished_from(names, stored, queue_identity, next + 1, found)
            } else {
                let text = name.take(name.len() - ".json"@.len());
                if !is_ulid(text) {
                    Err(GitTransactionError::InvalidJournal)
                } else if named_batch(text) is None || found is Some {
                    Err(GitTransactionError::UnfinishedTransaction)
                } else {
                    match recorded(stored, named_batch(text)->0, queue_identity) {
                        Err(failure) => Err(failure),
                        Ok(transaction) => unfinished_from(
                            names,
                            stored,
                            queue_identity,
                            next + 1,
                            Some(transaction),
                        ),
                    }
                }
            },
        }
    }
}

/// The names of directory entries, where they are text.
pub open spec fn name_views(names: Seq<Option<String>>) -> Seq<Option<Seq<char>>> {
    names.map_values(|name: Option<String>| optional_text(name))
}

/// Reads the transaction recorded by the stored journal of a batch in a queue.
fn read_recorded(
    stored: Option<StoredTransactionJournal>,
    batch_id: BatchId,
    queue_identity: Revision,
) -> (result: Result<RepositoryTransaction, GitTransactionError>)
    ensures
        (match result {
            Ok(transaction) => Ok(transaction),
            Err(error) => Err(error@),
        }) == recorded(stored, batch_id, queue_identity),
{
    match stored {
        None => Err(GitTransactionError::JournalMissing),
        Some(stored) => match decode_journal(stored, batch_id) {
            Err(error) => Err(error),
            Ok(journal) => {
                let count: u64 = journal.claim_failures;
                if journal.queue_identity != queue_identity || count > usize::MAX as u64 {
                    return Err(GitTransactionError::JournalMismatch);
                }
                let batch_id = journal.batch_id;
                let claim_failures: usize = count as usize;
                Ok(
                    match journal.state {
                        JournalState::Preparing => RepositoryTransaction::Preparing {
                            batch_id,
                            claim_failures,
                        },
                        _ => RepositoryTransaction::Recoverable { batch_id, claim_failures },
                    },
                )
            },
        },
    }
}

/// Discovers the single durable transaction that startup must resume, from the entries of the
/// journal directory and what the first journal among them holds.
pub fn unfinished_transaction(
    names: &Vec<Option<String>>,
    stored: Option<StoredTransactionJournal>,
    queue_identity: Revision,
) -> (result: Result<Option<RepositoryTransaction>, GitTransactionError>)
    ensures
        (match result {
            Ok(found) => Ok(found),
            Err(error) => Err(error@),
        }) == unfinished_from(name_views(names@), stored, queue_identity, 0, None),
{
    let ghost views = name_views(names@);
    let mut unread: Option<StoredTransactionJournal> = stored;
    let mut found: Option<RepositoryTransaction> = None;
    let mut next: usize = 0;
    while next < names.len()
        invariant
            next <= names@.len(),
            views == name_views(names@),
            found is None ==> unread == stored,
            unfinished_from(views, stored, queue_identity, 0, None) == unfinished_from(
                views,
                stored,
                queue_identity,
                next as int,
                found,
            ),
        decreases names@.len() - next,
    {
        assert(views[next as int] == optional_text(names@[next as int]));
        match &names[next] {
            None => {
                return Err(GitTransactionError::InvalidJournal);
            },
            Some(name) => {
                if has_suffix(name.as_str(), ".json") {
                    let chars = characters(name.as_str());
                    proof {
                        reveal_strlit(".json");
                    }
                    let text = slice_text(&chars, 0, chars.len() - 5);
                    assert(text@ =~= name@.take(name@.len() - ".json"@.len()));
                    if BatchId::parse(text.as_str()).is_none() {
                        return Err(GitTransactionError::InvalidJournal);
                    }
                    match read_batch(text.as_str()) {
                        None => {
                            return Err(GitTransactionError::UnfinishedTransaction);
                        },
                        Some(batch_id) => {
                            if found.is_some() {
                                return Err(GitTransactionError::UnfinishedTransaction);
                            }
                            let journal = unread;
                            unread = None;
                            match read_recorded(journal, batch_id, queue_identity) {
                                Err(error) => {
                                    return Err(error);
                                },
                                Ok(transaction) => {
                                    found = Some(transaction);
                                },
                            }
                        },
                    }
                }
            },
        }
        next += 1;
    }
    Ok(found)
}

/// The position of an item from a position on.
pub open spec fn position<A>(items: Seq<A>, item: A, from: int) -> Option<int>
    decreases items.len() - from,
{
    if from < 0 || from >= items.len() {
        None
    } else if items[from] == item {
        Some(from)
    } else {
        position(items, item, from + 1)
    }
}

/// Finds a character.
pub(crate) fn find_character(chars: &Vec<char>, item: char) -> (result: Option<usize>)
    ensures
        match position(chars@, item, 0) {
            Some(at) => result matches Some(found) && found == at && found < chars@.len(),
            None => result is None,
        },
{
    let mut i: usize = 0;
    while i < chars.len()
        invariant
            i <= chars@.len(),
            position(chars@, item, 0) == position(chars@, item, i as int),
        decreases chars@.len() - i,
    {
        if chars[i] == item {
            return Some(i);
        }
        i += 1;
    }
    None
}

/// The fields that hold something, of a list ended by zero bytes.
pub open spec fn filled_fields(output: Seq<u8>) -> Seq<Seq<u8>> {
    split(output, 0u8).filter(|field: Seq<u8>| field.len() > 0)
}

/// The fields that hold something, of a list ended by zero bytes.
pub(crate) fn split_filled(output: &[u8]) -> (result: Vec<Vec<u8>>)
    ensures
        byte_views(result@) == filled_fields(output@),
{
    let fields = split_bytes(output, 0);
    let ghost views = byte_views(fields@);
    let ghost filled = |field: Seq<u8>| field.len() > 0;
    let mut result: Vec<Vec<u8>> = Vec::new();
    let mut i: usize = 0;
    assert(byte_views(result@) =~= views.take(0).filter(filled)) by {
        reveal(Seq::filter);
    }
    while i < fields.len()
        invariant
            i <= fields@.len(),
            views == byte_views(fields@),
            filled == (|field: Seq<u8>| field.len() > 0),
            byte_views(result@) == views.take(i as int).filter(filled),
        decreases fields@.len() - i,
    {
        assert(views[i as int] == fields@[i as int]@);
        proof {
            reveal(Seq::filter);
            assert(views.take(i + 1).drop_last() =~= views.take(i as int));
        }
        let ghost before = result@;
        if fields[i].len() > 0 {
            result.push(slice_bytes(fields[i].as_slice(), 0, fields[i].len()));
            assert(result@.last()@ =~= views[i as int]);
            assert(byte_views(result@) =~= byte_views(before).push(views[i as int]));
        }
        i += 1;
    }
    assert(views.take(views.len() as int) =~= views);
    result
}

/// The object that one listed entry of a tree names for a path: its mode, the word `blob` and its
/// name, then a tab and the path.
pub open spec fn entry_object(record: Seq<char>, path: PathView) -> Option<ObjectId> {
    match position(record, '\u{9}', 0) {
        None => None,
        Some(at) => {
            let metadata = words(record.take(at));
            if components_of(record.skip(at + 1)) != path || metadata.len() != 3 || metadata[1]
                != "blob"@ || !is_object_id(metadata[2]) {
                None
            } else {
                Some(ObjectId::named(metadata[2]))
            }
        },
    }
}

/// The object that a listed tree has at a path, if any.
pub open spec fn tree_object(output: Seq<u8>, path: PathView) -> Result<
    Option<ObjectId>,
    GitFailure,
> {
    let records = filled_fields(output);
    if records.len() == 0 {
        Ok(None)
    } else if records.len() != 1 || !valid_utf8(records[0]) {
        Err(GitTransactionError::InvalidGitOutput)
    } else {
        match entry_object(decode_utf8(records[0]), path) {
            Some(object) => Ok(Some(object)),
            None => Err(GitTransactionError::InvalidGitOutput),
        }
    }
}

/// Reads the object that one listed entry of a tree names for a path.
fn read_entry(record: &str, path: &ContentPath) -> (result: Option<ObjectId>)
    ensures
        result == entry_object(record@, path@),
{
    let chars = characters(record);
    let count: usize = chars.len();
    match find_character(&chars, '\u{9}') {
        None => None,
        Some(at) => {
            let head = slice_text(&chars, 0, at);
            let tail = slice_text(&chars, at + 1, count);
            assert(head@ =~= record@.take(at as int));
            assert(tail@ =~= record@.skip(at + 1));
            let metadata = split_words(head.as_str());
            let ghost views = texts(metadata@);
            if !path_from_text(tail.as_str()).same(path) || metadata.len() != 3 {
                return None;
            }
            assert(views[1] == metadata@[1]@ && views[2] == metadata@[2]@);
            if !same_text(metadata[1].as_str(), "blob") {
                return None;
            }
            ObjectId::parse(metadata[2].as_str())
        },
    }
}

/// Reads the object that a listed tree has at a path, if any.
pub fn resolve_tree_path(output: &[u8], path: &ContentPath) -> (result: Result<
    Option<ObjectId>,
    GitTransactionError,
>)
    ensures
        (match result {
            Ok(object) => Ok(object),
            Err(error) => Err(error@),
        }) == tree_object(output@, path@),
{
    let records = split_filled(output);
    let ghost views = byte_views(records@);
    if records.len() == 0 {
        return Ok(None);
    }
    if records.len() != 1 {
        return Err(GitTransactionError::InvalidGitOutput);
    }
    assert(views[0] == records@[0]@);
    match utf8_text(records[0].as_slice()) {
        None => Err(GitTransactionError::InvalidGitOutput),
        Some(record) => {
            proof {
                vstd::utf8::encode_utf8_decode_utf8(record@);
            }
            match read_entry(record.as_str(), path) {
                Some(object) => Ok(Some(object)),
                None => Err(GitTransactionError::InvalidGitOutput),
            }
        },
    }
}

/// The field of a worktree list that names a directory.
pub open spec fn worktree_field(path: Seq<u8>) -> Seq<u8> {
    seq![119u8, 111u8, 114u8, 107u8, 116u8, 114u8, 101u8, 101u8, 32u8] + path
}

/// Writes the field of a worktree list that names a directory.
fn write_worktree_field(path: &Vec<u8>) -> (field: Vec<u8>)
    ensures
        field@ == worktree_field(path@),
{
    let mut field: Vec<u8> = vec![119, 111, 114, 107, 116, 114, 101, 101, 32];
    field.extend_from_slice(path.as_slice());
    assert(field@ =~= worktree_field(path@));
    field
}

/// Whether a worktree list names a directory, by the configured path or by the resolved one.
pub open spec fn is_registered(output: Seq<u8>, path: Seq<u8>, resolved: Seq<u8>) -> bool {
    let fields = split(output, 0u8);
    fields.contains(worktree_field(path)) || fields.contains(worktree_field(resolved))
}

/// Whether a worktree list names a directory, by the configured path or by the resolved one.
pub fn is_registered_worktree(output: &[u8], path: &Vec<u8>, resolved: &Vec<u8>) -> (result: bool)
    ensures
        result == is_registered(output@, path@, resolved@),
{
    let fields = split_bytes(output, 0);
    let ghost views = split(output@, 0u8);
    let configured = write_worktree_field(path);
    let actual = write_worktree_field(resolved);
    let mut i: usize = 0;
    while i < fields.len()
        invariant
            i <= fields@.len(),
            views == byte_views(fields@),
            configured@ == worktree_field(path@),
            actual@ == worktree_field(resolved@),
            views == split(output@, 0u8),
            forall|j: int|
                0 <= j < i ==> #[trigger] views[j] != configured@ && views[j] != actual@,
        decreases fields@.len() - i,
    {
        assert(views[i as int] == fields@[i as int]@);
        if same_bytes(&fields[i], &configured) || same_bytes(&fields[i], &actual) {
            assert(views.contains(views[i as int]));
            return true;
        }
        i += 1;
    }
    false
}

/// A configured directory and the identity of the object behind it.
#[derive(Debug)]
pub struct DirectoryBinding {
    /// The configured path.
    pub path: Vec<u8>,
    /// The device that holds the object.
    pub device: u64,
    /// The number of the object on that device.
    pub inode: u64,
}

/// What a binding says of one directory.
pub open spec fn directory_bytes(directory: DirectoryBinding) -> Seq<u8> {
    directory.path@ + seq![0u8] + spec_u64_to_le_bytes(directory.device) + spec_u64_to_le_bytes(
        directory.inode,
    ) + seq![0u8]
}

/// What a binding says of the first `count` directories.
pub open spec fn directories_bytes(directories: Seq<DirectoryBinding>, count: nat) -> Seq<u8>
    decreases count,
{
    if count == 0 {
        Seq::empty()
    } else {
        directories_bytes(directories, (count - 1) as nat) + directory_bytes(
            directories[count - 1],
        )
    }
}

/// The binding of a repository to its directories and its official branch.
pub open spec fn binding_of(directories: Seq<DirectoryBinding>, official_ref: Seq<char>) -> Seq<u8> {
    encode_utf8("agent-knowledge-repository-binding-v2\u{0}"@) + directories_bytes(
        directories,
        directories.len(),
    ) + encode_utf8(official_ref)
}

/// The binding of a repository to its directories and its official branch.
pub fn repository_binding(directories: &Vec<DirectoryBinding>, official_ref: &str) -> (binding: Vec<
    u8,
>)
    ensures
        binding@ == binding_of(directories@, official_ref@),
{
    let mut binding: Vec<u8> = "agent-knowledge-repository-binding-v2\u{0}".as_bytes_vec();
    let ghost head = encode_utf8("agent-knowledge-repository-binding-v2\u{0}"@);
    let mut i: usize = 0;
    assert(binding@ =~= head + directories_bytes(directories@, 0));
    while i < directories.len()
        invariant
            i <= directories@.len(),
            binding@ == head + directories_bytes(directories@, i as nat),
        decreases directories@.len() - i,
    {
        let directory = &directories[i];
        let ghost before = binding@;
        binding.extend_from_slice(directory.path.as_slice());
        binding.push(0);
        binding.extend_from_slice(u64_to_le_bytes(directory.device).as_slice());
        binding.extend_from_slice(u64_to_le_bytes(directory.inode).as_slice());
        binding.push(0);
        assert(binding@ =~= before + directory_bytes(*directory));
        assert(binding@ =~= head + directories_bytes(directories@, (i + 1) as nat));
        i += 1;
    }
    binding.extend_from_slice(official_ref.as_bytes());
    binding
}

/// What stands where a binding belongs.
#[derive(Debug)]
pub enum StoredBinding {
    /// Nothing.
    Missing,
    /// Something that is no file, or a file beyond the bound.
    Unreadable,
    /// A file with these bytes.
    Bytes(Vec<u8>),
}

/// Whether a stored binding is the expected one.
pub open spec fn is_bound(stored: StoredBinding, expected: Seq<u8>) -> bool {
    stored matches StoredBinding::Bytes(bytes) && bytes@ == expected
}

/// Whether a stored binding is the expected one.
pub fn validate_binding(stored: &StoredBinding, expected: &Vec<u8>) -> (result: bool)
    ensures
        result == is_bound(*stored, expected@),
{
    match stored {
        StoredBinding::Bytes(bytes) => same_bytes(bytes, expected),
        _ => false,
    }
}

/// Whether the binding of a repository is still to be written; an error where it cannot be kept or
/// another one is stored.
pub fn ensure_binding(stored: &StoredBinding, expected: &Vec<u8>) -> (result: Result<
    bool,
    GitTransactionError,
>)
    ensures
        match result {
            Ok(write) => expected@.len() <= MAXIMUM_BINDING_BYTES && (if write {
                stored is Missing
            } else {
                is_bound(*stored, expected@)
            }),
            Err(error) => error@ == GitFailure::RepositoryBindingMismatch && (expected@.len()
                > MAXIMUM_BINDING_BYTES || (!(stored is Missing) && !is_bound(
                *stored,
                expected@,
            ))),
        },
{
    if expected.len() > MAXIMUM_BINDING_BYTES {
        return Err(GitTransactionError::RepositoryBindingMismatch);
    }
    match stored {
        StoredBinding::Missing => Ok(true),
        _ => if validate_binding(stored, expected) {
            Ok(false)
        } else {
            Err(GitTransactionError::RepositoryBindingMismatch)
        },
    }
}

/// Whether one of two directories holds the other.
pub open spec fn overlap(left: PathView, right: PathView) -> bool {
    right.is_prefix_of(left) || left.is_prefix_of(right)
}

/// Whether none of three directories holds another.
pub fn nonoverlapping_paths(
    git_directory: &ContentPath,
    canonical_worktree: &ContentPath,
    work_root: &ContentPath,
) -> (result: bool)
    ensures
        result == (!overlap(git_directory@, canonical_worktree@) && !overlap(
            git_directory@,
            work_root@,
        ) && !overlap(canonical_worktree@, work_root@)),
{
    !(git_directory.starts_with(canonical_worktree) || canonical_worktree.starts_with(git_directory)
        || git_directory.starts_with(work_root) || work_root.starts_with(git_directory)
        || canonical_worktree.starts_with(work_root) || work_root.starts_with(canonical_worktree))
}

/// What Git prints of a repository and its canonical worktree.
#[derive(Debug)]
pub struct LayoutFacts {
    /// Whether the repository is bare, as printed.
    pub bare: Vec<u8>,
    /// Whether the worktree is one, as printed.
    pub inside: Vec<u8>,
    /// Whether the top level that Git prints is the worktree.
    pub top_level: bool,
    /// Whether the common directory that Git prints is the repository.
    pub common_directory: bool,
    /// The reference that the worktree has checked out, as printed.
    pub symbolic_head: Vec<u8>,
}

/// Why a printed word is not the expected one: unreadable output, or the given failure.
pub open spec fn word_problem(output: Seq<u8>, word: Seq<char>, failure: GitFailure) -> Option<
    GitFailure,
> {
    match printed_text(output) {
        None => Some(GitTransactionError::InvalidGitOutput),
        Some(text) => if text == word {
            None
        } else {
            Some(failure)
        },
    }
}

/// Why a repository and its canonical worktree do not belong together.
pub open spec fn layout_problem(facts: LayoutFacts, official_ref: Seq<char>) -> Option<GitFailure> {
    if let Some(failure) = word_problem(
        facts.bare@,
        "true"@,
        GitTransactionError::RepositoryNotBare,
    ) {
        Some(failure)
    } else if let Some(failure) = word_problem(
        facts.inside@,
        "true"@,
        GitTransactionError::CanonicalWorktreeMismatch,
    ) {
        Some(failure)
    } else if !facts.top_level || !facts.common_directory {
        Some(GitTransactionError::CanonicalWorktreeMismatch)
    } else {
        word_problem(
            facts.symbolic_head@,
            official_ref,
            GitTransactionError::CanonicalWorktreeBranchMismatch,
        )
    }
}

/// Checks that a repository is bare and that its canonical worktree belongs to it and has the
/// official branch checked out.
pub fn validate_repository_layout(facts: &LayoutFacts, official_ref: &str) -> (result: Result<
    (),
    GitTransactionError,
>)
    ensures
        match result {
            Ok(()) => layout_problem(*facts, official_ref@) is None,
            Err(error) => layout_problem(*facts, official_ref@) == Some(error@),
        },
{
    match printed_is(facts.bare.as_slice(), "true") {
        None => {
            return Err(GitTransactionError::InvalidGitOutput);
        },
        Some(true) => {},
        Some(false) => {
            return Err(GitTransactionError::RepositoryNotBare);
        },
    }
    match printed_is(facts.inside.as_slice(), "true") {
        None => {
            return Err(GitTransactionError::InvalidGitOutput);
        },
        Some(true) => {},
        Some(false) => {
            return Err(GitTransactionError::CanonicalWorktreeMismatch);
        },
    }
    if !facts.top_level || !facts.common_directory {
        return Err(GitTransactionError::CanonicalWorktreeMismatch);
    }
    match printed_is(facts.symbolic_head.as_slice(), official_ref) {
        None => Err(GitTransactionError::InvalidGitOutput),
        Some(true) => Ok(()),
        Some(false) => Err(GitTransactionError::CanonicalWorktreeBranchMismatch),
    }
}

/// Why repository-local configuration is not safe: its keys must be known ones, and the
/// repository must be bare and keep file modes.
pub open spec fn config_problem(keys: Seq<u8>, bare: Seq<u8>, filemode: Seq<u8>) -> Option<
    GitFailure,
> {
    if !config_is_safe(keys) {
        Some(GitTransactionError::UnsafeGitConfig)
    } else if let Some(failure) = word_problem(
        bare,
        "true"@,
        GitTransactionError::UnsafeGitConfig,
    ) {
        Some(failure)
    } else {
        word_problem(filemode, "true"@, GitTransactionError::UnsafeGitConfig)
    }
}

/// Checks repository-local configuration.
pub fn validate_local_git_config(keys: &[u8], bare: &[u8], filemode: &[u8]) -> (result: Result<
    (),
    GitTransactionError,
>)
    ensures
        match result {
            Ok(()) => config_problem(keys@, bare@, filemode@) is None,
            Err(error) => config_problem(keys@, bare@, filemode@) == Some(error@),
        },
{
    if !safe_config(keys) {
        return Err(GitTransactionError::UnsafeGitConfig);
    }
    match printed_is(bare, "true") {
        None => {
            return Err(GitTransactionError::InvalidGitOutput);
        },
        Some(true) => {},
        Some(false) => {
            return Err(GitTransactionError::UnsafeGitConfig);
        },
    }
    match printed_is(filemode, "true") {
        None => Err(GitTransactionError::InvalidGitOutput),
        Some(true) => Ok(()),
        Some(false) => Err(GitTransactionError::UnsafeGitConfig),
    }
}

} // verus!
