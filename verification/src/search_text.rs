//! Texts as they are searched: letter case, compatibility forms, substrings and terms.
use crate::text::characters;
use vstd::prelude::*;
use vstd::string::*;

verus! {

/// A text in lower case, as `str::to_lowercase` gives it.
pub uninterp spec fn lowercase(text: Seq<char>) -> Seq<char>;

/// Wraps `str::to_lowercase`, which maps each character to its Unicode lower-case form. What that
/// form is for a given character is not stated.
#[verifier::external_body]
pub(crate) fn lower(text: &str) -> (result: String)
    ensures
        result@ == lowercase(text@),
{
    text.to_lowercase()
}

/// Whether a text holds another from a position on.
pub open spec fn stands_at(text: Seq<char>, part: Seq<char>, at: int) -> bool {
    0 <= at && at + part.len() <= text.len() && text.subrange(at, at + part.len()) == part
}

/// Whether a text holds another.
pub open spec fn occurs(text: Seq<char>, part: Seq<char>) -> bool {
    exists|at: int| #[trigger] stands_at(text, part, at)
}

/// Whether characters hold others from a position on.
fn matches_at(chars: &Vec<char>, part: &Vec<char>, at: usize) -> (result: bool)
    requires
        at + part@.len() <= chars@.len(),
    ensures
        result == stands_at(chars@, part@, at as int),
{
    let count: usize = chars.len();
    let mut i: usize = 0;
    while i < part.len()
        invariant
            i <= part@.len(),
            at + part@.len() <= count == chars@.len(),
            forall|j: int| 0 <= j < i ==> chars@[at + j] == part@[j],
        decreases part@.len() - i,
    {
        if chars[at + i] != part[i] {
            assert(chars@.subrange(at as int, at + part@.len())[i as int] != part@[i as int]);
            return false;
        }
        i += 1;
    }
    assert(chars@.subrange(at as int, at + part@.len()) =~= part@);
    true
}

/// Whether a text holds another.
pub fn contains_text(text: &str, part: &str) -> (result: bool)
    ensures
        result == occurs(text@, part@),
{
    let chars = characters(text);
    let sought = characters(part);
    if sought.len() > chars.len() {
        return false;
    }
    let last: usize = chars.len() - sought.len();
    let mut at: usize = 0;
    while at <= last
        invariant
            at <= last + 1,
            last + sought@.len() == chars@.len(),
            chars@.len() <= usize::MAX,
            chars@ == text@,
            sought@ == part@,
            forall|i: int| 0 <= i < at ==> !#[trigger] stands_at(text@, part@, i),
        decreases last + 1 - at,
    {
        if matches_at(&chars, &sought, at) {
            return true;
        }
        if at == last {
            assert forall|i: int| !#[trigger] stands_at(text@, part@, i) by {}
            return false;
        }
        at += 1;
    }
    false
}

/// Whether a text holds a lower-case query, whatever its case.
pub open spec fn holds_query(text: Seq<char>, query: Seq<char>) -> bool {
    occurs(lowercase(text), query)
}

/// Whether a text holds a lower-case query, whatever its case.
pub fn matches_query(text: &str, query: &str) -> (result: bool)
    ensures
        result == holds_query(text@, query@),
{
    contains_text(lower(text).as_str(), query)
}

/// What `unicode_normalization::UnicodeNormalization::nfkc` makes of a text.
pub uninterp spec fn nfkc(text: Seq<char>) -> Seq<char>;

/// Wraps `unicode_normalization::UnicodeNormalization::nfkc`: compatibility decomposition followed
/// by canonical composition, which depends on the text alone.
#[verifier::external_body]
fn compose(text: &str) -> (result: String)
    ensures
        result@ == nfkc(text@),
{
    unicode_normalization::UnicodeNormalization::nfkc(text).collect()
}

/// What `char::to_lowercase` makes of a character.
pub uninterp spec fn lowercase_of(c: char) -> Seq<char>;

/// Wraps `char::to_lowercase`, whose characters depend on the character alone.
#[verifier::external_body]
fn lower_char(c: char) -> (result: String)
    ensures
        result@ == lowercase_of(c),
{
    c.to_lowercase().collect()
}

/// Characters in lower case, one after the other.
pub open spec fn each_lower(chars: Seq<char>) -> Seq<char>
    decreases chars.len(),
{
    if chars.len() == 0 {
        Seq::empty()
    } else {
        each_lower(chars.drop_last()) + lowercase_of(chars.last())
    }
}

/// Puts each of some characters in lower case.
pub fn lower_each(chars: &Vec<char>) -> (result: String)
    ensures
        result@ == each_lower(chars@),
{
    let mut result = String::new();
    let mut i: usize = 0;
    assert(result@ =~= Seq::<char>::empty());
    while i < chars.len()
        invariant
            i <= chars@.len(),
            result@ == each_lower(chars@.take(i as int)),
        decreases chars@.len() - i,
    {
        let lowered = lower_char(chars[i]);
        assert(chars@.take(i + 1).drop_last() =~= chars@.take(i as int));
        result.append(lowered.as_str());
        i += 1;
    }
    assert(chars@.take(chars@.len() as int) =~= chars@);
    result
}

/// Normalizes human-readable project discovery text, without changing exact identities or the
/// Markdown returned to callers.
pub fn normalize_search_text(text: &str) -> (result: String)
    ensures
        result@ == each_lower(nfkc(text@)),
{
    let composed = compose(text);
    lower_each(&characters(composed.as_str()))
}

/// What `char::is_alphanumeric` says of a character.
pub uninterp spec fn is_alphanumeric(c: char) -> bool;

/// Wraps `char::is_alphanumeric`, which depends on the character alone.
#[verifier::external_body]
fn alphanumeric(c: char) -> (result: bool)
    ensures
        result == is_alphanumeric(c),
{
    c.is_alphanumeric()
}

/// Whether a token is searched: whitespace and punctuation are not, words of any script are.
pub fn is_search_term(surface: &str) -> (result: bool)
    ensures
        result == exists|i: int| 0 <= i < surface@.len() && is_alphanumeric(#[trigger] surface@[i]),
{
    let chars = characters(surface);
    let mut i: usize = 0;
    while i < chars.len()
        invariant
            i <= chars@.len(),
            chars@ == surface@,
            forall|j: int| 0 <= j < i ==> !is_alphanumeric(#[trigger] chars@[j]),
        decreases chars@.len() - i,
    {
        if alphanumeric(chars[i]) {
            assert(is_alphanumeric(surface@[i as int]));
            return true;
        }
        i += 1;
    }
    false
}

} // verus!
