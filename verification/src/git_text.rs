//! Reading what Git prints: object names, versions, paths, configuration keys and tree records.
use crate::text::{
    characters, fixed_hex, fixed_hex_reads_back, fixed_hex_text, hex_bound, hex_bound_fits, hex_digits_come_back,
    hex_number, hex_part, hex_value, lossy, lossy_text, slice_text, utf8_text,
};
use vstd::prelude::*;
use vstd::string::*;
use vstd::utf8::{decode_utf8, valid_utf8};

verus! {

/// Whether a character is white space.
pub open spec fn is_white(c: char) -> bool {
    ||| '\u{9}' <= c <= '\u{d}'
    ||| c == '\u{20}' || c == '\u{85}' || c == '\u{a0}' || c == '\u{1680}'
    ||| '\u{2000}' <= c <= '\u{200a}'
    ||| c == '\u{2028}' || c == '\u{2029}' || c == '\u{202f}' || c == '\u{205f}' || c == '\u{3000}'
}

/// Whether a character is a control character.
pub open spec fn is_control(c: char) -> bool {
    c <= '\u{1f}' || '\u{7f}' <= c <= '\u{9f}'
}

/// Whether a character is white space.
pub fn white(c: char) -> (result: bool)
    ensures
        result == is_white(c),
{
    ('\u{9}' <= c && c <= '\u{d}') || c == '\u{20}' || c == '\u{85}' || c == '\u{a0}' || c
        == '\u{1680}' || ('\u{2000}' <= c && c <= '\u{200a}') || c == '\u{2028}' || c == '\u{2029}'
        || c == '\u{202f}' || c == '\u{205f}' || c == '\u{3000}'
}

/// Whether a text holds a control character.
pub open spec fn has_control(text: Seq<char>) -> bool {
    exists|i: int| 0 <= i < text.len() && is_control(#[trigger] text[i])
}

/// Whether a text holds a control character.
pub fn holds_control(chars: &Vec<char>) -> (result: bool)
    ensures
        result == has_control(chars@),
{
    let mut i: usize = 0;
    while i < chars.len()
        invariant
            i <= chars@.len(),
            forall|j: int| 0 <= j < i ==> !is_control(#[trigger] chars@[j]),
        decreases chars@.len() - i,
    {
        let c = chars[i];
        if c <= '\u{1f}' || ('\u{7f}' <= c && c <= '\u{9f}') {
            return true;
        }
        i += 1;
    }
    false
}

/// A text without white space at its ends.
pub open spec fn trimmed(text: Seq<char>) -> Seq<char> {
    trimmed_end(trimmed_start(text))
}

/// A text without white space at its start.
pub open spec fn trimmed_start(text: Seq<char>) -> Seq<char>
    decreases text.len(),
{
    if text.len() > 0 && is_white(text[0]) {
        trimmed_start(text.skip(1))
    } else {
        text
    }
}

/// A text without white space at its end.
pub open spec fn trimmed_end(text: Seq<char>) -> Seq<char>
    decreases text.len(),
{
    if text.len() > 0 && is_white(text.last()) {
        trimmed_end(text.drop_last())
    } else {
        text
    }
}

/// The characters of a text without white space at its ends.
pub fn trim(chars: &Vec<char>) -> (result: Vec<char>)
    ensures
        result@ == trimmed(chars@),
{
    let mut start: usize = 0;
    assert(chars@.skip(0) =~= chars@);
    while start < chars.len() && white(chars[start])
        invariant
            start <= chars@.len(),
            trimmed_start(chars@) == trimmed_start(chars@.skip(start as int)),
        decreases chars@.len() - start,
    {
        assert(chars@.skip(start as int).skip(1) =~= chars@.skip(start + 1));
        start += 1;
    }
    let ghost begun = chars@.skip(start as int);
    assert(trimmed_start(chars@) == begun);
    let mut end: usize = chars.len();
    assert(chars@.subrange(start as int, end as int) =~= begun);
    while end > start && white(chars[end - 1])
        invariant
            start <= end <= chars@.len(),
            trimmed_end(begun) == trimmed_end(chars@.subrange(start as int, end as int)),
        decreases end,
    {
        assert(chars@.subrange(start as int, end as int).drop_last() =~= chars@.subrange(
            start as int,
            end - 1,
        ));
        end -= 1;
    }
    let mut result: Vec<char> = Vec::new();
    let mut i: usize = start;
    while i < end
        invariant
            start <= i <= end <= chars@.len(),
            result@ == chars@.subrange(start as int, i as int),
        decreases end - i,
    {
        result.push(chars[i]);
        assert(result@ =~= chars@.subrange(start as int, i + 1));
        i += 1;
    }
    assert(end > start ==> !is_white(chars@.subrange(start as int, end as int).last()));
    result
}

/// Whether a text has a character that is not white space.
pub open spec fn is_visible(text: Seq<char>) -> bool {
    exists|i: int| 0 <= i < text.len() && !is_white(#[trigger] text[i])
}

proof fn trimmed_end_is_visible(text: Seq<char>)
    ensures
        (trimmed_end(text).len() > 0) == is_visible(text),
    decreases text.len(),
{
    if text.len() > 0 {
        if is_white(text.last()) {
            trimmed_end_is_visible(text.drop_last());
            if is_visible(text) {
                let i = choose|i: int| 0 <= i < text.len() && !is_white(#[trigger] text[i]);
                assert(!is_white(text.drop_last()[i]));
            }
            if is_visible(text.drop_last()) {
                let i = choose|i: int|
                    0 <= i < text.drop_last().len() && !is_white(#[trigger] text.drop_last()[i]);
                assert(!is_white(text[i]));
            }
        } else {
            assert(!is_white(text[text.len() - 1]));
        }
    }
}

/// Trimming leaves something exactly where there is something visible.
pub proof fn trimmed_is_visible(text: Seq<char>)
    ensures
        (trimmed(text).len() > 0) == is_visible(text),
    decreases text.len(),
{
    if text.len() > 0 && is_white(text[0]) {
        trimmed_is_visible(text.skip(1));
        if is_visible(text) {
            let i = choose|i: int| 0 <= i < text.len() && !is_white(#[trigger] text[i]);
            assert(!is_white(text.skip(1)[i - 1]));
        }
        if is_visible(text.skip(1)) {
            let i = choose|i: int| 0 <= i < text.skip(1).len() && !is_white(
                #[trigger] text.skip(1)[i],
            );
            assert(!is_white(text[i + 1]));
        }
    } else {
        trimmed_end_is_visible(text);
    }
}

/// What a command printed as one line: the trimmed text, which must be there and hold no control
/// characters.
pub open spec fn printed_text(output: Seq<u8>) -> Option<Seq<char>> {
    if valid_utf8(output) && trimmed(decode_utf8(output)).len() > 0 && !has_control(
        trimmed(decode_utf8(output)),
    ) {
        Some(trimmed(decode_utf8(output)))
    } else {
        None
    }
}

/// What a command printed as one line.
pub fn parse_text(output: &[u8]) -> (result: Option<String>)
    ensures
        result is Some <==> printed_text(output@) is Some,
        result matches Some(text) ==> printed_text(output@) == Some(text@),
{
    let text = match utf8_text(output) {
        Some(text) => text,
        None => {
            return None;
        },
    };
    proof {
        vstd::utf8::encode_utf8_decode_utf8(text@);
    }
    let value = trim(&characters(text.as_str()));
    if value.len() == 0 || holds_control(&value) {
        return None;
    }
    let result = slice_text(&value, 0, value.len());
    assert(result@ =~= value@);
    Some(result)
}

/// Whether a text is an object name: forty or sixty-four lower-case hexadecimal digits.
pub open spec fn is_object_id(text: Seq<char>) -> bool {
    &&& text.len() == 40 || text.len() == 64
    &&& forall|i: int| 0 <= i < text.len() ==> hex_value(#[trigger] text[i]) is Some
}

/// The name of a Git object: forty or sixty-four hexadecimal digits.
#[derive(Clone, Copy, Debug, PartialEq, Eq, Hash, Structural)]
pub struct ObjectId {
    long: bool,
    first: u128,
    rest: u128,
}

impl ObjectId {
    #[verifier::type_invariant]
    spec fn fits_its_digits(self) -> bool {
        self.long || self.first < hex_bound(8)
    }

    /// The digits of the name.
    pub closed spec fn spec_text(self) -> Seq<char> {
        fixed_hex(
            if self.long {
                32
            } else {
                8
            },
            self.first as nat,
        ) + fixed_hex(32, self.rest as nat)
    }

    /// The object with the given name.
    pub closed spec fn named(text: Seq<char>) -> ObjectId {
        let split: int = text.len() - 32;
        ObjectId {
            long: text.len() == 64,
            first: hex_number(text.take(split)) as u128,
            rest: hex_number(text.skip(split)) as u128,
        }
    }

    /// Reads an object name.
    pub fn parse(text: &str) -> (result: Option<ObjectId>)
        ensures
            result is Some <==> is_object_id(text@),
            result matches Some(id) ==> id == ObjectId::named(text@) && id.spec_text() == text@,
    {
        let chars = characters(text);
        let n: usize = chars.len();
        if n != 40 && n != 64 {
            return None;
        }
        let mut i: usize = 0;
        while i < n
            invariant
                i <= n == chars@.len(),
                chars@ == text@,
                forall|j: int| 0 <= j < i ==> hex_value(#[trigger] chars@[j]) is Some,
            decreases n - i,
        {
            let c = chars[i];
            if !(('0' <= c && c <= '9') || ('a' <= c && c <= 'f')) {
                assert(hex_value(text@[i as int]) is None);
                return None;
            }
            i += 1;
        }
        let split: usize = n - 32;
        let first: u128 = hex_part(&chars, 0, split);
        let rest: u128 = hex_part(&chars, split, n);
        let id = ObjectId { long: n == 64, first, rest };
        proof {
            assert(chars@.subrange(0, split as int) =~= text@.take(split as int));
            assert(chars@.subrange(split as int, n as int) =~= text@.skip(split as int));
            hex_digits_come_back(text@.take(split as int));
            hex_digits_come_back(text@.skip(split as int));
            assert(id.spec_text() =~= text@);
        }
        Some(id)
    }

    /// The name of the object, by which it is found again.
    pub fn text(&self) -> (text: String)
        ensures
            text@ == self.spec_text(),
            is_object_id(text@),
            ObjectId::named(text@) == *self,
    {
        let width: usize = if self.long {
            32
        } else {
            8
        };
        let mut text = fixed_hex_text(width, self.first);
        text.append(fixed_hex_text(32, self.rest).as_str());
        proof {
            use_type_invariant(self);
            hex_bound_fits(32);
            fixed_hex_reads_back(width as nat, self.first as nat);
            fixed_hex_reads_back(32, self.rest as nat);
            assert(text@.take(width as int) =~= fixed_hex(width as nat, self.first as nat));
            assert(text@.skip(width as int) =~= fixed_hex(32, self.rest as nat));
        }
        text
    }

    /// The number of digits of the name.
    pub fn digits(&self) -> (count: usize)
        ensures
            count == self.spec_text().len(),
            count == 40 || count == 64,
    {
        proof {
            fixed_hex_reads_back(32, self.rest as nat);
            fixed_hex_reads_back(
                if self.long {
                    32
                } else {
                    8
                },
                self.first as nat,
            );
        }
        if self.long {
            64
        } else {
            40
        }
    }
}

/// The object that a command printed.
pub open spec fn printed_object(output: Seq<u8>) -> Option<ObjectId> {
    match printed_text(output) {
        Some(text) => if is_object_id(text) {
            Some(ObjectId::named(text))
        } else {
            None
        },
        None => None,
    }
}

/// The object that a command printed.
pub fn parse_object_id(output: &[u8]) -> (result: Option<ObjectId>)
    ensures
        result == printed_object(output@),
{
    match parse_text(output) {
        Some(text) => ObjectId::parse(text.as_str()),
        None => None,
    }
}

/// The path that a command printed: everything before the final line feed, without any other.
pub open spec fn printed_path(output: Seq<u8>) -> Option<Seq<u8>> {
    if output.len() >= 2 && output.last() == 10 && !output.drop_last().contains(10) {
        Some(output.drop_last())
    } else {
        None
    }
}

/// The path that a command printed.
pub fn parse_git_path(output: &[u8]) -> (result: Option<Vec<u8>>)
    ensures
        result is Some <==> printed_path(output@) is Some,
        result matches Some(path) ==> printed_path(output@) == Some(path@),
{
    let n: usize = output.len();
    if n < 2 || output[n - 1] != 10 {
        return None;
    }
    let mut path: Vec<u8> = Vec::new();
    let mut i: usize = 0;
    while i < n - 1
        invariant
            i <= n - 1,
            n == output@.len(),
            n >= 2,
            path@ == output@.take(i as int),
            forall|j: int| 0 <= j < i ==> output@[j] != 10,
        decreases n - i,
    {
        if output[i] == 10 {
            assert(output@.drop_last()[i as int] == 10);
            return None;
        }
        path.push(output[i]);
        assert(path@ =~= output@.take(i + 1));
        i += 1;
    }
    assert(path@ =~= output@.drop_last());
    Some(path)
}

/// The longest part of standard error that is kept.
pub const MAXIMUM_DIAGNOSTIC_BYTES: usize = 8192;

/// What is kept of standard error: the lossy text of its first eight kibibytes.
pub fn diagnostic(stderr: &[u8]) -> (text: String)
    ensures
        text@ == lossy(
            stderr@.take(
                if stderr@.len() < MAXIMUM_DIAGNOSTIC_BYTES {
                    stderr@.len() as int
                } else {
                    MAXIMUM_DIAGNOSTIC_BYTES as int
                },
            ),
        ),
{
    let limit: usize = if stderr.len() < MAXIMUM_DIAGNOSTIC_BYTES {
        stderr.len()
    } else {
        MAXIMUM_DIAGNOSTIC_BYTES
    };
    let (kept, _dropped) = stderr.split_at(limit);
    assert(kept@ =~= stderr@.take(limit as int));
    lossy_text(kept)
}

} // verus!
