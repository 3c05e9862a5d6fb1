//! Permanent identities and content revisions.
use crate::text::{
    characters, fixed_hex, fixed_hex_reads_back, fixed_hex_text, hex_bound_fits,
    hex_digits_come_back, hex_part, hex_value,
};
use vstd::prelude::*;
use vstd::string::*;

verus! {

/// The digits of a ULID, in order of their values.
pub open spec fn ulid_digits() -> Seq<char> {
    "0123456789ABCDEFGHJKMNPQRSTVWXYZ"@
}

/// The last `width` base-32 digits of a natural number in ULID notation.
pub open spec fn ulid_suffix(width: nat, value: nat) -> Seq<char>
    decreases width,
{
    if width == 0 {
        Seq::empty()
    } else {
        ulid_suffix((width - 1) as nat, value / 32).push(ulid_digits()[(value % 32) as int])
    }
}

/// The text of a ULID: its twenty-six base-32 digits.
pub open spec fn ulid_text(value: u128) -> Seq<char> {
    ulid_suffix(26, value as nat)
}

/// Whether a character is a ULID digit, in either letter case.
pub open spec fn is_ulid_digit(c: char) -> bool {
    ||| '0' <= c <= '9'
    ||| 'A' <= c <= 'H'
    ||| 'a' <= c <= 'h'
    ||| c == 'J' || c == 'K' || c == 'M' || c == 'N'
    ||| c == 'j' || c == 'k' || c == 'm' || c == 'n'
    ||| 'P' <= c <= 'T'
    ||| 'p' <= c <= 't'
    ||| 'V' <= c <= 'Z'
    ||| 'v' <= c <= 'z'
}

/// Whether a text can be read as a ULID.
pub open spec fn is_ulid(text: Seq<char>) -> bool {
    &&& text.len() == 26
    &&& forall|i: int| 0 <= i < text.len() ==> is_ulid_digit(#[trigger] text[i])
}

/// Wraps `ulid::Ulid::to_string`, which writes the twenty-six base-32 digits of the value.
#[verifier::external_body]
fn encode_ulid(value: u128) -> (text: String)
    ensures
        text@ == ulid_text(value),
{
    ulid::Ulid(value).to_string()
}

/// The value of a ULID digit, in either letter case.
pub open spec fn ulid_digit_value(c: char) -> nat {
    let upper = if 'a' <= c <= 'z' {
        c as int - 32
    } else {
        c as int
    };
    (if upper < 'A' as int {
        upper - '0' as int
    } else if upper < 'I' as int {
        upper - 'A' as int + 10
    } else if upper < 'L' as int {
        upper - 'J' as int + 18
    } else if upper < 'O' as int {
        upper - 'M' as int + 20
    } else if upper < 'U' as int {
        upper - 'P' as int + 22
    } else {
        upper - 'V' as int + 27
    }) as nat
}

/// The number that ULID digits write.
pub open spec fn ulid_number(text: Seq<char>) -> nat
    decreases text.len(),
{
    if text.len() == 0 {
        0
    } else {
        ulid_number(text.drop_last()) * 32 + ulid_digit_value(text.last())
    }
}

/// Wraps `ulid::Ulid::from_string`, which reads twenty-six digits of the ULID alphabet, in either
/// letter case, and keeps the low 128 bits of the number that they write.
#[verifier::external_body]
pub(crate) fn read_ulid(text: &str) -> (value: Option<u128>)
    ensures
        value is Some <==> is_ulid(text@),
        value matches Some(number) ==> number == ulid_number(text@) % (u128::MAX as nat + 1),
{
    match ulid::Ulid::from_string(text) {
        Ok(ulid) => Some(ulid.0),
        Err(_) => None,
    }
}

spec fn ulid_bound(count: nat) -> nat
    decreases count,
{
    if count == 0 {
        1
    } else {
        ulid_bound((count - 1) as nat) * 32
    }
}

proof fn ulid_suffix_number(width: nat, value: nat)
    ensures
        ulid_number(ulid_suffix(width, value)) == value % ulid_bound(width),
        ulid_bound(width) > 0,
    decreases width,
{
    if width > 0 {
        ulid_suffix_number((width - 1) as nat, value / 32);
        reveal_strlit("0123456789ABCDEFGHJKMNPQRSTVWXYZ");
        let suffix = ulid_suffix(width, value);
        assert(suffix.drop_last() =~= ulid_suffix((width - 1) as nat, value / 32));
        assert(ulid_digit_value(ulid_digits()[(value % 32) as int]) == value % 32);
        let bound = ulid_bound((width - 1) as nat);
        assert(bound > 0);
        assert((value / 32) % bound * 32 + value % 32 == value % (bound * 32)) by (nonlinear_arith)
            requires
                bound > 0,
        {
            let high = value / 32;
            let low = value % 32;
            let quotient = high / bound;
            let rest = high % bound;
            assert(high == quotient * bound + rest);
            assert(value == high * 32 + low);
            assert(value == quotient * (bound * 32) + (rest * 32 + low));
            assert(rest * 32 + low < bound * 32);
            vstd::arithmetic::div_mod::lemma_fundamental_div_mod_converse(
                value as int,
                (bound * 32) as int,
                quotient as int,
                (rest * 32 + low) as int,
            );
        }
    } else {
        assert(value % 1 == 0);
    }
}

/// The text of a ULID reads back as its value.
pub proof fn ulid_text_reads_back(value: u128)
    ensures
        is_ulid(ulid_text(value)),
        ulid_number(ulid_text(value)) == value,
{
    ulid_text_is_ulid(value);
    ulid_suffix_number(26, value as nat);
    reveal_with_fuel(ulid_bound, 27);
    assert(value as nat % ulid_bound(26) == value) by {
        assert(ulid_bound(26) > u128::MAX);
        vstd::arithmetic::div_mod::lemma_small_mod(value as nat, ulid_bound(26));
    }
}

/// Wraps `ulid::Ulid::generate`, whose number comes from the clock and from chance: nothing is
/// said of it.
#[verifier::external_body]
pub(crate) fn fresh_ulid() -> (value: u128) {
    ulid::Ulid::generate().0
}

impl BatchId {
    /// Makes the identity of a new batch.
    pub fn generate() -> (id: BatchId)
        ensures
            is_ulid(ulid_text(id.value)),
    {
        let value: u128 = fresh_ulid();
        proof {
            ulid_text_is_ulid(value);
        }
        BatchId { value }
    }

    /// Reads the identity of a batch.
    pub fn parse(text: &str) -> (result: Option<BatchId>)
        ensures
            result is Some <==> is_ulid(text@),
            result matches Some(id) ==> id.value == ulid_number(text@) % (u128::MAX as nat + 1),
    {
        match read_ulid(text) {
            Some(value) => Some(BatchId { value }),
            None => None,
        }
    }
}

/// The text of a ULID can be read back as one.
pub proof fn ulid_text_is_ulid(value: u128)
    ensures
        is_ulid(ulid_text(value)),
{
    ulid_suffix_digits(26, value as nat);
}

proof fn ulid_suffix_digits(width: nat, value: nat)
    ensures
        ulid_suffix(width, value).len() == width,
        forall|i: int|
            0 <= i < width ==> is_ulid_digit(#[trigger] ulid_suffix(width, value)[i]),
    decreases width,
{
    if width > 0 {
        ulid_suffix_digits((width - 1) as nat, value / 32);
        reveal_strlit("0123456789ABCDEFGHJKMNPQRSTVWXYZ");
        assert(is_ulid_digit(ulid_digits()[(value % 32) as int]));
    }
}

/// Permanent identity of one document.
#[derive(Clone, Copy, Debug, PartialEq, Eq, Hash, Structural)]
pub struct DocumentId {
    /// The ULID value.
    pub value: u128,
}

/// Identity of one change request.
#[derive(Clone, Copy, Debug, PartialEq, Eq, Hash, Structural)]
pub struct RequestId {
    /// The ULID value.
    pub value: u128,
}

/// Identity of one batch of requests.
#[derive(Clone, Copy, Debug, PartialEq, Eq, Hash, Structural)]
pub struct BatchId {
    /// The ULID value.
    pub value: u128,
}

/// Identity of one agent session.
#[derive(Clone, Copy, Debug, PartialEq, Eq, Hash, Structural)]
pub struct SessionId {
    /// The ULID value.
    pub value: u128,
}

impl DocumentId {
    /// The identity as text.
    pub fn text(&self) -> (text: String)
        ensures
            text@ == ulid_text(self.value),
    {
        encode_ulid(self.value)
    }
}

impl RequestId {
    /// The identity as text.
    pub fn text(&self) -> (text: String)
        ensures
            text@ == ulid_text(self.value),
    {
        encode_ulid(self.value)
    }
}

impl BatchId {
    /// The identity as text.
    pub fn text(&self) -> (text: String)
        ensures
            text@ == ulid_text(self.value),
    {
        encode_ulid(self.value)
    }
}

impl SessionId {
    /// The identity as text.
    pub fn text(&self) -> (text: String)
        ensures
            text@ == ulid_text(self.value),
    {
        encode_ulid(self.value)
    }
}

/// The SHA-256 digest of a byte sequence, as its two big-endian halves.
pub uninterp spec fn sha256(bytes: Seq<u8>) -> (u128, u128);

/// Wraps `sha2::Sha256::digest` and splits its thirty-two bytes into two big-endian halves. The
/// result is the named digest of the argument.
#[verifier::external_body]
fn digest(bytes: &[u8]) -> (halves: (u128, u128))
    ensures
        halves == sha256(bytes@),
{
    let output = <sha2::Sha256 as sha2::Digest>::digest(bytes);
    let all: [u8; 32] = output.into();
    let (mut high, mut low) = ([0u8; 16], [0u8; 16]);
    high.copy_from_slice(&all[..16]);
    low.copy_from_slice(&all[16..]);
    (u128::from_be_bytes(high), u128::from_be_bytes(low))
}

/// Revision of exact bytes: a SHA-256 digest as its two big-endian halves.
#[derive(Clone, Copy, Debug, PartialEq, Eq, Hash, Structural)]
pub struct Revision {
    /// The first sixteen digest bytes.
    pub high: u128,
    /// The last sixteen digest bytes.
    pub low: u128,
}

/// The number written by big-endian bytes.
pub open spec fn big_endian(bytes: Seq<u8>) -> nat
    decreases bytes.len(),
{
    if bytes.len() == 0 {
        0
    } else {
        big_endian(bytes.drop_last()) * 256 + bytes.last() as nat
    }
}

/// The revision of exact bytes.
pub open spec fn revision_of(bytes: Seq<u8>) -> Revision {
    Revision { high: sha256(bytes).0, low: sha256(bytes).1 }
}

/// The revision as text.
pub open spec fn revision_text(revision: Revision) -> Seq<char> {
    "sha256:"@ + fixed_hex(32, revision.high as nat) + fixed_hex(32, revision.low as nat)
}

/// Whether a text is a revision: `sha256:` and sixty-four lower-case hexadecimal digits.
pub open spec fn is_revision(text: Seq<char>) -> bool {
    &&& text.len() == 71
    &&& text.take(7) == "sha256:"@
    &&& forall|i: int| 7 <= i < 71 ==> hex_value(#[trigger] text[i]) is Some
}

/// The largest number of `count` big-endian bytes, and one more.
spec fn byte_bound(count: nat) -> nat
    decreases count,
{
    if count == 0 {
        1
    } else {
        byte_bound((count - 1) as nat) * 256
    }
}

/// Sixteen bytes hold a number of 128 bits, and no prefix of them holds more.
proof fn byte_bound_fits(count: nat)
    requires
        count <= 16,
    ensures
        byte_bound(count) <= u128::MAX + 1,
{
    reveal_with_fuel(byte_bound, 17);
}

/// The number written by the sixteen bytes from `start`.
fn half(bytes: &[u8; 32], start: usize) -> (value: u128)
    requires
        start <= 16,
    ensures
        value == big_endian(bytes@.subrange(start as int, start + 16)),
{
    let mut value: u128 = 0;
    let mut i: usize = 0;
    assert(bytes@.subrange(start as int, start as int) =~= Seq::<u8>::empty());
    while i < 16
        invariant
            i <= 16,
            start <= 16,
            value == big_endian(bytes@.subrange(start as int, start + i)),
            value < byte_bound(i as nat),
        decreases 16 - i,
    {
        proof {
            let next = bytes@.subrange(start as int, start + i + 1);
            assert(next.drop_last() =~= bytes@.subrange(start as int, start + i));
            byte_bound_fits((i + 1) as nat);
            assert(byte_bound((i + 1) as nat) == byte_bound(i as nat) * 256);
        }
        value = value * 256 + bytes[start + i] as u128;
        i += 1;
    }
    value
}

impl Revision {
    /// The revision made of thirty-two digest bytes.
    pub fn from_bytes(bytes: [u8; 32]) -> (revision: Revision)
        ensures
            revision.high == big_endian(bytes@.take(16)),
            revision.low == big_endian(bytes@.skip(16)),
    {
        let (high, low) = (half(&bytes, 0), half(&bytes, 16));
        assert(bytes@.subrange(0, 16) =~= bytes@.take(16));
        assert(bytes@.subrange(16, 32) =~= bytes@.skip(16));
        Revision { high, low }
    }

    /// The revision as text.
    pub fn text(&self) -> (text: String)
        ensures
            text@ == revision_text(*self),
    {
        let mut text = "sha256:".to_owned();
        text.append(fixed_hex_text(32, self.high).as_str());
        text.append(fixed_hex_text(32, self.low).as_str());
        text
    }

    /// Reads a revision.
    pub fn parse(text: &str) -> (result: Option<Revision>)
        ensures
            result is Some <==> is_revision(text@),
            result matches Some(revision) ==> revision_text(revision) == text@,
    {
        let chars = characters(text);
        let prefix = characters("sha256:");
        proof {
            reveal_strlit("sha256:");
        }
        if chars.len() != 71 {
            return None;
        }
        let mut i: usize = 0;
        while i < 7
            invariant
                i <= 7,
                chars@.len() == 71,
                chars@ == text@,
                prefix@ == "sha256:"@,
                prefix@.len() == 7,
                forall|j: int| 0 <= j < i ==> chars@[j] == prefix@[j],
            decreases 7 - i,
        {
            if chars[i] != prefix[i] {
                assert(text@.take(7)[i as int] == text@[i as int]);
                return None;
            }
            i += 1;
        }
        assert(text@.take(7) =~= "sha256:"@);
        while i < 71
            invariant
                7 <= i <= 71,
                chars@.len() == 71,
                chars@ == text@,
                forall|j: int| 7 <= j < i ==> hex_value(#[trigger] chars@[j]) is Some,
            decreases 71 - i,
        {
            let c = chars[i];
            if !(('0' <= c && c <= '9') || ('a' <= c && c <= 'f')) {
                assert(hex_value(text@[i as int]) is None);
                return None;
            }
            i += 1;
        }
        let revision = Revision { high: hex_part(&chars, 7, 39), low: hex_part(&chars, 39, 71) };
        proof {
            hex_digits_come_back(chars@.subrange(7, 39));
            hex_digits_come_back(chars@.subrange(39, 71));
            assert(revision_text(revision) =~= text@);
        }
        Some(revision)
    }
}

/// The text of a revision is one, and it is the text of no other revision.
pub proof fn revision_text_reads_back(revision: Revision, other: Revision)
    ensures
        is_revision(revision_text(revision)),
        revision_text(revision) == revision_text(other) ==> revision == other,
{
    reveal_strlit("sha256:");
    hex_bound_fits(32);
    fixed_hex_reads_back(32, revision.high as nat);
    fixed_hex_reads_back(32, revision.low as nat);
    fixed_hex_reads_back(32, other.high as nat);
    fixed_hex_reads_back(32, other.low as nat);
    let text = revision_text(revision);
    assert(text.take(7) =~= "sha256:"@);
    assert(text.subrange(7, 39) =~= fixed_hex(32, revision.high as nat));
    assert(text.skip(39) =~= fixed_hex(32, revision.low as nat));
    assert(revision_text(other).subrange(7, 39) =~= fixed_hex(32, other.high as nat));
    assert(revision_text(other).skip(39) =~= fixed_hex(32, other.low as nat));
}

/// The revision of exact bytes.
pub fn revision(bytes: &[u8]) -> (result: Revision)
    ensures
        result == revision_of(bytes@),
{
    let (high, low) = digest(bytes);
    Revision { high, low }
}

} // verus!
