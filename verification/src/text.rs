//! Text building blocks: comparison, joining, decimal and hexadecimal digits.
use vstd::prelude::*;
use vstd::string::*;
use vstd::utf8::{encode_utf8, valid_utf8};

verus! {

/// The decimal digit of a value below ten.
pub open spec fn digit(value: int) -> char {
    if value == 0 {
        '0'
    } else if value == 1 {
        '1'
    } else if value == 2 {
        '2'
    } else if value == 3 {
        '3'
    } else if value == 4 {
        '4'
    } else if value == 5 {
        '5'
    } else if value == 6 {
        '6'
    } else if value == 7 {
        '7'
    } else if value == 8 {
        '8'
    } else {
        '9'
    }
}

/// The shortest decimal numeral of a natural number.
pub open spec fn decimal(value: nat) -> Seq<char>
    decreases value,
{
    if value < 10 {
        seq![digit(value as int)]
    } else {
        decimal(value / 10).push(digit((value % 10) as int))
    }
}

/// The last `width` decimal digits of a natural number, with leading zeros.
pub open spec fn fixed_decimal(width: nat, value: nat) -> Seq<char>
    decreases width,
{
    if width == 0 {
        Seq::empty()
    } else {
        fixed_decimal((width - 1) as nat, value / 10).push(digit((value % 10) as int))
    }
}

/// The lower-case hexadecimal digit of a value below sixteen.
pub open spec fn hex_digit(value: int) -> char {
    if value < 10 {
        digit(value)
    } else if value == 10 {
        'a'
    } else if value == 11 {
        'b'
    } else if value == 12 {
        'c'
    } else if value == 13 {
        'd'
    } else if value == 14 {
        'e'
    } else {
        'f'
    }
}

/// The last `width` lower-case hexadecimal digits of a natural number, with leading zeros.
pub open spec fn fixed_hex(width: nat, value: nat) -> Seq<char>
    decreases width,
{
    if width == 0 {
        Seq::empty()
    } else {
        fixed_hex((width - 1) as nat, value / 16).push(hex_digit((value % 16) as int))
    }
}

/// `String::push` appends one character.
pub assume_specification[ String::push ](text: &mut String, c: char)
    ensures
        final(text)@ == old(text)@.push(c),
;

/// Wraps `std::str::from_utf8`: valid UTF-8 gives the text that it encodes, anything else gives
/// none.
#[verifier::external_body]
pub(crate) fn utf8_text(bytes: &[u8]) -> (result: Option<String>)
    ensures
        result is Some <==> valid_utf8(bytes@),
        result matches Some(text) ==> encode_utf8(text@) == bytes@,
{
    std::str::from_utf8(bytes).ok().map(str::to_owned)
}

/// The text that bytes encode, with replacement characters where they are not UTF-8.
pub uninterp spec fn lossy(bytes: Seq<u8>) -> Seq<char>;

/// Wraps `String::from_utf8_lossy`. The result is the named lossy text of the argument; valid
/// UTF-8 is kept as it is.
#[verifier::external_body]
pub(crate) fn lossy_text(bytes: &[u8]) -> (text: String)
    ensures
        text@ == lossy(bytes@),
        valid_utf8(bytes@) ==> encode_utf8(text@) == bytes@,
{
    String::from_utf8_lossy(bytes).into_owned()
}

/// Whether the bytes of `left` from `index` on come before those of `right` from there, in
/// dictionary order.
pub open spec fn bytes_before(left: Seq<u8>, right: Seq<u8>, index: int) -> bool
    decreases right.len() - index,
{
    if index >= right.len() {
        false
    } else if index >= left.len() {
        true
    } else if left[index] != right[index] {
        left[index] < right[index]
    } else {
        bytes_before(left, right, index + 1)
    }
}

/// Whether one byte sequence comes strictly before another in dictionary order.
pub fn before(left: &[u8], right: &[u8]) -> (result: bool)
    ensures
        result == bytes_before(left@, right@, 0),
{
    let mut i: usize = 0;
    while i < left.len() && i < right.len() && left[i] == right[i]
        invariant
            i <= left@.len(),
            i <= right@.len(),
            bytes_before(left@, right@, 0) == bytes_before(left@, right@, i as int),
        decreases right@.len() - i,
    {
        i += 1;
    }
    if i >= right.len() {
        false
    } else if i >= left.len() {
        true
    } else {
        left[i] < right[i]
    }
}

/// Dictionary order is transitive, and two sequences of which neither comes first are equal.
pub proof fn bytes_before_is_an_order(a: Seq<u8>, b: Seq<u8>, c: Seq<u8>, index: int)
    requires
        0 <= index,
    ensures
        bytes_before(a, b, index) && bytes_before(b, c, index) ==> bytes_before(a, c, index),
        !(bytes_before(a, b, index) && bytes_before(b, a, index)),
        index <= a.len() && index <= b.len() && !bytes_before(a, b, index) && !bytes_before(
            b,
            a,
            index,
        ) ==> a.skip(index) == b.skip(index),
    decreases a.len() + b.len() + c.len() - index,
{
    if index < a.len() + b.len() + c.len() {
        bytes_before_is_an_order(a, b, c, index + 1);
        if index < a.len() && index < b.len() && a[index] == b[index] {
            assert(a.skip(index) =~= seq![a[index]] + a.skip(index + 1));
            assert(b.skip(index) =~= seq![b[index]] + b.skip(index + 1));
        } else if index == a.len() && index == b.len() {
            assert(a.skip(index) =~= b.skip(index));
        }
    } else {
        assert(index <= a.len() && index <= b.len() ==> a.skip(index) =~= b.skip(index));
    }
}

/// Whether two texts hold the same characters.
pub fn same_text(left: &str, right: &str) -> (same: bool)
    ensures
        same == (left@ == right@),
{
    left.to_owned() == right.to_owned()
}

/// A copy of a byte vector.
pub fn copy_bytes(source: &Vec<u8>) -> (copy: Vec<u8>)
    ensures
        copy@ == source@,
{
    let mut copy: Vec<u8> = Vec::new();
    copy.extend_from_slice(source.as_slice());
    assert(copy@ =~= source@);
    copy
}

/// The characters of a text.
pub fn characters(text: &str) -> (result: Vec<char>)
    ensures
        result@ == text@,
{
    let mut result: Vec<char> = Vec::new();
    for c in iter: text.chars()
        invariant
            iter.seq() == text@,
            result@ == text@.take(iter.index() as int),
    {
        result.push(c);
        assert(text@.take(iter.index() as int).push(c) =~= text@.take(iter.index() + 1));
    }
    assert(text@.take(text@.len() as int) =~= text@);
    result
}

/// The text made of the characters from `start` to `end`.
pub fn slice_text(chars: &Vec<char>, start: usize, end: usize) -> (result: String)
    requires
        start <= end <= chars@.len(),
    ensures
        result@ == chars@.subrange(start as int, end as int),
{
    let mut result = String::new();
    let mut i: usize = start;
    while i < end
        invariant
            start <= i <= end <= chars@.len(),
            result@ == chars@.subrange(start as int, i as int),
        decreases end - i,
    {
        result.push(chars[i]);
        assert(chars@.subrange(start as int, i as int).push(chars@[i as int]) =~= chars@.subrange(
            start as int,
            i + 1,
        ));
        i += 1;
    }
    result
}

/// The decimal digit of a value below ten.
fn digit_char(value: u64) -> (c: char)
    requires
        value < 10,
    ensures
        c == digit(value as int),
{
    if value == 0 {
        '0'
    } else if value == 1 {
        '1'
    } else if value == 2 {
        '2'
    } else if value == 3 {
        '3'
    } else if value == 4 {
        '4'
    } else if value == 5 {
        '5'
    } else if value == 6 {
        '6'
    } else if value == 7 {
        '7'
    } else if value == 8 {
        '8'
    } else {
        '9'
    }
}

/// The shortest decimal numeral of an unsigned integer.
pub fn decimal_text(value: u64) -> (text: String)
    ensures
        text@ == decimal(value as nat),
    decreases value,
{
    let mut text = if value < 10 {
        String::new()
    } else {
        decimal_text(value / 10)
    };
    text.push(digit_char(value % 10));
    text
}

/// The last `width` decimal digits of an unsigned integer, with leading zeros.
pub fn fixed_decimal_text(width: usize, value: u64) -> (text: String)
    ensures
        text@ == fixed_decimal(width as nat, value as nat),
    decreases width,
{
    if width == 0 {
        String::new()
    } else {
        let mut text = fixed_decimal_text(width - 1, value / 10);
        text.push(digit_char(value % 10));
        text
    }
}

/// The lower-case hexadecimal digit of a value below sixteen.
fn hex_digit_char(value: u8) -> (c: char)
    requires
        value < 16,
    ensures
        c == hex_digit(value as int),
{
    if value < 10 {
        digit_char(value as u64)
    } else if value == 10 {
        'a'
    } else if value == 11 {
        'b'
    } else if value == 12 {
        'c'
    } else if value == 13 {
        'd'
    } else if value == 14 {
        'e'
    } else {
        'f'
    }
}

/// The last `width` lower-case hexadecimal digits of an unsigned integer, with leading zeros.
pub fn fixed_hex_text(width: usize, value: u128) -> (text: String)
    ensures
        text@ == fixed_hex(width as nat, value as nat),
    decreases width,
{
    if width == 0 {
        String::new()
    } else {
        let mut text = fixed_hex_text(width - 1, value / 16);
        text.push(hex_digit_char((value % 16) as u8));
        text
    }
}

/// The value of a lower-case hexadecimal digit.
pub open spec fn hex_value(c: char) -> Option<int> {
    if '0' <= c <= '9' {
        Some(c as int - '0' as int)
    } else if 'a' <= c <= 'f' {
        Some(c as int - 'a' as int + 10)
    } else {
        None
    }
}

/// The number written by hexadecimal digits.
pub open spec fn hex_number(digits: Seq<char>) -> nat
    decreases digits.len(),
{
    if digits.len() == 0 {
        0
    } else {
        hex_number(digits.drop_last()) * 16 + (match hex_value(digits.last()) {
            Some(value) => value as nat,
            None => 0,
        })
    }
}

/// One more than the largest number of `count` hexadecimal digits.
pub open spec fn hex_bound(count: nat) -> nat
    decreases count,
{
    if count == 0 {
        1
    } else {
        hex_bound((count - 1) as nat) * 16
    }
}

/// Thirty-two hexadecimal digits write exactly the numbers of 128 bits.
pub proof fn hex_bound_fits(count: nat)
    requires
        count <= 32,
    ensures
        hex_bound(count) <= hex_bound(32) == u128::MAX + 1,
{
    reveal_with_fuel(hex_bound, 33);
}

/// Hexadecimal digits are what their number is written as.
pub proof fn hex_digits_come_back(digits: Seq<char>)
    requires
        forall|i: int| 0 <= i < digits.len() ==> hex_value(#[trigger] digits[i]) is Some,
    ensures
        fixed_hex(digits.len(), hex_number(digits)) == digits,
    decreases digits.len(),
{
    if digits.len() > 0 {
        let earlier = digits.drop_last();
        assert forall|i: int| 0 <= i < earlier.len() implies hex_value(
            #[trigger] earlier[i],
        ) is Some by {
            assert(earlier[i] == digits[i]);
        }
        hex_digits_come_back(earlier);
        let number = hex_number(digits);
        let value = hex_value(digits.last())->0;
        assert(number / 16 == hex_number(earlier));
        assert(number % 16 == value);
        assert(hex_digit(value) == digits.last());
        assert(fixed_hex(digits.len(), number) =~= digits);
    }
}

/// The number written by the hexadecimal digits from `start` to `end`, at most thirty-two.
pub fn hex_part(chars: &Vec<char>, start: usize, end: usize) -> (value: u128)
    requires
        start <= end <= chars@.len(),
        end - start <= 32,
        forall|i: int| start <= i < end ==> hex_value(#[trigger] chars@[i]) is Some,
    ensures
        value == hex_number(chars@.subrange(start as int, end as int)),
        value < hex_bound((end - start) as nat),
{
    let mut value: u128 = 0;
    let mut i: usize = start;
    assert(chars@.subrange(start as int, start as int) =~= Seq::<char>::empty());
    while i < end
        invariant
            start <= i <= end <= chars@.len(),
            end - start <= 32,
            forall|j: int| start <= j < end ==> hex_value(#[trigger] chars@[j]) is Some,
            value == hex_number(chars@.subrange(start as int, i as int)),
            value < hex_bound((i - start) as nat),
        decreases end - i,
    {
        let c = chars[i];
        let digit: u128 = if '0' <= c && c <= '9' {
            (c as u32 - '0' as u32) as u128
        } else {
            (c as u32 - 'a' as u32) as u128 + 10
        };
        proof {
            let next = chars@.subrange(start as int, i + 1);
            assert(next.drop_last() =~= chars@.subrange(start as int, i as int));
            hex_bound_fits((i + 1 - start) as nat);
            assert(hex_value(chars@[i as int]) is Some);
            assert(hex_bound((i + 1 - start) as nat) == hex_bound((i - start) as nat) * 16);
        }
        value = value * 16 + digit;
        i += 1;
    }
    value
}

/// A number that fixed digits can hold is the number that they write.
pub proof fn fixed_hex_reads_back(width: nat, value: nat)
    ensures
        fixed_hex(width, value).len() == width,
        forall|i: int|
            0 <= i < width ==> hex_value(#[trigger] fixed_hex(width, value)[i]) is Some,
        value < hex_bound(width) ==> hex_number(fixed_hex(width, value)) == value,
    decreases width,
{
    if width > 0 {
        let earlier = fixed_hex((width - 1) as nat, value / 16);
        fixed_hex_reads_back((width - 1) as nat, value / 16);
        assert(hex_value(hex_digit((value % 16) as int)) == Some((value % 16) as int));
        assert(fixed_hex(width, value).drop_last() =~= earlier);
    }
}

/// Joins two texts.
pub fn join2(first: &str, second: &str) -> (text: String)
    ensures
        text@ == first@ + second@,
{
    let mut text = first.to_owned();
    text.append(second);
    text
}

/// Joins three texts.
pub fn join3(first: &str, second: &str, third: &str) -> (text: String)
    ensures
        text@ == first@ + second@ + third@,
{
    let mut text = first.to_owned();
    text.append(second);
    text.append(third);
    text
}

/// Joins four texts.
pub fn join4(first: &str, second: &str, third: &str, fourth: &str) -> (text: String)
    ensures
        text@ == first@ + second@ + third@ + fourth@,
{
    let mut text = join3(first, second, third);
    text.append(fourth);
    text
}

/// Joins five texts.
pub fn join5(first: &str, second: &str, third: &str, fourth: &str, fifth: &str) -> (text: String)
    ensures
        text@ == first@ + second@ + third@ + fourth@ + fifth@,
{
    let mut text = join3(first, second, third);
    text.append(fourth);
    text.append(fifth);
    text
}

/// Joins six texts.
pub fn join6(
    first: &str,
    second: &str,
    third: &str,
    fourth: &str,
    fifth: &str,
    sixth: &str,
) -> (text: String)
    ensures
        text@ == first@ + second@ + third@ + fourth@ + fifth@ + sixth@,
{
    let mut text = join5(first, second, third, fourth, fifth);
    text.append(sixth);
    text
}

/// Joins seven texts.
pub fn join7(
    first: &str,
    second: &str,
    third: &str,
    fourth: &str,
    fifth: &str,
    sixth: &str,
    seventh: &str,
) -> (text: String)
    ensures
        text@ == first@ + second@ + third@ + fourth@ + fifth@ + sixth@ + seventh@,
{
    let mut text = join5(first, second, third, fourth, fifth);
    text.append(sixth);
    text.append(seventh);
    text
}

} // verus!
