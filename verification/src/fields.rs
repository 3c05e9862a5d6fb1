//! Splitting text and bytes into fields, lines and numbers.
use crate::path::texts;
use crate::text::{characters, same_text, slice_text};
use vstd::prelude::*;
use vstd::string::*;

verus! {

/// The fields of a sequence from `start` on, between separators, with `at` the next item to look
/// at. Two neighbouring separators have an empty field between them.
pub open spec fn split_from<A>(items: Seq<A>, separator: A, start: int, at: int) -> Seq<Seq<A>>
    decreases items.len() - at,
{
    if at < start || at >= items.len() {
        seq![items.subrange(start, items.len() as int)]
    } else if items[at] == separator {
        seq![items.subrange(start, at)] + split_from(items, separator, at + 1, at + 1)
    } else {
        split_from(items, separator, start, at + 1)
    }
}

/// The fields of a sequence between separators.
pub open spec fn split<A>(items: Seq<A>, separator: A) -> Seq<Seq<A>> {
    split_from(items, separator, 0, 0)
}

/// The byte sequences of a list.
pub open spec fn byte_views(fields: Seq<Vec<u8>>) -> Seq<Seq<u8>> {
    fields.map_values(|field: Vec<u8>| field@)
}

/// The bytes from `start` to `end`.
pub fn slice_bytes(bytes: &[u8], start: usize, end: usize) -> (result: Vec<u8>)
    requires
        start <= end <= bytes@.len(),
    ensures
        result@ == bytes@.subrange(start as int, end as int),
{
    let mut result: Vec<u8> = Vec::new();
    let mut i: usize = start;
    while i < end
        invariant
            start <= i <= end <= bytes@.len(),
            result@ == bytes@.subrange(start as int, i as int),
        decreases end - i,
    {
        result.push(bytes[i]);
        assert(result@ =~= bytes@.subrange(start as int, i + 1));
        i += 1;
    }
    result
}

/// The fields of a byte sequence between separators.
pub fn split_bytes(bytes: &[u8], separator: u8) -> (fields: Vec<Vec<u8>>)
    ensures
        byte_views(fields@) == split(bytes@, separator),
{
    let mut fields: Vec<Vec<u8>> = Vec::new();
    let mut start: usize = 0;
    let mut at: usize = 0;
    let ghost whole = split(bytes@, separator);
    assert(byte_views(fields@) + split_from(bytes@, separator, 0, 0) =~= whole);
    while at < bytes.len()
        invariant
            start <= at <= bytes@.len(),
            whole == split(bytes@, separator),
            byte_views(fields@) + split_from(bytes@, separator, start as int, at as int) == whole,
        decreases bytes@.len() - at,
    {
        if bytes[at] == separator {
            let ghost earlier = byte_views(fields@);
            let field = slice_bytes(bytes, start, at);
            fields.push(field);
            proof {
                assert(byte_views(fields@) =~= earlier.push(field@));
                assert(earlier + (seq![field@] + split_from(bytes@, separator, at + 1, at + 1))
                    =~= earlier.push(field@) + split_from(bytes@, separator, at + 1, at + 1));
            }
            start = at + 1;
        }
        at += 1;
    }
    let ghost earlier = byte_views(fields@);
    let field = slice_bytes(bytes, start, bytes.len());
    fields.push(field);
    assert(byte_views(fields@) =~= earlier + seq![field@]);
    fields
}

/// The fields of a text between separators.
pub fn split_text(text: &str, separator: char) -> (fields: Vec<String>)
    ensures
        texts(fields@) == split(text@, separator),
{
    let chars = characters(text);
    let mut fields: Vec<String> = Vec::new();
    let mut start: usize = 0;
    let mut at: usize = 0;
    let ghost whole = split(text@, separator);
    assert(texts(fields@) + split_from(chars@, separator, 0, 0) =~= whole);
    while at < chars.len()
        invariant
            start <= at <= chars@.len(),
            chars@ == text@,
            texts(fields@) + split_from(chars@, separator, start as int, at as int) == whole,
        decreases chars@.len() - at,
    {
        if chars[at] == separator {
            let ghost earlier = texts(fields@);
            let field = slice_text(&chars, start, at);
            fields.push(field);
            proof {
                assert(texts(fields@) =~= earlier.push(field@));
                assert(earlier + (seq![field@] + split_from(chars@, separator, at + 1, at + 1))
                    =~= earlier.push(field@) + split_from(chars@, separator, at + 1, at + 1));
            }
            start = at + 1;
        }
        at += 1;
    }
    let ghost earlier = texts(fields@);
    let field = slice_text(&chars, start, chars.len());
    fields.push(field);
    assert(texts(fields@) =~= earlier + seq![field@]);
    fields
}

/// A splitting has at least one field.
pub proof fn split_is_not_empty<A>(items: Seq<A>, separator: A, start: int, at: int)
    ensures
        split_from(items, separator, start, at).len() > 0,
    decreases items.len() - at,
{
    if at >= start && at < items.len() {
        split_is_not_empty(items, separator, at + 1, at + 1);
        split_is_not_empty(items, separator, start, at + 1);
    }
}

/// The value of a decimal digit.
pub open spec fn digit_value(c: char) -> Option<int> {
    if '0' <= c <= '9' {
        Some(c as int - '0' as int)
    } else {
        None
    }
}

/// Whether every character is a decimal digit.
pub open spec fn all_digits(text: Seq<char>) -> bool {
    forall|i: int| 0 <= i < text.len() ==> digit_value(#[trigger] text[i]) is Some
}

/// The number written by decimal digits.
pub open spec fn decimal_number(digits: Seq<char>) -> nat
    decreases digits.len(),
{
    if digits.len() == 0 {
        0
    } else {
        decimal_number(digits.drop_last()) * 10 + (match digit_value(digits.last()) {
            Some(value) => value as nat,
            None => 0,
        })
    }
}

/// The digits of a numeral, without the plus sign that it may begin with.
pub open spec fn unsigned_digits(text: Seq<char>) -> Seq<char> {
    if text.len() > 1 && text[0] == '+' {
        text.skip(1)
    } else {
        text
    }
}

/// The unsigned 64-bit integer that a text writes: digits, perhaps after a plus sign.
pub open spec fn unsigned_number(text: Seq<char>) -> Option<nat> {
    let digits = unsigned_digits(text);
    if digits.len() > 0 && all_digits(digits) && decimal_number(digits) <= u64::MAX {
        Some(decimal_number(digits))
    } else {
        None
    }
}

proof fn decimal_number_grows(digits: Seq<char>, count: int)
    requires
        0 <= count <= digits.len(),
    ensures
        decimal_number(digits.take(count)) <= decimal_number(digits),
    decreases digits.len() - count,
{
    if count < digits.len() {
        decimal_number_grows(digits, count + 1);
        assert(digits.take(count + 1).drop_last() =~= digits.take(count));
    } else {
        assert(digits.take(count) =~= digits);
    }
}

/// The unsigned 64-bit integer that a text writes.
pub fn parse_unsigned(text: &str) -> (result: Option<u64>)
    ensures
        result is Some <==> unsigned_number(text@) is Some,
        result matches Some(value) ==> unsigned_number(text@) == Some(value as nat),
{
    let chars = characters(text);
    let n: usize = chars.len();
    let start: usize = if n > 1 && chars[0] == '+' {
        1
    } else {
        0
    };
    let ghost digits = unsigned_digits(text@);
    assert(digits =~= chars@.skip(start as int));
    if n == start {
        return None;
    }
    let mut value: u64 = 0;
    let mut i: usize = start;
    assert(digits.take(0) =~= Seq::<char>::empty());
    while i < n
        invariant
            start <= i <= n == chars@.len(),
            start <= 1,
            digits == unsigned_digits(text@),
            digits == chars@.skip(start as int),
            value == decimal_number(digits.take(i - start)),
            forall|j: int| 0 <= j < i - start ==> digit_value(#[trigger] digits[j]) is Some,
        decreases n - i,
    {
        let c = chars[i];
        assert(digits[i - start] == c);
        if !('0' <= c && c <= '9') {
            return None;
        }
        let digit: u64 = (c as u32 - '0' as u32) as u64;
        proof {
            assert(digits.take(i + 1 - start).drop_last() =~= digits.take(i - start));
            decimal_number_grows(digits, i + 1 - start);
        }
        if value > (u64::MAX - digit) / 10 {
            assert(value * 10 + digit > u64::MAX);
            return None;
        }
        value = value * 10 + digit;
        i += 1;
    }
    assert(digits.take(digits.len() as int) =~= digits);
    Some(value)
}

/// The text behind a prefix.
pub open spec fn behind(text: Seq<char>, prefix: Seq<char>) -> Option<Seq<char>> {
    if prefix.is_prefix_of(text) {
        Some(text.skip(prefix.len() as int))
    } else {
        None
    }
}

/// The text behind a prefix.
pub fn strip_prefix(text: &str, prefix: &str) -> (result: Option<String>)
    ensures
        result is Some <==> behind(text@, prefix@) is Some,
        result matches Some(rest) ==> behind(text@, prefix@) == Some(rest@),
{
    let chars = characters(text);
    let start = characters(prefix);
    if start.len() > chars.len() {
        return None;
    }
    let mut i: usize = 0;
    while i < start.len()
        invariant
            i <= start@.len() <= chars@.len(),
            chars@ == text@,
            start@ == prefix@,
            forall|j: int| 0 <= j < i ==> chars@[j] == start@[j],
        decreases start@.len() - i,
    {
        if chars[i] != start[i] {
            assert(text@.subrange(0, prefix@.len() as int)[i as int] != prefix@[i as int]);
            return None;
        }
        i += 1;
    }
    assert(text@.subrange(0, prefix@.len() as int) =~= prefix@);
    let rest = slice_text(&chars, start.len(), chars.len());
    assert(rest@ =~= text@.skip(prefix@.len() as int));
    Some(rest)
}

/// Whether a text ends with another.
pub open spec fn ends_with(text: Seq<char>, suffix: Seq<char>) -> bool {
    text.len() >= suffix.len() && text.skip(text.len() - suffix.len()) == suffix
}

/// Whether a text ends with another.
pub fn has_suffix(text: &str, suffix: &str) -> (result: bool)
    ensures
        result == ends_with(text@, suffix@),
{
    let chars = characters(text);
    let last = characters(suffix);
    if last.len() > chars.len() {
        return false;
    }
    let tail = slice_text(&chars, chars.len() - last.len(), chars.len());
    assert(tail@ =~= text@.skip(text@.len() - suffix@.len()));
    same_text(tail.as_str(), suffix)
}

/// The first position from `from` on at which a predicate holds.
pub open spec fn first_match<A>(items: Seq<A>, holds: spec_fn(A) -> bool, from: int) -> Option<int>
    decreases items.len() - from,
{
    if from < 0 || from >= items.len() {
        None
    } else if holds(items[from]) {
        Some(from)
    } else {
        first_match(items, holds, from + 1)
    }
}

/// Whether a character is ASCII white space.
pub open spec fn is_ascii_white(c: char) -> bool {
    c == ' ' || c == '\u{9}' || c == '\u{a}' || c == '\u{c}' || c == '\u{d}'
}

/// The words of a text from `start` on, between ASCII white space, with `at` the next character
/// to look at.
pub open spec fn words_from(text: Seq<char>, start: int, at: int) -> Seq<Seq<char>>
    decreases text.len() - at,
{
    if at < start || at >= text.len() {
        if start < text.len() {
            seq![text.subrange(start, text.len() as int)]
        } else {
            Seq::empty()
        }
    } else if is_ascii_white(text[at]) {
        if start < at {
            seq![text.subrange(start, at)] + words_from(text, at + 1, at + 1)
        } else {
            words_from(text, at + 1, at + 1)
        }
    } else {
        words_from(text, start, at + 1)
    }
}

/// The words of a text, between ASCII white space.
pub open spec fn words(text: Seq<char>) -> Seq<Seq<char>> {
    words_from(text, 0, 0)
}

/// The words of a text, between ASCII white space.
pub fn split_words(text: &str) -> (result: Vec<String>)
    ensures
        texts(result@) == words(text@),
{
    let chars = characters(text);
    let mut found: Vec<String> = Vec::new();
    let mut start: usize = 0;
    let mut at: usize = 0;
    let ghost whole = words(text@);
    assert(texts(found@) + words_from(chars@, 0, 0) =~= whole);
    while at < chars.len()
        invariant
            start <= at <= chars@.len(),
            chars@ == text@,
            texts(found@) + words_from(chars@, start as int, at as int) == whole,
        decreases chars@.len() - at,
    {
        let c = chars[at];
        if c == ' ' || c == '\u{9}' || c == '\u{a}' || c == '\u{c}' || c == '\u{d}' {
            if start < at {
                let ghost earlier = texts(found@);
                let word = slice_text(&chars, start, at);
                found.push(word);
                proof {
                    assert(texts(found@) =~= earlier.push(word@));
                    assert(earlier + (seq![word@] + words_from(chars@, at + 1, at + 1))
                        =~= earlier.push(word@) + words_from(chars@, at + 1, at + 1));
                }
            }
            start = at + 1;
        }
        at += 1;
    }
    if start < chars.len() {
        let ghost earlier = texts(found@);
        let word = slice_text(&chars, start, chars.len());
        found.push(word);
        assert(texts(found@) =~= earlier + seq![word@]);
    } else {
        assert(texts(found@) =~= whole);
    }
    found
}

/// A line without the carriage return that it may end with.
pub open spec fn without_return(line: Seq<char>) -> Seq<char> {
    if line.len() > 0 && line.last() == '\u{d}' {
        line.drop_last()
    } else {
        line
    }
}

/// The lines of a text. A final line feed does not begin another line, and a carriage return
/// before a line feed belongs to it.
pub open spec fn lines_of(text: Seq<char>) -> Seq<Seq<char>> {
    let parts = split(text, '\u{a}');
    let ended = if parts.last().len() == 0 {
        parts.drop_last()
    } else {
        parts
    };
    ended.map(
        |i: int, line: Seq<char>|
            if i < parts.len() - 1 {
                without_return(line)
            } else {
                line
            },
    )
}

/// The lines of a text.
pub fn split_lines(text: &str) -> (result: Vec<String>)
    ensures
        texts(result@) == lines_of(text@),
{
    let parts = split_text(text, '\u{a}');
    let ghost views = split(text@, '\u{a}');
    proof {
        split_is_not_empty(text@, '\u{a}', 0, 0);
        assert(views.len() == parts@.len());
    }
    let n: usize = parts.len();
    let mut lines: Vec<String> = Vec::new();
    let mut i: usize = 0;
    while i < n - 1
        invariant
            i <= n - 1,
            n == parts@.len(),
            views == texts(parts@),
            views == split(text@, '\u{a}'),
            n >= 1,
            lines@.len() == i,
            forall|j: int| 0 <= j < i ==> texts(lines@)[j] == without_return(#[trigger] views[j]),
        decreases n - i,
    {
        assert(views[i as int] == parts@[i as int]@);
        let chars = characters(parts[i].as_str());
        let m: usize = chars.len();
        let ghost earlier = texts(lines@);
        if m > 0 && chars[m - 1] == '\u{d}' {
            let line = slice_text(&chars, 0, m - 1);
            assert(line@ =~= without_return(views[i as int]));
            lines.push(line);
            assert(texts(lines@) =~= earlier.push(line@));
        } else {
            let line = parts[i].clone();
            lines.push(line);
            assert(texts(lines@) =~= earlier.push(line@));
        }
        i += 1;
    }
    assert(views[n - 1] == parts@[n - 1]@);
    if !parts[n - 1].as_str().is_empty() {
        let ghost earlier = texts(lines@);
        lines.push(parts[n - 1].clone());
        assert(texts(lines@) =~= earlier.push(views[n - 1]));
    }
    assert(texts(lines@) =~= lines_of(text@));
    lines
}

/// Lines written one after another, each ended by a line feed.
pub open spec fn unlines(lines: Seq<Seq<char>>) -> Seq<char>
    decreases lines.len(),
{
    if lines.len() == 0 {
        Seq::empty()
    } else {
        unlines(lines.drop_last()) + lines.last().push('\u{a}')
    }
}

/// Writes lines one after another, each ended by a line feed.
pub fn join_lines(lines: &Vec<String>) -> (text: String)
    ensures
        text@ == unlines(texts(lines@)),
{
    let mut text = String::new();
    let ghost views = texts(lines@);
    let mut i: usize = 0;
    assert(views.take(0) =~= Seq::<Seq<char>>::empty());
    while i < lines.len()
        invariant
            i <= lines@.len(),
            views == texts(lines@),
            text@ == unlines(views.take(i as int)),
        decreases lines@.len() - i,
    {
        assert(views[i as int] == lines@[i as int]@);
        assert(views.take(i + 1).drop_last() =~= views.take(i as int));
        text.append(lines[i].as_str());
        text.push('\u{a}');
        assert(text@ =~= unlines(views.take(i + 1)));
        i += 1;
    }
    assert(views.take(views.len() as int) =~= views);
    text
}

proof fn split_of_plain(line: Seq<char>, rest: Seq<char>, start: int, at: int)
    requires
        0 <= start <= at <= line.len(),
        !line.contains('\u{a}'),
    ensures
        split_from(line.push('\u{a}') + rest, '\u{a}', start, at) == seq![
            line.skip(start),
        ] + split_from(
            line.push('\u{a}') + rest,
            '\u{a}',
            line.len() as int + 1,
            line.len() as int + 1,
        ),
    decreases line.len() - at,
{
    let text = line.push('\u{a}') + rest;
    if at < line.len() {
        assert(text[at] == line[at]);
        assert(line.contains(line[at]));
        split_of_plain(line, rest, start, at + 1);
    } else {
        assert(text[at] == '\u{a}');
        assert(text.subrange(start, at) =~= line.skip(start));
    }
}

proof fn split_of_suffix(prefix: Seq<char>, rest: Seq<char>, start: int, at: int)
    requires
        0 <= start <= at,
        start <= rest.len(),
    ensures
        split_from(prefix + rest, '\u{a}', prefix.len() + start, prefix.len() + at) == split_from(
            rest,
            '\u{a}',
            start,
            at,
        ),
    decreases rest.len() - at,
{
    let text = prefix + rest;
    if at < rest.len() {
        assert(text[prefix.len() + at] == rest[at]);
        split_of_suffix(prefix, rest, start, at + 1);
        split_of_suffix(prefix, rest, at + 1, at + 1);
        assert(text.subrange(prefix.len() + start, prefix.len() + at) =~= rest.subrange(start, at));
    } else {
        assert(text.subrange(prefix.len() + start, text.len() as int) =~= rest.subrange(
            start,
            rest.len() as int,
        ));
    }
}

proof fn unlines_begins(lines: Seq<Seq<char>>)
    requires
        lines.len() > 0,
    ensures
        unlines(lines) == lines[0].push('\u{a}') + unlines(lines.skip(1)),
    decreases lines.len(),
{
    let rest = lines.skip(1);
    if lines.len() == 1 {
        assert(lines.drop_last() =~= Seq::<Seq<char>>::empty());
        assert(rest =~= Seq::<Seq<char>>::empty());
        assert(unlines(lines) =~= lines[0].push('\u{a}') + unlines(rest));
    } else {
        unlines_begins(lines.drop_last());
        assert(lines.drop_last().skip(1) =~= rest.drop_last());
        assert(rest.last() == lines.last());
        assert(unlines(lines) =~= lines[0].push('\u{a}') + unlines(rest));
    }
}

/// Lines without line feeds come back when they are written and split: with an empty rest.
pub proof fn split_of_unlines(lines: Seq<Seq<char>>)
    requires
        forall|i: int| 0 <= i < lines.len() ==> !(#[trigger] lines[i]).contains('\u{a}'),
    ensures
        split(unlines(lines), '\u{a}') == lines.push(Seq::empty()),
    decreases lines.len(),
{
    let text = unlines(lines);
    if lines.len() == 0 {
        assert(text.subrange(0, 0) =~= Seq::<char>::empty());
        assert(split(text, '\u{a}') =~= lines.push(Seq::empty()));
    } else {
        let rest = lines.skip(1);
        assert forall|i: int| 0 <= i < rest.len() implies !(#[trigger] rest[i]).contains(
            '\u{a}',
        ) by {
            assert(rest[i] == lines[i + 1]);
        }
        split_of_unlines(rest);
        unlines_begins(lines);
        let first = lines[0];
        split_of_plain(first, unlines(rest), 0, 0);
        split_of_suffix(first.push('\u{a}'), unlines(rest), 0, 0);
        assert(first.skip(0) =~= first);
        assert(split(text, '\u{a}') =~= lines.push(Seq::empty()));
    }
}

} // verus!
