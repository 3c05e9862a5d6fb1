//! Markdown framing: front matter between two delimiter lines, then the body.
use crate::text::utf8_text;
use vstd::prelude::*;
use vstd::utf8::valid_utf8;

verus! {

/// The bytes of a delimiter line: three hyphens.
pub open spec fn delimiter() -> Seq<u8> {
    seq![45u8, 45u8, 45u8]
}

/// The length of the opening delimiter line with its line ending, where there is one.
pub open spec fn opening_length(bytes: Seq<u8>) -> Option<int> {
    if bytes.len() >= 5 && bytes.take(5) == delimiter() + seq![13u8, 10u8] {
        Some(5)
    } else if bytes.len() >= 4 && bytes.take(4) == delimiter() + seq![10u8] {
        Some(4)
    } else {
        None
    }
}

/// The position behind the line that starts at `start`, with its line feed.
pub open spec fn line_end(bytes: Seq<u8>, start: int) -> int
    decreases bytes.len() - start,
{
    if start >= bytes.len() {
        bytes.len() as int
    } else if bytes[start] == 10 {
        start + 1
    } else {
        line_end(bytes, start + 1)
    }
}

/// A line without its line feed, and without a carriage return before it.
pub open spec fn line_content(line: Seq<u8>) -> Seq<u8> {
    let unfed = if line.len() > 0 && line.last() == 10 {
        line.drop_last()
    } else {
        line
    };
    if unfed.len() > 0 && unfed.last() == 13 {
        unfed.drop_last()
    } else {
        unfed
    }
}

/// The position behind the first delimiter line at or after `start`, which begins a line.
pub open spec fn body_start(bytes: Seq<u8>, start: int) -> Option<int>
    decreases bytes.len() - start,
{
    if start < 0 || start >= bytes.len() {
        None
    } else {
        let end = line_end(bytes, start);
        if line_content(bytes.subrange(start, end)) == delimiter() {
            Some(end)
        } else if end <= start || end > bytes.len() {
            None
        } else {
            body_start(bytes, end)
        }
    }
}

/// The body of a Markdown document: what follows the front matter. Only UTF-8 text that opens
/// with a delimiter line and has a second one has a body.
pub open spec fn body_of(bytes: Seq<u8>) -> Option<Seq<u8>> {
    if !valid_utf8(bytes) {
        None
    } else {
        match opening_length(bytes) {
            None => None,
            Some(opening) => match body_start(bytes, opening) {
                None => None,
                Some(start) => Some(bytes.skip(start)),
            },
        }
    }
}

/// A document with the given front matter and body: the front matter stands between two delimiter
/// lines and ends with a line feed.
pub open spec fn framed(front_matter: Seq<u8>, body: Seq<u8>) -> Seq<u8> {
    let ending = if front_matter.len() > 0 && front_matter.last() == 10 {
        Seq::<u8>::empty()
    } else {
        seq![10u8]
    };
    delimiter() + seq![10u8] + front_matter + ending + delimiter() + seq![10u8] + body
}

proof fn line_end_is_behind(bytes: Seq<u8>, start: int)
    requires
        0 <= start < bytes.len(),
    ensures
        start < line_end(bytes, start) <= bytes.len(),
        forall|i: int| start <= i < line_end(bytes, start) - 1 ==> bytes[i] != 10,
        bytes[line_end(bytes, start) - 1] == 10 || line_end(bytes, start) == bytes.len(),
    decreases bytes.len() - start,
{
    reveal_with_fuel(line_end, 2);
    if bytes[start] != 10 && start + 1 < bytes.len() {
        line_end_is_behind(bytes, start + 1);
    }
}

/// The position behind the line that starts at `start`.
fn end_of_line(bytes: &[u8], start: usize) -> (end: usize)
    requires
        start < bytes@.len(),
    ensures
        end == line_end(bytes@, start as int),
        start < end <= bytes@.len(),
{
    proof {
        line_end_is_behind(bytes@, start as int);
    }
    let mut i: usize = start;
    while i < bytes.len()
        invariant
            start <= i <= bytes@.len(),
            line_end(bytes@, start as int) == line_end(bytes@, i as int),
        decreases bytes@.len() - i,
    {
        if bytes[i] == 10 {
            return i + 1;
        }
        i += 1;
    }
    bytes.len()
}

/// Whether the line from `start` to `end` is a delimiter line.
fn is_delimiter(bytes: &[u8], start: usize, end: usize) -> (result: bool)
    requires
        start < end <= bytes@.len(),
    ensures
        result == (line_content(bytes@.subrange(start as int, end as int)) == delimiter()),
{
    let ghost line = bytes@.subrange(start as int, end as int);
    let mut last: usize = end;
    if bytes[last - 1] == 10 {
        last -= 1;
    }
    assert(last < end ==> bytes@.subrange(start as int, last as int) =~= line.drop_last());
    let ghost unfed = bytes@.subrange(start as int, last as int);
    assert(last == end ==> unfed =~= line);
    if last > start && bytes[last - 1] == 13 {
        last -= 1;
        assert(bytes@.subrange(start as int, last as int) =~= unfed.drop_last());
    }
    let ghost content = bytes@.subrange(start as int, last as int);
    assert(content =~= line_content(line));
    let result = last - start == 3 && bytes[start] == 45 && bytes[start + 1] == 45 && bytes[start
        + 2] == 45;
    proof {
        if result {
            assert(content =~= delimiter());
        } else if content == delimiter() {
            assert(content[0] == 45 && content[1] == 45 && content[2] == 45);
        }
    }
    result
}

/// The body of a Markdown document.
pub fn markdown_body(markdown: &[u8]) -> (result: Option<Vec<u8>>)
    ensures
        result is Some <==> body_of(markdown@) is Some,
        result matches Some(body) ==> body_of(markdown@) == Some(body@),
{
    if utf8_text(markdown).is_none() {
        return None;
    }
    let n: usize = markdown.len();
    let hyphens = n >= 4 && markdown[0] == 45 && markdown[1] == 45 && markdown[2] == 45;
    let opening: usize;
    if hyphens && n >= 5 && markdown[3] == 13 && markdown[4] == 10 {
        opening = 5;
        assert(markdown@.take(5) =~= delimiter() + seq![13u8, 10u8]);
    } else if hyphens && markdown[3] == 10 {
        opening = 4;
        assert(markdown@.take(4) =~= delimiter() + seq![10u8]);
        assert(markdown@.len() >= 5 ==> markdown@.take(5)[3] == 10);
    } else {
        proof {
            if opening_length(markdown@) is Some {
                let taken = markdown@.take(opening_length(markdown@)->0);
                assert(taken[0] == markdown@[0] && taken[1] == markdown@[1] && taken[2]
                    == markdown@[2] && taken[3] == markdown@[3]);
                if opening_length(markdown@) == Some(5int) {
                    assert(taken[4] == markdown@[4]);
                }
            }
        }
        return None;
    }
    assert(opening_length(markdown@) == Some(opening as int));
    let mut start: usize = opening;
    while start < n
        invariant
            n == markdown@.len(),
            start <= n,
            body_start(markdown@, opening as int) == body_start(markdown@, start as int),
            opening_length(markdown@) == Some(opening as int),
            valid_utf8(markdown@),
        decreases n - start,
    {
        let end: usize = end_of_line(markdown, start);
        if is_delimiter(markdown, start, end) {
            let mut body: Vec<u8> = Vec::new();
            let (_front, rest) = markdown.split_at(end);
            body.extend_from_slice(rest);
            assert(body@ =~= markdown@.skip(end as int));
            return Some(body);
        }
        start = end;
    }
    None
}

/// Builds a document from its front matter and its body.
pub fn frame(front_matter: &[u8], body: &[u8]) -> (document: Vec<u8>)
    ensures
        document@ == framed(front_matter@, body@),
{
    let mut document: Vec<u8> = vec![45, 45, 45, 10];
    document.extend_from_slice(front_matter);
    if front_matter.len() == 0 || front_matter[front_matter.len() - 1] != 10 {
        document.push(10);
    }
    document.push(45);
    document.push(45);
    document.push(45);
    document.push(10);
    document.extend_from_slice(body);
    assert(document@ =~= framed(front_matter@, body@));
    document
}

/// Front matter with the line feed that framing gives it.
pub open spec fn fed(front_matter: Seq<u8>) -> Seq<u8> {
    if front_matter.len() > 0 && front_matter.last() == 10 {
        front_matter
    } else {
        front_matter.push(10)
    }
}

proof fn line_end_inside(prefix: Seq<u8>, lines: Seq<u8>, suffix: Seq<u8>, at: int)
    requires
        0 <= at < lines.len(),
        lines.last() == 10,
    ensures
        line_end(prefix + lines + suffix, prefix.len() + at) == prefix.len() + line_end(lines, at),
    decreases lines.len() - at,
{
    let whole = prefix + lines + suffix;
    assert(whole[prefix.len() + at] == lines[at]);
    reveal_with_fuel(line_end, 2);
    if lines[at] != 10 {
        line_end_inside(prefix, lines, suffix, at + 1);
    }
}

proof fn body_start_inside(prefix: Seq<u8>, lines: Seq<u8>, suffix: Seq<u8>, at: int)
    requires
        0 <= at <= lines.len(),
        lines.len() > 0 && lines.last() == 10,
        body_start(lines, at) is None,
    ensures
        body_start(prefix + lines + suffix, prefix.len() + at) == body_start(
            prefix + lines + suffix,
            (prefix.len() + lines.len()) as int,
        ),
    decreases lines.len() - at,
{
    let whole = prefix + lines + suffix;
    if at < lines.len() {
        let end = line_end(lines, at);
        line_end_inside(prefix, lines, suffix, at);
        line_end_is_behind(lines, at);
        assert(whole.subrange(prefix.len() + at, prefix.len() + end) =~= lines.subrange(at, end));
        body_start_inside(prefix, lines, suffix, end);
    }
}

/// Framing loses nothing: the body of a framed document is the body that it was framed with,
/// wherever both parts are UTF-8 and no line of the front matter is a delimiter line.
pub proof fn framing_keeps_the_body(front_matter: Seq<u8>, body: Seq<u8>)
    requires
        valid_utf8(front_matter),
        valid_utf8(body),
        body_start(fed(front_matter), 0) is None,
    ensures
        body_of(framed(front_matter, body)) == Some(body),
{
    broadcast use vstd::utf8::valid_utf8_concat;

    let opening = delimiter() + seq![10u8];
    let lines = fed(front_matter);
    let document = framed(front_matter, body);
    assert(document =~= opening + lines + (opening + body));
    ascii_is_valid(opening);
    ascii_is_valid(seq![10u8]);
    assert(front_matter.push(10) =~= front_matter + seq![10u8]);
    assert(valid_utf8(lines));
    assert(valid_utf8(opening + lines));
    assert(valid_utf8(opening + body));
    assert(document.take(4) =~= opening);
    assert(document.take(5)[3] == 10);
    assert(opening_length(document) == Some(4int));
    body_start_inside(opening, lines, opening + body, 0);
    let last: int = 4 + lines.len() as int;
    assert(document.skip(last) =~= opening + body);
    assert(document[last] == 45 && document[last + 1] == 45 && document[last + 2] == 45
        && document[last + 3] == 10);
    reveal_with_fuel(line_end, 5);
    assert(line_end(document, last) == last + 4);
    assert(document.subrange(last, last + 4) =~= opening);
    assert(opening.drop_last() =~= delimiter());
    assert(line_content(opening) =~= delimiter());
    assert(document.skip(last + 4) =~= body);
}

proof fn ascii_is_valid(bytes: Seq<u8>)
    requires
        forall|i: int| 0 <= i < bytes.len() ==> bytes[i] < 128,
    ensures
        valid_utf8(bytes),
    decreases bytes.len(),
{
    let chars = Seq::new(bytes.len(), |i: int| bytes[i] as char);
    vstd::utf8::is_ascii_chars_encode_utf8(chars);
    vstd::utf8::encode_utf8_valid_utf8(chars);
    assert(vstd::utf8::encode_utf8(chars) =~= bytes);
}

} // verus!
