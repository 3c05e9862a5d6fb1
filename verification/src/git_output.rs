//! What the output of single Git commands means.
use crate::apply::PathView;
use crate::changes::{components_of, path_from_text};
use crate::fields::{
    behind, byte_views, parse_unsigned, split, split_bytes, split_text, strip_prefix,
    unsigned_number,
};
use crate::git_text::{parse_text, printed_text, trim, trimmed};
use crate::path::{texts, ContentPath};
use crate::text::{characters, same_text, slice_text, utf8_text};
use vstd::prelude::*;
use vstd::string::*;
use vstd::utf8::{decode_utf8, valid_utf8};

verus! {

/// The major and minor version in what `git --version` prints.
pub open spec fn version_in(output: Seq<u8>) -> Option<(nat, nat)> {
    if !valid_utf8(output) {
        None
    } else {
        match behind(trimmed(decode_utf8(output)), "git version "@) {
            None => None,
            Some(version) => {
                let parts = split(version, '.');
                if parts.len() < 2 {
                    None
                } else {
                    match (unsigned_number(parts[0]), unsigned_number(parts[1])) {
                        (Some(major), Some(minor)) => Some((major, minor)),
                        _ => None,
                    }
                }
            },
        }
    }
}

/// The major and minor version in what `git --version` prints.
pub fn parse_git_version(output: &[u8]) -> (result: Option<(u64, u64)>)
    ensures
        match version_in(output@) {
            Some((major, minor)) => result matches Some(found) && found.0 == major && found.1
                == minor,
            None => result is None,
        },
{
    let text = match utf8_text(output) {
        Some(text) => text,
        None => {
            return None;
        },
    };
    proof {
        vstd::utf8::encode_utf8_decode_utf8(text@);
    }
    let value = trim(&characters(text.as_str()));
    let line = slice_text(&value, 0, value.len());
    assert(line@ =~= value@);
    let version = match strip_prefix(line.as_str(), "git version ") {
        Some(version) => version,
        None => {
            return None;
        },
    };
    let parts = split_text(version.as_str(), '.');
    let ghost views = texts(parts@);
    assert(views.len() == parts@.len());
    if parts.len() < 2 {
        return None;
    }
    assert(views[0] == parts@[0]@ && views[1] == parts@[1]@);
    match (parse_unsigned(parts[0].as_str()), parse_unsigned(parts[1].as_str())) {
        (Some(major), Some(minor)) => Some((major, minor)),
        _ => None,
    }
}

/// Whether a Git version has the durability settings that transactions rely on: 2.36 or later.
pub fn supported_version(version: (u64, u64)) -> (result: bool)
    ensures
        result == (version.0 > 2 || (version.0 == 2 && version.1 >= 36)),
{
    version.0 > 2 || (version.0 == 2 && version.1 >= 36)
}

/// The last position of a character in the first `end` characters of a text.
pub open spec fn last_position(text: Seq<char>, c: char, end: int) -> Option<int>
    decreases end,
{
    if end <= 0 || end > text.len() {
        None
    } else if text[end - 1] == c {
        Some(end - 1)
    } else {
        last_position(text, c, end - 1)
    }
}

/// Whether a key has a name, a dot, and one of the given fields behind its last dot.
pub open spec fn named_field(value: Seq<char>, fields: Seq<Seq<char>>) -> bool {
    match last_position(value, '.', value.len() as int) {
        Some(dot) => dot > 0 && fields.contains(value.skip(dot + 1)),
        None => false,
    }
}

/// The fields of a remote that may be configured.
pub open spec fn remote_fields() -> Seq<Seq<char>> {
    seq!["url"@, "pushurl"@, "fetch"@, "mirror"@]
}

/// The fields of a branch that may be configured.
pub open spec fn branch_fields() -> Seq<Seq<char>> {
    seq!["remote"@, "merge"@]
}

/// Whether a repository-local configuration key is allowed.
pub open spec fn is_allowed_key(key: Seq<char>) -> bool {
    ||| key == "core.repositoryformatversion"@
    ||| key == "core.filemode"@
    ||| key == "core.bare"@
    ||| key == "core.logallrefupdates"@
    ||| key == "extensions.objectformat"@
    ||| (behind(key, "remote."@) matches Some(value) && named_field(value, remote_fields()))
    ||| (behind(key, "branch."@) matches Some(value) && named_field(value, branch_fields()))
}

/// Splits a key at its last dot, where it has a name and a dot.
fn last_field(value: &str) -> (result: Option<String>)
    ensures
        match last_position(value@, '.', value@.len() as int) {
            Some(dot) => 0 <= dot < value@.len() && (result is Some <==> dot > 0) && (
            result matches Some(field) ==> field@ == value@.skip(dot + 1)),
            None => result is None,
        },
{
    let chars = characters(value);
    let mut end: usize = chars.len();
    while end > 0
        invariant
            end <= chars@.len(),
            chars@ == value@,
            last_position(value@, '.', value@.len() as int) == last_position(
                value@,
                '.',
                end as int,
            ),
        decreases end,
    {
        if chars[end - 1] == '.' {
            if end == 1 {
                return None;
            }
            let field = slice_text(&chars, end, chars.len());
            assert(field@ =~= value@.skip(end as int));
            return Some(field);
        }
        end -= 1;
    }
    None
}

/// Whether a configuration key is a plain setting of a remote or a branch.
pub fn safe_remote_or_branch_config(key: &str) -> (result: bool)
    ensures
        result == ((behind(key@, "remote."@) matches Some(value) && named_field(
            value,
            remote_fields(),
        )) || (behind(key@, "branch."@) matches Some(value) && named_field(value, branch_fields()))),
{
    proof {
        reveal_strlit("remote.");
        reveal_strlit("branch.");
        assert("remote."@[0] == 'r');
        assert("branch."@[0] == 'b');
    }
    if let Some(value) = strip_prefix(key, "remote.") {
        assert(behind(key@, "branch."@) is None) by {
            if "branch."@.is_prefix_of(key@) {
                assert(key@.subrange(0, 7)[0] == 'r');
            }
        }
        return match last_field(value.as_str()) {
            Some(field) => {
                let found = same_text(field.as_str(), "url") || same_text(
                    field.as_str(),
                    "pushurl",
                ) || same_text(field.as_str(), "fetch") || same_text(field.as_str(), "mirror");
                proof {
                    let fields = remote_fields();
                    assert(fields[0] == "url"@ && fields[1] == "pushurl"@ && fields[2] == "fetch"@
                        && fields[3] == "mirror"@);
                    if fields.contains(field@) {
                        let i = choose|i: int| 0 <= i < fields.len() && fields[i] == field@;
                        assert(i == 0 || i == 1 || i == 2 || i == 3);
                    }
                }
                found
            },
            None => false,
        };
    }
    if let Some(value) = strip_prefix(key, "branch.") {
        return match last_field(value.as_str()) {
            Some(field) => {
                let found = same_text(field.as_str(), "remote") || same_text(
                    field.as_str(),
                    "merge",
                );
                proof {
                    let fields = branch_fields();
                    assert(fields[0] == "remote"@ && fields[1] == "merge"@);
                    if fields.contains(field@) {
                        let i = choose|i: int| 0 <= i < fields.len() && fields[i] == field@;
                        assert(i == 0 || i == 1);
                    }
                }
                found
            },
            None => false,
        };
    }
    false
}

/// Whether a repository-local configuration key is allowed.
fn allowed_key(key: &str) -> (result: bool)
    ensures
        result == is_allowed_key(key@),
{
    same_text(key, "core.repositoryformatversion") || same_text(key, "core.filemode") || same_text(
        key,
        "core.bare",
    ) || same_text(key, "core.logallrefupdates") || same_text(key, "extensions.objectformat")
        || safe_remote_or_branch_config(key)
}

/// Whether every key in a list of configuration keys, ended by zero bytes, is allowed.
pub open spec fn config_is_safe(output: Seq<u8>) -> bool {
    forall|i: int|
        0 <= i < split(output, 0u8).len() && (#[trigger] split(output, 0u8)[i]).len() > 0 ==> {
            &&& valid_utf8(split(output, 0u8)[i])
            &&& is_allowed_key(decode_utf8(split(output, 0u8)[i]))
        }
}

/// Whether every key in a list of configuration keys, ended by zero bytes, is allowed.
pub fn safe_config(output: &[u8]) -> (result: bool)
    ensures
        result == config_is_safe(output@),
{
    let keys = split_bytes(output, 0);
    let ghost views = split(output@, 0u8);
    let mut i: usize = 0;
    while i < keys.len()
        invariant
            i <= keys@.len(),
            views == split(output@, 0u8),
            views == byte_views(keys@),
            forall|j: int|
                0 <= j < i && (#[trigger] views[j]).len() > 0 ==> valid_utf8(views[j])
                    && is_allowed_key(decode_utf8(views[j])),
        decreases keys@.len() - i,
    {
        assert(views[i as int] == keys@[i as int]@);
        if keys[i].len() > 0 {
            match utf8_text(keys[i].as_slice()) {
                None => {
                    return false;
                },
                Some(key) => {
                    proof {
                        vstd::utf8::encode_utf8_decode_utf8(key@);
                    }
                    if !allowed_key(key.as_str()) {
                        return false;
                    }
                },
            }
        }
        i += 1;
    }
    true
}

/// Whether a command printed a given word.
pub fn printed_is(output: &[u8], word: &str) -> (result: Option<bool>)
    ensures
        match printed_text(output@) {
            Some(text) => result == Some(text == word@),
            None => result is None,
        },
{
    match parse_text(output) {
        Some(text) => Some(same_text(text.as_str(), word)),
        None => None,
    }
}

/// Whether some text names a path.
pub open spec fn names_path(texts: Seq<Seq<char>>, path: PathView) -> bool {
    exists|i: int| 0 <= i < texts.len() && components_of(#[trigger] texts[i]) == path
}

/// Whether some text names a path.
fn name_path(paths: &Vec<String>, path: &ContentPath) -> (result: bool)
    ensures
        result == names_path(texts(paths@), path@),
{
    let ghost views = texts(paths@);
    let mut i: usize = 0;
    while i < paths.len()
        invariant
            i <= paths@.len(),
            views == texts(paths@),
            forall|j: int| 0 <= j < i ==> components_of(#[trigger] views[j]) != path@,
        decreases paths@.len() - i,
    {
        assert(views[i as int] == paths@[i as int]@);
        if path_from_text(paths[i].as_str()).same(path) {
            return true;
        }
        i += 1;
    }
    false
}

/// The paths among the fields from `next` on, each once and in order, behind those already found.
/// A field that is not UTF-8 spoils the list.
pub open spec fn paths_among(fields: Seq<Seq<u8>>, found: Seq<Seq<char>>, next: int) -> Option<
    Seq<Seq<char>>,
>
    decreases fields.len() - next,
{
    if next < 0 || next >= fields.len() {
        Some(found)
    } else if fields[next].len() == 0 {
        paths_among(fields, found, next + 1)
    } else if !valid_utf8(fields[next]) {
        None
    } else if names_path(found, components_of(decode_utf8(fields[next]))) {
        paths_among(fields, found, next + 1)
    } else {
        paths_among(fields, found.push(decode_utf8(fields[next])), next + 1)
    }
}

/// Adds the paths in a list ended by zero bytes to those already found, each once.
fn add_paths(output: &[u8], found: Vec<String>) -> (result: Option<Vec<String>>)
    ensures
        match result {
            Some(paths) => paths_among(split(output@, 0u8), texts(found@), 0) == Some(
                texts(paths@),
            ),
            None => paths_among(split(output@, 0u8), texts(found@), 0) is None,
        },
{
    let fields = split_bytes(output, 0);
    let ghost views = split(output@, 0u8);
    let ghost start = texts(found@);
    let mut paths = found;
    let mut i: usize = 0;
    while i < fields.len()
        invariant
            i <= fields@.len(),
            views == split(output@, 0u8),
            views == byte_views(fields@),
            paths_among(views, start, 0) == paths_among(views, texts(paths@), i as int),
            start == texts(found@),
        decreases fields@.len() - i,
    {
        assert(views[i as int] == fields@[i as int]@);
        if fields[i].len() > 0 {
            match utf8_text(fields[i].as_slice()) {
                None => {
                    return None;
                },
                Some(path) => {
                    proof {
                        vstd::utf8::encode_utf8_decode_utf8(path@);
                    }
                    if !name_path(&paths, &path_from_text(path.as_str())) {
                        let ghost earlier = texts(paths@);
                        paths.push(path);
                        assert(texts(paths@) =~= earlier.push(path@));
                    }
                },
            }
        }
        i += 1;
    }
    Some(paths)
}

/// The untracked files in two lists ended by zero bytes, the second of the ignored ones: each
/// file once, in the order of the lists.
pub open spec fn untracked(visible: Seq<u8>, ignored: Seq<u8>) -> Option<Seq<Seq<char>>> {
    match paths_among(split(visible, 0u8), Seq::empty(), 0) {
        None => None,
        Some(found) => paths_among(split(ignored, 0u8), found, 0),
    }
}

/// The untracked files in two lists ended by zero bytes.
pub fn untracked_files(visible: &[u8], ignored: &[u8]) -> (result: Option<Vec<String>>)
    ensures
        match result {
            Some(paths) => untracked(visible@, ignored@) == Some(texts(paths@)),
            None => untracked(visible@, ignored@) is None,
        },
{
    let none: Vec<String> = Vec::new();
    assert(texts(none@) =~= Seq::<Seq<char>>::empty());
    match add_paths(visible, none) {
        Some(found) => add_paths(ignored, found),
        None => None,
    }
}

} // verus!
