//! Functions of the standard library that the rest of the crate calls, with the
//! contracts that Verus takes on trust.
#[allow(unused_imports)]
use crate::documents::{is_ascii_alnum, is_ascii_letter, is_plain_name, is_safe};
#[allow(unused_imports)]
use crate::text::opt_text;
use vstd::prelude::*;
#[allow(unused_imports)]
use vstd::utf8::{decode_utf8, valid_utf8};

verus! {

/// `String::push` appends one character.
pub assume_specification[ String::push ](s: &mut String, c: char)
    ensures
        final(s)@ == old(s)@.push(c),
;

/// Whether `c` has the Unicode property `White_Space`.
pub open spec fn is_white_space(c: char) -> bool {
    let code = c as u32;
    ||| 0x09 <= code <= 0x0d
    ||| code == 0x20
    ||| code == 0x85
    ||| code == 0xa0
    ||| code == 0x1680
    ||| 0x2000 <= code <= 0x200a
    ||| code == 0x2028
    ||| code == 0x2029
    ||| code == 0x202f
    ||| code == 0x205f
    ||| code == 0x3000
}

/// `text` without its leading white space.
pub open spec fn trimmed_start(text: Seq<char>) -> Seq<char>
    decreases text.len(),
{
    if text.len() > 0 && is_white_space(text[0]) {
        trimmed_start(text.skip(1))
    } else {
        text
    }
}

/// `text` without its trailing white space.
pub open spec fn trimmed_end(text: Seq<char>) -> Seq<char>
    decreases text.len(),
{
    if text.len() > 0 && is_white_space(text.last()) {
        trimmed_end(text.drop_last())
    } else {
        text
    }
}

/// `text` without white space around it.
pub open spec fn trimmed(text: Seq<char>) -> Seq<char> {
    trimmed_end(trimmed_start(text))
}

/// `str::trim` takes away the leading and the trailing characters that have the
/// Unicode property `White_Space`.
pub assume_specification[ str::trim ](s: &str) -> (res: &str)
    ensures
        res@ == trimmed(s@),
;

/// What `String::from_utf8_lossy` makes of bytes.
pub uninterp spec fn lossy_utf8(bytes: Seq<u8>) -> Seq<char>;

/// `String::from_utf8_lossy` gives back the text that valid UTF-8 encodes. What it
/// puts in place of bytes that are not valid depends on the bytes alone.
#[verifier::external_body]
pub(crate) fn from_utf8_lossy(bytes: &[u8]) -> (text: String)
    ensures
        text@ == lossy_utf8(bytes@),
        valid_utf8(bytes@) ==> text@ == decode_utf8(bytes@),
{
    String::from_utf8_lossy(bytes).into_owned()
}

/// The hash that a `DefaultHasher` made by `new` gives to a text.
pub uninterp spec fn default_hash(text: Seq<char>) -> u64;

/// `BuildHasher::hash_one` with a `DefaultHasher`, which is the same however often it
/// is made: the hash depends on the text alone. How it is computed is left open, as
/// it is in the documentation of `DefaultHasher`.
#[verifier::external_body]
pub(crate) fn hash_text(text: &str) -> (hash: u64)
    ensures
        hash == default_hash(text@),
{
    let builder = std::hash::BuildHasherDefault::<std::hash::DefaultHasher>::default();
    std::hash::BuildHasher::hash_one(&builder, text)
}

/// Whether `c` is alphabetic or numeric as Unicode has it.
pub uninterp spec fn alphanumeric(c: char) -> bool;

/// `char::is_alphanumeric`, which depends on the character alone; among the
/// characters of ASCII it holds of the letters and the digits.
pub assume_specification[ char::is_alphanumeric ](c: char) -> (res: bool)
    ensures
        res == alphanumeric(c),
        (c as u32) < 128 ==> res == is_ascii_alnum(c),
;

/// The position of the last `c` in `text`, or -1.
pub open spec fn last_index(text: Seq<char>, c: char) -> int
    decreases text.len(),
{
    if text.len() == 0 {
        -1
    } else if text.last() == c {
        text.len() - 1
    } else {
        last_index(text.drop_last(), c)
    }
}

/// Whether `c` separates the components of a path: a slash does everywhere, a
/// backslash only on Windows.
pub open spec fn separates(c: char, windows: bool) -> bool {
    c == '/' || (windows && c == '\\')
}

/// The position of the last separator in `path`, or -1.
pub open spec fn last_separator(path: Seq<char>, windows: bool) -> int
    decreases path.len(),
{
    if path.len() == 0 {
        -1
    } else if separates(path.last(), windows) {
        path.len() - 1
    } else {
        last_separator(path.drop_last(), windows)
    }
}

/// The last separator lies in the path, and none stands behind it.
pub proof fn lemma_last_separator(path: Seq<char>, windows: bool)
    ensures
        -1 <= last_separator(path, windows) < path.len(),
        last_separator(path, windows) >= 0 ==> separates(
            path[last_separator(path, windows)],
            windows,
        ),
        forall|i: int|
            last_separator(path, windows) < i < path.len() ==> !separates(
                #[trigger] path[i],
                windows,
            ),
    decreases path.len(),
{
    if path.len() > 0 && !separates(path.last(), windows) {
        let rest = path.drop_last();
        lemma_last_separator(rest, windows);
        assert forall|i: int| last_separator(path, windows) < i < path.len() implies !separates(
            #[trigger] path[i],
            windows,
        ) by {
            if i < rest.len() {
                assert(!separates(rest[i], windows));
            }
        }
    }
}

/// The final component of a path that is split at its separators. Separators and
/// single dots at the end do not count; there is none where the path ends in two dots.
pub open spec fn component_of(path: Seq<char>, windows: bool) -> Option<Seq<char>>
    decreases path.len(),
{
    let at = last_separator(path, windows);
    let part = path.skip(at + 1);
    proof {
        lemma_last_separator(path, windows);
    }
    if part.len() == 0 || part == "."@ {
        if at < 0 {
            None
        } else {
            component_of(path.take(at), windows)
        }
    } else if part == ".."@ {
        None
    } else {
        Some(part)
    }
}

/// `path` without the drive, a letter and a colon, that it may begin with.
pub open spec fn without_drive(path: Seq<char>) -> Seq<char> {
    if path.len() >= 2 && is_ascii_letter(path[0]) && path[1] == ':' {
        path.skip(2)
    } else {
        path
    }
}

/// Whether `path` begins with two separators of either kind, as the longer prefixes
/// of Windows do: shares, devices and paths that are taken as they stand.
pub open spec fn begins_with_two(path: Seq<char>) -> bool {
    path.len() >= 2 && separates(path[0], true) && separates(path[1], true)
}

/// What Windows takes for the file name of a path that begins with two separators.
pub uninterp spec fn prefixed_file_name(path: Seq<char>) -> Option<Seq<char>>;

/// What Windows takes for the file name of `path`.
pub open spec fn windows_file_name(path: Seq<char>) -> Option<Seq<char>> {
    if begins_with_two(path) {
        prefixed_file_name(path)
    } else {
        component_of(without_drive(path), true)
    }
}

/// Whether `name` is the final component of `path`, as Windows reads it or as every
/// other system does. For most paths that is the same.
pub open spec fn is_final_component(path: Seq<char>, name: Option<Seq<char>>) -> bool {
    name == component_of(path, false) || name == windows_file_name(path)
}

/// `Path::file_name` of a path that is given as text: the final component of the
/// path, if there is one. Which of the two readings holds depends on the system that
/// the library runs on; what Windows makes of a path that begins with two separators
/// is named, not spelled out.
#[verifier::external_body]
pub(crate) fn path_file_name(path: &str) -> (name: Option<String>)
    ensures
        is_final_component(path@, opt_text(name)),
        begins_with_two(path@) ==> opt_text(name) == component_of(path@, false) || opt_text(name)
            == prefixed_file_name(path@),
{
    let name = std::path::Path::new(path).file_name();
    name.and_then(|part| part.to_str()).map(|part| part.to_owned())
}

proof fn lemma_plain_component(name: Seq<char>, windows: bool)
    requires
        is_plain_name(name),
    ensures
        component_of(name, windows) == Some(name),
{
    lemma_last_separator(name, windows);
    if last_separator(name, windows) >= 0 {
        assert(is_safe(name[last_separator(name, windows)]));
    }
    assert(name.skip(0) =~= name);
}

/// A plain name is its own final component.
pub proof fn lemma_plain_name_is_final(name: Seq<char>)
    requires
        is_plain_name(name),
    ensures
        forall|n: Option<Seq<char>>| #[trigger]
            is_final_component(name, n) ==> n == Some(name),
{
    lemma_plain_component(name, false);
    lemma_plain_component(name, true);
    if name.len() >= 2 {
        assert(is_safe(name[0]) && is_safe(name[1]));
    }
}

/// A path without backslashes and colons that does not begin with two slashes has
/// one file name, whatever the system.
pub proof fn law_portable_path_has_one_name(
    path: Seq<char>,
    a: Option<Seq<char>>,
    b: Option<Seq<char>>,
)
    requires
        forall|i: int| 0 <= i < path.len() ==> #[trigger] path[i] != '\\' && path[i] != ':',
        !begins_with_two(path),
        is_final_component(path, a),
        is_final_component(path, b),
    ensures
        a == b,
{
    lemma_readings_agree(path);
    if path.len() >= 2 {
        assert(path[1] != ':');
    }
}

proof fn lemma_readings_agree(path: Seq<char>)
    requires
        forall|i: int| 0 <= i < path.len() ==> #[trigger] path[i] != '\\' && path[i] != ':',
    ensures
        component_of(path, true) == component_of(path, false),
    decreases path.len(),
{
    lemma_last_separator(path, true);
    lemma_last_separator(path, false);
    let at = last_separator(path, true);
    let other = last_separator(path, false);
    if other >= 0 {
        assert(separates(path[other], true));
    }
    if at >= 0 {
        assert(path[at] != '\\');
        assert(separates(path[at], false));
    }
    assert(at == other);
    if at >= 0 {
        let rest = path.take(at);
        assert forall|i: int| 0 <= i < rest.len() implies #[trigger] rest[i] != '\\' && rest[i]
            != ':' by {
            assert(path[i] != '\\' && path[i] != ':');
        }
        lemma_readings_agree(rest);
    }
}

/// A file name without its extension: what stands before the last dot, or all of
/// the name where it has no dot but at its start.
pub open spec fn stem_of(name: Seq<char>) -> Seq<char> {
    let dot = last_index(name, '.');
    if dot <= 0 {
        name
    } else {
        name.take(dot)
    }
}

/// Whether `stem` is the stem of the final component of `path`, as Windows reads it
/// or as every other system does.
pub open spec fn is_final_stem(path: Seq<char>, stem: Option<Seq<char>>) -> bool {
    exists|name: Option<Seq<char>>| #[trigger]
        is_final_component(path, name) && stem == match name {
            Some(n) => Some(stem_of(n)),
            None => None,
        }
}

/// `Path::file_stem` of a path that is given as text: the final component, which is
/// that of `Path::file_name`, without its extension.
#[verifier::external_body]
pub(crate) fn path_file_stem(path: &str) -> (stem: Option<String>)
    ensures
        is_final_stem(path@, opt_text(stem)),
{
    let stem = std::path::Path::new(path).file_stem();
    stem.and_then(|part| part.to_str()).map(|part| part.to_owned())
}

proof fn lemma_trimmed_start(text: Seq<char>)
    ensures
        trimmed_start(text).len() > 0 ==> !is_white_space(trimmed_start(text)[0]),
        trimmed_start(text).len() > 0 ==> trimmed_start(text).last() == text.last(),
    decreases text.len(),
{
    if text.len() > 0 && is_white_space(text[0]) {
        lemma_trimmed_start(text.skip(1));
    }
}

proof fn lemma_trimmed_end(text: Seq<char>)
    ensures
        trimmed_end(text).len() > 0 ==> !is_white_space(trimmed_end(text).last()),
        trimmed_end(text).len() > 0 ==> trimmed_end(text)[0] == text[0],
    decreases text.len(),
{
    if text.len() > 0 && is_white_space(text.last()) {
        lemma_trimmed_end(text.drop_last());
    }
}

/// A trimmed text has no white space at either end, and trimming it again changes
/// nothing.
pub proof fn law_trimmed_is_clean(text: Seq<char>)
    ensures
        trimmed(text).len() > 0 ==> !is_white_space(trimmed(text)[0]),
        trimmed(text).len() > 0 ==> !is_white_space(trimmed(text).last()),
        trimmed(trimmed(text)) == trimmed(text),
{
    lemma_trimmed_start(text);
    lemma_trimmed_end(trimmed_start(text));
}

/// Whether `inner` stands in `text` from `start` on, with nothing but white space
/// around it.
pub open spec fn white_around(text: Seq<char>, start: int, inner: Seq<char>) -> bool {
    &&& 0 <= start
    &&& start + inner.len() <= text.len()
    &&& forall|i: int| 0 <= i < inner.len() ==> #[trigger] inner[i] == text[start + i]
    &&& forall|i: int| 0 <= i < start ==> is_white_space(#[trigger] text[i])
    &&& forall|i: int| start + inner.len() <= i < text.len() ==> is_white_space(#[trigger] text[i])
}

proof fn lemma_trimmed_start_is_rest(text: Seq<char>) -> (start: int)
    ensures
        0 <= start <= text.len(),
        trimmed_start(text) == text.skip(start),
        forall|i: int| 0 <= i < start ==> is_white_space(#[trigger] text[i]),
    decreases text.len(),
{
    if text.len() > 0 && is_white_space(text[0]) {
        let rest = text.skip(1);
        let start = lemma_trimmed_start_is_rest(rest);
        assert(rest.skip(start) =~= text.skip(start + 1));
        assert forall|i: int| 0 <= i < start + 1 implies is_white_space(#[trigger] text[i]) by {
            if i > 0 {
                assert(is_white_space(rest[i - 1]));
            }
        }
        start + 1
    } else {
        assert(text.skip(0) =~= text);
        0
    }
}

proof fn lemma_trimmed_end_is_front(text: Seq<char>)
    ensures
        trimmed_end(text).len() <= text.len(),
        trimmed_end(text) == text.take(trimmed_end(text).len() as int),
        forall|i: int|
            trimmed_end(text).len() <= i < text.len() ==> is_white_space(#[trigger] text[i]),
    decreases text.len(),
{
    if text.len() > 0 && is_white_space(text.last()) {
        let front = text.drop_last();
        lemma_trimmed_end_is_front(front);
        let kept = trimmed_end(text).len() as int;
        assert(front.take(kept) =~= text.take(kept));
        assert forall|i: int| kept <= i < text.len() implies is_white_space(#[trigger] text[i]) by {
            if i < front.len() {
                assert(is_white_space(front[i]));
            }
        }
    } else {
        assert(text.take(text.len() as int) =~= text);
    }
}

/// A trimmed text is the text itself, of which nothing but white space at its ends is
/// lost.
pub proof fn law_only_white_space_is_trimmed(text: Seq<char>)
    ensures
        exists|start: int| #[trigger] white_around(text, start, trimmed(text)),
{
    let start = lemma_trimmed_start_is_rest(text);
    let rest = trimmed_start(text);
    lemma_trimmed_end_is_front(rest);
    let inner = trimmed(text);
    assert forall|i: int| 0 <= i < inner.len() implies #[trigger] inner[i] == text[start + i] by {
        assert(inner[i] == rest[i]);
    }
    assert forall|i: int| start + inner.len() <= i < text.len() implies is_white_space(
        #[trigger] text[i],
    ) by {
        assert(is_white_space(rest[i - start]));
    }
    assert(white_around(text, start, inner));
}

proof fn lemma_component_after_slash(dir: Seq<char>, name: Seq<char>, windows: bool)
    requires
        is_one_name(name),
    ensures
        component_of(dir.push('/') + name, windows) == Some(name),
{
    let path = dir.push('/') + name;
    lemma_last_separator(path, windows);
    let at = last_separator(path, windows);
    assert(path[dir.len() as int] == '/');
    if at > dir.len() {
        assert(path[at] == name[at - dir.len() - 1]);
    }
    assert(at == dir.len());
    assert(path.skip(at + 1) =~= name);
}

/// Whether `name` is the name of something in a directory, on every system.
pub open spec fn is_one_name(name: Seq<char>) -> bool {
    &&& name.len() > 0
    &&& forall|i: int| 0 <= i < name.len() ==> #[trigger] name[i] != '/' && name[i] != '\\'
    &&& name != "."@
    &&& name != ".."@
}

/// The file name of a path is what follows its last slash, on every system, where that
/// is a name; a path that begins with two separators may be read otherwise on Windows.
pub proof fn law_file_name_follows_last_slash(
    dir: Seq<char>,
    name: Seq<char>,
    found: Option<Seq<char>>,
)
    requires
        is_one_name(name),
        !begins_with_two(dir.push('/') + name),
        is_final_component(dir.push('/') + name, found),
    ensures
        found == Some(name),
{
    let path = dir.push('/') + name;
    lemma_component_after_slash(dir, name, false);
    lemma_component_after_slash(dir, name, true);
    if without_drive(path) != path {
        assert(dir.len() >= 2) by {
            if dir.len() == 1 {
                assert(path[1] == '/');
            } else if dir.len() == 0 {
                assert(path[0] == '/');
            }
        }
        lemma_component_after_slash(dir.skip(2), name, true);
        assert(path.skip(2) =~= dir.skip(2).push('/') + name);
    }
}

proof fn lemma_last_index(text: Seq<char>, c: char)
    ensures
        -1 <= last_index(text, c) < text.len(),
        last_index(text, c) >= 0 ==> text[last_index(text, c)] == c,
        forall|i: int| last_index(text, c) < i < text.len() ==> #[trigger] text[i] != c,
    decreases text.len(),
{
    if text.len() > 0 && text.last() != c {
        let rest = text.drop_last();
        lemma_last_index(rest, c);
        assert forall|i: int| last_index(text, c) < i < text.len() implies #[trigger] text[i]
            != c by {
            if i < rest.len() {
                assert(rest[i] != c);
            }
        }
    }
}

/// The stem of a name goes up to its last dot, and is the whole name where there is no
/// dot but at its start.
pub proof fn law_stem_goes_to_last_dot(stem: Seq<char>, extension: Seq<char>)
    requires
        stem.len() > 0,
        forall|i: int| 0 <= i < extension.len() ==> #[trigger] extension[i] != '.',
    ensures
        stem_of(stem.push('.') + extension) == stem,
        (forall|i: int| 0 < i < stem.len() ==> #[trigger] stem[i] != '.') ==> stem_of(stem) == stem,
{
    let name = stem.push('.') + extension;
    let dot = last_index(name, '.');
    lemma_last_index(name, '.');
    assert(name[stem.len() as int] == '.');
    if dot > stem.len() {
        assert(name[dot] == extension[dot - stem.len() - 1]);
    }
    assert(name.take(dot) =~= stem);
    lemma_last_index(stem, '.');
}

/// The stem of a path is that of the name behind its last slash, on every system.
pub proof fn law_path_stem_is_name_stem(
    dir: Seq<char>,
    name: Seq<char>,
    found: Option<Seq<char>>,
)
    requires
        is_one_name(name),
        !begins_with_two(dir.push('/') + name),
        is_final_stem(dir.push('/') + name, found),
    ensures
        found == Some(stem_of(name)),
{
    let path = dir.push('/') + name;
    let final_name = choose|n: Option<Seq<char>>| #[trigger]
        is_final_component(path, n) && found == match n {
            Some(part) => Some(stem_of(part)),
            None => None,
        };
    law_file_name_follows_last_slash(dir, name, final_name);
}

} // verus!
