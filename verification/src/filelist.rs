//! The list of files that the backend is given to verify, and where it keeps the
//! result of an earlier run.
#[allow(unused_imports)]
use crate::documents::is_ascii_alnum;
#[allow(unused_imports)]
use crate::standard::{
    alphanumeric, begins_with_two, is_final_stem, is_one_name, law_path_stem_is_name_stem,
    law_stem_goes_to_last_dot, path_file_stem,
};
#[allow(unused_imports)]
use crate::text::{joined, opt_text, texts};
use vstd::prelude::*;

verus! {

/// Whether `c` is a letter or a digit: of ASCII, or else as Unicode has it.
pub open spec fn is_list_alnum(c: char) -> bool {
    if (c as u32) < 128 {
        is_ascii_alnum(c)
    } else {
        alphanumeric(c)
    }
}

/// `c` where it may stand in the name of a list, else an underscore.
pub open spec fn list_char(c: char) -> char {
    if is_list_alnum(c) || c == '-' || c == '_' {
        c
    } else {
        '_'
    }
}

/// The name of a list for a file with the given stem; a path may have none.
pub open spec fn list_stem(stem: Option<Seq<char>>) -> Seq<char> {
    match stem {
        Some(s) => s,
        None => "verify"@,
    }.map_values(|c: char| list_char(c))
}

/// Whether `c` separates directories on some system.
pub open spec fn is_separator(c: char) -> bool {
    c == '/' || c == '\\'
}

/// What is written and what is removed before files are verified.
pub struct VerifyFilelist {
    /// The name of the list in the tools directory.
    pub list_name: String,
    /// What the list holds.
    pub contents: String,
    /// The result of an earlier run, which is removed: its path below the tools
    /// directory, part by part.
    pub cached: Vec<String>,
}

/// What a `VerifyFilelist` stands for.
pub struct FilelistView {
    pub list_name: Seq<char>,
    pub contents: Seq<char>,
    pub cached: Seq<Seq<char>>,
}

impl View for VerifyFilelist {
    type V = FilelistView;

    open spec fn view(&self) -> FilelistView {
        FilelistView {
            list_name: self.list_name@,
            contents: self.contents@,
            cached: texts(self.cached@),
        }
    }
}

/// The list for the file at `target_path`, whose stem is given.
pub open spec fn filelist_for(stem: Option<Seq<char>>, target_path: Seq<char>) -> FilelistView {
    FilelistView {
        list_name: list_stem(stem) + "-vflist.txt"@,
        contents: target_path.push('\n'),
        cached: seq!["INFO"@, "MASSVERIFY"@, list_stem(stem) + "-vflist-verify.txt"@],
    }
}

/// The name of a list for a file with the given stem. No separator stands in it.
fn safe_stem(stem: &str) -> (res: String)
    ensures
        res@ == list_stem(Some(stem@)),
        forall|i: int| 0 <= i < res@.len() ==> !is_separator(#[trigger] res@[i]),
{
    let ghost wanted = list_stem(Some(stem@));
    let mut res = String::new();
    for c in it: stem.chars()
        invariant
            it.seq() == stem@,
            wanted == list_stem(Some(stem@)),
            res@ == wanted.take(it.index() as int),
            forall|i: int| 0 <= i < res@.len() ==> !is_separator(#[trigger] res@[i]),
    {
        if c.is_alphanumeric() || c == '-' || c == '_' {
            res.push(c);
        } else {
            res.push('_');
        }
        assert(res@ =~= wanted.take(it.index() + 1));
    }
    assert(wanted.take(stem@.len() as int) =~= wanted);
    res
}

/// Prepares the list for the file at `target_path`, whose stem is given.
pub fn filelist(stem: Option<String>, target_path: &str) -> (list: VerifyFilelist)
    ensures
        list@ == filelist_for(opt_text(stem), target_path@),
        forall|i: int| 0 <= i < list@.list_name.len() ==> !is_separator(#[trigger] list@.list_name[i]),
        forall|i: int|
            0 <= i < list@.cached[2].len() ==> !is_separator(#[trigger] list@.cached[2][i]),
        list.contents@.len() == target_path@.len() + 1,
        list.contents@.last() == '\n',
        list.contents@.drop_last() == target_path@,
{
    let safe = match stem {
        Some(stem) => safe_stem(stem.as_str()),
        None => safe_stem("verify"),
    };
    let list_name = joined(safe.as_str(), "-vflist.txt");
    let cached_name = joined(safe.as_str(), "-vflist-verify.txt");
    let contents = joined(target_path, "\n");
    let mut cached: Vec<String> = Vec::new();
    cached.push("INFO".to_owned());
    cached.push("MASSVERIFY".to_owned());
    cached.push(cached_name);
    proof {
        reveal_strlit("\n");
        reveal_strlit("-vflist.txt");
        reveal_strlit("-vflist-verify.txt");
        assert(contents@ =~= target_path@.push('\n'));
        assert(texts(cached@) =~= filelist_for(opt_text(stem), target_path@).cached);
    }
    assert(contents@.drop_last() =~= target_path@);
    VerifyFilelist { list_name, contents, cached }
}

/// Whether `list` is the one for the file at `target_path`, as some system finds the name
/// of the file in the path.
pub open spec fn is_list_for(target_path: Seq<char>, list: VerifyFilelist) -> bool {
    exists|stem: Option<Seq<char>>| #[trigger]
        is_final_stem(target_path, stem) && list@ == filelist_for(stem, target_path)
}

/// Prepares the list for the file at `target_path`. The list is named after the file,
/// as the system that the library runs on finds it in the path.
pub fn create_verify_filelist(target_path: &str) -> (list: VerifyFilelist)
    ensures
        is_list_for(target_path@, list),
        forall|i: int| 0 <= i < list@.list_name.len() ==> !is_separator(#[trigger] list@.list_name[i]),
        forall|i: int|
            0 <= i < list@.cached[2].len() ==> !is_separator(#[trigger] list@.cached[2][i]),
        list.contents@.len() == target_path@.len() + 1,
        list.contents@.last() == '\n',
        list.contents@.drop_last() == target_path@,
{
    let stem = path_file_stem(target_path);
    filelist(stem, target_path)
}

/// The name of a list stays what it is if a list is made for it again.
pub proof fn law_list_name_is_stable(stem: Option<Seq<char>>)
    ensures
        list_stem(Some(list_stem(stem))) == list_stem(stem),
        stem matches Some(s) ==> list_stem(stem).len() == s.len(),
{
    assert(list_stem(Some(list_stem(stem))) =~= list_stem(stem));
}

/// The list holds the whole path of the file, a line feed, and nothing else, whatever
/// the list is called.
pub proof fn law_list_holds_the_whole_path(
    stem: Option<Seq<char>>,
    target_path: Seq<char>,
    list: VerifyFilelist,
)
    requires
        list@ == filelist_for(stem, target_path),
    ensures
        list.contents@.len() == target_path.len() + 1,
        list.contents@.last() == '\n',
        list.contents@.drop_last() == target_path,
{
    assert(list.contents@.drop_last() =~= target_path);
}

/// Whether `c` stands as it is in the name of a list: a letter or a digit, a hyphen or
/// an underscore.
pub open spec fn may_be_listed(c: char) -> bool {
    ||| 'a' <= c && c <= 'z'
    ||| 'A' <= c && c <= 'Z'
    ||| '0' <= c && c <= '9'
    ||| c == '-'
    ||| c == '_'
    ||| (c as u32 >= 128 && alphanumeric(c))
}

/// Whether `name` is `stem` character by character, with an underscore for each that may
/// not stand there, and then `tail`.
pub open spec fn is_named_after(name: Seq<char>, stem: Seq<char>, tail: Seq<char>) -> bool {
    &&& name.len() == stem.len() + tail.len()
    &&& name.skip(stem.len() as int) == tail
    &&& forall|i: int|
        0 <= i < stem.len() ==> #[trigger] name[i] == if may_be_listed(stem[i]) {
            stem[i]
        } else {
            '_'
        }
}

/// The list is named after the whole stem of its file, or after the word that stands in
/// for one; the result that is removed is the one that the backend keeps for that list.
pub proof fn law_list_is_named_after_the_file(
    stem: Option<Seq<char>>,
    target_path: Seq<char>,
    list: VerifyFilelist,
)
    requires
        list@ == filelist_for(stem, target_path),
    ensures
        stem matches Some(s) ==> is_named_after(list.list_name@, s, "-vflist.txt"@),
        stem is None ==> is_named_after(list.list_name@, "verify"@, "-vflist.txt"@),
        list.cached@.len() == 3,
        list.cached@[0]@ == "INFO"@,
        list.cached@[1]@ == "MASSVERIFY"@,
        list.cached@[2]@ == list.list_name@.take(list.list_name@.len() - 4) + "-verify.txt"@,
{
    reveal_strlit("-vflist.txt");
    reveal_strlit("-vflist-verify.txt");
    reveal_strlit("-verify.txt");
    let wanted = filelist_for(stem, target_path);
    let full = match stem {
        Some(s) => s,
        None => "verify"@,
    };
    let name = list.list_name@;
    assert(name.skip(full.len() as int) =~= "-vflist.txt"@);
    assert forall|i: int| 0 <= i < full.len() implies #[trigger] name[i] == if may_be_listed(
        full[i],
    ) {
        full[i]
    } else {
        '_'
    } by {
        assert(name[i] == list_char(full[i]));
    }
    assert(texts(list.cached@) == wanted.cached);
    assert(texts(list.cached@).len() == 3);
    assert(texts(list.cached@)[0] == list.cached@[0]@);
    assert(texts(list.cached@)[1] == list.cached@[1]@);
    assert(texts(list.cached@)[2] == list.cached@[2]@);
    assert(list.cached@[2]@ =~= name.take(name.len() - 4) + "-verify.txt"@);
}

/// The list for a path holds the path, and is named after the stem that the path ends in,
/// or after the word that stands in for one.
pub proof fn law_list_is_for_its_path(target_path: Seq<char>, list: VerifyFilelist)
    requires
        is_list_for(target_path, list),
    ensures
        list.contents@.len() == target_path.len() + 1,
        list.contents@.last() == '\n',
        list.contents@.drop_last() == target_path,
        exists|stem: Option<Seq<char>>| #[trigger]
            is_final_stem(target_path, stem) && is_named_after(
                list.list_name@,
                match stem {
                    Some(s) => s,
                    None => "verify"@,
                },
                "-vflist.txt"@,
            ),
{
    let stem = choose|stem: Option<Seq<char>>| #[trigger]
        is_final_stem(target_path, stem) && list@ == filelist_for(stem, target_path);
    law_list_holds_the_whole_path(stem, target_path, list);
    law_list_is_named_after_the_file(stem, target_path, list);
    assert(is_final_stem(target_path, stem));
}

/// For the file `stem.extension` in a directory, on whatever system, the list holds the
/// path as it was given and is named after `stem`.
pub proof fn law_list_for_a_file_in_a_directory(
    dir: Seq<char>,
    stem: Seq<char>,
    extension: Seq<char>,
    list: VerifyFilelist,
)
    requires
        stem.len() > 0,
        forall|i: int| 0 <= i < extension.len() ==> #[trigger] extension[i] != '.',
        is_one_name(stem.push('.') + extension),
        !begins_with_two(dir.push('/') + (stem.push('.') + extension)),
        is_list_for(dir.push('/') + (stem.push('.') + extension), list),
    ensures
        is_named_after(list.list_name@, stem, "-vflist.txt"@),
        list.contents@.drop_last() == dir.push('/') + (stem.push('.') + extension),
{
    let name = stem.push('.') + extension;
    let path = dir.push('/') + name;
    law_list_is_for_its_path(path, list);
    let found = choose|found: Option<Seq<char>>| #[trigger]
        is_final_stem(path, found) && is_named_after(
            list.list_name@,
            match found {
                Some(s) => s,
                None => "verify"@,
            },
            "-vflist.txt"@,
        );
    law_path_stem_is_name_stem(dir, name, found);
    law_stem_goes_to_last_dot(stem, extension);
}

} // verus!
