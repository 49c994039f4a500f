//! Names and messages for the documents that the embedded backend reads from a
//! cache of its own.
#[allow(unused_imports)]
use crate::standard::{default_hash, hash_text};
#[allow(unused_imports)]
use crate::text::{
    after_last, chars_of, decimal, decimal_text, hex_padded, hex_text, hex_value, is_decimal, joined,
    law_after_last_is_last, law_decimal_reads_back, law_hex_digits, law_hex_distinguishes,
    law_hex_reads_back, lemma_u64_fits_hex, occurs_at, opt_text, text_after_last,
};
use vstd::prelude::*;

verus! {

/// Bytes in the unit in which sizes are shown.
pub const MIB: u64 = 1_048_576;

/// Whether `c` is a letter of ASCII.
pub open spec fn is_ascii_letter(c: char) -> bool {
    ('A' <= c && c <= 'Z') || ('a' <= c && c <= 'z')
}

/// Whether `c` is a letter or a digit of ASCII.
pub open spec fn is_ascii_alnum(c: char) -> bool {
    ('0' <= c && c <= '9') || is_ascii_letter(c)
}

/// Whether `c` may stand in the name of a cached document.
pub open spec fn is_safe(c: char) -> bool {
    is_ascii_alnum(c) || c == '.' || c == '_' || c == '-'
}

/// Whether `name` is a file name in itself: it has no separator, and it is neither
/// of the names that stand for a directory.
pub open spec fn is_plain_name(name: Seq<char>) -> bool {
    &&& name.len() > 0
    &&& forall|i: int| 0 <= i < name.len() ==> is_safe(#[trigger] name[i])
    &&& name != "."@
    &&& name != ".."@
}

/// `c` where it is safe, else an underscore.
pub open spec fn made_safe(c: char) -> char {
    if is_safe(c) {
        c
    } else {
        '_'
    }
}

/// `raw` with an underscore for each encoded space.
pub open spec fn spaces_replaced(raw: Seq<char>) -> Seq<char>
    decreases raw.len(),
{
    if raw.len() == 0 {
        Seq::empty()
    } else if raw.len() >= 3 && raw[0] == '%' && raw[1] == '2' && raw[2] == '0' {
        seq!['_'] + spaces_replaced(raw.skip(3))
    } else {
        seq![raw[0]] + spaces_replaced(raw.skip(1))
    }
}

/// The part of a document URI that names the document.
pub open spec fn raw_name(uri: Seq<char>) -> Seq<char> {
    match after_last(uri, "%2F"@) {
        Some(name) => name,
        None => match after_last(uri, "%2f"@) {
            Some(name) => name,
            None => match after_last(uri, "/"@) {
                Some(name) => name,
                None => "android-input.bin"@,
            },
        },
    }
}

/// The name of a document, fit for a file name.
pub open spec fn safe_name(uri: Seq<char>) -> Seq<char> {
    spaces_replaced(raw_name(uri)).map_values(|c: char| made_safe(c))
}

/// The file name under which the copy of a document with the given hash is kept.
pub open spec fn hashed_name(hash: u64, uri: Seq<char>) -> Seq<char> {
    hex_padded(hash as nat, 16) + "-"@ + safe_name(uri)
}

/// The file name under which the copy of a document is kept.
pub open spec fn cache_name(uri: Seq<char>) -> Seq<char> {
    hashed_name(default_hash(uri), uri)
}

fn safe_char(c: char) -> (res: char)
    ensures
        res == made_safe(c),
{
    if ('0' <= c && c <= '9') || ('A' <= c && c <= 'Z') || ('a' <= c && c <= 'z') || c == '.' || c
        == '_' || c == '-' {
        c
    } else {
        '_'
    }
}

fn replace_spaces(raw: &Vec<char>) -> (res: Vec<char>)
    ensures
        res@ == spaces_replaced(raw@),
{
    let mut res: Vec<char> = Vec::new();
    let total: usize = raw.len();
    let mut i: usize = 0;
    assert(raw@.skip(0) =~= raw@);
    while i < total
        invariant
            i <= total == raw@.len(),
            spaces_replaced(raw@) == res@ + spaces_replaced(raw@.skip(i as int)),
        decreases total - i,
    {
        let ghost rest = raw@.skip(i as int);
        let ghost before = res@;
        if total - i >= 3 && raw[i] == '%' && raw[i + 1] == '2' && raw[i + 2] == '0' {
            res.push('_');
            assert(rest.skip(3) =~= raw@.skip(i + 3));
            assert(before + (seq!['_'] + spaces_replaced(rest.skip(3))) =~= res@ + spaces_replaced(
                rest.skip(3),
            ));
            i += 3;
        } else {
            res.push(raw[i]);
            assert(rest.skip(1) =~= raw@.skip(i + 1));
            assert(before + (seq![rest[0]] + spaces_replaced(rest.skip(1))) =~= res@
                + spaces_replaced(rest.skip(1)));
            i += 1;
        }
    }
    assert(res@ + spaces_replaced(raw@.skip(i as int)) =~= res@);
    res
}

/// The part of `uri` that names the document.
pub fn document_name(uri: &str) -> (name: String)
    ensures
        name@ == raw_name(uri@),
{
    let chars = chars_of(uri);
    if let Some(name) = text_after_last(&chars, "%2F") {
        return name;
    }
    if let Some(name) = text_after_last(&chars, "%2f") {
        return name;
    }
    if let Some(name) = text_after_last(&chars, "/") {
        return name;
    }
    "android-input.bin".to_owned()
}

/// The name of the document behind `uri`, fit for a file name.
pub fn safe_document_name(uri: &str) -> (name: String)
    ensures
        name@ == safe_name(uri@),
{
    let raw = document_name(uri);
    let replaced = replace_spaces(&chars_of(raw.as_str()));
    let ghost wanted = replaced@.map_values(|c: char| made_safe(c));
    let mut name = String::new();
    let mut i: usize = 0;
    while i < replaced.len()
        invariant
            i <= replaced@.len(),
            wanted == replaced@.map_values(|c: char| made_safe(c)),
            name@ == wanted.take(i as int),
        decreases replaced@.len() - i,
    {
        name.push(safe_char(replaced[i]));
        i += 1;
        assert(name@ =~= wanted.take(i as int));
    }
    assert(wanted.take(i as int) =~= wanted);
    name
}

/// The file name under which the copy of the document behind `uri` is kept, where
/// `hash` is the hash of the URI.
pub fn hashed_file_name(hash: u64, uri: &str) -> (name: String)
    ensures
        name@ == hashed_name(hash, uri@),
{
    let mut name = hex_text(hash, 16);
    name.append("-");
    name.append(safe_document_name(uri).as_str());
    name
}

/// The file name under which the copy of the document behind `uri` is kept.
pub fn cache_file_name(uri: &str) -> (name: String)
    ensures
        name@ == cache_name(uri@),
{
    hashed_file_name(hash_text(uri), uri)
}

/// How far a copy has come, in percent of `total`; the last percent is kept back
/// for the work that follows.
pub open spec fn percent_of(copied: u64, total: u64) -> int {
    let scaled = if copied * 100 > u64::MAX {
        u64::MAX as int
    } else {
        copied * 100
    };
    if scaled / total as int > 99 {
        99
    } else {
        scaled / total as int
    }
}

/// The percentage to report after `copied` bytes, if it has grown past `last`.
pub open spec fn due_percent(copied: u64, last: u64, size: Option<u64>) -> Option<u64> {
    match size {
        Some(total) => if total > 0 && percent_of(copied, total) > last {
            Some(percent_of(copied, total) as u64)
        } else {
            None
        },
        None => None,
    }
}

/// The percentage to report after `copied` bytes of a document of the given size,
/// where `last` is what was reported before.
pub fn progress_percent(copied: u64, last: u64, size: Option<u64>) -> (res: Option<u64>)
    ensures
        res == due_percent(copied, last, size),
{
    match size {
        Some(total) => {
            if total == 0 {
                return None;
            }
            let scaled: u64 = match copied.checked_mul(100) {
                Some(scaled) => scaled,
                None => u64::MAX,
            };
            let share: u64 = scaled / total;
            let percent: u64 = if share > 99 {
                99
            } else {
                share
            };
            if percent > last {
                Some(percent)
            } else {
                None
            }
        },
        None => None,
    }
}

/// Said when a copy from an earlier operation is used again.
pub open spec fn reuse_line(name: Seq<char>) -> Seq<char> {
    "[ANDROID] Reusing native cached copy of "@ + name + ": 99%. Starting NSCB processing..."@
}

/// Said before a document is copied.
pub open spec fn prepare_line(name: Seq<char>) -> Seq<char> {
    "[ANDROID] Preparing "@ + name + " with native I/O"@
}

/// Said while a document is copied.
pub open spec fn progress_line(percent: u64, copied: u64, total: u64) -> Seq<char> {
    "[ANDROID] Native preparation: "@ + decimal(percent as nat) + "% ("@ + decimal(
        (copied / MIB) as nat,
    ) + " / "@ + decimal((total / MIB) as nat) + " MiB)"@
}

/// Said when a document has been copied.
pub open spec fn complete_line(copied: u64) -> Seq<char> {
    "[ANDROID] Native preparation complete: 99% ("@ + decimal((copied / MIB) as nat)
        + " MiB). Starting NSCB processing..."@
}

pub(crate) fn reuse_text(name: &str) -> (line: String)
    ensures
        line@ == reuse_line(name@),
{
    let mut line = joined("[ANDROID] Reusing native cached copy of ", name);
    line.append(": 99%. Starting NSCB processing...");
    line
}

pub(crate) fn prepare_text(name: &str) -> (line: String)
    ensures
        line@ == prepare_line(name@),
{
    let mut line = joined("[ANDROID] Preparing ", name);
    line.append(" with native I/O");
    line
}

pub(crate) fn progress_text(percent: u64, copied: u64, total: u64) -> (line: String)
    ensures
        line@ == progress_line(percent, copied, total),
{
    let mut line = joined("[ANDROID] Native preparation: ", decimal_text(percent).as_str());
    line.append("% (");
    line.append(decimal_text(copied / MIB).as_str());
    line.append(" / ");
    line.append(decimal_text(total / MIB).as_str());
    line.append(" MiB)");
    line
}

pub(crate) fn complete_text(copied: u64) -> (line: String)
    ensures
        line@ == complete_line(copied),
{
    let mut line = joined(
        "[ANDROID] Native preparation complete: 99% (",
        decimal_text(copied / MIB).as_str(),
    );
    line.append(" MiB). Starting NSCB processing...");
    line
}

/// Documents whose URIs have different hashes are kept under different names.
pub proof fn law_cache_names_differ(a: Seq<char>, b: Seq<char>)
    requires
        default_hash(a) != default_hash(b),
    ensures
        cache_name(a) != cache_name(b),
{
    let x = hex_padded(default_hash(a) as nat, 16);
    let y = hex_padded(default_hash(b) as nat, 16);
    law_hex_digits(default_hash(a) as nat, 16);
    law_hex_digits(default_hash(b) as nat, 16);
    lemma_u64_fits_hex(default_hash(a));
    lemma_u64_fits_hex(default_hash(b));
    if cache_name(a) == cache_name(b) {
        assert(cache_name(a).take(16) =~= x);
        assert(cache_name(b).take(16) =~= y);
        law_hex_distinguishes(default_hash(a) as nat, default_hash(b) as nat, 16);
    }
}

/// The name of a cached copy is made of letters, digits, dots, underscores and
/// hyphens only, and begins with sixteen digits and a hyphen: it names a file in the
/// cache itself, whatever the URI.
pub proof fn law_cache_name_is_plain(uri: Seq<char>)
    ensures
        is_plain_name(cache_name(uri)),
        cache_name(uri).len() == 17 + safe_name(uri).len(),
{
    let digits = hex_padded(default_hash(uri) as nat, 16);
    law_hex_digits(default_hash(uri) as nat, 16);
    reveal_strlit("-");
    reveal_strlit(".");
    reveal_strlit("..");
    let name = cache_name(uri);
    assert(name.len() != "."@.len() && name.len() != ".."@.len());
    assert forall|i: int| 0 <= i < name.len() implies is_safe(#[trigger] name[i]) by {
        if i < 16 {
            assert(name[i] == digits[i]);
        } else if i == 16 {
            assert(name[i] == '-');
        } else {
            assert(name[i] == safe_name(uri)[i - 17]);
        }
    }
}

/// The percentage never falls while more is copied, and never reaches a hundred.
pub proof fn law_percent_grows(copied: u64, later: u64, total: u64)
    requires
        copied <= later,
        total > 0,
    ensures
        0 <= percent_of(copied, total) <= percent_of(later, total) <= 99,
{
    let t = total as int;
    let a = if copied * 100 > u64::MAX {
        u64::MAX as int
    } else {
        copied * 100
    };
    let b = if later * 100 > u64::MAX {
        u64::MAX as int
    } else {
        later * 100
    };
    assert(0 <= a / t <= b / t) by (nonlinear_arith)
        requires
            0 <= a <= b,
            t > 0,
    ;
}

proof fn lemma_after_last_of_three(head: Seq<char>, pattern: Seq<char>, name: Seq<char>)
    requires
        pattern.len() > 0,
        forall|i: int| 0 < i < pattern.len() ==> #[trigger] pattern[i] != pattern[0],
        forall|at: int| !#[trigger] occurs_at(name, pattern, at),
    ensures
        after_last(head + pattern + name, pattern) == Some(name),
{
    let uri = head + pattern + name;
    let start = head.len() as int;
    assert(uri.subrange(start, start + pattern.len()) =~= pattern);
    assert(occurs_at(uri, pattern, start));
    law_after_last_is_last(uri, pattern);
    let rest = after_last(uri, pattern)->0;
    let at = choose|at: int|
        {
            &&& #[trigger] occurs_at(uri, pattern, at)
            &&& rest == uri.skip(at + pattern.len())
            &&& forall|later: int| at < later ==> !#[trigger] occurs_at(uri, pattern, later)
        };
    if at > start {
        assert(uri.subrange(at, at + pattern.len())[0] == uri[at]);
        if at < start + pattern.len() {
            assert(uri[at] == pattern[at - start]);
        } else {
            let from = at - start - pattern.len();
            assert(name.subrange(from, from + pattern.len()) =~= uri.subrange(
                at,
                at + pattern.len(),
            ));
            assert(occurs_at(name, pattern, from));
        }
    }
    assert(uri.skip(start + pattern.len()) =~= name);
}

proof fn lemma_after_last_of_none(uri: Seq<char>, pattern: Seq<char>)
    requires
        forall|at: int| !#[trigger] occurs_at(uri, pattern, at),
    ensures
        after_last(uri, pattern) is None,
{
    law_after_last_is_last(uri, pattern);
}

/// Whether `pattern` stands nowhere in `text`.
pub open spec fn is_without(text: Seq<char>, pattern: Seq<char>) -> bool {
    forall|at: int| !#[trigger] occurs_at(text, pattern, at)
}

/// A document is called by what follows the last encoded slash of its URI.
pub proof fn law_document_is_called_by_its_last_part(head: Seq<char>, name: Seq<char>)
    requires
        is_without(name, "%2F"@),
    ensures
        raw_name(head + "%2F"@ + name) == name,
{
    reveal_strlit("%2F");
    lemma_after_last_of_three(head, "%2F"@, name);
}

/// Where a URI has no slash that is encoded with a capital letter, the document is called
/// by what follows the last one that is encoded with a small letter.
pub proof fn law_document_is_called_by_its_last_part_in_small_letters(
    head: Seq<char>,
    name: Seq<char>,
)
    requires
        is_without(name, "%2f"@),
        is_without(head + "%2f"@ + name, "%2F"@),
    ensures
        raw_name(head + "%2f"@ + name) == name,
{
    reveal_strlit("%2f");
    lemma_after_last_of_none(head + "%2f"@ + name, "%2F"@);
    lemma_after_last_of_three(head, "%2f"@, name);
}

/// Where a URI has no encoded slash, the document is called by what follows the last plain
/// one.
pub proof fn law_document_is_called_by_its_last_plain_part(head: Seq<char>, name: Seq<char>)
    requires
        is_without(name, "/"@),
        is_without(head + "/"@ + name, "%2F"@),
        is_without(head + "/"@ + name, "%2f"@),
    ensures
        raw_name(head + "/"@ + name) == name,
{
    reveal_strlit("/");
    lemma_after_last_of_none(head + "/"@ + name, "%2F"@);
    lemma_after_last_of_none(head + "/"@ + name, "%2f"@);
    lemma_after_last_of_three(head, "/"@, name);
}

/// A document whose URI has no slash of any kind has a name that stands in for one.
pub proof fn law_document_without_parts(uri: Seq<char>)
    requires
        is_without(uri, "%2F"@),
        is_without(uri, "%2f"@),
        is_without(uri, "/"@),
    ensures
        raw_name(uri) == "android-input.bin"@,
{
    lemma_after_last_of_none(uri, "%2F"@);
    lemma_after_last_of_none(uri, "%2f"@);
    lemma_after_last_of_none(uri, "/"@);
}

/// An encoded space becomes one underscore, wherever it stands.
pub proof fn law_encoded_space_is_one_underscore(before: Seq<char>, after: Seq<char>)
    ensures
        spaces_replaced(before + "%20"@ + after) == spaces_replaced(before) + seq!['_']
            + spaces_replaced(after),
    decreases before.len(),
{
    reveal_strlit("%20");
    let text = before + "%20"@ + after;
    if before.len() == 0 {
        assert(text.skip(3) =~= after);
        assert(spaces_replaced(before) =~= Seq::<char>::empty());
    } else if before.len() >= 3 && before[0] == '%' && before[1] == '2' && before[2] == '0' {
        law_encoded_space_is_one_underscore(before.skip(3), after);
        assert(text.skip(3) =~= before.skip(3) + "%20"@ + after);
    } else {
        law_encoded_space_is_one_underscore(before.skip(1), after);
        assert(text.skip(1) =~= before.skip(1) + "%20"@ + after);
        assert(!(text[0] == '%' && text[1] == '2' && text[2] == '0'));
    }
    assert(spaces_replaced(text) =~= spaces_replaced(before) + seq!['_'] + spaces_replaced(after));
}

/// A name without encoded spaces keeps every character.
pub proof fn law_name_without_spaces_is_kept(name: Seq<char>)
    requires
        forall|at: int| !#[trigger] occurs_at(name, "%20"@, at),
    ensures
        spaces_replaced(name) == name,
    decreases name.len(),
{
    reveal_strlit("%20");
    if name.len() > 0 {
        let rest = name.skip(1);
        assert forall|at: int| !#[trigger] occurs_at(rest, "%20"@, at) by {
            if occurs_at(rest, "%20"@, at) {
                assert(rest.subrange(at, at + 3) =~= name.subrange(at + 1, at + 4));
                assert(occurs_at(name, "%20"@, at + 1));
            }
        }
        law_name_without_spaces_is_kept(rest);
        if name.len() >= 3 && name[0] == '%' && name[1] == '2' && name[2] == '0' {
            assert(name.subrange(0, 3) =~= "%20"@);
            assert(occurs_at(name, "%20"@, 0));
        }
        assert(seq![name[0]] + rest =~= name);
    }
}

/// Whether `c` is a letter or a digit of ASCII, a dot, an underscore or a hyphen.
pub open spec fn is_file_char(c: char) -> bool {
    ||| '0' <= c && c <= '9'
    ||| 'A' <= c && c <= 'Z'
    ||| 'a' <= c && c <= 'z'
    ||| c == '.'
    ||| c == '_'
    ||| c == '-'
}

/// The name of a copy has a character for each of the document's name once its encoded
/// spaces are gone: the same where it is fit for a file name, else an underscore.
pub proof fn law_unfit_characters_become_underscores(uri: Seq<char>)
    ensures
        safe_name(uri).len() == spaces_replaced(raw_name(uri)).len(),
        forall|i: int|
            0 <= i < safe_name(uri).len() ==> #[trigger] safe_name(uri)[i] == if is_file_char(
                spaces_replaced(raw_name(uri))[i],
            ) {
                spaces_replaced(raw_name(uri))[i]
            } else {
                '_'
            },
{
    let raw = spaces_replaced(raw_name(uri));
    assert forall|i: int| 0 <= i < safe_name(uri).len() implies #[trigger] safe_name(uri)[i]
        == if is_file_char(raw[i]) {
        raw[i]
    } else {
        '_'
    } by {
        assert(is_safe(raw[i]) == is_file_char(raw[i]));
        assert(safe_name(uri)[i] == made_safe(raw[i]));
    }
}

/// The file name of a copy is the hash of the whole URI, to be read from sixteen
/// hexadecimal digits, a hyphen, and the name of the document.
pub proof fn law_cache_name_holds_hash_and_name(hash: u64, uri: Seq<char>)
    ensures
        hashed_name(hash, uri).len() == 17 + safe_name(uri).len(),
        hex_value(hashed_name(hash, uri).take(16)) == hash,
        hashed_name(hash, uri)[16] == '-',
        hashed_name(hash, uri).skip(17) == safe_name(uri),
        cache_name(uri).len() == 17 + safe_name(uri).len(),
        hex_value(cache_name(uri).take(16)) == default_hash(uri),
        cache_name(uri)[16] == '-',
        cache_name(uri).skip(17) == safe_name(uri),
{
    lemma_hashed_name(hash, uri);
    lemma_hashed_name(default_hash(uri), uri);
}

proof fn lemma_hashed_name(hash: u64, uri: Seq<char>)
    ensures
        hashed_name(hash, uri).len() == 17 + safe_name(uri).len(),
        hex_value(hashed_name(hash, uri).take(16)) == hash,
        hashed_name(hash, uri)[16] == '-',
        hashed_name(hash, uri).skip(17) == safe_name(uri),
{
    reveal_strlit("-");
    law_hex_digits(hash as nat, 16);
    lemma_u64_fits_hex(hash);
    law_hex_reads_back(hash as nat, 16);
    assert(hashed_name(hash, uri).take(16) =~= hex_padded(hash as nat, 16));
    assert(hashed_name(hash, uri).skip(17) =~= safe_name(uri));
}

/// Whether `percent` is the whole percentage that `copied` is of `total`, at most 99.
/// A hundred times more than can be counted is taken for the most that can.
pub open spec fn is_share(percent: int, copied: int, total: int) -> bool {
    let scaled = if copied * 100 <= 0xffff_ffff_ffff_ffff {
        copied * 100
    } else {
        0xffff_ffff_ffff_ffff
    };
    &&& 0 <= percent <= 99
    &&& percent * total <= scaled
    &&& percent < 99 ==> scaled < (percent + 1) * total
}

proof fn lemma_share_is_one(p: int, q: int, copied: int, total: int)
    requires
        is_share(p, copied, total),
        is_share(q, copied, total),
        total > 0,
    ensures
        p == q,
{
    assert(!(p < q)) by (nonlinear_arith)
        requires
            p < 99 ==> q * total < (p + 1) * total,
            q <= 99,
            total > 0,
    ;
    assert(!(q < p)) by (nonlinear_arith)
        requires
            q < 99 ==> p * total < (q + 1) * total,
            p <= 99,
            total > 0,
    ;
}

/// What is reported after some bytes of a document is the share that they are of it. It
/// is reported where it is more than was reported before, and only then; of a document
/// of unknown size, or of none, nothing is reported.
pub proof fn law_report_is_the_share(copied: u64, last: u64, size: Option<u64>)
    ensures
        size is None || size == Some(0u64) ==> due_percent(copied, last, size) is None,
        due_percent(copied, last, size) matches Some(percent) ==> {
            &&& percent > last
            &&& is_share(percent as int, copied as int, size->0 as int)
        },
        due_percent(copied, last, size) is None && size is Some && size->0 > 0 ==> forall|p: int|
            #[trigger] is_share(p, copied as int, size->0 as int) ==> p <= last,
{
    match size {
        Some(total) => {
            if total > 0 {
                let t = total as int;
                let scaled = if copied * 100 > u64::MAX {
                    u64::MAX as int
                } else {
                    copied * 100
                };
                let share = scaled / t;
                assert(share * t <= scaled < (share + 1) * t && 0 <= share) by (nonlinear_arith)
                    requires
                        share == scaled / t,
                        t > 0,
                        scaled >= 0,
                ;
                let percent = percent_of(copied, total);
                if share > 99 {
                    assert(99 * t <= scaled) by (nonlinear_arith)
                        requires
                            share > 99,
                            share * t <= scaled,
                            t > 0,
                    ;
                }
                assert(is_share(percent, copied as int, t));
                assert forall|p: int| #[trigger] is_share(p, copied as int, t) implies p
                    == percent by {
                    lemma_share_is_one(p, percent, copied as int, t);
                }
            }
        },
        None => {},
    }
}

/// Whether `line` reports `percent` percent, with `copied` and `total` bytes in whole
/// mebibytes.
pub open spec fn is_progress_line(line: Seq<char>, percent: int, copied: int, total: int) -> bool {
    exists|p: Seq<char>, c: Seq<char>, t: Seq<char>|
        {
            &&& #[trigger] is_decimal(p, percent)
            &&& #[trigger] is_decimal(c, copied / 1_048_576)
            &&& #[trigger] is_decimal(t, total / 1_048_576)
            &&& line == "[ANDROID] Native preparation: "@ + p + "% ("@ + c + " / "@ + t
                + " MiB)"@
        }
}

/// Whether `line` says that a copy of `copied` bytes, in whole mebibytes, is complete.
pub open spec fn is_complete_line(line: Seq<char>, copied: int) -> bool {
    exists|c: Seq<char>| #[trigger]
        is_decimal(c, copied / 1_048_576) && line
            == "[ANDROID] Native preparation complete: 99% ("@ + c
            + " MiB). Starting NSCB processing..."@
}

/// The lines about a document tell what they are given: its name, the percentage and
/// the sizes.
pub proof fn law_lines_tell_what_happens(name: Seq<char>, percent: u64, copied: u64, total: u64)
    ensures
        reuse_line(name) == "[ANDROID] Reusing native cached copy of "@ + name
            + ": 99%. Starting NSCB processing..."@,
        prepare_line(name) == "[ANDROID] Preparing "@ + name + " with native I/O"@,
        is_progress_line(
            progress_line(percent, copied, total),
            percent as int,
            copied as int,
            total as int,
        ),
        is_complete_line(complete_line(copied), copied as int),
{
    law_decimal_reads_back(percent as nat);
    law_decimal_reads_back((copied / MIB) as nat);
    law_decimal_reads_back((total / MIB) as nat);
    assert(is_decimal(decimal(percent as nat), percent as int));
    assert(is_decimal(decimal((copied / MIB) as nat), copied as int / 1_048_576));
    assert(is_decimal(decimal((total / MIB) as nat), total as int / 1_048_576));
}

} // verus!
