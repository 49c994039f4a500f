//! Text as a sequence of characters: the small operations on which names and
//! messages are built.
use vstd::prelude::*;

verus! {

/// The texts that a list of strings holds.
pub open spec fn texts(list: Seq<String>) -> Seq<Seq<char>> {
    Seq::new(list.len(), |i: int| list[i]@)
}

/// The text that an optional string holds.
pub open spec fn opt_text(value: Option<String>) -> Option<Seq<char>> {
    match value {
        Some(text) => Some(text@),
        None => None,
    }
}

/// Appending a string to a list appends its text.
pub proof fn lemma_texts_push(list: Seq<String>, item: String)
    ensures
        texts(list.push(item)) == texts(list).push(item@),
{
    assert(texts(list.push(item)) =~= texts(list).push(item@));
}

/// The characters of `text`, in order.
pub fn chars_of(text: &str) -> (chars: Vec<char>)
    ensures
        chars@ == text@,
{
    let mut chars: Vec<char> = Vec::new();
    for c in it: text.chars()
        invariant
            it.seq() == text@,
            chars@ == text@.take(it.index() as int),
    {
        assert(text@.take(it.index() + 1) =~= text@.take(it.index() as int).push(c));
        chars.push(c);
    }
    assert(text@.take(text@.len() as int) =~= text@);
    chars
}

/// Whether `text` holds the characters from `start` up to, not including, `end`.
pub open spec fn is_between(chars: Seq<char>, start: int, end: int, text: Seq<char>) -> bool {
    text == chars.subrange(start, end)
}

/// The text made of the characters from `start` up to, not including, `end`.
pub fn text_between(chars: &Vec<char>, start: usize, end: usize) -> (text: String)
    requires
        start <= end <= chars@.len(),
    ensures
        is_between(chars@, start as int, end as int, text@),
{
    let mut text = String::new();
    let mut i: usize = start;
    while i < end
        invariant
            start <= i <= end <= chars@.len(),
            text@ == chars@.subrange(start as int, i as int),
        decreases end - i,
    {
        assert(chars@.subrange(start as int, i + 1) =~= chars@.subrange(start as int, i as int).push(
            chars@[i as int],
        ));
        text.push(chars[i]);
        i += 1;
    }
    text
}

/// Whether two texts hold the same characters.
pub fn same_text(a: &str, b: &str) -> (same: bool)
    ensures
        same == (a@ == b@),
{
    a.to_owned() == b.to_owned()
}

/// `head` followed by `tail`.
pub fn joined(head: &str, tail: &str) -> (text: String)
    ensures
        text@ == head@ + tail@,
{
    let mut text = head.to_owned();
    text.append(tail);
    text
}

/// Whether `prefix` stands at the start of `text`.
pub open spec fn begins_with(text: Seq<char>, prefix: Seq<char>) -> bool {
    prefix.len() <= text.len() && text.take(prefix.len() as int) == prefix
}

/// Whether `text` begins with `prefix`.
pub fn starts_with(text: &str, prefix: &str) -> (res: bool)
    ensures
        res == begins_with(text@, prefix@),
{
    let chars = chars_of(text);
    let wanted = chars_of(prefix);
    if wanted.len() > chars.len() {
        return false;
    }
    occurs_here(&chars, &wanted, 0)
}

/// `c` in lower case where it is a letter of ASCII.
pub open spec fn ascii_lower(c: char) -> char {
    if 'A' <= c && c <= 'Z' {
        (c as u32 + 32) as char
    } else {
        c
    }
}

/// `text` with every ASCII letter in lower case.
pub open spec fn lowered(text: Seq<char>) -> Seq<char> {
    text.map_values(|c: char| ascii_lower(c))
}

fn lower_char(c: char) -> (res: char)
    ensures
        res == ascii_lower(c),
{
    if 'A' <= c && c <= 'Z' {
        let code: u8 = c as u8 + 32;
        code as char
    } else {
        c
    }
}

/// `text` with every ASCII letter in lower case.
pub fn lowercase(text: &str) -> (res: String)
    ensures
        res@ == lowered(text@),
{
    let mut res = String::new();
    for c in it: text.chars()
        invariant
            it.seq() == text@,
            res@ == lowered(text@).take(it.index() as int),
    {
        res.push(lower_char(c));
        assert(res@ =~= lowered(text@).take(it.index() + 1));
    }
    assert(lowered(text@).take(text@.len() as int) =~= lowered(text@));
    res
}

/// Whether `pattern` occurs in `text` at position `at`.
pub open spec fn occurs_at(text: Seq<char>, pattern: Seq<char>, at: int) -> bool {
    &&& 0 <= at <= text.len() - pattern.len()
    &&& text.subrange(at, at + pattern.len()) == pattern
}

fn occurs_here(text: &Vec<char>, pattern: &Vec<char>, at: usize) -> (res: bool)
    requires
        at + pattern@.len() <= text@.len(),
    ensures
        res == occurs_at(text@, pattern@, at as int),
        at == 0 ==> res == begins_with(text@, pattern@),
{
    let ghost window = text@.subrange(at as int, at + pattern@.len());
    assert(at == 0 ==> window =~= text@.take(pattern@.len() as int));
    let total: usize = text.len();
    let mut i: usize = 0;
    while i < pattern.len()
        invariant
            i <= pattern@.len(),
            at + pattern@.len() <= text@.len() == total,
            window == text@.subrange(at as int, at + pattern@.len()),
            forall|j: int| 0 <= j < i ==> window[j] == pattern@[j],
        decreases pattern@.len() - i,
    {
        if text[at + i] != pattern[i] {
            assert(window[i as int] != pattern@[i as int]);
            return false;
        }
        i += 1;
    }
    assert(window =~= pattern@);
    true
}

/// What follows the last occurrence of `pattern` that starts at `from` or before.
pub open spec fn after_last_until(text: Seq<char>, pattern: Seq<char>, from: int) -> Option<
    Seq<char>,
>
    decreases from + 1,
{
    if from < 0 {
        None
    } else if occurs_at(text, pattern, from) {
        Some(text.skip(from + pattern.len()))
    } else {
        after_last_until(text, pattern, from - 1)
    }
}

/// What follows the last occurrence of `pattern` in `text`.
pub open spec fn after_last(text: Seq<char>, pattern: Seq<char>) -> Option<Seq<char>> {
    after_last_until(text, pattern, text.len() - pattern.len())
}

/// The part of `text` behind the last occurrence of `pattern`, if there is one.
pub fn text_after_last(text: &Vec<char>, pattern: &str) -> (rest: Option<String>)
    ensures
        opt_text(rest) == after_last(text@, pattern@),
{
    let pattern_chars = chars_of(pattern);
    if pattern_chars.len() > text.len() {
        return None;
    }
    let total: usize = text.len();
    let mut at: usize = total - pattern_chars.len();
    loop
        invariant
            at + pattern_chars@.len() <= text@.len() == total,
            pattern_chars@ == pattern@,
            after_last(text@, pattern@) == after_last_until(text@, pattern@, at as int),
        decreases at,
    {
        if occurs_here(text, &pattern_chars, at) {
            let rest = text_between(text, at + pattern_chars.len(), total);
            assert(rest@ =~= text@.skip(at + pattern@.len()));
            return Some(rest);
        }
        if at == 0 {
            assert(after_last_until(text@, pattern@, -1) is None);
            return None;
        }
        at -= 1;
    }
}

/// The decimal digit for a number below ten.
pub open spec fn decimal_digit(n: nat) -> char {
    (48 + n) as char
}

/// A number in decimal, without leading zeros.
pub open spec fn decimal(n: nat) -> Seq<char>
    decreases n,
{
    if n < 10 {
        seq![decimal_digit(n)]
    } else {
        decimal(n / 10).push(decimal_digit(n % 10))
    }
}

/// Writes a number in decimal.
pub fn decimal_text(n: u64) -> (text: String)
    ensures
        text@ == decimal(n as nat),
    decreases n,
{
    let mut text = if n < 10 {
        String::new()
    } else {
        decimal_text(n / 10)
    };
    let digit: u8 = 48 + (n % 10) as u8;
    text.push(digit as char);
    assert(text@ =~= decimal(n as nat));
    text
}

/// The hexadecimal digit, in lower case, for a number below sixteen.
pub open spec fn hex_digit(n: nat) -> char {
    if n < 10 {
        (48 + n) as char
    } else {
        (87 + n) as char
    }
}

/// The last `width` hexadecimal digits of a number, with leading zeros.
pub open spec fn hex_padded(n: nat, width: nat) -> Seq<char>
    decreases width,
{
    if width == 0 {
        Seq::empty()
    } else {
        hex_padded(n / 16, (width - 1) as nat).push(hex_digit(n % 16))
    }
}

/// Writes the last `width` hexadecimal digits of a number, with leading zeros.
pub fn hex_text(n: u64, width: u8) -> (text: String)
    ensures
        text@ == hex_padded(n as nat, width as nat),
    decreases width,
{
    if width == 0 {
        return String::new();
    }
    let mut text = hex_text(n / 16, width - 1);
    let low: u8 = (n % 16) as u8;
    let digit: u8 = if low < 10 {
        48 + low
    } else {
        87 + low
    };
    text.push(digit as char);
    text
}

proof fn lemma_after_last_until(text: Seq<char>, pattern: Seq<char>, from: int)
    requires
        from <= text.len() - pattern.len(),
    ensures
        match after_last_until(text, pattern, from) {
            Some(rest) => exists|at: int|
                {
                    &&& at <= from
                    &&& #[trigger] occurs_at(text, pattern, at)
                    &&& rest == text.skip(at + pattern.len())
                    &&& forall|later: int|
                        at < later <= from ==> !#[trigger] occurs_at(text, pattern, later)
                },
            None => forall|at: int| at <= from ==> !#[trigger] occurs_at(text, pattern, at),
        },
    decreases from + 1,
{
    if from >= 0 && !occurs_at(text, pattern, from) {
        lemma_after_last_until(text, pattern, from - 1);
    }
}

/// What follows the last occurrence of a pattern is what follows an occurrence
/// behind which there is no other; there is nothing where the pattern does not
/// occur.
pub proof fn law_after_last_is_last(text: Seq<char>, pattern: Seq<char>)
    ensures
        match after_last(text, pattern) {
            Some(rest) => exists|at: int|
                {
                    &&& #[trigger] occurs_at(text, pattern, at)
                    &&& rest == text.skip(at + pattern.len())
                    &&& forall|later: int|
                        at < later ==> !#[trigger] occurs_at(text, pattern, later)
                },
            None => forall|at: int| !#[trigger] occurs_at(text, pattern, at),
        },
{
    let from = text.len() - pattern.len();
    lemma_after_last_until(text, pattern, from);
    match after_last(text, pattern) {
        Some(rest) => {
            let at = choose|at: int|
                {
                    &&& at <= from
                    &&& #[trigger] occurs_at(text, pattern, at)
                    &&& rest == text.skip(at + pattern.len())
                    &&& forall|later: int|
                        at < later <= from ==> !#[trigger] occurs_at(text, pattern, later)
                };
            assert(occurs_at(text, pattern, at));
        },
        None => {},
    }
}

/// Whether a number can be written with `width` hexadecimal digits.
pub open spec fn fits_hex(n: nat, width: nat) -> bool
    decreases width,
{
    if width == 0 {
        n == 0
    } else {
        fits_hex(n / 16, (width - 1) as nat)
    }
}

/// Different numbers are written differently in hexadecimal, where they fit.
pub proof fn law_hex_distinguishes(a: nat, b: nat, width: nat)
    requires
        fits_hex(a, width),
        fits_hex(b, width),
        hex_padded(a, width) == hex_padded(b, width),
    ensures
        a == b,
    decreases width,
{
    if width > 0 {
        let w = (width - 1) as nat;
        assert(hex_padded(a, width).drop_last() =~= hex_padded(a / 16, w));
        assert(hex_padded(b, width).drop_last() =~= hex_padded(b / 16, w));
        assert(hex_padded(a, width).last() == hex_digit(a % 16));
        assert(hex_padded(b, width).last() == hex_digit(b % 16));
        law_hex_distinguishes(a / 16, b / 16, w);
    }
}

pub(crate) proof fn lemma_u64_fits_hex(n: u64)
    ensures
        fits_hex(n as nat, 16),
{
    reveal_with_fuel(fits_hex, 17);
}

/// A number in hexadecimal has as many digits as were asked for, each of them one
/// of the sixteen.
pub proof fn law_hex_digits(n: nat, width: nat)
    ensures
        hex_padded(n, width).len() == width,
        forall|i: int|
            0 <= i < width ==> {
                let c = #[trigger] hex_padded(n, width)[i];
                ('0' <= c && c <= '9') || ('a' <= c && c <= 'f')
            },
    decreases width,
{
    if width > 0 {
        law_hex_digits(n / 16, (width - 1) as nat);
    }
}

/// Different numbers are written differently in decimal.
pub proof fn law_decimal_distinguishes(a: nat, b: nat)
    requires
        decimal(a) == decimal(b),
    ensures
        a == b,
    decreases a,
{
    lemma_decimal_len(a);
    lemma_decimal_len(b);
    assert(decimal(a).last() == decimal_digit(a % 10));
    assert(decimal(b).last() == decimal_digit(b % 10));
    if a >= 10 {
        lemma_decimal_len(a / 10);
        assert(b >= 10);
        assert(decimal(a).drop_last() =~= decimal(a / 10));
        assert(decimal(b).drop_last() =~= decimal(b / 10));
        law_decimal_distinguishes(a / 10, b / 10);
    } else if b >= 10 {
        lemma_decimal_len(b / 10);
    }
}

proof fn lemma_decimal_len(n: nat)
    ensures
        decimal(n).len() >= 1,
        n < 10 ==> decimal(n).len() == 1,
    decreases n,
{
    if n >= 10 {
        lemma_decimal_len(n / 10);
    }
}

/// The number that a row of decimal digits stands for.
pub open spec fn decimal_value(digits: Seq<char>) -> int
    decreases digits.len(),
{
    if digits.len() == 0 {
        0
    } else {
        decimal_value(digits.drop_last()) * 10 + (digits.last() as u32 - 48)
    }
}

/// Whether `text` is how people write the number `n`: decimal digits that stand for
/// it, with no zero before them.
pub open spec fn is_decimal(text: Seq<char>, n: int) -> bool {
    &&& text.len() > 0
    &&& forall|i: int| 0 <= i < text.len() ==> '0' <= #[trigger] text[i] && text[i] <= '9'
    &&& text.len() > 1 ==> text[0] != '0'
    &&& decimal_value(text) == n
}

/// Whoever reads a number that was written in decimal gets the number.
pub proof fn law_decimal_reads_back(n: nat)
    ensures
        is_decimal(decimal(n), n as int),
    decreases n,
{
    reveal_with_fuel(decimal_value, 2);
    if n < 10 {
        assert(decimal(n).drop_last() =~= Seq::<char>::empty());
    } else {
        let rest = decimal(n / 10);
        law_decimal_reads_back(n / 10);
        assert(decimal(n).drop_last() =~= rest);
        assert(decimal(n).last() == decimal_digit(n % 10));
        assert(rest[0] == decimal(n)[0]);
        if rest.len() == 1 {
            assert(rest.drop_last() =~= Seq::<char>::empty());
            assert(decimal_value(rest) == rest.last() as u32 - 48);
        }
    }
}

/// The number that a row of hexadecimal digits stands for.
pub open spec fn hex_value(digits: Seq<char>) -> int
    decreases digits.len(),
{
    if digits.len() == 0 {
        0
    } else {
        let c = digits.last();
        hex_value(digits.drop_last()) * 16 + if c <= '9' {
            c as u32 - 48
        } else {
            c as u32 - 87
        }
    }
}

/// Whoever reads a number that was written in hexadecimal, with as many digits as it
/// needs, gets the number.
pub proof fn law_hex_reads_back(n: nat, width: nat)
    requires
        fits_hex(n, width),
    ensures
        hex_value(hex_padded(n, width)) == n,
    decreases width,
{
    if width > 0 {
        let rest = hex_padded(n / 16, (width - 1) as nat);
        law_hex_reads_back(n / 16, (width - 1) as nat);
        assert(hex_padded(n, width).drop_last() =~= rest);
        assert(hex_padded(n, width).last() == hex_digit(n % 16));
    }
}

/// A text begins with a prefix where it has each of its characters in its place.
pub proof fn law_prefix_is_character_by_character(text: Seq<char>, prefix: Seq<char>)
    ensures
        begins_with(text, prefix) <==> {
            &&& prefix.len() <= text.len()
            &&& forall|i: int| 0 <= i < prefix.len() ==> #[trigger] text[i] == prefix[i]
        },
{
    if begins_with(text, prefix) {
        assert forall|i: int| 0 <= i < prefix.len() implies #[trigger] text[i] == prefix[i] by {
            assert(text.take(prefix.len() as int)[i] == text[i]);
        }
    }
    if prefix.len() <= text.len() && forall|i: int|
        0 <= i < prefix.len() ==> #[trigger] text[i] == prefix[i] {
        assert(text.take(prefix.len() as int) =~= prefix);
    }
}

/// Lower case changes the capital letters of ASCII into the small ones and nothing
/// else, each in its place.
pub proof fn law_lower_case_keeps_the_rest(text: Seq<char>)
    ensures
        lowered(text).len() == text.len(),
        forall|i: int|
            0 <= i < text.len() ==> (#[trigger] lowered(text)[i]) as u32 == if 65 <= text[i] as u32
                <= 90 {
                text[i] as u32 + 32
            } else {
                text[i] as int
            },
{
}

/// A pattern occurs where each of its characters does.
pub proof fn law_occurrence_is_character_by_character(
    text: Seq<char>,
    pattern: Seq<char>,
    at: int,
)
    ensures
        occurs_at(text, pattern, at) <==> {
            &&& 0 <= at
            &&& at + pattern.len() <= text.len()
            &&& forall|i: int| 0 <= i < pattern.len() ==> text[at + i] == #[trigger] pattern[i]
        },
{
    let window = text.subrange(at, at + pattern.len());
    if occurs_at(text, pattern, at) {
        assert forall|i: int| 0 <= i < pattern.len() implies text[at + i] == #[trigger] pattern[i] by {
            assert(window[i] == text[at + i]);
        }
    }
    if 0 <= at && at + pattern.len() <= text.len() && forall|i: int|
        0 <= i < pattern.len() ==> text[at + i] == #[trigger] pattern[i] {
        assert(window =~= pattern);
    }
}

/// The texts of a list are those of its strings, one for each, in order.
pub proof fn law_every_text_is_there(list: Seq<String>)
    ensures
        texts(list).len() == list.len(),
        forall|i: int| 0 <= i < list.len() ==> #[trigger] texts(list)[i] == list[i]@,
{
}

/// An optional string has a text exactly where there is a string, and it is its own.
pub proof fn law_optional_text(value: Option<String>)
    ensures
        opt_text(value) is Some <==> value is Some,
        value matches Some(text) ==> opt_text(value) == Some(text@),
{
}

/// Sixteen to the power of `width`.
pub open spec fn sixteens(width: nat) -> nat
    decreases width,
{
    if width == 0 {
        1
    } else {
        16 * sixteens((width - 1) as nat)
    }
}

/// Of a number that needs more digits than were asked for, the last ones are written.
pub proof fn law_hex_keeps_the_last_digits(n: nat, width: nat)
    ensures
        sixteens(width) > 0,
        hex_value(hex_padded(n, width)) == n % sixteens(width),
    decreases width,
{
    if width > 0 {
        let w = (width - 1) as nat;
        law_hex_keeps_the_last_digits(n / 16, w);
        assert(hex_padded(n, width).drop_last() =~= hex_padded(n / 16, w));
        assert(hex_padded(n, width).last() == hex_digit(n % 16));
        vstd::arithmetic::div_mod::lemma_mod_breakdown(n as int, 16, sixteens(w) as int);
    }
}

/// A part of a text has every character of it from its start to its end, in order.
pub proof fn law_part_is_character_by_character(
    chars: Seq<char>,
    start: int,
    end: int,
    text: Seq<char>,
)
    requires
        0 <= start <= end <= chars.len(),
        is_between(chars, start, end, text),
    ensures
        text.len() == end - start,
        forall|i: int| 0 <= i < text.len() ==> #[trigger] text[i] == chars[start + i],
{
}

} // verus!
