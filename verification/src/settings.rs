//! The settings: named texts that are kept in a JSON file.
use crate::failure::Failure;
#[allow(unused_imports)]
use crate::outside::{
    is_pretty, json_char, json_chars, json_line, json_object, json_string, json_string_map, lists,
    parse_string_map, render_string_map,
};
#[allow(unused_imports)]
use crate::text::{hex_padded, law_hex_digits, opt_text, same_text};
use vstd::prelude::*;

verus! {

/// The map that a list of entries stands for; of entries with the same key the last
/// one counts.
pub open spec fn entries_map(entries: Seq<(String, String)>) -> Map<Seq<char>, Seq<char>>
    decreases entries.len(),
{
    if entries.len() == 0 {
        Map::empty()
    } else {
        entries_map(entries.drop_last()).insert(entries.last().0@, entries.last().1@)
    }
}

/// Whether no key occurs twice.
pub open spec fn distinct_keys(entries: Seq<(String, String)>) -> bool {
    forall|i: int, j: int|
        0 <= i < j < entries.len() ==> #[trigger] entries[i].0@ != #[trigger] entries[j].0@
}

proof fn lemma_entries_map_keys(entries: Seq<(String, String)>, key: Seq<char>)
    ensures
        entries_map(entries).dom().contains(key) <==> exists|i: int|
            0 <= i < entries.len() && #[trigger] entries[i].0@ == key,
    decreases entries.len(),
{
    if entries.len() > 0 {
        let rest = entries.drop_last();
        lemma_entries_map_keys(rest, key);
        if entries_map(entries).dom().contains(key) {
            if entries.last().0@ == key {
                assert(entries[entries.len() - 1].0@ == key);
            } else {
                let i = choose|i: int| 0 <= i < rest.len() && #[trigger] rest[i].0@ == key;
                assert(entries[i].0@ == key);
            }
        }
        if exists|i: int| 0 <= i < entries.len() && #[trigger] entries[i].0@ == key {
            let i = choose|i: int| 0 <= i < entries.len() && #[trigger] entries[i].0@ == key;
            if i < rest.len() {
                assert(rest[i].0@ == key);
            }
        }
    }
}

proof fn lemma_entries_map_value(entries: Seq<(String, String)>, i: int)
    requires
        distinct_keys(entries),
        0 <= i < entries.len(),
    ensures
        entries_map(entries).dom().contains(entries[i].0@),
        entries_map(entries)[entries[i].0@] == entries[i].1@,
    decreases entries.len(),
{
    let rest = entries.drop_last();
    if i < rest.len() {
        assert(distinct_keys(rest)) by {
            assert forall|a: int, b: int| 0 <= a < b < rest.len() implies #[trigger] rest[a].0@
                != #[trigger] rest[b].0@ by {
                assert(entries[a].0@ != entries[b].0@);
            }
        }
        lemma_entries_map_value(rest, i);
        assert(entries[i].0@ != entries[entries.len() - 1].0@);
    }
}

/// The settings that are in force.
pub struct Settings {
    entries: Vec<(String, String)>,
}

impl View for Settings {
    type V = Map<Seq<char>, Seq<char>>;

    closed spec fn view(&self) -> Map<Seq<char>, Seq<char>> {
        entries_map(self.entries@)
    }
}

impl Settings {
    #[verifier::type_invariant]
    spec fn well_formed(self) -> bool {
        distinct_keys(self.entries@)
    }

    /// No settings.
    pub fn new() -> (settings: Settings)
        ensures
            settings@ == Map::<Seq<char>, Seq<char>>::empty(),
    {
        Settings { entries: Vec::new() }
    }

    /// The setting under `key`.
    pub fn get(&self, key: &str) -> (value: Option<String>)
        ensures
            match value {
                Some(text) => self@.dom().contains(key@) && text@ == self@[key@],
                None => !self@.dom().contains(key@),
            },
    {
        proof {
            use_type_invariant(self);
        }
        let mut i: usize = 0;
        while i < self.entries.len()
            invariant
                i <= self.entries@.len(),
                distinct_keys(self.entries@),
                forall|j: int| 0 <= j < i ==> #[trigger] self.entries@[j].0@ != key@,
            decreases self.entries@.len() - i,
        {
            if same_text(self.entries[i].0.as_str(), key) {
                proof {
                    lemma_entries_map_value(self.entries@, i as int);
                }
                return Some(self.entries[i].1.clone());
            }
            i += 1;
        }
        proof {
            lemma_entries_map_keys(self.entries@, key@);
        }
        None
    }

    /// These settings without the one under `key`.
    pub fn without(&self, key: &str) -> (settings: Settings)
        ensures
            settings@ == self@.remove(key@),
    {
        Settings { entries: self.entries_without(key) }
    }

    fn entries_without(&self, key: &str) -> (left: Vec<(String, String)>)
        ensures
            distinct_keys(left@),
            entries_map(left@) == self@.remove(key@),
    {
        proof {
            use_type_invariant(self);
        }
        let ghost all = self.entries@;
        let mut left: Vec<(String, String)> = Vec::new();
        let mut i: usize = 0;
        assert(entries_map(all.take(0)).remove(key@) =~= Map::<Seq<char>, Seq<char>>::empty());
        while i < self.entries.len()
            invariant
                i <= self.entries@.len(),
                all == self.entries@,
                distinct_keys(all),
                distinct_keys(left@),
                entries_map(left@) == entries_map(all.take(i as int)).remove(key@),
            decreases self.entries@.len() - i,
        {
            let ghost before = left@;
            let ghost seen = all.take(i as int);
            let ghost entry = all[i as int];
            assert(all.take(i + 1).drop_last() =~= seen);
            assert(all.take(i + 1).last() == entry);
            if !same_text(self.entries[i].0.as_str(), key) {
                proof {
                    lemma_entries_map_keys(seen, entry.0@);
                    lemma_entries_map_keys(before, entry.0@);
                }
                left.push((self.entries[i].0.clone(), self.entries[i].1.clone()));
                assert(left@.drop_last() =~= before);
            }
            assert(entries_map(left@) =~= entries_map(all.take(i + 1)).remove(key@));
            i += 1;
        }
        assert(all.take(i as int) =~= all);
        left
    }

    /// These settings with `value` under `key`.
    pub fn with(&self, key: &str, value: &str) -> (settings: Settings)
        ensures
            settings@ == self@.insert(key@, value@),
    {
        let mut entries = self.entries_without(key);
        let ghost before = entries@;
        proof {
            lemma_entries_map_keys(before, key@);
        }
        entries.push((key.to_owned(), value.to_owned()));
        assert(entries@.drop_last() =~= before);
        assert(entries_map(entries@) =~= self@.insert(key@, value@));
        Settings { entries }
    }
}

/// The file of the settings, as it was found: nothing where there is no file, else
/// its text or why it could not be read.
pub type SettingsFile = Option<Result<String, String>>;

/// The settings that a file holds, or why there are none.
pub open spec fn file_settings(file: SettingsFile) -> Result<
    Map<Seq<char>, Seq<char>>,
    Seq<char>,
> {
    match file {
        None => Ok(Map::empty()),
        Some(Err(cause)) => Err(Failure::ReadSettings.message(cause@)),
        Some(Ok(text)) => match json_string_map(text@) {
            Ok(map) => Ok(map),
            Err(cause) => Err(Failure::ParseSettings.message(cause)),
        },
    }
}

/// The setting under `key`, which is empty where there is none.
pub open spec fn setting_of(settings: Map<Seq<char>, Seq<char>>, key: Seq<char>) -> Seq<char> {
    if settings.dom().contains(key) {
        settings[key]
    } else {
        Seq::empty()
    }
}

/// The settings with `value` saved under `key`: an empty value takes the setting
/// away.
pub open spec fn with_setting(
    settings: Map<Seq<char>, Seq<char>>,
    key: Seq<char>,
    value: Seq<char>,
) -> Map<Seq<char>, Seq<char>> {
    if value.len() == 0 {
        settings.remove(key)
    } else {
        settings.insert(key, value)
    }
}

/// Whether `text` is a file that holds `settings`.
pub open spec fn holds(text: Seq<char>, settings: Map<Seq<char>, Seq<char>>) -> bool {
    json_string_map(text) matches Ok(map) && map == settings
}

/// Whether `text` is the file that is written for `settings`: it holds them, as a JSON
/// object with one entry a line.
pub open spec fn is_file_of(text: Seq<char>, settings: Map<Seq<char>, Seq<char>>) -> bool {
    holds(text, settings) && is_pretty(text, settings)
}

/// The settings that the file holds.
pub fn read_settings(file: SettingsFile) -> (res: Result<Settings, String>)
    ensures
        match file_settings(file) {
            Ok(map) => res matches Ok(settings) && settings@ == map,
            Err(message) => res matches Err(text) && text@ == message,
        },
{
    match file {
        None => Ok(Settings::new()),
        Some(Err(cause)) => Err(Failure::ReadSettings.describe(cause.as_str())),
        Some(Ok(text)) => parsed_settings(parse_string_map(text.as_str())),
    }
}

/// The settings that the text of a file gave, or the message for a text that gave
/// none.
pub fn parsed_settings(parsed: Result<Vec<(String, String)>, String>) -> (res: Result<
    Settings,
    String,
>)
    requires
        parsed matches Ok(entries) ==> distinct_keys(entries@),
    ensures
        match parsed {
            Ok(entries) => res matches Ok(settings) && settings@ == entries_map(entries@),
            Err(cause) => res matches Err(message) && message@ == Failure::ParseSettings.message(
                cause@,
            ),
        },
{
    match parsed {
        Ok(entries) => Ok(Settings { entries }),
        Err(cause) => Err(Failure::ParseSettings.describe(cause.as_str())),
    }
}

/// The text of a file that holds the given settings.
pub fn write_settings(settings: &Settings) -> (res: Result<String, String>)
    ensures
        res matches Ok(text) && is_file_of(text@, settings@),
{
    proof {
        use_type_invariant(settings);
    }
    Failure::SerializeSettings.explain(render_string_map(&settings.entries))
}

/// The setting under `key`, which is empty where there is none.
pub fn setting(settings: &Settings, key: &str) -> (value: String)
    ensures
        value@ == setting_of(settings@, key@),
{
    match settings.get(key) {
        Some(value) => value,
        None => String::new(),
    }
}

/// The settings with `value` saved under `key`.
pub fn updated(settings: &Settings, key: &str, value: &str) -> (res: Settings)
    ensures
        res@ == with_setting(settings@, key@, value@),
{
    if value.is_empty() {
        settings.without(key)
    } else {
        settings.with(key, value)
    }
}

/// Whether `res` is the setting under `key` in the file.
pub open spec fn reads_setting(
    file: SettingsFile,
    key: Seq<char>,
    res: Result<String, String>,
) -> bool {
    match file_settings(file) {
        Ok(map) => res matches Ok(value) && value@ == setting_of(map, key),
        Err(message) => res matches Err(text) && text@ == message,
    }
}

/// Reads the setting under `key` from the file.
pub fn get_setting(file: SettingsFile, key: &str) -> (res: Result<String, String>)
    ensures
        reads_setting(file, key@, res),
{
    match read_settings(file) {
        Ok(settings) => Ok(setting(&settings, key)),
        Err(message) => Err(message),
    }
}

/// Whether `res` is the text of the file once `value` is saved under `key`.
pub open spec fn saves_setting(
    file: SettingsFile,
    key: Seq<char>,
    value: Seq<char>,
    res: Result<String, String>,
) -> bool {
    match file_settings(file) {
        Ok(map) => res matches Ok(text) && is_file_of(text@, with_setting(map, key, value)),
        Err(message) => res matches Err(text) && text@ == message,
    }
}

/// The text of the file once `value` is saved under `key`.
pub fn save_setting(file: SettingsFile, key: &str, value: &str) -> (res: Result<String, String>)
    ensures
        saves_setting(file, key@, value@, res),
{
    match read_settings(file) {
        Ok(settings) => write_settings(&updated(&settings, key, value)),
        Err(message) => Err(message),
    }
}

/// A setting that was saved reads back as it was saved, from the new file; every
/// other setting reads as it did before.
pub proof fn law_saved_setting_reads_back(
    map: Map<Seq<char>, Seq<char>>,
    key: Seq<char>,
    value: Seq<char>,
    other: Seq<char>,
    file: String,
)
    requires
        holds(file@, with_setting(map, key, value)),
    ensures
        file_settings(Some(Ok(file))) == Ok::<Map<Seq<char>, Seq<char>>, Seq<char>>(
            with_setting(map, key, value),
        ),
        setting_of(with_setting(map, key, value), key) == value,
        other != key ==> setting_of(with_setting(map, key, value), other) == setting_of(map, other),
{
    if value.len() == 0 {
        assert(value =~= Seq::<char>::empty());
    }
}

/// Saving an empty value leaves no entry under the key.
pub proof fn law_empty_value_removes(map: Map<Seq<char>, Seq<char>>, key: Seq<char>)
    ensures
        !with_setting(map, key, Seq::empty()).dom().contains(key),
{
}

/// Of two values saved under one key the second counts, as if the first had never
/// been saved.
pub proof fn law_last_save_counts(
    map: Map<Seq<char>, Seq<char>>,
    key: Seq<char>,
    first: Seq<char>,
    second: Seq<char>,
)
    ensures
        with_setting(with_setting(map, key, first), key, second) == with_setting(map, key, second),
{
    assert(with_setting(with_setting(map, key, first), key, second) =~= with_setting(
        map,
        key,
        second,
    ));
}

/// Settings under different keys may be saved in either order.
pub proof fn law_saves_commute(
    map: Map<Seq<char>, Seq<char>>,
    key: Seq<char>,
    value: Seq<char>,
    other_key: Seq<char>,
    other_value: Seq<char>,
)
    requires
        key != other_key,
    ensures
        with_setting(with_setting(map, key, value), other_key, other_value) == with_setting(
            with_setting(map, other_key, other_value),
            key,
            value,
        ),
{
    assert(with_setting(with_setting(map, key, value), other_key, other_value) =~= with_setting(
        with_setting(map, other_key, other_value),
        key,
        value,
    ));
}

proof fn lemma_json_chars(text: Seq<char>)
    requires
        text.len() > 0,
    ensures
        json_chars(text) == json_char(text[0]) + json_chars(text.drop_first()),
{
    let written = text.map_values(|c: char| json_char(c));
    assert(written.drop_first() =~= text.drop_first().map_values(|c: char| json_char(c)));
    assert(written.flatten() == written.first() + written.drop_first().flatten());
}

proof fn lemma_json_chars_are_visible(text: Seq<char>)
    ensures
        forall|i: int|
            0 <= i < json_chars(text).len() ==> (#[trigger] json_chars(text)[i]) as u32 >= 0x20,
    decreases text.len(),
{
    if text.len() > 0 {
        let first = json_char(text[0]);
        let code = (text[0] as u32) as nat;
        lemma_json_chars(text);
        lemma_json_chars_are_visible(text.drop_first());
        law_hex_digits(code, 4);
        assert forall|i: int| 0 <= i < first.len() implies (#[trigger] first[i]) as u32 >= 0x20 by {
            if 2 <= i {
                assert(first[i] == hex_padded(code, 4)[i - 2]);
            }
        }
    }
}

/// A key or a value never breaks a line of the file, whatever stands in it: no control
/// character of ASCII is written as it is.
pub proof fn law_written_text_stays_in_line(text: Seq<char>)
    ensures
        forall|i: int|
            0 <= i < json_string(text).len() ==> (#[trigger] json_string(text)[i]) as u32 >= 0x20,
{
    lemma_json_chars_are_visible(text);
}

/// A text without control characters of ASCII, quotes and backslashes is written as it
/// is, between quotes.
pub proof fn law_plain_text_is_written_as_it_is(text: Seq<char>)
    requires
        forall|i: int|
            0 <= i < text.len() ==> (#[trigger] text[i]) as u32 >= 0x20 && text[i] != '"' && text[i]
                != '\\',
    ensures
        json_string(text) == seq!['"'] + text + seq!['"'],
{
    lemma_plain_chars(text);
}

proof fn lemma_plain_chars(text: Seq<char>)
    requires
        forall|i: int|
            0 <= i < text.len() ==> (#[trigger] text[i]) as u32 >= 0x20 && text[i] != '"' && text[i]
                != '\\',
    ensures
        json_chars(text) == text,
    decreases text.len(),
{
    if text.len() > 0 {
        let rest = text.drop_first();
        assert forall|i: int| 0 <= i < rest.len() implies (#[trigger] rest[i]) as u32 >= 0x20
            && rest[i] != '"' && rest[i] != '\\' by {
            assert(rest[i] == text[i + 1]);
        }
        lemma_plain_chars(rest);
        lemma_json_chars(text);
        assert(seq![text[0]] + rest =~= text);
    }
}

/// The file of no settings is an empty object.
pub proof fn law_file_of_no_settings(text: Seq<char>)
    requires
        is_pretty(text, Map::empty()),
    ensures
        text == "{}"@,
{
    let entries = choose|entries: Seq<(Seq<char>, Seq<char>)>| #[trigger]
        lists(entries, Map::empty()) && text == json_object(entries);
    if entries.len() > 0 {
        assert(Map::<Seq<char>, Seq<char>>::empty().dom().contains(entries[0].0));
    }
}

/// The file of one setting is an object of one line.
pub proof fn law_file_of_one_setting(text: Seq<char>, key: Seq<char>, value: Seq<char>)
    requires
        is_pretty(text, Map::empty().insert(key, value)),
    ensures
        text == "{\n"@ + json_line((key, value)) + "\n}"@,
{
    let map = Map::empty().insert(key, value);
    let entries = choose|entries: Seq<(Seq<char>, Seq<char>)>| #[trigger]
        lists(entries, map) && text == json_object(entries);
    assert(map.dom().contains(key));
    assert(map.dom().contains(entries[0].0));
    if entries.len() > 1 {
        assert(map.dom().contains(entries[1].0));
    }
    assert(entries[0] == (key, value));
}

/// The settings of a list of entries are those entries, each with its own value, and no
/// others.
pub proof fn law_settings_are_the_entries(
    entries: Seq<(String, String)>,
    i: int,
    key: Seq<char>,
)
    requires
        distinct_keys(entries),
        0 <= i < entries.len(),
    ensures
        entries_map(entries).dom().contains(entries[i].0@),
        entries_map(entries)[entries[i].0@] == entries[i].1@,
        entries_map(entries).dom().contains(key) <==> exists|k: int|
            0 <= k < entries.len() && #[trigger] entries[k].0@ == key,
{
    lemma_entries_map_value(entries, i);
    lemma_entries_map_keys(entries, key);
}

/// Whether `map` is what there is before anything is saved: what the file holds, or
/// nothing where there is no file.
pub open spec fn is_kept_in(map: Map<Seq<char>, Seq<char>>, file: SettingsFile) -> bool {
    match file {
        None => forall|key: Seq<char>| !#[trigger] map.dom().contains(key),
        Some(Ok(text)) => json_string_map(text@) matches Ok(found) && found == map,
        Some(Err(_)) => false,
    }
}

/// Whether there is a file that is of no use: it could not be read, or holds no settings.
/// `message` tells the whole cause.
pub open spec fn is_broken(file: SettingsFile, message: Seq<char>) -> bool {
    match file {
        None => false,
        Some(Err(cause)) => message == "Failed to read settings: "@ + cause@,
        Some(Ok(text)) => json_string_map(text@) matches Err(cause) && message
            == "Failed to parse settings: "@ + cause,
    }
}

/// A setting reads as the file has it, whole and under its own key; one that is not
/// there reads as empty, and a file that is of no use gives the reason.
pub proof fn law_setting_reads_as_it_is_kept(
    file: SettingsFile,
    map: Map<Seq<char>, Seq<char>>,
    key: Seq<char>,
    res: Result<String, String>,
)
    requires
        reads_setting(file, key, res),
    ensures
        is_kept_in(map, file) ==> res is Ok && if map.dom().contains(key) {
            res->Ok_0@ == map[key]
        } else {
            res->Ok_0@.len() == 0
        },
        res is Err ==> is_broken(file, res->Err_0@),
{
}

/// To save a setting changes that setting and no other: of the new file, the key has the
/// whole value, or none where the value is empty, and every other key is as it was. The
/// file is written one entry a line. A file that is of no use is never replaced.
pub proof fn law_save_changes_one_setting(
    file: SettingsFile,
    map: Map<Seq<char>, Seq<char>>,
    key: Seq<char>,
    value: Seq<char>,
    other: Seq<char>,
    res: Result<String, String>,
)
    requires
        saves_setting(file, key, value, res),
    ensures
        is_kept_in(map, file) ==> {
            &&& res matches Ok(text)
            &&& json_string_map(text@) matches Ok(new)
            &&& is_pretty(text@, new)
            &&& new.dom().contains(key) <==> value.len() > 0
            &&& value.len() > 0 ==> new[key] == value
            &&& other != key ==> (new.dom().contains(other) <==> map.dom().contains(other))
            &&& other != key && map.dom().contains(other) ==> new[other] == map[other]
        },
        res is Err ==> is_broken(file, res->Err_0@),
        file matches Some(Err(_)) ==> res is Err,
        file matches Some(Ok(text)) ==> (json_string_map(text@) is Err ==> res is Err),
{
}

/// What was saved is what is read next, and every other setting is read as before.
pub proof fn law_what_is_saved_is_read(
    file: SettingsFile,
    key: Seq<char>,
    value: Seq<char>,
    text: String,
    read: Result<String, String>,
    other: Seq<char>,
    before: Result<String, String>,
    after: Result<String, String>,
)
    requires
        saves_setting(file, key, value, Ok::<String, String>(text)),
        reads_setting(Some(Ok(text)), key, read),
        reads_setting(file, other, before),
        reads_setting(Some(Ok(text)), other, after),
        other != key,
    ensures
        read is Ok && read->Ok_0@ == value,
        after is Ok && before is Ok && after->Ok_0@ == before->Ok_0@,
{
    if value.len() == 0 {
        assert(value =~= Seq::<char>::empty());
    }
}

} // verus!
