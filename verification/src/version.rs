//! The version of the backend, which is kept in the settings and was once kept in
//! a file of its own.
use crate::failure::Failure;
#[allow(unused_imports)]
use crate::outside::{is_pretty, json_string_map};
#[allow(unused_imports)]
use crate::settings::{
    file_settings, holds, is_broken, is_file_of, is_kept_in, read_settings, save_setting,
    with_setting, write_settings, Settings, SettingsFile,
};
#[allow(unused_imports)]
use crate::standard::{
    is_white_space, law_only_white_space_is_trimmed, law_trimmed_is_clean, trimmed, white_around,
};
use vstd::prelude::*;

verus! {

/// The key of the version in the settings.
pub open spec fn version_key() -> Seq<char> {
    "backendVersion"@
}

/// What is done next to find the version of the backend.
pub enum VersionAction {
    /// Give the version as the answer.
    Answer(String),
    /// Read the old file: the settings, which are handed back, have no version.
    ReadOldFile(Settings),
    /// Write `text` as the settings file; the version is known.
    WriteSettings { text: String, version: String },
    /// Remove the old file, and give the version as the answer whether that works or
    /// not.
    RemoveOldFile { version: String },
}

/// Whether `res` is what is done to find the version, once the settings file was looked
/// at.
pub open spec fn finds_version(file: SettingsFile, res: Result<VersionAction, String>) -> bool {
    match file_settings(file) {
        Err(message) => res matches Err(text) && text@ == message,
        Ok(map) => if map.dom().contains(version_key()) {
            res matches Ok(VersionAction::Answer(version)) && version@ == map[version_key()]
        } else {
            res matches Ok(VersionAction::ReadOldFile(settings)) && settings@ == map
        },
    }
}

/// Looks the version up in the settings file.
pub fn get_backend_version(file: SettingsFile) -> (res: Result<VersionAction, String>)
    ensures
        finds_version(file, res),
{
    match read_settings(file) {
        Err(message) => Err(message),
        Ok(settings) => match settings.get("backendVersion") {
            Some(version) => Ok(VersionAction::Answer(version)),
            None => Ok(VersionAction::ReadOldFile(settings)),
        },
    }
}

/// Whether `res` is what is done to find the version, once the old file was looked at.
pub open spec fn moves_version(
    settings: Map<Seq<char>, Seq<char>>,
    old_file: Option<Result<String, String>>,
    res: Result<VersionAction, String>,
) -> bool {
    match old_file {
        None => res matches Ok(VersionAction::Answer(version)) && version@ == Seq::<char>::empty(),
        Some(Err(cause)) => res matches Err(message) && message@ == Failure::ReadVersion.message(
            cause@,
        ),
        Some(Ok(old_text)) => if trimmed(old_text@).len() == 0 {
            res matches Ok(VersionAction::RemoveOldFile { version }) && version@ == trimmed(
                old_text@,
            )
        } else {
            &&& res matches Ok(VersionAction::WriteSettings { text, version })
            &&& version@ == trimmed(old_text@)
            &&& is_file_of(text@, settings.insert(version_key(), trimmed(old_text@)))
        },
    }
}

/// Moves the version from the old file into the settings. `old_file` is nothing
/// where there is no such file, else its text or why it could not be read.
pub fn migrate_version(settings: &Settings, old_file: Option<Result<String, String>>) -> (res:
    Result<VersionAction, String>)
    ensures
        moves_version(settings@, old_file, res),
{
    match old_file {
        None => Ok(VersionAction::Answer(String::new())),
        Some(Err(cause)) => Err(Failure::ReadVersion.describe(cause.as_str())),
        Some(Ok(old_text)) => {
            let version = old_text.as_str().trim().to_owned();
            if version.as_str().is_empty() {
                return Ok(VersionAction::RemoveOldFile { version });
            }
            match write_settings(&settings.with("backendVersion", version.as_str())) {
                Ok(text) => Ok(VersionAction::WriteSettings { text, version }),
                Err(message) => Err(message),
            }
        },
    }
}

/// Whether `res` is what is done once the settings file with the version was written, or
/// was not.
pub open spec fn goes_on_with_version(
    version: String,
    outcome: Result<(), String>,
    res: Result<VersionAction, String>,
) -> bool {
    match outcome {
        Ok(_) => res matches Ok(VersionAction::RemoveOldFile { version: kept }) && kept == version,
        Err(cause) => res matches Err(message) && message@ == Failure::WriteSettings.message(
            cause@,
        ),
    }
}

/// Goes on once the settings file with the version has been written, or could not
/// be: only then does the old file go.
pub fn version_written(version: String, outcome: Result<(), String>) -> (res: Result<
    VersionAction,
    String,
>)
    ensures
        goes_on_with_version(version, outcome, res),
{
    match outcome {
        Ok(()) => Ok(VersionAction::RemoveOldFile { version }),
        Err(cause) => Err(Failure::WriteSettings.describe(cause.as_str())),
    }
}

/// Whether `res` is the text of the settings file once `version` is saved.
pub open spec fn saves_version(
    file: SettingsFile,
    version: Seq<char>,
    res: Result<String, String>,
) -> bool {
    match file_settings(file) {
        Ok(map) => res matches Ok(text) && is_file_of(
            text@,
            with_setting(map, version_key(), version),
        ),
        Err(message) => res matches Err(text) && text@ == message,
    }
}

/// The text of the settings file once `version` is saved as that of the backend.
pub fn save_backend_version(file: SettingsFile, version: &str) -> (res: Result<String, String>)
    ensures
        saves_version(file, version@, res),
{
    save_setting(file, "backendVersion", version)
}

/// A version that was moved out of the old file is found in the settings file that
/// the move wrote, as it was answered; every other setting is what it was.
pub proof fn law_migrated_version_is_found(
    map: Map<Seq<char>, Seq<char>>,
    old_text: Seq<char>,
    new_file: String,
    other: Seq<char>,
)
    requires
        holds(new_file@, map.insert(version_key(), trimmed(old_text))),
    ensures
        file_settings(Some(Ok(new_file))) matches Ok(new_map) && {
            &&& new_map.dom().contains(version_key())
            &&& new_map[version_key()] == trimmed(old_text)
            &&& other != version_key() ==> new_map.dom().contains(other) == map.dom().contains(
                other,
            )
            &&& other != version_key() && map.dom().contains(other) ==> new_map[other] == map[other]
        },
{
}

/// A version that was saved, and is not empty, is found as it was saved.
pub proof fn law_saved_version_is_found(
    map: Map<Seq<char>, Seq<char>>,
    version: Seq<char>,
    new_file: String,
)
    requires
        version.len() > 0,
        holds(new_file@, with_setting(map, version_key(), version)),
    ensures
        file_settings(Some(Ok(new_file))) matches Ok(new_map) && {
            &&& new_map.dom().contains(version_key())
            &&& new_map[version_key()] == version
        },
{
}

/// The version is the setting `backendVersion`, whole, where the settings have it; only
/// where they do not is the old file looked at, with the settings as they are.
pub proof fn law_version_is_the_setting(
    file: SettingsFile,
    map: Map<Seq<char>, Seq<char>>,
    res: Result<VersionAction, String>,
)
    requires
        finds_version(file, res),
    ensures
        is_kept_in(map, file) && map.dom().contains("backendVersion"@) ==> (
        res matches Ok(VersionAction::Answer(version)) && version@ == map["backendVersion"@]),
        is_kept_in(map, file) && !map.dom().contains("backendVersion"@) ==> (
        res matches Ok(VersionAction::ReadOldFile(settings)) && settings@ == map),
        res is Err ==> is_broken(file, res->Err_0@),
{
    if is_kept_in(map, file) && file is None {
        assert(map =~= Map::empty());
    }
}

/// The version of the old file is its text without the white space around it. It goes
/// into the settings, of which nothing else changes; where there is nothing in the old
/// file, the file just goes, and where there is no old file there is no version.
pub proof fn law_old_version_is_moved_whole(
    map: Map<Seq<char>, Seq<char>>,
    old_file: Option<Result<String, String>>,
    other: Seq<char>,
    res: Result<VersionAction, String>,
)
    requires
        moves_version(map, old_file, res),
    ensures
        old_file is None ==> (res matches Ok(VersionAction::Answer(version)) && version@.len() == 0),
        old_file matches Some(Err(cause)) ==> res is Err && res->Err_0@
            == "Failed to read version: "@ + cause@,
        old_file matches Some(Ok(old_text)) ==> match res {
            Ok(VersionAction::RemoveOldFile { version }) => {
                &&& version@.len() == 0
                &&& forall|i: int|
                    0 <= i < old_text@.len() ==> is_white_space(#[trigger] old_text@[i])
            },
            Ok(VersionAction::WriteSettings { text, version }) => {
                &&& version@.len() > 0
                &&& !is_white_space(version@[0]) && !is_white_space(version@.last())
                &&& exists|start: int| #[trigger] white_around(old_text@, start, version@)
                &&& json_string_map(text@) matches Ok(new)
                &&& is_pretty(text@, new)
                &&& new.dom().contains("backendVersion"@) && new["backendVersion"@] == version@
                &&& other != "backendVersion"@ ==> (new.dom().contains(other)
                    <==> map.dom().contains(other))
                &&& other != "backendVersion"@ && map.dom().contains(other) ==> new[other]
                    == map[other]
            },
            _ => false,
        },
{
    if let Some(Ok(old_text)) = old_file {
        law_only_white_space_is_trimmed(old_text@);
        law_trimmed_is_clean(old_text@);
        let start = choose|start: int| #[trigger]
            white_around(old_text@, start, trimmed(old_text@));
        if trimmed(old_text@).len() == 0 {
            assert forall|i: int| 0 <= i < old_text@.len() implies is_white_space(
                #[trigger] old_text@[i],
            ) by {
                assert(i < start || start + trimmed(old_text@).len() <= i);
            }
        }
    }
}

/// The old file goes only after the settings were written, and the version is answered
/// as it was; where they were not written, the whole cause is told and the file stays.
pub proof fn law_old_file_goes_after_the_write(
    version: String,
    outcome: Result<(), String>,
    res: Result<VersionAction, String>,
)
    requires
        goes_on_with_version(version, outcome, res),
    ensures
        res is Ok <==> outcome is Ok,
        res is Ok ==> (res->Ok_0 matches VersionAction::RemoveOldFile { version: kept } && kept@
            == version@),
        outcome matches Err(cause) ==> res->Err_0@ == "Failed to write settings: "@ + cause@,
{
}

/// A version that was saved, or moved out of the old file, is the one that is found next,
/// whole; to save no version leaves none.
pub proof fn law_kept_version_is_found(
    file: SettingsFile,
    version: Seq<char>,
    saved: String,
    found: Result<VersionAction, String>,
    map: Map<Seq<char>, Seq<char>>,
    old_file: Option<Result<String, String>>,
    text: String,
    moved: String,
    again: Result<VersionAction, String>,
)
    requires
        saves_version(file, version, Ok::<String, String>(saved)),
        finds_version(Some(Ok(saved)), found),
        moves_version(
            map,
            old_file,
            Ok::<VersionAction, String>(VersionAction::WriteSettings { text, version: moved }),
        ),
        finds_version(Some(Ok(text)), again),
    ensures
        version.len() > 0 ==> (found matches Ok(VersionAction::Answer(answer)) && answer@
            == version),
        version.len() == 0 ==> (found matches Ok(VersionAction::ReadOldFile(_))),
        again matches Ok(VersionAction::Answer(answer)) && answer@ == moved@,
{
}

/// To save a version changes no other setting, and never replaces a file that is of no
/// use.
pub proof fn law_saved_version_changes_nothing_else(
    file: SettingsFile,
    map: Map<Seq<char>, Seq<char>>,
    version: Seq<char>,
    other: Seq<char>,
    res: Result<String, String>,
)
    requires
        saves_version(file, version, res),
        other != "backendVersion"@,
    ensures
        is_kept_in(map, file) ==> {
            &&& res matches Ok(text)
            &&& json_string_map(text@) matches Ok(new)
            &&& is_pretty(text@, new)
            &&& new.dom().contains(other) <==> map.dom().contains(other)
            &&& map.dom().contains(other) ==> new[other] == map[other]
        },
        res is Err ==> is_broken(file, res->Err_0@),
{
}

} // verus!
