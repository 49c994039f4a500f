//! The backend executable and the key files: what is accepted for them, and how a
//! download is judged.
#[allow(unused_imports)]
use crate::documents::is_safe;
use crate::failure::Failure;
#[allow(unused_imports)]
use crate::outside::{http_status_text, status_text};
#[allow(unused_imports)]
use crate::standard::{
    begins_with_two, is_final_component, is_one_name, law_file_name_follows_last_slash,
    lemma_plain_name_is_final, path_file_name,
};
#[allow(unused_imports)]
use crate::target::{binary_name, law_name_tells_platform, nscb_binary_name, Target};
#[allow(unused_imports)]
use crate::text::{begins_with, joined, lowercase, lowered, opt_text, starts_with};
use vstd::prelude::*;

verus! {

/// The permissions of the backend executable on a Unix system.
pub const BACKEND_MODE: u32 = 0o755;

/// Whether a file of the given name is taken for the backend, in whatever case the
/// name is written; a path may have no file name.
pub open spec fn is_backend_name(name: Option<Seq<char>>) -> bool {
    begins_with(
        lowered(
            match name {
                Some(n) => n,
                None => Seq::empty(),
            },
        ),
        "nscb_rust"@,
    )
}

/// Whether a file is accepted as the backend, or what is said against it.
pub open spec fn import_verdict(present: bool, name: Option<Seq<char>>) -> Result<(), Seq<char>> {
    if !present {
        Err("Selected file does not exist"@)
    } else if !is_backend_name(name) {
        Err("Please select an nscb_rust backend binary"@)
    } else {
        Ok(())
    }
}

/// Whether `res` says what `verdict` says.
pub open spec fn says(res: Result<(), String>, verdict: Result<(), Seq<char>>) -> bool {
    match verdict {
        Ok(()) => res is Ok,
        Err(message) => res matches Err(text) && text@ == message,
    }
}

/// Judges a file by its name.
pub fn judge_import(present: bool, file_name: Option<String>) -> (res: Result<(), String>)
    ensures
        says(res, import_verdict(present, opt_text(file_name))),
{
    if !present {
        return Err("Selected file does not exist".to_owned());
    }
    let name = match file_name {
        Some(name) => name,
        None => String::new(),
    };
    let lower = lowercase(name.as_str());
    if !starts_with(lower.as_str(), "nscb_rust") {
        return Err("Please select an nscb_rust backend binary".to_owned());
    }
    Ok(())
}

/// Whether `res` judges the file at `src_path` by its name, as some system finds it in the
/// path.
pub open spec fn judges_path(src_path: Seq<char>, present: bool, res: Result<(), String>) -> bool {
    exists|name: Option<Seq<char>>| #[trigger]
        is_final_component(src_path, name) && says(res, import_verdict(present, name))
}

/// Judges the file that was selected as the backend; `present` says whether there is
/// one at the path. The file is judged by its own name, as the system that the
/// library runs on finds it in the path.
pub fn import_nscb_binary(src_path: &str, present: bool) -> (res: Result<(), String>)
    ensures
        !present ==> says(res, import_verdict(false, None)),
        judges_path(src_path@, present, res),
{
    let name = path_file_name(src_path);
    judge_import(present, name)
}

/// Whether `name` is that of the file which is the backend for `target`, if it is one.
pub open spec fn is_backend_file(target: Target, name: Option<&'static str>) -> bool {
    &&& name is None <==> target.embeds_backend()
    &&& name matches Some(n) ==> n@ == binary_name(target.os@, target.arch@)
}

/// The file in the tools directory that is the backend, unless the backend is built
/// into the application.
pub fn backend_file(target: &Target) -> (name: Option<&'static str>)
    ensures
        is_backend_file(*target, name),
{
    if target.is_android() {
        None
    } else {
        Some(nscb_binary_name(target))
    }
}

/// Whether `res` says of the backend for `target` what is known of its file.
pub open spec fn reports_backend(
    target: Target,
    found: Result<bool, String>,
    res: Result<bool, String>,
) -> bool {
    &&& target.embeds_backend() ==> res == Ok::<bool, String>(true)
    &&& !target.embeds_backend() ==> res == found
}

/// Whether there is a backend: `found` says whether its file was found, where it is
/// a file.
pub fn has_backend(target: &Target, found: Result<bool, String>) -> (res: Result<bool, String>)
    ensures
        reports_backend(*target, found, res),
{
    if target.is_android() {
        Ok(true)
    } else {
        found
    }
}

/// Whether there are keys, in either of the files that may hold them.
pub fn has_keys(prod_keys: bool, keys_txt: bool) -> (res: bool)
    ensures
        res == (prod_keys || keys_txt),
{
    prod_keys || keys_txt
}

/// Whether `res` is the path of the backend for `target`, which was looked for at
/// `path`, shown as `shown`.
pub open spec fn is_exe_path<P>(
    target: Target,
    path: P,
    present: bool,
    shown: Seq<char>,
    res: Result<P, String>,
) -> bool {
    &&& present ==> res == Ok::<P, String>(path)
    &&& !present ==> (res matches Err(message) && message@ == binary_name(target.os@, target.arch@)
        + " not found at "@ + shown)
}

/// The path at which the backend is found, or what is said where it is not there;
/// `shown` is the path as it is shown to a reader.
pub fn nscb_exe_path<P>(target: &Target, path: P, present: bool, shown: &str) -> (res: Result<
    P,
    String,
>)
    ensures
        is_exe_path(*target, path, present, shown@, res),
{
    if present {
        return Ok(path);
    }
    let mut message = joined(nscb_binary_name(target), " not found at ");
    message.append(shown);
    Err(message)
}

/// Whether a status is one of success.
pub open spec fn is_success(code: u16) -> bool {
    200 <= code < 300
}

/// What is said of an answer whose status, shown as `status`, is not one of success.
pub open spec fn refusal_message(status: Seq<char>) -> Seq<char> {
    "Download returned HTTP "@ + status
}

/// The message for an answer whose status, shown as `status`, is not one of success.
pub fn refusal_text(status: &str) -> (message: String)
    ensures
        message@ == refusal_message(status@),
{
    joined("Download returned HTTP ", status)
}

/// What has come of the last thing that a download asked for; `B` is the type of a
/// body.
pub enum DownloadEvent<B> {
    /// The server answered with the given status, or did not answer.
    Replied(Result<u16, String>),
    BodyRead(Result<B, String>),
    Saved(Result<(), String>),
}

/// What a download asks for next.
pub enum DownloadAction<B> {
    /// Ask the server; the file of the given name in the tools directory is to hold
    /// what comes.
    Fetch(&'static str),
    ReadBody,
    Save(B),
    Finish(Result<(), String>),
}

/// Whether a download for `target` begins with `action`.
pub open spec fn download_begins<B>(target: Target, action: DownloadAction<B>) -> bool {
    if target.embeds_backend() {
        action matches DownloadAction::Finish(Ok(_))
    } else {
        action matches DownloadAction::Fetch(name) && name@ == binary_name(target.os@, target.arch@)
    }
}

/// Begins to download the backend; where it is built in, there is nothing to do.
pub fn download_backend<B>(target: &Target) -> (action: DownloadAction<B>)
    ensures
        download_begins(*target, action),
{
    match backend_file(target) {
        None => DownloadAction::Finish(Ok(())),
        Some(name) => DownloadAction::Fetch(name),
    }
}

/// Whether a download ends with the given message.
pub open spec fn gives_up<B>(action: DownloadAction<B>, message: Seq<char>) -> bool {
    action matches DownloadAction::Finish(Err(text)) && text@ == message
}

/// Whether a status, where `event` brings one, is one that HTTP has.
pub open spec fn has_status<B>(event: DownloadEvent<B>) -> bool {
    event matches DownloadEvent::Replied(Ok(code)) ==> 100 <= code <= 999
}

/// Whether a download does `action` after `event`.
pub open spec fn download_follows<B>(event: DownloadEvent<B>, action: DownloadAction<B>) -> bool {
    match event {
        DownloadEvent::Replied(Err(cause)) => gives_up(action, Failure::Download.message(cause@)),
        DownloadEvent::Replied(Ok(code)) => if is_success(code) {
            action is ReadBody
        } else {
            gives_up(action, refusal_message(http_status_text(code)))
        },
        DownloadEvent::BodyRead(Err(cause)) => gives_up(
            action,
            Failure::ReadResponse.message(cause@),
        ),
        DownloadEvent::BodyRead(Ok(body)) => action == DownloadAction::Save(body),
        DownloadEvent::Saved(Err(cause)) => gives_up(action, Failure::SaveBackend.message(cause@)),
        DownloadEvent::Saved(Ok(_)) => action matches DownloadAction::Finish(Ok(_)),
    }
}

/// Goes on with a download after `event`.
pub fn download_step<B>(event: DownloadEvent<B>) -> (action: DownloadAction<B>)
    requires
        has_status(event),
    ensures
        download_follows(event, action),
{
    match event {
        DownloadEvent::Replied(Err(cause)) => DownloadAction::Finish(
            Err(Failure::Download.describe(cause.as_str())),
        ),
        DownloadEvent::Replied(Ok(code)) => {
            if 200 <= code && code < 300 {
                DownloadAction::ReadBody
            } else {
                DownloadAction::Finish(Err(refusal_text(status_text(code).as_str())))
            }
        },
        DownloadEvent::BodyRead(Err(cause)) => DownloadAction::Finish(
            Err(Failure::ReadResponse.describe(cause.as_str())),
        ),
        DownloadEvent::BodyRead(Ok(body)) => DownloadAction::Save(body),
        DownloadEvent::Saved(Err(cause)) => DownloadAction::Finish(
            Err(Failure::SaveBackend.describe(cause.as_str())),
        ),
        DownloadEvent::Saved(Ok(())) => DownloadAction::Finish(Ok(())),
    }
}

/// Whether `event` answers what `action` asks for.
pub open spec fn download_answers<B>(action: DownloadAction<B>, event: DownloadEvent<B>) -> bool {
    match action {
        DownloadAction::Fetch(_) => event is Replied && has_status(event),
        DownloadAction::ReadBody => event is BodyRead,
        DownloadAction::Save(_) => event is Saved,
        DownloadAction::Finish(_) => false,
    }
}

/// Whether a download for `target` does `actions` while `events` come: each event
/// answers the action before it, and each action follows from the event before it.
pub open spec fn download_all_answer<B>(
    target: Target,
    actions: Seq<DownloadAction<B>>,
    events: Seq<DownloadEvent<B>>,
) -> bool {
    &&& actions.len() == events.len() + 1
    &&& download_begins(target, actions[0])
    &&& forall|i: int|
        0 <= i < events.len() ==> {
            &&& download_answers(actions[i], #[trigger] events[i])
            &&& download_follows(events[i], actions[i + 1])
        }
}

/// Whether the server's answer was one of success: a status of two hundred and
/// something.
pub open spec fn was_accepted<B>(events: Seq<DownloadEvent<B>>) -> bool {
    events.len() > 0 && (events[0] matches DownloadEvent::Replied(Ok(code)) && 200 <= code <= 299)
}

/// A body is read, and saved as it was read, only after an answer of success, so that
/// the page that comes with a refusal never takes the place of the backend. A
/// download asks for three things at most, and ends well only where it has saved a
/// body or the backend is built in.
pub proof fn law_only_accepted_body_is_saved<B>(
    target: Target,
    actions: Seq<DownloadAction<B>>,
    events: Seq<DownloadEvent<B>>,
)
    requires
        download_all_answer(target, actions, events),
    ensures
        events.len() <= 3,
        events.len() > 0 && events.last() is BodyRead ==> events.len() == 2 && was_accepted(events),
        forall|i: int|
            0 <= i < actions.len() && #[trigger] actions[i] is Save ==> {
                &&& i == 2
                &&& was_accepted(events)
                &&& events[1] == DownloadEvent::BodyRead(Ok(actions[i]->Save_0))
            },
        actions.last() matches DownloadAction::Finish(Ok(_)) ==> target.embeds_backend() || {
            &&& events.len() == 3
            &&& actions[2] is Save
            &&& events[2] matches DownloadEvent::Saved(Ok(_))
        },
{
    assert(events.len() > 0 ==> download_answers(actions[0], events[0]));
    assert(events.len() > 1 ==> download_answers(actions[1], events[1]));
    assert(events.len() > 2 ==> download_answers(actions[2], events[2]));
    assert(events.len() > 3 ==> download_answers(actions[3], events[3]));
}

proof fn lemma_accepted(name: Seq<char>)
    requires
        name.len() >= 9,
        name[0] == 'n',
        name[1] == 's',
        name[2] == 'c',
        name[3] == 'b',
        name[4] == '_',
        name[5] == 'r',
        name[6] == 'u',
        name[7] == 's',
        name[8] == 't',
    ensures
        is_backend_name(Some(name)),
{
    reveal_strlit("nscb_rust");
    assert(lowered(name).take(9) =~= "nscb_rust"@);
}

/// The name under which the backend is installed is one that is accepted when the
/// backend is imported, on every system where it is a file.
pub proof fn law_installed_backend_is_accepted(os: Seq<char>, arch: Seq<char>)
    requires
        os != "android"@,
    ensures
        forall|name: Option<Seq<char>>| #[trigger]
            is_final_component(binary_name(os, arch), name) ==> import_verdict(true, name) is Ok,
{
    reveal_strlit("nscb_rust.exe");
    reveal_strlit("nscb_rust-macos-arm64");
    reveal_strlit("nscb_rust-macos-amd64");
    reveal_strlit("nscb_rust-linux-amd64");
    reveal_strlit(".");
    reveal_strlit("..");
    let name = binary_name(os, arch);
    lemma_accepted(name);
    assert(name.len() != "."@.len() && name.len() != ".."@.len());
    assert forall|i: int| 0 <= i < name.len() implies is_safe(#[trigger] name[i]) by {}
    lemma_plain_name_is_final(name);
}

/// Names that differ only in the case of their ASCII letters are judged alike.
pub proof fn law_case_does_not_matter(a: Seq<char>, b: Seq<char>)
    requires
        lowered(a) == lowered(b),
    ensures
        import_verdict(true, Some(a)) == import_verdict(true, Some(b)),
{
}

/// Whether `name` begins with the nine characters of the name of the backend, in
/// whatever case its letters are written.
pub open spec fn begins_like_backend(name: Seq<char>) -> bool {
    &&& name.len() >= 9
    &&& name[0] == 'n' || name[0] == 'N'
    &&& name[1] == 's' || name[1] == 'S'
    &&& name[2] == 'c' || name[2] == 'C'
    &&& name[3] == 'b' || name[3] == 'B'
    &&& name[4] == '_'
    &&& name[5] == 'r' || name[5] == 'R'
    &&& name[6] == 'u' || name[6] == 'U'
    &&& name[7] == 's' || name[7] == 'S'
    &&& name[8] == 't' || name[8] == 'T'
}

/// A file is accepted as the backend where there is one and its name begins like that
/// of the backend, and only then; a file that is not there is refused for that, every
/// other for its name.
pub proof fn law_only_backend_names_are_accepted(
    present: bool,
    name: Option<Seq<char>>,
    res: Result<(), String>,
)
    requires
        says(res, import_verdict(present, name)),
    ensures
        res is Ok <==> present && name is Some && begins_like_backend(name->0),
        !present ==> res->Err_0@ == "Selected file does not exist"@,
        present && res is Err ==> res->Err_0@ == "Please select an nscb_rust backend binary"@,
{
    reveal_strlit("nscb_rust");
    let full = match name {
        Some(n) => n,
        None => Seq::empty(),
    };
    let lower = lowered(full);
    if begins_with(lower, "nscb_rust"@) {
        assert forall|i: int| 0 <= i < 9 implies #[trigger] lower[i] == "nscb_rust"@[i] by {
            assert(lower.take(9)[i] == lower[i]);
        }
        assert(begins_like_backend(full)) by {
            assert(lower[0] == 'n' && lower[1] == 's' && lower[2] == 'c' && lower[3] == 'b');
            assert(lower[4] == '_' && lower[5] == 'r' && lower[6] == 'u' && lower[7] == 's');
            assert(lower[8] == 't');
        }
    }
    if begins_like_backend(full) {
        assert(lower.take(9) =~= "nscb_rust"@);
    }
}

/// Of a path, the name that it ends in decides: the file is accepted where it is there
/// and that name begins like that of the backend.
pub proof fn law_import_goes_by_the_name_in_the_path(
    src_path: Seq<char>,
    present: bool,
    res: Result<(), String>,
)
    requires
        judges_path(src_path, present, res),
    ensures
        !present ==> res is Err && res->Err_0@ == "Selected file does not exist"@,
        exists|name: Option<Seq<char>>| #[trigger]
            is_final_component(src_path, name) && (res is Ok <==> present && name is Some
                && begins_like_backend(name->0)),
{
    let name = choose|name: Option<Seq<char>>| #[trigger]
        is_final_component(src_path, name) && says(res, import_verdict(present, name));
    law_only_backend_names_are_accepted(present, name, res);
    assert(is_final_component(src_path, name));
}

/// A file in a directory is judged by its own name, whatever the directory is called
/// and whatever the system.
pub proof fn law_import_goes_by_the_name_of_the_file(
    dir: Seq<char>,
    name: Seq<char>,
    res: Result<(), String>,
)
    requires
        is_one_name(name),
        !begins_with_two(dir.push('/') + name),
        judges_path(dir.push('/') + name, true, res),
    ensures
        res is Ok <==> begins_like_backend(name),
{
    let path = dir.push('/') + name;
    law_import_goes_by_the_name_in_the_path(path, true, res);
    let found = choose|found: Option<Seq<char>>| #[trigger]
        is_final_component(path, found) && (res is Ok <==> found is Some && begins_like_backend(
            found->0,
        ));
    law_file_name_follows_last_slash(dir, name, found);
}

/// A download goes to the file that is the backend, under the name by which it is looked
/// for and run: `nscb_rust.exe` on Windows. Where the backend is built in, nothing is
/// downloaded.
pub proof fn law_download_goes_to_the_backend<B>(
    target: Target,
    action: DownloadAction<B>,
    file: Option<&'static str>,
)
    requires
        download_begins(target, action),
        is_backend_file(target, file),
    ensures
        action is Fetch <==> target.os@ != "android"@,
        file is Some <==> target.os@ != "android"@,
        target.os@ == "android"@ ==> (action matches DownloadAction::Finish(Ok(_))),
        action matches DownloadAction::Fetch(name) ==> {
            &&& name@ == file->0@
            &&& name@ == binary_name(target.os@, target.arch@)
            &&& name@ == "nscb_rust.exe"@ <==> target.os@ == "windows"@
        },
{
    law_name_tells_platform(target.os@, target.arch@);
}

/// A download that was saved makes the backend found: `files` are those in the tools
/// directory before it.
pub proof fn law_downloaded_backend_is_found<B>(
    target: Target,
    files: Set<Seq<char>>,
    name: &'static str,
    file: Option<&'static str>,
    found: Result<bool, String>,
    res: Result<bool, String>,
)
    requires
        download_begins(target, DownloadAction::<B>::Fetch(name)),
        is_backend_file(target, file),
        file is Some ==> found == Ok::<bool, String>(files.insert(name@).contains(file->0@)),
        reports_backend(target, found, res),
    ensures
        res == Ok::<bool, String>(true),
{
    law_download_goes_to_the_backend(target, DownloadAction::<B>::Fetch(name), file);
}

/// Where the backend is a file, there is a backend if and only if the file was found,
/// and not to know is told as it is; where it is built in, there always is one.
pub proof fn law_backend_is_reported_as_found(
    target: Target,
    found: Result<bool, String>,
    res: Result<bool, String>,
)
    requires
        reports_backend(target, found, res),
    ensures
        target.os@ == "android"@ ==> res == Ok::<bool, String>(true),
        target.os@ != "android"@ ==> res == found,
{
}

/// The backend is run from where it was looked for, if it is there; if not, what is said
/// names the file and the whole path.
pub proof fn law_backend_is_run_from_where_it_is<P>(
    target: Target,
    path: P,
    present: bool,
    shown: Seq<char>,
    file: Option<&'static str>,
    res: Result<P, String>,
)
    requires
        is_exe_path(target, path, present, shown, res),
        is_backend_file(target, file),
    ensures
        res is Ok <==> present,
        res is Ok ==> res->Ok_0 == path,
        res is Err && file is Some ==> res->Err_0@ == file->0@ + " not found at "@ + shown,
        res is Err && target.os@ == "windows"@ ==> res->Err_0@ == "nscb_rust.exe"@
            + " not found at "@ + shown,
{
    law_name_tells_platform(target.os@, target.arch@);
}

/// What a download does after each answer: a status of two hundred and something is
/// followed by the body, a body is saved as it came, and what was saved is the end.
/// Everything else ends the download, and its cause is told whole.
pub proof fn law_each_answer_leads_on<B>(event: DownloadEvent<B>, action: DownloadAction<B>)
    requires
        download_follows(event, action),
    ensures
        event matches DownloadEvent::Replied(Ok(code)) ==> {
            &&& action is ReadBody <==> 200 <= code <= 299
            &&& !(200 <= code <= 299) ==> (action matches DownloadAction::Finish(Err(message))
                && message@ == "Download returned HTTP "@ + http_status_text(code))
        },
        event matches DownloadEvent::BodyRead(Ok(body)) ==> (action matches DownloadAction::Save(
            saved,
        ) && saved == body),
        event matches DownloadEvent::Saved(Ok(_)) ==> (action matches DownloadAction::Finish(Ok(_))),
        event matches DownloadEvent::Replied(Err(cause)) ==> (
        action matches DownloadAction::Finish(Err(message)) && message@ == "Download failed: "@
            + cause@),
        event matches DownloadEvent::BodyRead(Err(cause)) ==> (
        action matches DownloadAction::Finish(Err(message)) && message@
            == "Failed to read response body: "@ + cause@),
        event matches DownloadEvent::Saved(Err(cause)) ==> (
        action matches DownloadAction::Finish(Err(message)) && message@
            == "Failed to save backend binary: "@ + cause@),
{
}

/// Every status that a server can answer with is judged, and so is every other answer.
pub proof fn law_every_answer_is_judged<B>(event: DownloadEvent<B>)
    requires
        event matches DownloadEvent::Replied(Ok(code)) ==> 100 <= code <= 999,
    ensures
        has_status(event),
{
}

/// A status that is not one of success is told whole.
pub proof fn law_refusal_tells_the_status(status: Seq<char>)
    ensures
        refusal_message(status) == "Download returned HTTP "@ + status,
{
}

} // verus!
