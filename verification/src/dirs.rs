//! The directories that the application works in.
use crate::failure::Failure;
use vstd::prelude::*;

verus! {

/// What the directory of the application is derived from; `P` is the type of a
/// path.
pub enum RootSource<P> {
    /// The directory of the sources and its parent, if it has one.
    Manifest { dir: P, parent: Option<P> },
    /// The directory of the running executable, if it lies in one, or why the
    /// executable is not known.
    Executable(Result<Option<P>, String>),
}

/// Whether `res` is the directory of the application, derived from `source`.
pub open spec fn is_root_dir<P>(source: RootSource<P>, res: Result<P, String>) -> bool {
    match source {
        RootSource::Manifest { dir, parent } => match parent {
            Some(parent) => res == Ok::<P, String>(parent),
            None => res == Ok::<P, String>(dir),
        },
        RootSource::Executable(Ok(Some(parent))) => res == Ok::<P, String>(parent),
        RootSource::Executable(Ok(None)) => res matches Err(message) && message@
            == "Failed to resolve executable directory"@,
        RootSource::Executable(Err(cause)) => res matches Err(message) && message@
            == Failure::ResolveExecutable.message(cause@),
    }
}

/// The directory in which the backend is run.
pub fn app_root_dir<P>(source: RootSource<P>) -> (res: Result<P, String>)
    ensures
        is_root_dir(source, res),
{
    match source {
        RootSource::Manifest { dir, parent } => match parent {
            Some(parent) => Ok(parent),
            None => Ok(dir),
        },
        RootSource::Executable(Ok(Some(parent))) => Ok(parent),
        RootSource::Executable(Ok(None)) => Err(
            "Failed to resolve executable directory".to_owned(),
        ),
        RootSource::Executable(Err(cause)) => Err(
            Failure::ResolveExecutable.describe(cause.as_str()),
        ),
    }
}

/// Whether `res` is the tools directory, which was found as `temp_dir` says and made as
/// `created` says.
pub open spec fn is_tools_dir<P>(
    temp_dir: Result<P, String>,
    created: Result<(), String>,
    res: Result<P, String>,
) -> bool {
    match temp_dir {
        Err(cause) => res matches Err(message) && message@ == Failure::ResolveTempDir.message(
            cause@,
        ),
        Ok(dir) => match created {
            Ok(()) => res == Ok::<P, String>(dir),
            Err(cause) => res matches Err(message) && message@ == Failure::CreateToolsDir.message(
                cause@,
            ),
        },
    }
}

/// The directory for keys, settings and the backend, where it could be found and
/// made: `temp_dir` gives it, or why the directory for temporary files is not known;
/// `created` says whether it is there now.
pub fn app_tools_dir<P>(temp_dir: Result<P, String>, created: Result<(), String>) -> (res: Result<
    P,
    String,
>)
    ensures
        is_tools_dir(temp_dir, created, res),
{
    match Failure::ResolveTempDir.explain(temp_dir) {
        Err(message) => Err(message),
        Ok(dir) => match Failure::CreateToolsDir.explain(created) {
            Ok(()) => Ok(dir),
            Err(message) => Err(message),
        },
    }
}

/// Something that is kept in the directories of the application.
#[derive(Clone, Copy, Debug, PartialEq, Eq, Structural)]
pub enum Place {
    /// The tools directory, below the directory for temporary files.
    Tools,
    ProdKeys,
    OldKeys,
    Settings,
    OldVersion,
    /// The copies of documents.
    InputCache,
}

/// The name of a place in the directory above it.
pub open spec fn place_name(place: Place) -> Seq<char> {
    match place {
        Place::Tools => "nscb-desktop-tools"@,
        Place::ProdKeys => "prod.keys"@,
        Place::OldKeys => "keys.txt"@,
        Place::Settings => "settings.json"@,
        Place::OldVersion => "version.txt"@,
        Place::InputCache => "android-native-inputs"@,
    }
}

impl Place {
    /// The name of the place in the directory above it.
    pub fn name(self) -> (name: &'static str)
        ensures
            name@ == place_name(self),
    {
        match self {
            Place::Tools => "nscb-desktop-tools",
            Place::ProdKeys => "prod.keys",
            Place::OldKeys => "keys.txt",
            Place::Settings => "settings.json",
            Place::OldVersion => "version.txt",
            Place::InputCache => "android-native-inputs",
        }
    }
}

/// The backend is run in the directory above the sources or the executable; only the
/// sources themselves stand in for a directory above them that is not there. A cause
/// that keeps the executable unknown is told whole.
pub proof fn law_root_lies_above<P>(source: RootSource<P>, res: Result<P, String>)
    requires
        is_root_dir(source, res),
    ensures
        source matches RootSource::Manifest { dir, parent } ==> {
            &&& res is Ok
            &&& parent matches Some(above) ==> res->Ok_0 == above
            &&& parent is None ==> res->Ok_0 == dir
        },
        source matches RootSource::Executable(Ok(parent)) ==> {
            &&& res is Ok <==> parent is Some
            &&& parent matches Some(above) ==> res->Ok_0 == above
        },
        source matches RootSource::Executable(Err(cause)) ==> res is Err && res->Err_0@
            == "Failed to resolve current executable path: "@ + cause@,
{
}

/// The tools directory is the one that was found, and is handed out only once it is
/// there; what stands in the way is told whole, and a directory that was not found
/// counts before one that could not be made.
pub proof fn law_tools_dir_is_there<P>(
    temp_dir: Result<P, String>,
    created: Result<(), String>,
    res: Result<P, String>,
)
    requires
        is_tools_dir(temp_dir, created, res),
    ensures
        res is Ok <==> temp_dir is Ok && created is Ok,
        res is Ok ==> temp_dir == res,
        temp_dir matches Err(cause) ==> res->Err_0@ == "Failed to resolve temp dir: "@ + cause@,
        temp_dir is Ok && created is Err ==> res->Err_0@ == "Failed to create tools dir: "@
            + created->Err_0@,
{
}

/// No two things in the directories of the application have the same name.
pub proof fn law_places_are_apart(a: Place, b: Place)
    requires
        place_name(a) == place_name(b),
    ensures
        a == b,
{
    reveal_strlit("nscb-desktop-tools");
    reveal_strlit("prod.keys");
    reveal_strlit("keys.txt");
    reveal_strlit("settings.json");
    reveal_strlit("version.txt");
    reveal_strlit("android-native-inputs");
    assert("nscb-desktop-tools"@.len() == 18);
    assert("prod.keys"@.len() == 9);
    assert("keys.txt"@.len() == 8);
    assert("settings.json"@.len() == 13);
    assert("version.txt"@.len() == 11);
    assert("android-native-inputs"@.len() == 21);
}

} // verus!
