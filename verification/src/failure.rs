//! The messages under which failures of the surrounding system are reported.
use crate::text::joined;
use vstd::prelude::*;

verus! {

/// A step outside the library that can fail with a cause of its own.
#[derive(Clone, Copy, Debug, PartialEq, Eq, Structural)]
pub enum Failure {
    ResolveExecutable,
    ResolveTempDir,
    CreateToolsDir,
    WriteKeys,
    CopyBackend,
    ReadVersion,
    Download,
    ReadResponse,
    SaveBackend,
    CreateFilelist,
    ReadFile,
    StopProcess,
    ReadSettings,
    ParseSettings,
    SerializeSettings,
    WriteSettings,
    ParseDocumentUri,
    OpenDocument,
    CreateInputCache,
    SeekDocument,
    CreateCacheFile,
    ReadDocument,
    CacheDocument,
    FinishCache,
}

impl Failure {
    /// What is said before the cause.
    pub open spec fn lead(self) -> Seq<char> {
        match self {
            Failure::ResolveExecutable => "Failed to resolve current executable path: "@,
            Failure::ResolveTempDir => "Failed to resolve temp dir: "@,
            Failure::CreateToolsDir => "Failed to create tools dir: "@,
            Failure::WriteKeys => "Failed to write prod.keys: "@,
            Failure::CopyBackend => "Failed to copy backend binary: "@,
            Failure::ReadVersion => "Failed to read version: "@,
            Failure::Download => "Download failed: "@,
            Failure::ReadResponse => "Failed to read response body: "@,
            Failure::SaveBackend => "Failed to save backend binary: "@,
            Failure::CreateFilelist => "Failed to create verify filelist: "@,
            Failure::ReadFile => "Failed to read file: "@,
            Failure::StopProcess => "Failed to stop process: "@,
            Failure::ReadSettings => "Failed to read settings: "@,
            Failure::ParseSettings => "Failed to parse settings: "@,
            Failure::SerializeSettings => "Failed to serialize settings: "@,
            Failure::WriteSettings => "Failed to write settings: "@,
            Failure::ParseDocumentUri => "Invalid Android document URI: "@,
            Failure::OpenDocument => "Failed to open Android document: "@,
            Failure::CreateInputCache => "Failed to create Android input cache: "@,
            Failure::SeekDocument => "Failed to seek Android document: "@,
            Failure::CreateCacheFile => "Failed to create Android input cache file: "@,
            Failure::ReadDocument => "Failed to read Android document: "@,
            Failure::CacheDocument => "Failed to cache Android document: "@,
            Failure::FinishCache => "Failed to finish Android input cache: "@,
        }
    }

    /// The whole message for a failure with the given cause.
    pub open spec fn message(self, cause: Seq<char>) -> Seq<char> {
        self.lead() + cause
    }

    fn lead_text(self) -> (text: &'static str)
        ensures
            text@ == self.lead(),
    {
        match self {
            Failure::ResolveExecutable => "Failed to resolve current executable path: ",
            Failure::ResolveTempDir => "Failed to resolve temp dir: ",
            Failure::CreateToolsDir => "Failed to create tools dir: ",
            Failure::WriteKeys => "Failed to write prod.keys: ",
            Failure::CopyBackend => "Failed to copy backend binary: ",
            Failure::ReadVersion => "Failed to read version: ",
            Failure::Download => "Download failed: ",
            Failure::ReadResponse => "Failed to read response body: ",
            Failure::SaveBackend => "Failed to save backend binary: ",
            Failure::CreateFilelist => "Failed to create verify filelist: ",
            Failure::ReadFile => "Failed to read file: ",
            Failure::StopProcess => "Failed to stop process: ",
            Failure::ReadSettings => "Failed to read settings: ",
            Failure::ParseSettings => "Failed to parse settings: ",
            Failure::SerializeSettings => "Failed to serialize settings: ",
            Failure::WriteSettings => "Failed to write settings: ",
            Failure::ParseDocumentUri => "Invalid Android document URI: ",
            Failure::OpenDocument => "Failed to open Android document: ",
            Failure::CreateInputCache => "Failed to create Android input cache: ",
            Failure::SeekDocument => "Failed to seek Android document: ",
            Failure::CreateCacheFile => "Failed to create Android input cache file: ",
            Failure::ReadDocument => "Failed to read Android document: ",
            Failure::CacheDocument => "Failed to cache Android document: ",
            Failure::FinishCache => "Failed to finish Android input cache: ",
        }
    }

    /// The message for a failure with the given cause.
    pub fn describe(self, cause: &str) -> (text: String)
        ensures
            text@ == self.message(cause@),
    {
        joined(self.lead_text(), cause)
    }

    /// Whether `res` is what is made of the outcome of a step.
    pub open spec fn explains<T>(self, outcome: Result<T, String>, res: Result<T, String>) -> bool {
        match outcome {
            Ok(value) => res == Ok::<T, String>(value),
            Err(cause) => res matches Err(text) && text@ == self.message(cause@),
        }
    }

    /// Puts the lead before the cause of a failed step, and passes a success on.
    pub fn explain<T>(self, outcome: Result<T, String>) -> (res: Result<T, String>)
        ensures
            self.explains(outcome, res),
    {
        match outcome {
            Ok(value) => Ok(value),
            Err(cause) => Err(self.describe(cause.as_str())),
        }
    }
}

/// A message tells the whole cause, whatever it is, at its end, and the same thing
/// before it each time: of two causes the messages differ.
pub proof fn law_cause_is_told_whole(failure: Failure, cause: Seq<char>, other: Seq<char>)
    ensures
        failure.message(cause).len() == failure.lead().len() + cause.len(),
        failure.message(cause).take(failure.lead().len() as int) == failure.lead(),
        failure.message(cause).skip(failure.lead().len() as int) == cause,
        failure.message(cause) == failure.message(other) ==> cause == other,
{
    assert(failure.message(cause).take(failure.lead().len() as int) =~= failure.lead());
    assert(failure.message(cause).skip(failure.lead().len() as int) =~= cause);
    assert(failure.message(other).skip(failure.lead().len() as int) =~= other);
}

/// A step that went well is passed on with its value; one that failed stays failed,
/// and its cause is told.
pub proof fn law_outcome_is_passed_on<T>(
    failure: Failure,
    outcome: Result<T, String>,
    res: Result<T, String>,
)
    requires
        failure.explains(outcome, res),
    ensures
        outcome is Ok <==> res is Ok,
        outcome matches Ok(value) ==> res == Ok::<T, String>(value),
        outcome matches Err(cause) ==> (res matches Err(text) && text@.len()
            == failure.lead().len() + cause@.len() && text@.skip(failure.lead().len() as int)
            == cause@),
{
    if let Err(cause) = outcome {
        law_cause_is_told_whole(failure, cause@, cause@);
    }
}

} // verus!
