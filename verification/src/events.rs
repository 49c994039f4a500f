//! What the shell tells the user interface while an operation runs.
use vstd::prelude::*;

verus! {

/// The channel of `StdoutEvent`.
pub const STDOUT_CHANNEL: &'static str = "nscb-stdout";

/// The channel of `StderrEvent`.
pub const STDERR_CHANNEL: &'static str = "nscb-stderr";

/// The channel of `DoneEvent`.
pub const DONE_CHANNEL: &'static str = "nscb-done";

/// A line of ordinary output of the operation `op`.
#[derive(Debug)]
pub struct StdoutEvent {
    pub op: String,
    pub line: String,
}

/// A piece of error output of the operation `op`.
#[derive(Debug)]
pub struct StderrEvent {
    pub op: String,
    pub chunk: String,
}

/// The end of the operation `op`, with its exit code.
#[derive(Debug)]
pub struct DoneEvent {
    pub op: String,
    pub code: i32,
}

/// Each kind of event has a channel of its own, by the name under which the user
/// interface listens.
pub proof fn law_channels_are_apart()
    ensures
        STDOUT_CHANNEL@ == "nscb-stdout"@,
        STDERR_CHANNEL@ == "nscb-stderr"@,
        DONE_CHANNEL@ == "nscb-done"@,
        STDOUT_CHANNEL@ != STDERR_CHANNEL@,
        STDOUT_CHANNEL@ != DONE_CHANNEL@,
        STDERR_CHANNEL@ != DONE_CHANNEL@,
{
    reveal_strlit("nscb-stdout");
    reveal_strlit("nscb-stderr");
    reveal_strlit("nscb-done");
    assert("nscb-stdout"@[8] != "nscb-stderr"@[8]);
    assert("nscb-done"@.len() == 9);
}

} // verus!
