//! The one operation that may run at a time: how it is started as a process of its
//! own, how its output is passed on, how it ends and how it is stopped.
use crate::events::{DoneEvent, StderrEvent, StdoutEvent};
use crate::failure::Failure;
#[allow(unused_imports)]
use crate::standard::{
    from_utf8_lossy, is_white_space, law_only_white_space_is_trimmed, law_trimmed_is_clean,
    lossy_utf8, trimmed, white_around,
};
#[allow(unused_imports)]
use crate::target::{binary_name, nscb_binary_name, Target};
#[allow(unused_imports)]
use crate::text::{decimal, decimal_text, is_decimal, joined, law_decimal_reads_back, texts};
use vstd::prelude::*;
#[allow(unused_imports)]
use vstd::utf8::{decode_utf8, valid_utf8};

verus! {

/// The number of bytes that are read from the error output at a time.
pub const STDERR_CHUNK: usize = 4096;

/// The place of the running operation: the id of its process, or nothing.
pub struct Runner {
    pid: Option<u32>,
}

impl View for Runner {
    type V = Option<u32>;

    closed spec fn view(&self) -> Option<u32> {
        self.pid
    }
}

impl Runner {
    /// A place that no operation holds.
    pub fn new() -> (runner: Runner)
        ensures
            runner@ is None,
    {
        Runner { pid: None }
    }

    /// Frees the place, whoever holds it.
    pub fn clear(&mut self)
        ensures
            final(self)@ is None,
    {
        self.pid = None;
    }
}

/// The id of the running process, if an operation runs.
pub fn running_pid(runner: &Runner) -> (pid: Option<u32>)
    ensures
        pid == runner@,
{
    runner.pid
}

/// What is answered when the place cannot be looked at.
pub fn lock_failed() -> (message: String)
    ensures
        message@ == "Failed to lock runner state"@,
{
    "Failed to lock runner state".to_owned()
}

/// What the start of a process waits for; `P` is the type of a path.
pub enum LaunchStage<P> {
    ResolvingExecutable,
    ResolvingRoot(P),
    Spawning,
    Capturing,
    Finished,
}

/// What has come of the last thing that the start asked for.
pub enum LaunchEvent<P> {
    ExecutableResolved(Result<P, String>),
    RootResolved(Result<P, String>),
    /// The process was started, with the given id.
    Spawned(Result<u32, String>),
    /// Whether the output streams of the process are there.
    Captured { stdout: bool, stderr: bool },
}

/// What the start asks for next.
pub enum LaunchAction<P> {
    ResolveExecutable,
    ResolveRoot,
    /// Start the executable with the given arguments in the given directory.
    Spawn { executable: P, args: Vec<String>, work_dir: P },
    CaptureOutput,
    /// Pass the output on and wait for the end of the process.
    Follow,
    Fail(String),
}

/// The start of an operation as a process of its own.
pub struct Launch<P> {
    args: Vec<String>,
    stage: LaunchStage<P>,
}

impl<P> Launch<P> {
    /// What the start waits for.
    pub closed spec fn stage(self) -> LaunchStage<P> {
        self.stage
    }

    /// The arguments that the process is to get, until it has got them.
    pub closed spec fn args(self) -> Seq<String> {
        self.args@
    }
}

/// The message for a process that did not start.
pub open spec fn start_message(name: Seq<char>, cause: Seq<char>) -> Seq<char> {
    "Failed to start "@ + name + ": "@ + cause
}

/// Whether `event` answers what a start at `stage` has asked for.
pub open spec fn launch_answers<P>(stage: LaunchStage<P>, event: LaunchEvent<P>) -> bool {
    match (stage, event) {
        (LaunchStage::ResolvingExecutable, LaunchEvent::ExecutableResolved(_)) => true,
        (LaunchStage::ResolvingRoot(_), LaunchEvent::RootResolved(_)) => true,
        (LaunchStage::Spawning, LaunchEvent::Spawned(_)) => true,
        (LaunchStage::Capturing, LaunchEvent::Captured { .. }) => true,
        _ => false,
    }
}

/// The stage that follows `event`.
pub open spec fn next_stage<P>(event: LaunchEvent<P>) -> LaunchStage<P> {
    match event {
        LaunchEvent::ExecutableResolved(Ok(executable)) => LaunchStage::ResolvingRoot(executable),
        LaunchEvent::RootResolved(Ok(_)) => LaunchStage::Spawning,
        LaunchEvent::Spawned(Ok(_)) => LaunchStage::Capturing,
        _ => LaunchStage::Finished,
    }
}

/// The arguments that are left for the process after `event`: it gets them all.
pub open spec fn left_args<P>(args: Seq<String>, event: LaunchEvent<P>) -> Seq<String> {
    match event {
        LaunchEvent::RootResolved(Ok(_)) => Seq::empty(),
        _ => args,
    }
}

/// The holder of the place after `event`: a process that has started takes it.
pub open spec fn next_holder<P>(holder: Option<u32>, event: LaunchEvent<P>) -> Option<u32> {
    match event {
        LaunchEvent::Spawned(Ok(pid)) => Some(pid),
        _ => holder,
    }
}

/// Whether `action` is what a start at `stage` with the arguments `args` asks for
/// after `event`, where the executable is called `name`.
pub open spec fn follows<P>(
    stage: LaunchStage<P>,
    args: Seq<String>,
    name: Seq<char>,
    event: LaunchEvent<P>,
    action: LaunchAction<P>,
) -> bool {
    match event {
        LaunchEvent::ExecutableResolved(Ok(_)) => action is ResolveRoot,
        LaunchEvent::ExecutableResolved(Err(e)) => action matches LaunchAction::Fail(m) && m@ == e@,
        LaunchEvent::RootResolved(Ok(dir)) => {
            &&& action matches LaunchAction::Spawn { executable, args: given, work_dir }
            &&& stage == LaunchStage::ResolvingRoot(executable)
            &&& given@ == args
            &&& work_dir == dir
        },
        LaunchEvent::RootResolved(Err(e)) => action matches LaunchAction::Fail(m) && m@ == e@,
        LaunchEvent::Spawned(Ok(_)) => action is CaptureOutput,
        LaunchEvent::Spawned(Err(e)) => action matches LaunchAction::Fail(m) && m@
            == start_message(name, e@),
        LaunchEvent::Captured { stdout, stderr } => if !stdout {
            action matches LaunchAction::Fail(m) && m@ == "Failed to capture stdout"@
        } else if !stderr {
            action matches LaunchAction::Fail(m) && m@ == "Failed to capture stderr"@
        } else {
            action is Follow
        },
    }
}

/// Whether `res` is how a start with the arguments `args` begins, where `holder` holds
/// the place.
pub open spec fn launch_begins<P>(
    holder: Option<u32>,
    args: Seq<String>,
    res: Result<(Launch<P>, LaunchAction<P>), String>,
) -> bool {
    match res {
        Ok((launch, action)) => {
            &&& holder is None
            &&& launch.stage() is ResolvingExecutable
            &&& launch.args() == args
            &&& action is ResolveExecutable
        },
        Err(message) => holder is Some && message@ == "A process is already running"@,
    }
}

/// Whether a start goes on from `launch` to `next` after `event` and asks for `action`,
/// while the place goes from `holder` to `held`; the executable is called `name`.
pub open spec fn launch_goes_on<P>(
    launch: Launch<P>,
    holder: Option<u32>,
    name: Seq<char>,
    event: LaunchEvent<P>,
    next: Launch<P>,
    action: LaunchAction<P>,
    held: Option<u32>,
) -> bool {
    &&& next.stage() == next_stage(event)
    &&& next.args() == left_args(launch.args(), event)
    &&& held == next_holder(holder, event)
    &&& follows(launch.stage(), launch.args(), name, event, action)
}

/// Begins to start the backend with the given arguments, unless an operation runs.
pub fn run_nscb<P>(runner: &Runner, args: Vec<String>) -> (res: Result<
    (Launch<P>, LaunchAction<P>),
    String,
>)
    ensures
        launch_begins(runner@, args@, res),
{
    if running_pid(runner).is_some() {
        return Err("A process is already running".to_owned());
    }
    Ok(
        (
            Launch { args, stage: LaunchStage::ResolvingExecutable },
            LaunchAction::ResolveExecutable,
        ),
    )
}

/// Whether `res` says if a start waits for `event`.
pub open spec fn tells_if_awaited<P>(launch: Launch<P>, event: LaunchEvent<P>, res: bool) -> bool {
    res == launch_answers(launch.stage(), event)
}

impl<P> Launch<P> {
    /// Whether `event` answers what the start has asked for.
    pub fn expects(&self, event: &LaunchEvent<P>) -> (res: bool)
        ensures
            tells_if_awaited(*self, *event, res),
    {
        match (&self.stage, event) {
            (LaunchStage::ResolvingExecutable, LaunchEvent::ExecutableResolved(_)) => true,
            (LaunchStage::ResolvingRoot(_), LaunchEvent::RootResolved(_)) => true,
            (LaunchStage::Spawning, LaunchEvent::Spawned(_)) => true,
            (LaunchStage::Capturing, LaunchEvent::Captured { .. }) => true,
            _ => false,
        }
    }

    /// Goes on after `event`.
    pub fn step(self, runner: &mut Runner, target: &Target, event: LaunchEvent<P>) -> (res: (
        Launch<P>,
        LaunchAction<P>,
    ))
        requires
            launch_answers(self.stage(), event),
        ensures
            launch_goes_on(
                self,
                old(runner)@,
                binary_name(target.os@, target.arch@),
                event,
                res.0,
                res.1,
                final(runner)@,
            ),
    {
        let Launch { args, stage } = self;
        match event {
            LaunchEvent::ExecutableResolved(Ok(executable)) => (
                Launch { args, stage: LaunchStage::ResolvingRoot(executable) },
                LaunchAction::ResolveRoot,
            ),
            LaunchEvent::ExecutableResolved(Err(e)) => failed(args, e),
            LaunchEvent::RootResolved(Ok(work_dir)) => match stage {
                LaunchStage::ResolvingRoot(executable) => (
                    Launch { args: Vec::new(), stage: LaunchStage::Spawning },
                    LaunchAction::Spawn { executable, args, work_dir },
                ),
                _ => failed(args, String::new()),
            },
            LaunchEvent::RootResolved(Err(e)) => failed(args, e),
            LaunchEvent::Spawned(Ok(pid)) => {
                runner.pid = Some(pid);
                (Launch { args, stage: LaunchStage::Capturing }, LaunchAction::CaptureOutput)
            },
            LaunchEvent::Spawned(Err(e)) => {
                let mut message = joined("Failed to start ", nscb_binary_name(target));
                message.append(": ");
                message.append(e.as_str());
                failed(args, message)
            },
            LaunchEvent::Captured { stdout, stderr } => {
                if !stdout {
                    failed(args, "Failed to capture stdout".to_owned())
                } else if !stderr {
                    failed(args, "Failed to capture stderr".to_owned())
                } else {
                    (Launch { args, stage: LaunchStage::Finished }, LaunchAction::Follow)
                }
            },
        }
    }
}

fn failed<P>(args: Vec<String>, message: String) -> (res: (Launch<P>, LaunchAction<P>))
    ensures
        res.0.stage() is Finished,
        res.0.args() == args@,
        res.1 == LaunchAction::<P>::Fail(message),
{
    (Launch { args, stage: LaunchStage::Finished }, LaunchAction::Fail(message))
}

/// What to do about a piece of output.
pub enum Relay<E> {
    /// The stream has ended.
    Stop,
    /// There is nothing to see.
    Skip,
    Emit(E),
}

/// Whether `relay` is what is done about `line`, of which `count` bytes came, or
/// which could not be read.
pub open spec fn relays_line(
    op: Seq<char>,
    count: Option<usize>,
    line: Seq<char>,
    relay: Relay<StdoutEvent>,
) -> bool {
    &&& relay is Stop <==> (count is None || count == Some(0usize))
    &&& relay is Skip <==> count is Some && count->0 > 0 && trimmed(line).len() == 0
    &&& relay matches Relay::Emit(event) ==> event.op@ == op && event.line@ == trimmed(line)
}

/// What to do about a line that was read from the ordinary output: `count` is the
/// number of bytes that came, or nothing where reading failed.
pub fn relay_line(op: &str, count: Option<usize>, line: &str) -> (relay: Relay<StdoutEvent>)
    ensures
        relays_line(op@, count, line@, relay),
{
    match count {
        None => Relay::Stop,
        Some(read) => {
            if read == 0 {
                return Relay::Stop;
            }
            let text = line.trim();
            if text.is_empty() {
                Relay::Skip
            } else {
                Relay::Emit(StdoutEvent { op: op.to_owned(), line: text.to_owned() })
            }
        },
    }
}

/// Whether `relay` is what is done about error output that holds `text`.
pub open spec fn relays_text(op: Seq<char>, text: Seq<char>, relay: Relay<StderrEvent>) -> bool {
    &&& !(relay is Stop)
    &&& relay is Skip <==> trimmed(text).len() == 0
    &&& relay matches Relay::Emit(event) ==> event.op@ == op && event.chunk@ == text
}

/// What to do about a piece of error output that holds `text`.
pub fn relay_text(op: &str, text: String) -> (relay: Relay<StderrEvent>)
    ensures
        relays_text(op@, text@, relay),
{
    if text.as_str().trim().is_empty() {
        Relay::Skip
    } else {
        Relay::Emit(StderrEvent { op: op.to_owned(), chunk: text })
    }
}

/// Whether `relay` is what is done about `bytes` of error output, or about output that
/// could not be read.
pub open spec fn relays_chunk(
    op: Seq<char>,
    bytes: Option<&[u8]>,
    relay: Relay<StderrEvent>,
) -> bool {
    &&& relay is Stop <==> (bytes is None || bytes->0@.len() == 0)
    &&& relay is Skip <==> bytes is Some && bytes->0@.len() > 0 && trimmed(
        lossy_utf8(bytes->0@),
    ).len() == 0
    &&& relay matches Relay::Emit(event) ==> {
        &&& event.op@ == op
        &&& event.chunk@ == lossy_utf8(bytes->0@)
        &&& valid_utf8(bytes->0@) ==> event.chunk@ == decode_utf8(bytes->0@)
    }
}

/// What to do about bytes that were read from the error output, or nothing where
/// reading failed.
pub fn relay_chunk(op: &str, bytes: Option<&[u8]>) -> (relay: Relay<StderrEvent>)
    ensures
        relays_chunk(op@, bytes, relay),
{
    match bytes {
        None => Relay::Stop,
        Some(bytes) => {
            if bytes.len() == 0 {
                Relay::Stop
            } else {
                relay_text(op, from_utf8_lossy(bytes))
            }
        },
    }
}

/// Whether `event` tells the end of a process that was waited for.
pub open spec fn tells_exit(
    op: Seq<char>,
    waited: Result<Option<i32>, String>,
    event: DoneEvent,
) -> bool {
    &&& event.op@ == op
    &&& event.code == match waited {
        Ok(Some(code)) => code,
        _ => -1i32,
    }
}

/// The end of a process: its exit code, or -1 where it has none or could not be
/// waited for.
pub fn done_event(op: &str, waited: Result<Option<i32>, String>) -> (event: DoneEvent)
    ensures
        tells_exit(op@, waited, event),
{
    let code: i32 = match waited {
        Ok(Some(code)) => code,
        _ => -1,
    };
    DoneEvent { op: op.to_owned(), code }
}

/// Whether `event` tells the end of a process that was waited for, and the place is left
/// to `held`.
pub open spec fn ends_process(
    op: Seq<char>,
    waited: Result<Option<i32>, String>,
    held: Option<u32>,
    event: DoneEvent,
) -> bool {
    held is None && tells_exit(op, waited, event)
}

/// Ends an operation that ran as a process: the place is free when the end is told.
pub fn finish_process(runner: &mut Runner, op: &str, waited: Result<Option<i32>, String>) -> (event:
    DoneEvent)
    ensures
        final(runner)@ is None,
        ends_process(op@, waited, final(runner)@, event),
{
    runner.clear();
    done_event(op, waited)
}

/// What to do to stop the running operation.
pub enum Cancel {
    /// Nothing runs.
    Idle,
    /// The operation cannot be stopped.
    Refused(String),
    /// Run `program` with `args`.
    Kill { program: &'static str, args: Vec<String> },
}

/// The command that stops the process `pid` on the given system.
pub open spec fn kill_command(os: Seq<char>, pid: u32) -> (Seq<char>, Seq<Seq<char>>) {
    if os == "windows"@ {
        ("taskkill"@, seq!["/PID"@, decimal(pid as nat), "/T"@, "/F"@])
    } else {
        ("kill"@, seq!["-9"@, decimal(pid as nat)])
    }
}

/// Whether `res` says how to stop the operation of `holder`, and the place goes to
/// `held`.
pub open spec fn cancels(
    target: Target,
    holder: Option<u32>,
    held: Option<u32>,
    res: Cancel,
) -> bool {
    &&& held is None
    &&& match holder {
        None => res is Idle,
        Some(pid) => if target.embeds_backend() {
            res matches Cancel::Refused(message) && message@
                == "The embedded Android backend cannot be interrupted safely yet"@
        } else {
            res matches Cancel::Kill { program, args } && (program@, texts(args@)) == kill_command(
                target.os@,
                pid,
            )
        },
    }
}

/// Frees the place of the running operation, and says how to stop the operation.
pub fn cancel_nscb(runner: &mut Runner, target: &Target) -> (res: Cancel)
    ensures
        cancels(*target, old(runner)@, final(runner)@, res),
{
    match runner.pid.take() {
        None => Cancel::Idle,
        Some(pid) => {
            if target.is_android() {
                return Cancel::Refused(
                    "The embedded Android backend cannot be interrupted safely yet".to_owned(),
                );
            }
            let id = decimal_text(pid as u64);
            let mut args: Vec<String> = Vec::new();
            if target.is_windows() {
                args.push("/PID".to_owned());
                args.push(id);
                args.push("/T".to_owned());
                args.push("/F".to_owned());
                assert(texts(args@) =~= kill_command(target.os@, pid).1);
                Cancel::Kill { program: "taskkill", args }
            } else {
                args.push("-9".to_owned());
                args.push(id);
                assert(texts(args@) =~= kill_command(target.os@, pid).1);
                Cancel::Kill { program: "kill", args }
            }
        },
    }
}

/// Whether `res` answers a request to stop, whose command ended as `status` says.
pub open spec fn answers_cancel(
    target: Target,
    status: Result<bool, String>,
    res: Result<(), String>,
) -> bool {
    match status {
        Err(e) => res matches Err(message) && message@ == Failure::StopProcess.message(e@),
        Ok(success) => if target.os@ == "windows"@ && !success {
            res matches Err(message) && message@ == "Failed to stop running process"@
        } else {
            res is Ok
        },
    }
}

/// The answer to a request to stop, once the command has run: `status` says whether
/// it exited with success. Only on Windows does that decide.
pub fn cancel_outcome(target: &Target, status: Result<bool, String>) -> (res: Result<(), String>)
    ensures
        answers_cancel(*target, status, res),
{
    match status {
        Err(e) => Err(Failure::StopProcess.describe(e.as_str())),
        Ok(success) => {
            if target.is_windows() && !success {
                Err("Failed to stop running process".to_owned())
            } else {
                Ok(())
            }
        },
    }
}

/// Whether `res` says if the place, which goes from `holder` to `held`, was taken for
/// the embedded backend.
pub open spec fn takes_place(
    holder: Option<u32>,
    held: Option<u32>,
    res: Result<(), String>,
) -> bool {
    match holder {
        None => res is Ok && held == Some(0u32),
        Some(pid) => {
            &&& res matches Err(message)
            &&& message@ == "An operation is already running"@
            &&& held == Some(pid)
        },
    }
}

/// Takes the place for an operation of the embedded backend, unless one runs.
pub fn run_embedded(runner: &mut Runner) -> (res: Result<(), String>)
    ensures
        takes_place(old(runner)@, final(runner)@, res),
{
    if running_pid(runner).is_some() {
        return Err("An operation is already running".to_owned());
    }
    runner.pid = Some(0);
    Ok(())
}

/// What is said of how an operation of the embedded backend has come out.
pub struct EmbeddedReport {
    pub stdout: Option<StdoutEvent>,
    pub stderr: Option<StderrEvent>,
}

/// Whether `report` says how an operation of the embedded backend has come out.
pub open spec fn reports_outcome(
    op: Seq<char>,
    outcome: Result<(), String>,
    report: EmbeddedReport,
) -> bool {
    match outcome {
        Ok(_) => {
            &&& report.stdout matches Some(event)
            &&& event.op@ == op
            &&& event.line@ == "[DONE] Android operation completed"@
            &&& report.stderr is None
        },
        Err(message) => {
            &&& report.stderr matches Some(event)
            &&& event.op@ == op
            &&& event.chunk@ == message@
            &&& report.stdout is None
        },
    }
}

/// Reports how an operation of the embedded backend has come out.
pub fn embedded_report(op: &str, outcome: &Result<(), String>) -> (report: EmbeddedReport)
    ensures
        reports_outcome(op@, *outcome, report),
{
    match outcome {
        Ok(_) => EmbeddedReport {
            stdout: Some(
                StdoutEvent {
                    op: op.to_owned(),
                    line: "[DONE] Android operation completed".to_owned(),
                },
            ),
            stderr: None,
        },
        Err(message) => EmbeddedReport {
            stdout: None,
            stderr: Some(StderrEvent { op: op.to_owned(), chunk: message.clone() }),
        },
    }
}

/// Whether `event` tells the end of an operation of the embedded backend.
pub open spec fn tells_outcome(
    op: Seq<char>,
    outcome: Result<(), String>,
    event: DoneEvent,
) -> bool {
    &&& event.op@ == op
    &&& outcome is Ok ==> event.code == 0
    &&& outcome is Err ==> event.code == 1
}

/// The end of an operation of the embedded backend: its code says whether it came
/// out well.
pub fn embedded_done(op: &str, outcome: &Result<(), String>) -> (event: DoneEvent)
    ensures
        tells_outcome(op@, *outcome, event),
{
    let code: i32 = match outcome {
        Ok(_) => 0,
        Err(_) => 1,
    };
    DoneEvent { op: op.to_owned(), code }
}

/// Whether `event` tells the end of an operation of the embedded backend, and the place
/// is left to `held`.
pub open spec fn ends_embedded(
    op: Seq<char>,
    outcome: Result<(), String>,
    held: Option<u32>,
    event: DoneEvent,
) -> bool {
    held is None && tells_outcome(op, outcome, event)
}

/// Ends an operation of the embedded backend: the place is free when the end is told.
pub fn finish_embedded(runner: &mut Runner, op: &str, outcome: &Result<(), String>) -> (event:
    DoneEvent)
    ensures
        final(runner)@ is None,
        ends_embedded(op@, *outcome, final(runner)@, event),
{
    runner.clear();
    embedded_done(op, outcome)
}

/// Whether `res` is the sign of life of an operation, or nothing once it has ended.
pub open spec fn is_heartbeat(op: Seq<char>, processing: bool, res: Option<StdoutEvent>) -> bool {
    &&& res is Some <==> processing
    &&& res matches Some(event) ==> event.op@ == op && event.line@
        == "[PROCESSING] NSCB is still working..."@
}

/// What is said from time to time while the embedded backend works.
pub fn heartbeat(op: &str, processing: bool) -> (res: Option<StdoutEvent>)
    ensures
        is_heartbeat(op@, processing, res),
{
    if processing {
        Some(
            StdoutEvent {
                op: op.to_owned(),
                line: "[PROCESSING] NSCB is still working...".to_owned(),
            },
        )
    } else {
        None
    }
}

/// What a start waits for once all of `events` have come.
pub open spec fn stage_after<P>(events: Seq<LaunchEvent<P>>) -> LaunchStage<P> {
    if events.len() == 0 {
        LaunchStage::ResolvingExecutable
    } else {
        next_stage(events.last())
    }
}

/// Whether each event answers what the start asked for before it.
pub open spec fn launch_all_answer<P>(events: Seq<LaunchEvent<P>>) -> bool
    decreases events.len(),
{
    events.len() == 0 || {
        &&& launch_all_answer(events.drop_last())
        &&& launch_answers(stage_after(events.drop_last()), events.last())
    }
}

/// The holder of the place once all of `events` have come.
pub open spec fn holder_after<P>(holder: Option<u32>, events: Seq<LaunchEvent<P>>) -> Option<u32>
    decreases events.len(),
{
    if events.len() == 0 {
        holder
    } else {
        next_holder(holder_after(holder, events.drop_last()), events.last())
    }
}

/// As long as no process has started, a start leaves the place as it found it.
pub proof fn law_failed_start_leaves_place<P>(
    holder: Option<u32>,
    events: Seq<LaunchEvent<P>>,
)
    requires
        forall|i: int|
            0 <= i < events.len() ==> !(#[trigger] events[i] matches LaunchEvent::Spawned(Ok(_))),
    ensures
        holder_after(holder, events) == holder,
    decreases events.len(),
{
    if events.len() > 0 {
        let before = events.drop_last();
        assert forall|i: int| 0 <= i < before.len() implies !(
            #[trigger] before[i] matches LaunchEvent::Spawned(Ok(_))) by {
            assert(before[i] == events[i]);
        }
        law_failed_start_leaves_place(holder, before);
        assert(!(events[events.len() - 1] matches LaunchEvent::Spawned(Ok(_))));
    }
}

/// No step of a start frees a place that is taken.
pub proof fn law_start_frees_nothing<P>(holder: Option<u32>, events: Seq<LaunchEvent<P>>)
    requires
        holder is Some,
    ensures
        holder_after(holder, events) is Some,
    decreases events.len(),
{
    if events.len() > 0 {
        law_start_frees_nothing(holder, events.drop_last());
    }
}

/// A start that has come to the output of its process has started one process, and
/// that process holds the place, whether its output could be captured or not.
pub proof fn law_started_process_holds_place<P>(
    holder: Option<u32>,
    events: Seq<LaunchEvent<P>>,
)
    requires
        launch_all_answer(events),
        events.len() > 0,
        events.last() is Captured,
    ensures
        events.len() == 4,
        events[2] matches LaunchEvent::Spawned(Ok(pid)) && holder_after(holder, events) == Some(
            pid,
        ),
{
    reveal_with_fuel(launch_all_answer, 5);
    reveal_with_fuel(holder_after, 5);
    let one = events.drop_last();
    let two = one.drop_last();
    let three = two.drop_last();
    assert(events[2] == one.last());
    assert(three.drop_last().len() == 0);
}

/// Whether a start with the arguments `args` goes through `launches` and asks for
/// `actions` while `events` come, each of which answers the action before it, and the
/// place goes through `holders`; the executable is called `name`.
pub open spec fn launch_runs<P>(
    args: Seq<String>,
    name: Seq<char>,
    launches: Seq<Launch<P>>,
    actions: Seq<LaunchAction<P>>,
    holders: Seq<Option<u32>>,
    events: Seq<LaunchEvent<P>>,
) -> bool {
    &&& launches.len() == events.len() + 1
    &&& actions.len() == events.len() + 1
    &&& holders.len() == events.len() + 1
    &&& launch_begins(
        holders[0],
        args,
        Ok::<(Launch<P>, LaunchAction<P>), String>((launches[0], actions[0])),
    )
    &&& forall|i: int|
        0 <= i < events.len() ==> {
            &&& launch_answers(launches[i].stage(), #[trigger] events[i])
            &&& launch_goes_on(
                launches[i],
                holders[i],
                name,
                events[i],
                launches[i + 1],
                actions[i + 1],
                holders[i + 1],
            )
        }
}

/// A process is started on the arguments that the start was given, all of them and in
/// their order, from the executable and in the directory that were found; its output is
/// followed only once it has started and holds the place and both streams are there.
pub proof fn law_process_gets_what_the_start_was_given<P>(
    args: Seq<String>,
    name: Seq<char>,
    launches: Seq<Launch<P>>,
    actions: Seq<LaunchAction<P>>,
    holders: Seq<Option<u32>>,
    events: Seq<LaunchEvent<P>>,
)
    requires
        launch_runs(args, name, launches, actions, holders, events),
    ensures
        holders[0] is None,
        actions[0] is ResolveExecutable,
        events.len() <= 4,
        forall|i: int|
            0 <= i < actions.len() ==> (#[trigger] actions[i] matches LaunchAction::Spawn {
                executable,
                args: given,
                work_dir,
            } ==> {
                &&& i == 2
                &&& given@.len() == args.len()
                &&& forall|k: int| 0 <= k < args.len() ==> #[trigger] given@[k] == args[k]
                &&& events[0] matches LaunchEvent::ExecutableResolved(Ok(found))
                &&& executable == found
                &&& events[1] matches LaunchEvent::RootResolved(Ok(dir))
                &&& work_dir == dir
            }),
        forall|i: int|
            0 <= i < actions.len() && #[trigger] actions[i] is Follow ==> {
                &&& i == 4
                &&& actions[2] is Spawn
                &&& events[2] matches LaunchEvent::Spawned(Ok(pid))
                &&& holders[4] == Some(pid)
                &&& events[3] matches LaunchEvent::Captured { stdout, stderr }
                &&& stdout && stderr
            },
        forall|i: int|
            0 <= i < actions.len() && #[trigger] actions[i] is Fail ==> i == events.len(),
{
    lemma_launch_runs(args, name, launches, actions, holders, events);
}

proof fn lemma_launch_runs<P>(
    args: Seq<String>,
    name: Seq<char>,
    launches: Seq<Launch<P>>,
    actions: Seq<LaunchAction<P>>,
    holders: Seq<Option<u32>>,
    events: Seq<LaunchEvent<P>>,
)
    requires
        launch_runs(args, name, launches, actions, holders, events),
    ensures
        events.len() <= 4,
        events.len() > 0 ==> launch_answers(launches[0].stage(), events[0]) && launch_goes_on(
            launches[0],
            holders[0],
            name,
            events[0],
            launches[1],
            actions[1],
            holders[1],
        ),
        events.len() > 1 ==> launch_answers(launches[1].stage(), events[1]) && launch_goes_on(
            launches[1],
            holders[1],
            name,
            events[1],
            launches[2],
            actions[2],
            holders[2],
        ),
        events.len() > 2 ==> launch_answers(launches[2].stage(), events[2]) && launch_goes_on(
            launches[2],
            holders[2],
            name,
            events[2],
            launches[3],
            actions[3],
            holders[3],
        ),
        events.len() > 3 ==> launch_answers(launches[3].stage(), events[3]) && launch_goes_on(
            launches[3],
            holders[3],
            name,
            events[3],
            launches[4],
            actions[4],
            holders[4],
        ),
{
    assert(events.len() > 0 ==> launch_answers(launches[0].stage(), events[0]));
    assert(events.len() > 1 ==> launch_answers(launches[1].stage(), events[1]));
    assert(events.len() > 2 ==> launch_answers(launches[2].stage(), events[2]));
    assert(events.len() > 3 ==> launch_answers(launches[3].stage(), events[3]));
    assert(events.len() > 4 ==> launch_answers(launches[4].stage(), events[4]));
}

/// A start waits for the answer to what it asked for last, whatever the answer is, and
/// for nothing else.
pub proof fn law_start_expects_any_answer_to_what_it_asked<P>(
    args: Seq<String>,
    name: Seq<char>,
    launches: Seq<Launch<P>>,
    actions: Seq<LaunchAction<P>>,
    holders: Seq<Option<u32>>,
    events: Seq<LaunchEvent<P>>,
    event: LaunchEvent<P>,
    awaited: bool,
)
    requires
        launch_runs(args, name, launches, actions, holders, events),
        tells_if_awaited(launches.last(), event, awaited),
    ensures
        awaited <==> launch_answers(launches.last().stage(), event),
        awaited <==> match actions.last() {
            LaunchAction::ResolveExecutable => event is ExecutableResolved,
            LaunchAction::ResolveRoot => event is RootResolved,
            LaunchAction::Spawn { .. } => event is Spawned,
            LaunchAction::CaptureOutput => event is Captured,
            LaunchAction::Follow => false,
            LaunchAction::Fail(_) => false,
        },
{
    lemma_launch_runs(args, name, launches, actions, holders, events);
}

/// What a start does after each answer to what it asked for: a success leads on, with
/// the arguments kept until the process has them, and a failure ends the start with its
/// cause. The place changes hands when a process has started, and only then.
pub proof fn law_each_answer_leads_the_start_on<P>(
    launch: Launch<P>,
    holder: Option<u32>,
    name: Seq<char>,
    event: LaunchEvent<P>,
    next: Launch<P>,
    action: LaunchAction<P>,
    held: Option<u32>,
)
    requires
        launch_answers(launch.stage(), event),
        launch_goes_on(launch, holder, name, event, next, action, held),
    ensures
        event matches LaunchEvent::ExecutableResolved(Ok(_)) ==> action is ResolveRoot
            && next.args() == launch.args(),
        event matches LaunchEvent::ExecutableResolved(Err(cause)) ==> (
        action matches LaunchAction::Fail(message) && message@ == cause@),
        event matches LaunchEvent::RootResolved(Ok(dir)) ==> (action matches LaunchAction::Spawn {
            args,
            work_dir,
            ..
        } && args@ == launch.args() && work_dir == dir),
        event matches LaunchEvent::RootResolved(Err(cause)) ==> (action matches LaunchAction::Fail(
            message,
        ) && message@ == cause@),
        event matches LaunchEvent::Spawned(Ok(pid)) ==> action is CaptureOutput && held == Some(
            pid,
        ),
        !(event matches LaunchEvent::Spawned(Ok(_))) ==> held == holder,
        event matches LaunchEvent::Spawned(Err(cause)) ==> (action matches LaunchAction::Fail(
            message,
        ) && message@ == "Failed to start "@ + name + ": "@ + cause@),
        event matches LaunchEvent::Captured { stdout, stderr } ==> {
            &&& action is Follow <==> stdout && stderr
            &&& !stdout ==> (action matches LaunchAction::Fail(message) && message@
                == "Failed to capture stdout"@)
            &&& stdout && !stderr ==> (action matches LaunchAction::Fail(message) && message@
                == "Failed to capture stderr"@)
        },
{
}

/// Whether something in `text` can be seen.
pub open spec fn is_visible(text: Seq<char>) -> bool {
    exists|i: int| 0 <= i < text.len() && !is_white_space(#[trigger] text[i])
}

proof fn lemma_visible_is_not_trimmed(text: Seq<char>)
    ensures
        trimmed(text).len() > 0 <==> is_visible(text),
{
    law_only_white_space_is_trimmed(text);
    law_trimmed_is_clean(text);
    let start = choose|start: int| #[trigger] white_around(text, start, trimmed(text));
    if trimmed(text).len() > 0 {
        assert(trimmed(text)[0] == text[start + 0]);
        assert(!is_white_space(text[start]));
    }
}

/// A line of output in which something can be seen is passed on, with nothing lost but
/// the white space around it; any other is passed over, and the end of the output is
/// where nothing comes or reading fails.
pub proof fn law_visible_line_is_passed_on(
    op: Seq<char>,
    count: Option<usize>,
    line: Seq<char>,
    relay: Relay<StdoutEvent>,
)
    requires
        relays_line(op, count, line, relay),
    ensures
        relay is Stop <==> count is None || count->0 == 0,
        relay is Emit <==> count is Some && count->0 > 0 && is_visible(line),
        relay matches Relay::Emit(event) ==> {
            &&& event.op@ == op
            &&& exists|start: int| #[trigger] white_around(line, start, event.line@)
            &&& event.line@.len() > 0
            &&& !is_white_space(event.line@[0])
            &&& !is_white_space(event.line@.last())
        },
{
    lemma_visible_is_not_trimmed(line);
    law_only_white_space_is_trimmed(line);
    law_trimmed_is_clean(line);
}

/// Error output in which something can be seen is passed on whole, white space and all;
/// any other is passed over.
pub proof fn law_visible_errors_are_passed_on_whole(
    op: Seq<char>,
    text: Seq<char>,
    relay: Relay<StderrEvent>,
)
    requires
        relays_text(op, text, relay),
    ensures
        relay is Emit <==> is_visible(text),
        relay is Skip <==> !is_visible(text),
        relay matches Relay::Emit(event) ==> event.op@ == op && event.chunk@ == text,
{
    lemma_visible_is_not_trimmed(text);
}

/// Bytes of error output are passed on as the text that they encode, all of it, where
/// something in it can be seen; the output ends where no bytes come or reading fails.
pub proof fn law_error_bytes_are_passed_on_whole(
    op: Seq<char>,
    bytes: Option<&[u8]>,
    relay: Relay<StderrEvent>,
)
    requires
        relays_chunk(op, bytes, relay),
    ensures
        relay is Stop <==> bytes is None || bytes->0@.len() == 0,
        relay is Emit <==> bytes is Some && bytes->0@.len() > 0 && is_visible(
            lossy_utf8(bytes->0@),
        ),
        relay matches Relay::Emit(event) ==> {
            &&& event.op@ == op
            &&& event.chunk@ == lossy_utf8(bytes->0@)
            &&& valid_utf8(bytes->0@) ==> event.chunk@ == decode_utf8(bytes->0@)
        },
{
    if bytes is Some {
        lemma_visible_is_not_trimmed(lossy_utf8(bytes->0@));
    }
}

/// The end of a process tells its own exit code, whatever it is, and -1 where it has
/// none; two processes that ended differently are told apart.
pub proof fn law_exit_code_is_told(
    op: Seq<char>,
    code: i32,
    event: DoneEvent,
    other_code: i32,
    other: DoneEvent,
    waited: Result<Option<i32>, String>,
    last: DoneEvent,
)
    requires
        tells_exit(op, Ok::<Option<i32>, String>(Some(code)), event),
        tells_exit(op, Ok::<Option<i32>, String>(Some(other_code)), other),
        tells_exit(op, waited, last),
    ensures
        event.op@ == op && event.code == code,
        event.code == other.code <==> code == other_code,
        last.op@ == op,
        !(waited matches Ok(Some(_))) ==> last.code == -1,
{
}

/// An operation of the embedded backend reports one thing, its success or the whole
/// message of its failure, and its end tells which of the two it was.
pub proof fn law_embedded_outcome_is_told(
    op: Seq<char>,
    outcome: Result<(), String>,
    report: EmbeddedReport,
    event: DoneEvent,
)
    requires
        reports_outcome(op, outcome, report),
        tells_outcome(op, outcome, event),
    ensures
        event.op@ == op,
        event.code == 0 <==> outcome is Ok,
        event.code == 1 <==> outcome is Err,
        report.stdout is Some <==> outcome is Ok,
        report.stderr is Some <==> outcome is Err,
        report.stdout matches Some(said) ==> said.op@ == op && said.line@
            == "[DONE] Android operation completed"@,
        report.stderr matches Some(said) ==> said.op@ == op && said.chunk@ == outcome->Err_0@,
{
}

/// As long as an operation works it gives a sign of life under its own name, and none
/// after.
pub proof fn law_heartbeat_lasts_as_long_as_the_work(
    op: Seq<char>,
    processing: bool,
    res: Option<StdoutEvent>,
)
    requires
        is_heartbeat(op, processing, res),
    ensures
        res is Some <==> processing,
        res is Some ==> res->0.op@ == op && res->0.line@
            == "[PROCESSING] NSCB is still working..."@,
{
}

/// Whoever holds the place, a request to stop frees it, and it stops the process that
/// held it and no other: the command names its id, and is the one of the system.
pub proof fn law_cancel_stops_the_process_that_runs(
    target: Target,
    holder: Option<u32>,
    held: Option<u32>,
    res: Cancel,
)
    requires
        cancels(target, holder, held, res),
    ensures
        held is None,
        res is Idle <==> holder is None,
        res is Refused <==> holder is Some && target.os@ == "android"@,
        res matches Cancel::Refused(message) ==> message@
            == "The embedded Android backend cannot be interrupted safely yet"@,
        res matches Cancel::Kill { program, args } ==> {
            &&& is_decimal(args@[1]@, holder->0 as int)
            &&& target.os@ == "windows"@ ==> {
                &&& program@ == "taskkill"@
                &&& args@.len() == 4
                &&& args@[0]@ == "/PID"@
                &&& args@[2]@ == "/T"@
                &&& args@[3]@ == "/F"@
            }
            &&& target.os@ != "windows"@ ==> {
                &&& program@ == "kill"@
                &&& args@.len() == 2
                &&& args@[0]@ == "-9"@
            }
        },
{
    if let Some(pid) = holder {
        law_decimal_reads_back(pid as nat);
        if let Cancel::Kill { program, args } = res {
            let given = texts(args@);
            assert(given == kill_command(target.os@, pid).1);
            assert(given.len() == args@.len());
            assert(given[0] == args@[0]@);
            assert(given[1] == args@[1]@);
            if target.os@ == "windows"@ {
                assert(given[2] == args@[2]@);
                assert(given[3] == args@[3]@);
            }
        }
    }
}

/// A request to stop fails where its command could not be run, with the whole cause, and
/// on Windows also where the command failed; nowhere else does it matter how the command
/// ended.
pub proof fn law_cancel_fails_where_its_command_does(
    target: Target,
    status: Result<bool, String>,
    res: Result<(), String>,
)
    requires
        answers_cancel(target, status, res),
    ensures
        status matches Err(cause) ==> res is Err && res->Err_0@ == "Failed to stop process: "@
            + cause@,
        status is Ok && target.os@ != "windows"@ ==> res is Ok,
        status is Ok && target.os@ == "windows"@ ==> (res is Ok <==> status->Ok_0),
        status is Ok && res is Err ==> res->Err_0@ == "Failed to stop running process"@,
{
}

/// One operation runs at a time: once the place is taken, whether by a process or by the
/// embedded backend, neither kind of start is let in, and neither changes the place.
/// A place that is free lets either in.
pub proof fn law_one_operation_at_a_time<P>(
    holder: Option<u32>,
    held: Option<u32>,
    embedded: Result<(), String>,
    args: Seq<String>,
    started: Result<(Launch<P>, LaunchAction<P>), String>,
)
    requires
        takes_place(holder, held, embedded),
        launch_begins(holder, args, started),
    ensures
        embedded is Ok <==> holder is None,
        started is Ok <==> holder is None,
        holder is Some ==> held == holder,
        holder is None ==> held is Some,
        holder is Some ==> started->Err_0@ == "A process is already running"@ && embedded->Err_0@
            == "An operation is already running"@,
{
}

/// Once an operation has ended, however it did, or was stopped, the next one is let in.
pub proof fn law_end_lets_the_next_one_in<P>(
    op: Seq<char>,
    waited: Result<Option<i32>, String>,
    outcome: Result<(), String>,
    target: Target,
    holder: Option<u32>,
    held: Option<u32>,
    event: DoneEvent,
    stopped: Cancel,
    args: Seq<String>,
    started: Result<(Launch<P>, LaunchAction<P>), String>,
    taken: Option<u32>,
    embedded: Result<(), String>,
)
    requires
        ends_process(op, waited, held, event) || ends_embedded(op, outcome, held, event) || cancels(
            target,
            holder,
            held,
            stopped,
        ),
        launch_begins(held, args, started),
        takes_place(held, taken, embedded),
    ensures
        held is None,
        started is Ok,
        embedded is Ok && taken is Some,
{
}

} // verus!
