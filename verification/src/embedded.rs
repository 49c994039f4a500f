//! An operation of the backend that is built into the application: which
//! arguments it gets, and what is done to bring the documents among them into
//! reach of ordinary file access.
#[allow(unused_imports)]
use crate::documents::{
    cache_file_name, cache_name, complete_line, complete_text, due_percent, is_complete_line,
    is_progress_line, is_share, law_lines_tell_what_happens, law_percent_grows,
    law_report_is_the_share, prepare_line, prepare_text, progress_line, progress_percent,
    progress_text, reuse_line, reuse_text, safe_document_name, safe_name, MIB,
};
use crate::failure::Failure;
#[allow(unused_imports)]
use crate::outside::{parse_url, parsed_url};
#[allow(unused_imports)]
use crate::text::{begins_with, lemma_texts_push, starts_with, texts};
use vstd::prelude::*;

verus! {

/// The number of bytes that are read from a document at a time.
pub const CHUNK_SIZE: usize = 16_777_216;

/// The number of seconds between two signs of life of a working backend.
pub const HEARTBEAT_SECONDS: u64 = 10;

/// The copy of one document into the cache.
pub struct Transfer {
    /// The size of the document, where it is known.
    pub size: Option<u64>,
    /// The path of the copy.
    pub path: String,
    /// The number of bytes copied so far.
    pub copied: u64,
    /// The percentage reported last.
    pub last_percent: u64,
}

/// What a `Transfer` stands for.
pub struct TransferView {
    pub size: Option<u64>,
    pub path: Seq<char>,
    pub copied: u64,
    pub last_percent: u64,
}

impl View for Transfer {
    type V = TransferView;

    open spec fn view(&self) -> TransferView {
        TransferView {
            size: self.size,
            path: self.path@,
            copied: self.copied,
            last_percent: self.last_percent,
        }
    }
}

/// What an operation waits for.
pub enum Stage {
    Opening,
    Locating(Option<u64>),
    CreatingFolder(Transfer),
    Measuring(Transfer),
    Seeking(Transfer),
    CreatingFile(Transfer),
    Reading(Transfer),
    Writing(Transfer, u64),
    Flushing(Transfer),
    Dispatching,
    Finished,
}

/// What a `Stage` stands for.
pub enum StageView {
    Opening,
    Locating(Option<u64>),
    CreatingFolder(TransferView),
    Measuring(TransferView),
    Seeking(TransferView),
    CreatingFile(TransferView),
    Reading(TransferView),
    Writing(TransferView, u64),
    Flushing(TransferView),
    Dispatching,
    Finished,
}

impl View for Stage {
    type V = StageView;

    open spec fn view(&self) -> StageView {
        match *self {
            Stage::Opening => StageView::Opening,
            Stage::Locating(size) => StageView::Locating(size),
            Stage::CreatingFolder(t) => StageView::CreatingFolder(t@),
            Stage::Measuring(t) => StageView::Measuring(t@),
            Stage::Seeking(t) => StageView::Seeking(t@),
            Stage::CreatingFile(t) => StageView::CreatingFile(t@),
            Stage::Reading(t) => StageView::Reading(t@),
            Stage::Writing(t, pending) => StageView::Writing(t@, pending),
            Stage::Flushing(t) => StageView::Flushing(t@),
            Stage::Dispatching => StageView::Dispatching,
            Stage::Finished => StageView::Finished,
        }
    }
}

/// What has come of the last thing that an operation asked for.
pub enum Event {
    /// The document was opened, and its size read where it has one.
    Opened(Result<Option<u64>, String>),
    /// The tools directory was found, which gives the path of the copy.
    CacheLocated(Result<String, String>),
    FolderCreated(Result<(), String>),
    /// The size of the copy that is there already.
    CacheMeasured(Option<u64>),
    Sought(Result<(), String>),
    FileCreated(Result<(), String>),
    /// The number of bytes that were read; none at the end of the document.
    ChunkRead(Result<u64, String>),
    ChunkWritten(Result<(), String>),
    Flushed(Result<(), String>),
    Dispatched(Result<(), String>),
}

/// What an operation asks for next.
pub enum Action {
    OpenDocument(String),
    /// Find the cache; the copy has the given file name in it.
    LocateCache(String),
    CreateFolder,
    MeasureCache,
    SeekStart,
    CreateFile,
    ReadChunk,
    /// Write what was read last, which has the given length.
    WriteChunk(u64),
    Flush,
    /// Run the backend on the given command line.
    Dispatch(Vec<String>),
    Finish(Result<(), String>),
}

/// What an `Action` stands for.
pub enum ActionView {
    OpenDocument(Seq<char>),
    LocateCache(Seq<char>),
    CreateFolder,
    MeasureCache,
    SeekStart,
    CreateFile,
    ReadChunk,
    WriteChunk(u64),
    Flush,
    Dispatch(Seq<Seq<char>>),
    Finish(Result<(), Seq<char>>),
}

impl View for Action {
    type V = ActionView;

    open spec fn view(&self) -> ActionView {
        match *self {
            Action::OpenDocument(uri) => ActionView::OpenDocument(uri@),
            Action::LocateCache(name) => ActionView::LocateCache(name@),
            Action::CreateFolder => ActionView::CreateFolder,
            Action::MeasureCache => ActionView::MeasureCache,
            Action::SeekStart => ActionView::SeekStart,
            Action::CreateFile => ActionView::CreateFile,
            Action::ReadChunk => ActionView::ReadChunk,
            Action::WriteChunk(len) => ActionView::WriteChunk(len),
            Action::Flush => ActionView::Flush,
            Action::Dispatch(argv) => ActionView::Dispatch(texts(argv@)),
            Action::Finish(Ok(())) => ActionView::Finish(Ok(())),
            Action::Finish(Err(message)) => ActionView::Finish(Err(message@)),
        }
    }
}

/// What an operation says, and what it asks for next.
pub struct Reaction {
    pub lines: Vec<String>,
    pub action: Action,
}

/// What a `Reaction` stands for.
pub struct ReactionView {
    pub lines: Seq<Seq<char>>,
    pub action: ActionView,
}

impl View for Reaction {
    type V = ReactionView;

    open spec fn view(&self) -> ReactionView {
        ReactionView { lines: texts(self.lines@), action: self.action@ }
    }
}

/// An operation of the embedded backend, up to and with its run.
pub struct EmbeddedRun {
    /// The arguments as they were given.
    args: Vec<String>,
    /// What the backend gets for the first of them.
    resolved: Vec<String>,
    stage: Stage,
}

/// What an `EmbeddedRun` stands for.
pub struct RunView {
    pub args: Seq<Seq<char>>,
    pub resolved: Seq<Seq<char>>,
    pub stage: StageView,
}

impl View for EmbeddedRun {
    type V = RunView;

    closed spec fn view(&self) -> RunView {
        RunView { args: texts(self.args@), resolved: texts(self.resolved@), stage: self.stage@ }
    }
}

/// Whether an argument names a document that only the system can open.
pub open spec fn is_document(arg: Seq<char>) -> bool {
    begins_with(arg, "content://"@)
}

/// Where the list of arguments stands once every ordinary argument up to the next
/// document has been taken as it is.
pub enum Resolution {
    /// The next argument is a document with a valid URI.
    Open(Seq<Seq<char>>, Seq<char>),
    /// The next argument is a document whose URI is not valid.
    Invalid(Seq<Seq<char>>, Seq<char>),
    /// No argument is left.
    Ready(Seq<Seq<char>>),
}

/// Takes ordinary arguments as they are until a document or the end is reached.
pub open spec fn resolve_from(args: Seq<Seq<char>>, resolved: Seq<Seq<char>>) -> Resolution
    decreases args.len() - resolved.len(),
{
    if resolved.len() >= args.len() {
        Resolution::Ready(resolved)
    } else {
        let arg = args[resolved.len() as int];
        if is_document(arg) {
            match parsed_url(arg) {
                Ok(uri) => Resolution::Open(resolved, uri),
                Err(error) => Resolution::Invalid(
                    resolved,
                    Failure::ParseDocumentUri.message(error),
                ),
            }
        } else {
            resolve_from(args, resolved.push(arg))
        }
    }
}

/// Goes on with the argument after those that are resolved, once `lines` are said.
pub open spec fn proceed(
    args: Seq<Seq<char>>,
    resolved: Seq<Seq<char>>,
    lines: Seq<Seq<char>>,
) -> (RunView, ReactionView) {
    match resolve_from(args, resolved) {
        Resolution::Open(resolved, uri) => (
            RunView { args, resolved, stage: StageView::Opening },
            ReactionView { lines, action: ActionView::OpenDocument(uri) },
        ),
        Resolution::Invalid(resolved, message) => (
            RunView { args, resolved, stage: StageView::Finished },
            ReactionView { lines, action: ActionView::Finish(Err(message)) },
        ),
        Resolution::Ready(resolved) => (
            RunView { args, resolved, stage: StageView::Dispatching },
            ReactionView {
                lines: lines.push(
                    "[PROCESSING] NSCB is reading and analyzing the prepared file..."@,
                ),
                action: ActionView::Dispatch(seq!["nscb"@] + resolved),
            },
        ),
    }
}

/// How an operation begins.
pub open spec fn first_step(args: Seq<Seq<char>>) -> (RunView, ReactionView) {
    proceed(args, Seq::empty(), seq!["[START] Running embedded Android backend"@])
}

/// Whether `event` answers what an operation at `stage` has asked for.
pub open spec fn answers(stage: StageView, event: Event) -> bool {
    match (stage, event) {
        (StageView::Opening, Event::Opened(_)) => true,
        (StageView::Locating(_), Event::CacheLocated(_)) => true,
        (StageView::CreatingFolder(_), Event::FolderCreated(_)) => true,
        (StageView::Measuring(_), Event::CacheMeasured(_)) => true,
        (StageView::Seeking(_), Event::Sought(_)) => true,
        (StageView::CreatingFile(_), Event::FileCreated(_)) => true,
        (StageView::Reading(_), Event::ChunkRead(_)) => true,
        (StageView::Writing(t, pending), Event::ChunkWritten(outcome)) => outcome is Ok ==> t.copied
            + pending <= u64::MAX,
        (StageView::Flushing(_), Event::Flushed(_)) => true,
        (StageView::Dispatching, Event::Dispatched(_)) => true,
        _ => false,
    }
}

/// The operation stays with its present document, at `stage`.
pub open spec fn stays(
    run: RunView,
    stage: StageView,
    lines: Seq<Seq<char>>,
    action: ActionView,
) -> (RunView, ReactionView) {
    (
        RunView { args: run.args, resolved: run.resolved, stage },
        ReactionView { lines, action },
    )
}

/// The operation ends.
pub open spec fn ends(run: RunView, outcome: Result<(), Seq<char>>) -> (RunView, ReactionView) {
    stays(run, StageView::Finished, Seq::empty(), ActionView::Finish(outcome))
}

/// The transfer once `pending` more bytes are written.
pub open spec fn after_chunk(t: TransferView, pending: u64) -> TransferView {
    let copied = (t.copied + pending) as u64;
    TransferView {
        copied,
        last_percent: match due_percent(copied, t.last_percent, t.size) {
            Some(percent) => percent,
            None => t.last_percent,
        },
        ..t
    }
}

/// What is said once `pending` more bytes are written.
pub open spec fn chunk_lines(t: TransferView, pending: u64) -> Seq<Seq<char>> {
    let copied = (t.copied + pending) as u64;
    match due_percent(copied, t.last_percent, t.size) {
        Some(percent) => seq![progress_line(percent, copied, t.size->0)],
        None => Seq::empty(),
    }
}

/// How an operation goes on after `event`.
pub open spec fn next_step(run: RunView, event: Event) -> (RunView, ReactionView) {
    let uri = run.args[run.resolved.len() as int];
    let name = safe_name(uri);
    let silent = Seq::<Seq<char>>::empty();
    match (run.stage, event) {
        (StageView::Opening, Event::Opened(Ok(size))) => stays(
            run,
            StageView::Locating(size),
            silent,
            ActionView::LocateCache(cache_name(uri)),
        ),
        (StageView::Opening, Event::Opened(Err(e))) => ends(
            run,
            Err(Failure::OpenDocument.message(e@)),
        ),
        (StageView::Locating(size), Event::CacheLocated(Ok(path))) => stays(
            run,
            StageView::CreatingFolder(
                TransferView { size, path: path@, copied: 0, last_percent: 0 },
            ),
            silent,
            ActionView::CreateFolder,
        ),
        (StageView::Locating(_), Event::CacheLocated(Err(e))) => ends(run, Err(e@)),
        (StageView::CreatingFolder(t), Event::FolderCreated(Ok(()))) => stays(
            run,
            StageView::Measuring(t),
            silent,
            ActionView::MeasureCache,
        ),
        (StageView::CreatingFolder(_), Event::FolderCreated(Err(e))) => ends(
            run,
            Err(Failure::CreateInputCache.message(e@)),
        ),
        (StageView::Measuring(t), Event::CacheMeasured(cached)) => if t.size is Some && t.size
            == cached {
            proceed(run.args, run.resolved.push(t.path), seq![reuse_line(name)])
        } else {
            stays(
                run,
                StageView::Seeking(t),
                seq![prepare_line(name)],
                ActionView::SeekStart,
            )
        },
        (StageView::Seeking(t), Event::Sought(Ok(()))) => stays(
            run,
            StageView::CreatingFile(t),
            silent,
            ActionView::CreateFile,
        ),
        (StageView::Seeking(_), Event::Sought(Err(e))) => ends(
            run,
            Err(Failure::SeekDocument.message(e@)),
        ),
        (StageView::CreatingFile(t), Event::FileCreated(Ok(()))) => stays(
            run,
            StageView::Reading(t),
            silent,
            ActionView::ReadChunk,
        ),
        (StageView::CreatingFile(_), Event::FileCreated(Err(e))) => ends(
            run,
            Err(Failure::CreateCacheFile.message(e@)),
        ),
        (StageView::Reading(t), Event::ChunkRead(Ok(count))) => if count == 0 {
            stays(run, StageView::Flushing(t), silent, ActionView::Flush)
        } else {
            stays(run, StageView::Writing(t, count), silent, ActionView::WriteChunk(count))
        },
        (StageView::Reading(_), Event::ChunkRead(Err(e))) => ends(
            run,
            Err(Failure::ReadDocument.message(e@)),
        ),
        (StageView::Writing(t, pending), Event::ChunkWritten(Ok(()))) => stays(
            run,
            StageView::Reading(after_chunk(t, pending)),
            chunk_lines(t, pending),
            ActionView::ReadChunk,
        ),
        (StageView::Writing(_, _), Event::ChunkWritten(Err(e))) => ends(
            run,
            Err(Failure::CacheDocument.message(e@)),
        ),
        (StageView::Flushing(t), Event::Flushed(Ok(()))) => proceed(
            run.args,
            run.resolved.push(t.path),
            seq![complete_line(t.copied)],
        ),
        (StageView::Flushing(_), Event::Flushed(Err(e))) => ends(
            run,
            Err(Failure::FinishCache.message(e@)),
        ),
        (StageView::Dispatching, Event::Dispatched(Ok(()))) => ends(run, Ok(())),
        (StageView::Dispatching, Event::Dispatched(Err(e))) => ends(run, Err(e@)),
        // An event that answers nothing; no operation gets one.
        _ => ends(run, Err(Seq::empty())),
    }
}

/// Whether an operation on `args` begins as `run`, with `reaction`.
pub open spec fn run_begins(args: Seq<Seq<char>>, run: RunView, reaction: ReactionView) -> bool {
    (run, reaction) == first_step(args)
}

/// Whether `res` says if an operation waits for `event`.
pub open spec fn tells_if_awaited(run: RunView, event: Event, res: bool) -> bool {
    res == answers(run.stage, event)
}

/// Whether an operation goes on from `run` to `next` after `event`, with `reaction`.
pub open spec fn run_goes_on(
    run: RunView,
    event: Event,
    next: RunView,
    reaction: ReactionView,
) -> bool {
    (next, reaction) == next_step(run, event)
}

/// Whether the resolved arguments fit the given ones: where the operation works on
/// a document, that document is the first argument that is not resolved.
spec fn well_formed(run: RunView) -> bool {
    match run.stage {
        StageView::Dispatching => run.resolved.len() == run.args.len(),
        StageView::Finished => run.resolved.len() <= run.args.len(),
        _ => run.resolved.len() < run.args.len() && is_document(
            run.args[run.resolved.len() as int],
        ),
    }
}

/// Goes on with the argument after those that are resolved.
fn go_on(args: Vec<String>, resolved: Vec<String>, lines: Vec<String>) -> (res: (
    EmbeddedRun,
    Reaction,
))
    requires
        resolved@.len() <= args@.len(),
    ensures
        (res.0@, res.1@) == proceed(texts(args@), texts(resolved@), texts(lines@)),
{
    let ghost given = texts(args@);
    let ghost start = texts(resolved@);
    let mut resolved = resolved;
    let mut lines = lines;
    #[verifier::loop_isolation(false)]
    while resolved.len() < args.len()
        invariant
            resolved@.len() <= args@.len(),
            given == texts(args@),
            resolve_from(given, start) == resolve_from(given, texts(resolved@)),
        decreases args@.len() - resolved@.len(),
    {
        let next: usize = resolved.len();
        assert(given[next as int] == args@[next as int]@);
        if starts_with(args[next].as_str(), "content://") {
            match Failure::ParseDocumentUri.explain(parse_url(args[next].as_str())) {
                Ok(uri) => {
                    return (
                        EmbeddedRun { args, resolved, stage: Stage::Opening },
                        Reaction { lines, action: Action::OpenDocument(uri) },
                    );
                },
                Err(message) => {
                    return (
                        EmbeddedRun { args, resolved, stage: Stage::Finished },
                        Reaction { lines, action: Action::Finish(Err(message)) },
                    );
                },
            }
        }
        let arg = args[next].clone();
        proof {
            lemma_texts_push(resolved@, arg);
        }
        resolved.push(arg);
    }
    let line = "[PROCESSING] NSCB is reading and analyzing the prepared file...".to_owned();
    proof {
        lemma_texts_push(lines@, line);
    }
    lines.push(line);
    let argv = command_line(&resolved);
    (
        EmbeddedRun { args, resolved, stage: Stage::Dispatching },
        Reaction { lines, action: Action::Dispatch(argv) },
    )
}

/// The command line of the backend for the given arguments.
fn command_line(resolved: &Vec<String>) -> (argv: Vec<String>)
    ensures
        texts(argv@) == seq!["nscb"@] + texts(resolved@),
{
    let mut argv: Vec<String> = Vec::new();
    argv.push("nscb".to_owned());
    let mut i: usize = 0;
    while i < resolved.len()
        invariant
            i <= resolved@.len(),
            argv@.len() == i + 1,
            argv@[0]@ == "nscb"@,
            forall|j: int| 0 <= j < i ==> argv@[j + 1] == #[trigger] resolved@[j],
        decreases resolved@.len() - i,
    {
        argv.push(resolved[i].clone());
        i += 1;
    }
    assert(texts(argv@) =~= seq!["nscb"@] + texts(resolved@)) by {
        assert forall|j: int| 0 < j < argv@.len() implies argv@[j] == resolved@[j - 1] by {
            assert(argv@[(j - 1) + 1] == resolved@[j - 1]);
        }
    }
    argv
}

fn no_lines() -> (lines: Vec<String>)
    ensures
        texts(lines@) == Seq::<Seq<char>>::empty(),
{
    let lines: Vec<String> = Vec::new();
    assert(texts(lines@) =~= Seq::<Seq<char>>::empty());
    lines
}

fn one_line(line: String) -> (lines: Vec<String>)
    ensures
        texts(lines@) == seq![line@],
{
    let mut lines: Vec<String> = Vec::new();
    lines.push(line);
    assert(texts(lines@) =~= seq![line@]);
    lines
}

fn stay(
    args: Vec<String>,
    resolved: Vec<String>,
    stage: Stage,
    lines: Vec<String>,
    action: Action,
) -> (res: (EmbeddedRun, Reaction))
    requires
        well_formed(RunView { args: texts(args@), resolved: texts(resolved@), stage: stage@ }),
    ensures
        res.0@ == (RunView { args: texts(args@), resolved: texts(resolved@), stage: stage@ }),
        res.1@ == (ReactionView { lines: texts(lines@), action: action@ }),
{
    (EmbeddedRun { args, resolved, stage }, Reaction { lines, action })
}

fn end(args: Vec<String>, resolved: Vec<String>, outcome: Result<(), String>) -> (res: (
    EmbeddedRun,
    Reaction,
))
    requires
        resolved@.len() <= args@.len(),
    ensures
        res.0@ == (RunView {
            args: texts(args@),
            resolved: texts(resolved@),
            stage: StageView::Finished,
        }),
        res.1@ == (ReactionView {
            lines: Seq::empty(),
            action: ActionView::Finish(
                match outcome {
                    Ok(()) => Ok(()),
                    Err(message) => Err(message@),
                },
            ),
        }),
{
    stay(args, resolved, Stage::Finished, no_lines(), Action::Finish(outcome))
}

/// Takes the copy at `path` for the present document and goes on with the next
/// argument.
fn take(args: Vec<String>, resolved: Vec<String>, path: String, line: String) -> (res: (
    EmbeddedRun,
    Reaction,
))
    requires
        resolved@.len() < args@.len(),
    ensures
        (res.0@, res.1@) == proceed(texts(args@), texts(resolved@).push(path@), seq![line@]),
{
    let mut resolved = resolved;
    proof {
        lemma_texts_push(resolved@, path);
    }
    resolved.push(path);
    go_on(args, resolved, one_line(line))
}

/// Counts the bytes written last, and says how far the copy has come.
fn chunk_written(t: Transfer, pending: u64) -> (res: (Transfer, Vec<String>))
    requires
        t.copied + pending <= u64::MAX,
    ensures
        res.0@ == after_chunk(t@, pending),
        texts(res.1@) == chunk_lines(t@, pending),
{
    let copied: u64 = t.copied + pending;
    match (progress_percent(copied, t.last_percent, t.size), t.size) {
        (Some(percent), Some(total)) => (
            Transfer { size: t.size, path: t.path, copied, last_percent: percent },
            one_line(progress_text(percent, copied, total)),
        ),
        _ => (
            Transfer { size: t.size, path: t.path, copied, last_percent: t.last_percent },
            no_lines(),
        ),
    }
}

impl EmbeddedRun {
    #[verifier::type_invariant]
    spec fn fits(self) -> bool {
        well_formed(self@)
    }

    /// Begins an operation on the given arguments.
    pub fn begin(args: Vec<String>) -> (res: (EmbeddedRun, Reaction))
        ensures
            run_begins(texts(args@), res.0@, res.1@),
    {
        let resolved: Vec<String> = Vec::new();
        assert(texts(resolved@) =~= Seq::<Seq<char>>::empty());
        go_on(args, resolved, one_line("[START] Running embedded Android backend".to_owned()))
    }

    /// Whether `event` answers what the operation has asked for.
    pub fn expects(&self, event: &Event) -> (res: bool)
        ensures
            tells_if_awaited(self@, *event, res),
    {
        match (&self.stage, event) {
            (Stage::Opening, Event::Opened(_)) => true,
            (Stage::Locating(_), Event::CacheLocated(_)) => true,
            (Stage::CreatingFolder(_), Event::FolderCreated(_)) => true,
            (Stage::Measuring(_), Event::CacheMeasured(_)) => true,
            (Stage::Seeking(_), Event::Sought(_)) => true,
            (Stage::CreatingFile(_), Event::FileCreated(_)) => true,
            (Stage::Reading(_), Event::ChunkRead(_)) => true,
            (Stage::Writing(t, pending), Event::ChunkWritten(Ok(()))) => t.copied <= u64::MAX
                - *pending,
            (Stage::Writing(_, _), Event::ChunkWritten(Err(_))) => true,
            (Stage::Flushing(_), Event::Flushed(_)) => true,
            (Stage::Dispatching, Event::Dispatched(_)) => true,
            _ => false,
        }
    }

    /// Goes on after `event`.
    pub fn step(self, event: Event) -> (res: (EmbeddedRun, Reaction))
        requires
            answers(self@.stage, event),
        ensures
            run_goes_on(self@, event, res.0@, res.1@),
    {
        proof {
            use_type_invariant(&self);
        }
        let EmbeddedRun { args, resolved, stage } = self;
        match (stage, event) {
            (Stage::Opening, Event::Opened(Ok(size))) => {
                let name = cache_file_name(args[resolved.len()].as_str());
                stay(args, resolved, Stage::Locating(size), no_lines(), Action::LocateCache(name))
            },
            (Stage::Opening, Event::Opened(Err(e))) => {
                end(args, resolved, Err(Failure::OpenDocument.describe(e.as_str())))
            },
            (Stage::Locating(size), Event::CacheLocated(Ok(path))) => {
                let t = Transfer { size, path, copied: 0, last_percent: 0 };
                stay(args, resolved, Stage::CreatingFolder(t), no_lines(), Action::CreateFolder)
            },
            (Stage::Locating(_), Event::CacheLocated(Err(e))) => end(args, resolved, Err(e)),
            (Stage::CreatingFolder(t), Event::FolderCreated(Ok(()))) => {
                stay(args, resolved, Stage::Measuring(t), no_lines(), Action::MeasureCache)
            },
            (Stage::CreatingFolder(_), Event::FolderCreated(Err(e))) => {
                end(args, resolved, Err(Failure::CreateInputCache.describe(e.as_str())))
            },
            (Stage::Measuring(t), Event::CacheMeasured(cached)) => {
                let name = safe_document_name(args[resolved.len()].as_str());
                let same = match (t.size, cached) {
                    (Some(size), Some(there)) => size == there,
                    _ => false,
                };
                if same {
                    take(args, resolved, t.path, reuse_text(name.as_str()))
                } else {
                    let line = prepare_text(name.as_str());
                    stay(args, resolved, Stage::Seeking(t), one_line(line), Action::SeekStart)
                }
            },
            (Stage::Seeking(t), Event::Sought(Ok(()))) => {
                stay(args, resolved, Stage::CreatingFile(t), no_lines(), Action::CreateFile)
            },
            (Stage::Seeking(_), Event::Sought(Err(e))) => {
                end(args, resolved, Err(Failure::SeekDocument.describe(e.as_str())))
            },
            (Stage::CreatingFile(t), Event::FileCreated(Ok(()))) => {
                stay(args, resolved, Stage::Reading(t), no_lines(), Action::ReadChunk)
            },
            (Stage::CreatingFile(_), Event::FileCreated(Err(e))) => {
                end(args, resolved, Err(Failure::CreateCacheFile.describe(e.as_str())))
            },
            (Stage::Reading(t), Event::ChunkRead(Ok(count))) => {
                if count == 0 {
                    stay(args, resolved, Stage::Flushing(t), no_lines(), Action::Flush)
                } else {
                    stay(
                        args,
                        resolved,
                        Stage::Writing(t, count),
                        no_lines(),
                        Action::WriteChunk(count),
                    )
                }
            },
            (Stage::Reading(_), Event::ChunkRead(Err(e))) => {
                end(args, resolved, Err(Failure::ReadDocument.describe(e.as_str())))
            },
            (Stage::Writing(t, pending), Event::ChunkWritten(Ok(()))) => {
                let (t, lines) = chunk_written(t, pending);
                stay(args, resolved, Stage::Reading(t), lines, Action::ReadChunk)
            },
            (Stage::Writing(_, _), Event::ChunkWritten(Err(e))) => {
                end(args, resolved, Err(Failure::CacheDocument.describe(e.as_str())))
            },
            (Stage::Flushing(t), Event::Flushed(Ok(()))) => {
                let line = complete_text(t.copied);
                take(args, resolved, t.path, line)
            },
            (Stage::Flushing(_), Event::Flushed(Err(e))) => {
                end(args, resolved, Err(Failure::FinishCache.describe(e.as_str())))
            },
            (Stage::Dispatching, Event::Dispatched(outcome)) => end(args, resolved, outcome),
            _ => end(args, resolved, Err(String::new())),
        }
    }
}

/// An operation on `args` once all of `events` have come, with its last reaction.
pub open spec fn run_after(args: Seq<Seq<char>>, events: Seq<Event>) -> (RunView, ReactionView)
    decreases events.len(),
{
    if events.len() == 0 {
        first_step(args)
    } else {
        next_step(run_after(args, events.drop_last()).0, events.last())
    }
}

/// Whether each event answers what the operation asked for before it.
pub open spec fn all_answer(args: Seq<Seq<char>>, events: Seq<Event>) -> bool
    decreases events.len(),
{
    events.len() == 0 || {
        &&& all_answer(args, events.drop_last())
        &&& answers(run_after(args, events.drop_last()).0.stage, events.last())
    }
}

/// Whether every resolved argument that was not a document is as it was given.
pub open spec fn keeps_ordinary(args: Seq<Seq<char>>, resolved: Seq<Seq<char>>) -> bool {
    &&& resolved.len() <= args.len()
    &&& forall|i: int|
        0 <= i < resolved.len() && !is_document(#[trigger] args[i]) ==> resolved[i] == args[i]
}

/// The resolved arguments that a resolution ends with.
pub open spec fn resolved_of(resolution: Resolution) -> Seq<Seq<char>> {
    match resolution {
        Resolution::Open(resolved, _) => resolved,
        Resolution::Invalid(resolved, _) => resolved,
        Resolution::Ready(resolved) => resolved,
    }
}

proof fn lemma_resolve_from(args: Seq<Seq<char>>, resolved: Seq<Seq<char>>)
    requires
        keeps_ordinary(args, resolved),
    ensures
        ({
            let done = resolved_of(resolve_from(args, resolved));
            &&& keeps_ordinary(args, done)
            &&& resolved.len() <= done.len()
            &&& forall|i: int| 0 <= i < resolved.len() ==> #[trigger] done[i] == resolved[i]
            &&& forall|i: int|
                resolved.len() <= i < done.len() ==> !is_document(#[trigger] args[i])
            &&& resolve_from(args, resolved) is Ready ==> done.len() == args.len()
            &&& !(resolve_from(args, resolved) is Ready) ==> done.len() < args.len()
                && is_document(args[done.len() as int])
        }),
    decreases args.len() - resolved.len(),
{
    if resolved.len() < args.len() && !is_document(args[resolved.len() as int]) {
        lemma_resolve_from(args, resolved.push(args[resolved.len() as int]));
    }
}

proof fn lemma_ordinary_are_taken(args: Seq<Seq<char>>, resolved: Seq<Seq<char>>)
    requires
        resolved.len() <= args.len(),
        resolved == args.take(resolved.len() as int),
        forall|i: int| 0 <= i < args.len() ==> !is_document(#[trigger] args[i]),
    ensures
        resolve_from(args, resolved) == Resolution::Ready(args),
    decreases args.len() - resolved.len(),
{
    if resolved.len() < args.len() {
        let more = resolved.push(args[resolved.len() as int]);
        assert(more =~= args.take(more.len() as int));
        lemma_ordinary_are_taken(args, more);
    } else {
        assert(resolved =~= args);
    }
}

/// Where no argument is a document, the backend is run at once, on the arguments as
/// they were given.
pub proof fn law_ordinary_arguments_pass(args: Seq<Seq<char>>)
    requires
        forall|i: int| 0 <= i < args.len() ==> !is_document(#[trigger] args[i]),
    ensures
        first_step(args).1.action == ActionView::Dispatch(seq!["nscb"@] + args),
{
    assert(Seq::<Seq<char>>::empty() =~= args.take(0));
    lemma_ordinary_are_taken(args, Seq::empty());
}

/// Whether `path` is the path that was given for the copy of the document that is
/// argument `i`.
pub open spec fn was_located(
    args: Seq<Seq<char>>,
    events: Seq<Event>,
    i: int,
    path: Seq<char>,
) -> bool {
    exists|k: int|
        {
            &&& 0 <= k < events.len()
            &&& #[trigger] events[k] matches Event::CacheLocated(Ok(given))
            &&& given@ == path
            &&& run_after(args, events.take(k)).0.resolved.len() == i
        }
}

/// The transfer that a stage is about, if it is about one.
pub open spec fn transfer_of(stage: StageView) -> Option<TransferView> {
    match stage {
        StageView::CreatingFolder(t) => Some(t),
        StageView::Measuring(t) => Some(t),
        StageView::Seeking(t) => Some(t),
        StageView::CreatingFile(t) => Some(t),
        StageView::Reading(t) => Some(t),
        StageView::Writing(t, _) => Some(t),
        StageView::Flushing(t) => Some(t),
        _ => None,
    }
}

/// Whether the arguments that are resolved, and the present transfer, are what they
/// should be after `events`.
spec fn traced(args: Seq<Seq<char>>, events: Seq<Event>, run: RunView) -> bool {
    &&& run.args == args
    &&& well_formed(run)
    &&& keeps_ordinary(args, run.resolved)
    &&& forall|i: int|
        0 <= i < run.resolved.len() && is_document(#[trigger] args[i]) ==> was_located(
            args,
            events,
            i,
            run.resolved[i],
        )
    &&& transfer_of(run.stage) matches Some(t) ==> was_located(
        args,
        events,
        run.resolved.len() as int,
        t.path,
    )
}

proof fn lemma_was_located_later(
    args: Seq<Seq<char>>,
    events: Seq<Event>,
    event: Event,
    i: int,
    path: Seq<char>,
)
    requires
        was_located(args, events, i, path),
    ensures
        was_located(args, events.push(event), i, path),
{
    let k = choose|k: int|
        {
            &&& 0 <= k < events.len()
            &&& #[trigger] events[k] matches Event::CacheLocated(Ok(given))
            &&& given@ == path
            &&& run_after(args, events.take(k)).0.resolved.len() == i
        };
    assert(events.push(event)[k] == events[k]);
    assert(events.push(event).take(k) =~= events.take(k));
}

proof fn lemma_proceed_traced(
    args: Seq<Seq<char>>,
    events: Seq<Event>,
    resolved: Seq<Seq<char>>,
    lines: Seq<Seq<char>>,
)
    requires
        keeps_ordinary(args, resolved),
        forall|i: int|
            0 <= i < resolved.len() && is_document(#[trigger] args[i]) ==> was_located(
                args,
                events,
                i,
                resolved[i],
            ),
    ensures
        traced(args, events, proceed(args, resolved, lines).0),
        proceed(args, resolved, lines).1.action matches ActionView::Dispatch(argv) ==> {
            &&& proceed(args, resolved, lines).0.stage is Dispatching
            &&& argv == seq!["nscb"@] + proceed(args, resolved, lines).0.resolved
        },
{
    lemma_resolve_from(args, resolved);
}

proof fn lemma_run_is_traced(args: Seq<Seq<char>>, events: Seq<Event>)
    requires
        all_answer(args, events),
    ensures
        traced(args, events, run_after(args, events).0),
        run_after(args, events).1.action matches ActionView::Dispatch(argv) ==> {
            &&& run_after(args, events).0.stage is Dispatching
            &&& argv == seq!["nscb"@] + run_after(args, events).0.resolved
        },
    decreases events.len(),
{
    if events.len() == 0 {
        lemma_proceed_traced(
            args,
            events,
            Seq::empty(),
            seq!["[START] Running embedded Android backend"@],
        );
    } else {
        let before = events.drop_last();
        let event = events.last();
        lemma_run_is_traced(args, before);
        let run = run_after(args, before).0;
        assert(before.push(event) =~= events);
        assert forall|i: int| 0 <= i < run.resolved.len() && is_document(
            #[trigger] args[i],
        ) implies was_located(args, events, i, run.resolved[i]) by {
            lemma_was_located_later(args, before, event, i, run.resolved[i]);
        }
        match transfer_of(run.stage) {
            Some(t) => {
                lemma_was_located_later(args, before, event, run.resolved.len() as int, t.path);
                let taken = run.resolved.push(t.path);
                assert(keeps_ordinary(args, taken));
                assert forall|i: int| 0 <= i < taken.len() && is_document(
                    #[trigger] args[i],
                ) implies was_located(args, events, i, taken[i]) by {}
                lemma_proceed_traced(
                    args,
                    events,
                    taken,
                    seq![reuse_line(safe_name(run.args[run.resolved.len() as int]))],
                );
                lemma_proceed_traced(args, events, taken, seq![complete_line(t.copied)]);
            },
            None => {
                let k = events.len() - 1;
                assert(events.take(k) =~= before);
                assert(events[k] == event);
            },
        }
    }
}

/// Whatever happens on the way, a backend that is run gets its own name and then one
/// argument for each that was given, in the same order: an ordinary argument as it
/// was given, and for a document the path that was given for its copy.
pub proof fn law_arguments_keep_their_places(args: Seq<Seq<char>>, events: Seq<Event>)
    requires
        all_answer(args, events),
    ensures
        run_after(args, events).1.action matches ActionView::Dispatch(argv) ==> {
            &&& argv.len() == args.len() + 1
            &&& argv[0] == "nscb"@
            &&& forall|i: int|
                0 <= i < args.len() && !is_document(#[trigger] args[i]) ==> argv[i + 1] == args[i]
            &&& forall|i: int|
                0 <= i < args.len() && is_document(#[trigger] args[i]) ==> was_located(
                    args,
                    events,
                    i,
                    argv[i + 1],
                )
        },
{
    lemma_run_is_traced(args, events);
}

/// An operation ends once: it is finished exactly when it says so, nothing answers a
/// finished operation, and it ends well only because the backend did.
pub proof fn law_ends_once(args: Seq<Seq<char>>, events: Seq<Event>, event: Event)
    requires
        all_answer(args, events),
    ensures
        ({
            let (run, reaction) = run_after(args, events);
            &&& reaction.action is Finish <==> run.stage is Finished
            &&& run.stage is Finished ==> !answers(run.stage, event)
            &&& reaction.action matches ActionView::Finish(Ok(_)) ==> events.len() > 0
                && events.last() matches Event::Dispatched(Ok(_))
        }),
{
    if events.len() > 0 {
        let run = run_after(args, events.drop_last()).0;
        assert(answers(run.stage, events.last()));
    }
}

/// The percentages reported while chunks of the given lengths are written.
pub open spec fn reported(t: TransferView, chunks: Seq<u64>) -> Seq<u64>
    decreases chunks.len(),
{
    if chunks.len() == 0 {
        Seq::empty()
    } else {
        let before = transferred(t, chunks.drop_last());
        let copied = (before.copied + chunks.last()) as u64;
        let so_far = reported(t, chunks.drop_last());
        match due_percent(copied, before.last_percent, t.size) {
            Some(percent) => so_far.push(percent),
            None => so_far,
        }
    }
}

/// The transfer once chunks of the given lengths are written.
pub open spec fn transferred(t: TransferView, chunks: Seq<u64>) -> TransferView
    decreases chunks.len(),
{
    if chunks.len() == 0 {
        t
    } else {
        after_chunk(transferred(t, chunks.drop_last()), chunks.last())
    }
}

/// The sum of lengths.
pub open spec fn total_of(chunks: Seq<u64>) -> int
    decreases chunks.len(),
{
    if chunks.len() == 0 {
        0
    } else {
        total_of(chunks.drop_last()) + chunks.last()
    }
}

/// While a document is copied, the bytes add up, and the percentages that are
/// reported rise from one report to the next and stay below a hundred.
pub proof fn law_progress_rises(t: TransferView, chunks: Seq<u64>)
    requires
        t.copied + total_of(chunks) <= u64::MAX,
        t.last_percent <= 99,
    ensures
        transferred(t, chunks).copied == t.copied + total_of(chunks),
        transferred(t, chunks).size == t.size,
        transferred(t, chunks).path == t.path,
        t.last_percent <= transferred(t, chunks).last_percent <= 99,
        reported(t, chunks).len() > 0 ==> reported(t, chunks).last() == transferred(
            t,
            chunks,
        ).last_percent,
        forall|i: int|
            0 <= i < reported(t, chunks).len() ==> t.last_percent < #[trigger] reported(t, chunks)[i]
                <= 99,
        forall|i: int, j: int|
            0 <= i < j < reported(t, chunks).len() ==> #[trigger] reported(t, chunks)[i]
                < #[trigger] reported(t, chunks)[j],
    decreases chunks.len(),
{
    if chunks.len() > 0 {
        let before = chunks.drop_last();
        lemma_total_not_negative(before);
        law_progress_rises(t, before);
        let copied = (transferred(t, before).copied + chunks.last()) as u64;
        let so_far = reported(t, before);
        assert forall|i: int| 0 <= i < so_far.len() implies #[trigger] so_far[i] <= transferred(
            t,
            before,
        ).last_percent by {
            if i < so_far.len() - 1 {
                assert(so_far[i] < so_far[so_far.len() - 1]);
            }
        }
        match t.size {
            Some(total) => {
                if total > 0 {
                    law_percent_grows(copied, copied, total);
                }
            },
            None => {},
        }
    }
}

proof fn lemma_total_not_negative(chunks: Seq<u64>)
    ensures
        total_of(chunks) >= 0,
    decreases chunks.len(),
{
    if chunks.len() > 0 {
        lemma_total_not_negative(chunks.drop_last());
    }
}

/// The bytes that were read from the present document since its copy was made.
pub open spec fn read_so_far(events: Seq<Event>) -> int
    decreases events.len(),
{
    if events.len() == 0 {
        0
    } else {
        match events.last() {
            Event::FileCreated(_) => 0,
            Event::ChunkRead(Ok(count)) => read_so_far(events.drop_last()) + count,
            _ => read_so_far(events.drop_last()),
        }
    }
}

/// The size of the document that was opened last.
pub open spec fn size_found(events: Seq<Event>) -> Option<u64>
    decreases events.len(),
{
    if events.len() == 0 {
        None
    } else {
        match events.last() {
            Event::Opened(Ok(size)) => size,
            _ => size_found(events.drop_last()),
        }
    }
}

/// The path of the copy that was located last.
pub open spec fn path_found(events: Seq<Event>) -> Option<Seq<char>>
    decreases events.len(),
{
    if events.len() == 0 {
        None
    } else {
        match events.last() {
            Event::CacheLocated(Ok(path)) => Some(path@),
            _ => path_found(events.drop_last()),
        }
    }
}

/// Whether a stage knows of its document what `events` tell.
spec fn remembers(events: Seq<Event>, stage: StageView) -> bool {
    &&& stage matches StageView::Locating(size) ==> size == size_found(events)
    &&& transfer_of(stage) matches Some(t) ==> {
        &&& t.size == size_found(events)
        &&& path_found(events) == Some(t.path)
        &&& t.last_percent <= 99
    }
    &&& match stage {
        StageView::CreatingFolder(t) => t.copied == 0 && t.last_percent == 0,
        StageView::Measuring(t) => t.copied == 0 && t.last_percent == 0,
        StageView::Seeking(t) => t.copied == 0 && t.last_percent == 0,
        StageView::CreatingFile(t) => t.copied == 0 && t.last_percent == 0,
        StageView::Reading(t) => t.copied == read_so_far(events),
        StageView::Flushing(t) => t.copied == read_so_far(events),
        StageView::Writing(t, pending) => t.copied + pending == read_so_far(events) && pending > 0,
        _ => true,
    }
}

proof fn lemma_run_remembers(args: Seq<Seq<char>>, events: Seq<Event>)
    requires
        all_answer(args, events),
    ensures
        remembers(events, run_after(args, events).0.stage),
    decreases events.len(),
{
    if events.len() > 0 {
        let before = events.drop_last();
        lemma_run_remembers(args, before);
        let stage = run_after(args, before).0.stage;
        assert(answers(stage, events.last()));
        if let StageView::Writing(t, pending) = stage {
            law_report_is_the_share((t.copied + pending) as u64, t.last_percent, t.size);
        }
    }
}

/// Everything that is read of a document is written to its copy: each piece that came
/// is written with its whole length, then the next is read, and the copy is closed only
/// where a read gave nothing. What is said of the copy then is the size of all that was
/// read since the copy was made.
pub proof fn law_all_that_is_read_is_written(args: Seq<Seq<char>>, events: Seq<Event>)
    requires
        all_answer(args, events),
        events.len() > 0,
    ensures
        ({
            let (run, reaction) = run_after(args, events);
            let last = events.last();
            &&& last matches Event::ChunkRead(Ok(count)) ==> reaction.action == if count > 0 {
                ActionView::WriteChunk(count)
            } else {
                ActionView::Flush
            }
            &&& reaction.action matches ActionView::WriteChunk(count) ==> (
            last matches Event::ChunkRead(Ok(read)) && read == count && count > 0)
            &&& reaction.action is Flush ==> (last matches Event::ChunkRead(Ok(read)) && read == 0)
            &&& last matches Event::ChunkWritten(Ok(_)) ==> reaction.action is ReadChunk
            &&& last matches Event::FileCreated(Ok(_)) ==> reaction.action is ReadChunk
            &&& run.stage matches StageView::Reading(t) ==> t.copied == read_so_far(events)
            &&& run.stage matches StageView::Flushing(t) ==> t.copied == read_so_far(events)
            &&& last matches Event::Flushed(Ok(_)) ==> reaction.lines.len() > 0
                && is_complete_line(reaction.lines[0], read_so_far(events))
        }),
{
    let before = events.drop_last();
    lemma_run_remembers(args, events);
    lemma_run_remembers(args, before);
    let stage = run_after(args, before).0.stage;
    assert(answers(stage, events.last()));
    if let StageView::Flushing(t) = stage {
        law_lines_tell_what_happens(Seq::empty(), 0, t.copied, 0);
    }
    lemma_actions(args, events);
}

proof fn lemma_actions(args: Seq<Seq<char>>, events: Seq<Event>)
    requires
        all_answer(args, events),
    ensures
        ({
            let (run, reaction) = run_after(args, events);
            match reaction.action {
                ActionView::OpenDocument(_) => run.stage is Opening,
                ActionView::LocateCache(_) => run.stage is Locating,
                ActionView::CreateFolder => run.stage is CreatingFolder,
                ActionView::MeasureCache => run.stage is Measuring,
                ActionView::SeekStart => run.stage is Seeking,
                ActionView::CreateFile => run.stage is CreatingFile,
                ActionView::ReadChunk => run.stage is Reading,
                ActionView::WriteChunk(count) => run.stage is Writing && run.stage->Writing_1
                    == count,
                ActionView::Flush => run.stage is Flushing,
                ActionView::Dispatch(_) => run.stage is Dispatching,
                ActionView::Finish(_) => run.stage is Finished,
            }
        }),
{
    if events.len() > 0 {
        assert(answers(run_after(args, events.drop_last()).0.stage, events.last()));
    }
}

/// An operation waits for the answer to what it asked for last, whatever the answer is,
/// and for nothing else; only more bytes than can be counted are not taken.
pub proof fn law_any_answer_is_taken(
    args: Seq<Seq<char>>,
    events: Seq<Event>,
    event: Event,
    awaited: bool,
)
    requires
        all_answer(args, events),
        tells_if_awaited(run_after(args, events).0, event, awaited),
    ensures
        awaited <==> answers(run_after(args, events).0.stage, event),
        awaited <==> match run_after(args, events).1.action {
            ActionView::OpenDocument(_) => event is Opened,
            ActionView::LocateCache(_) => event is CacheLocated,
            ActionView::CreateFolder => event is FolderCreated,
            ActionView::MeasureCache => event is CacheMeasured,
            ActionView::SeekStart => event is Sought,
            ActionView::CreateFile => event is FileCreated,
            ActionView::ReadChunk => event is ChunkRead,
            ActionView::WriteChunk(_) => event is ChunkWritten && (
            event matches Event::ChunkWritten(Ok(_)) ==> read_so_far(events) <= u64::MAX),
            ActionView::Flush => event is Flushed,
            ActionView::Dispatch(_) => event is Dispatched,
            ActionView::Finish(_) => false,
        },
{
    lemma_actions(args, events);
    lemma_run_remembers(args, events);
}

/// Each success leads to the next thing that is asked for: a document is opened, its copy
/// located, the folder made, the copy that is there measured, the document read from its
/// start, the copy made; how the backend came out is how the operation does.
pub proof fn law_each_success_leads_on(args: Seq<Seq<char>>, events: Seq<Event>)
    requires
        all_answer(args, events),
        events.len() > 0,
    ensures
        ({
            let action = run_after(args, events).1.action;
            let run = run_after(args, events).0;
            match events.last() {
                Event::Opened(Ok(_)) => action == ActionView::LocateCache(
                    cache_name(run.args[run.resolved.len() as int]),
                ),
                Event::CacheLocated(Ok(_)) => action is CreateFolder,
                Event::FolderCreated(Ok(_)) => action is MeasureCache,
                Event::Sought(Ok(_)) => action is CreateFile,
                Event::FileCreated(Ok(_)) => action is ReadChunk,
                Event::ChunkWritten(Ok(_)) => action is ReadChunk,
                Event::Dispatched(Ok(_)) => action matches ActionView::Finish(Ok(_)),
                _ => true,
            }
        }),
{
    assert(answers(run_after(args, events.drop_last()).0.stage, events.last()));
}

/// Whatever fails ends the operation, and the message tells what failed and the whole
/// cause.
pub proof fn law_each_failure_is_told(args: Seq<Seq<char>>, events: Seq<Event>)
    requires
        all_answer(args, events),
        events.len() > 0,
    ensures
        ({
            let action = run_after(args, events).1.action;
            match events.last() {
                Event::Opened(Err(cause)) => action == ActionView::Finish(
                    Err("Failed to open Android document: "@ + cause@),
                ),
                Event::CacheLocated(Err(cause)) => action == ActionView::Finish(Err(cause@)),
                Event::FolderCreated(Err(cause)) => action == ActionView::Finish(
                    Err("Failed to create Android input cache: "@ + cause@),
                ),
                Event::Sought(Err(cause)) => action == ActionView::Finish(
                    Err("Failed to seek Android document: "@ + cause@),
                ),
                Event::FileCreated(Err(cause)) => action == ActionView::Finish(
                    Err("Failed to create Android input cache file: "@ + cause@),
                ),
                Event::ChunkRead(Err(cause)) => action == ActionView::Finish(
                    Err("Failed to read Android document: "@ + cause@),
                ),
                Event::ChunkWritten(Err(cause)) => action == ActionView::Finish(
                    Err("Failed to cache Android document: "@ + cause@),
                ),
                Event::Flushed(Err(cause)) => action == ActionView::Finish(
                    Err("Failed to finish Android input cache: "@ + cause@),
                ),
                Event::Dispatched(Err(cause)) => action == ActionView::Finish(Err(cause@)),
                _ => true,
            }
        }),
{
    assert(answers(run_after(args, events.drop_last()).0.stage, events.last()));
}

/// Whether the last event ends the work on a document: its copy was closed, or there was
/// one of the size that the document was found to have.
pub open spec fn document_is_ready(events: Seq<Event>) -> bool {
    events.len() > 0 && match events.last() {
        Event::Flushed(Ok(_)) => true,
        Event::CacheMeasured(Some(there)) => size_found(events) == Some(there),
        _ => false,
    }
}

/// A copy that is there is used again where the size of the document is known and the
/// copy has it, and only then; else the document is copied anew.
pub proof fn law_copy_is_reused_for_its_size(args: Seq<Seq<char>>, events: Seq<Event>)
    requires
        all_answer(args, events),
        events.len() > 0,
        events.last() is CacheMeasured,
    ensures
        ({
            let reaction = run_after(args, events).1;
            let run = run_after(args, events.drop_last()).0;
            let name = safe_name(run.args[run.resolved.len() as int]);
            &&& reaction.action is SeekStart <==> !document_is_ready(events)
            &&& document_is_ready(events) ==> reaction.lines.len() > 0 && reaction.lines[0]
                == "[ANDROID] Reusing native cached copy of "@ + name
                + ": 99%. Starting NSCB processing..."@
            &&& !document_is_ready(events) ==> reaction.lines == seq![
                "[ANDROID] Preparing "@ + name + " with native I/O"@,
            ]
        }),
{
    lemma_run_remembers(args, events.drop_last());
    let run = run_after(args, events.drop_last()).0;
    assert(answers(run.stage, events.last()));
    law_lines_tell_what_happens(safe_name(run.args[run.resolved.len() as int]), 0, 0, 0);
}

/// A document that is ready is given to the backend as the path that was located for it,
/// in its own place; what was resolved before stays, and the ordinary arguments behind
/// it are taken as they are up to the next document. Nothing else resolves anything.
pub proof fn law_document_is_resolved_in_its_place(args: Seq<Seq<char>>, events: Seq<Event>)
    requires
        all_answer(args, events),
        events.len() > 0,
    ensures
        ({
            let was = run_after(args, events.drop_last()).0.resolved;
            let now = run_after(args, events).0.resolved;
            &&& !document_is_ready(events) ==> now == was
            &&& document_is_ready(events) ==> {
                &&& was.len() < now.len() <= args.len()
                &&& is_document(args[was.len() as int])
                &&& path_found(events) == Some(now[was.len() as int])
                &&& forall|i: int| 0 <= i < was.len() ==> #[trigger] now[i] == was[i]
                &&& forall|i: int|
                    was.len() < i < now.len() ==> !is_document(#[trigger] args[i]) && now[i]
                        == args[i]
            }
        }),
{
    let before = events.drop_last();
    lemma_run_remembers(args, before);
    lemma_run_is_traced(args, before);
    let run = run_after(args, before).0;
    assert(answers(run.stage, events.last()));
    if let Some(t) = transfer_of(run.stage) {
        let taken = run.resolved.push(t.path);
        assert(keeps_ordinary(args, taken));
        lemma_resolve_from(args, taken);
        let done = resolved_of(resolve_from(args, taken));
        if document_is_ready(events) {
            assert(run_after(args, events).0.resolved == done);
            assert forall|i: int| 0 <= i < run.resolved.len() implies #[trigger] done[i]
                == run.resolved[i] by {
                assert(done[i] == taken[i]);
            }
            assert(done[run.resolved.len() as int] == taken[run.resolved.len() as int]);
            assert forall|i: int| run.resolved.len() < i < done.len() implies !is_document(
                #[trigger] args[i],
            ) && done[i] == args[i] by {}
        }
    }
}

proof fn lemma_resolution_goes_by_the_uri(args: Seq<Seq<char>>, resolved: Seq<Seq<char>>)
    ensures
        match resolve_from(args, resolved) {
            Resolution::Open(done, uri) => parsed_url(args[done.len() as int]) == Ok::<
                Seq<char>,
                Seq<char>,
            >(uri),
            Resolution::Invalid(done, message) => parsed_url(
                args[done.len() as int],
            ) matches Err(cause) && message == "Invalid Android document URI: "@ + cause,
            Resolution::Ready(_) => true,
        },
    decreases args.len() - resolved.len(),
{
    if resolved.len() < args.len() && !is_document(args[resolved.len() as int]) {
        lemma_resolution_goes_by_the_uri(args, resolved.push(args[resolved.len() as int]));
    }
}

/// At its beginning, and whenever a document is ready, an operation goes on with the next
/// document that is left: it is opened by its URI, or ends the operation where the URI is
/// not one. Where none is left, the backend is run, and it says so.
pub proof fn law_next_document_or_the_backend(args: Seq<Seq<char>>, events: Seq<Event>)
    requires
        all_answer(args, events),
        events.len() == 0 || document_is_ready(events),
    ensures
        ({
            let (run, reaction) = run_after(args, events);
            let at = run.resolved.len() as int;
            &&& run.args == args
            &&& at <= args.len()
            &&& at < args.len() ==> is_document(args[at])
            &&& at == args.len() ==> {
                &&& reaction.action == ActionView::Dispatch(seq!["nscb"@] + run.resolved)
                &&& reaction.lines.last()
                    == "[PROCESSING] NSCB is reading and analyzing the prepared file..."@
            }
            &&& at < args.len() ==> match parsed_url(args[at]) {
                Ok(uri) => reaction.action == ActionView::OpenDocument(uri),
                Err(cause) => reaction.action == ActionView::Finish(
                    Err("Invalid Android document URI: "@ + cause),
                ),
            }
            &&& events.len() == 0 ==> {
                &&& reaction.lines[0] == "[START] Running embedded Android backend"@
                &&& forall|i: int|
                    0 <= i < at ==> !is_document(#[trigger] args[i]) && run.resolved[i] == args[i]
            }
            &&& reaction.lines.len() == if at == args.len() {
                2int
            } else {
                1
            }
        }),
{
    if events.len() == 0 {
        assert(keeps_ordinary(args, Seq::empty()));
        lemma_resolve_from(args, Seq::empty());
        lemma_resolution_goes_by_the_uri(args, Seq::empty());
    } else {
        let before = events.drop_last();
        lemma_run_remembers(args, before);
        lemma_run_is_traced(args, before);
        let run = run_after(args, before).0;
        assert(answers(run.stage, events.last()));
        if let Some(t) = transfer_of(run.stage) {
            assert(keeps_ordinary(args, run.resolved.push(t.path)));
            lemma_resolve_from(args, run.resolved.push(t.path));
            lemma_resolution_goes_by_the_uri(args, run.resolved.push(t.path));
        }
    }
}

/// While a document is copied, a report says the share of the document that was read so
/// far. It comes where the share has grown past what was reported before, which is
/// nothing when the copy is made, and only then.
pub proof fn law_progress_is_reported_once(args: Seq<Seq<char>>, events: Seq<Event>)
    requires
        all_answer(args, events),
        events.len() > 0,
    ensures
        ({
            let (run, reaction) = run_after(args, events);
            let was = run_after(args, events.drop_last()).0.stage;
            let size = size_found(events);
            let read = read_so_far(events);
            &&& events.last() matches Event::FileCreated(Ok(_)) ==> (
            run.stage matches StageView::Reading(t) && t.last_percent == 0 && t.copied == 0)
            &&& events.last() matches Event::ChunkWritten(Ok(_)) ==> {
                &&& was matches StageView::Writing(t, _)
                &&& run.stage matches StageView::Reading(next)
                &&& next.copied == read
                &&& reaction.lines.len() <= 1
                &&& reaction.lines.len() == 1 ==> {
                    &&& size is Some && size->0 > 0
                    &&& next.last_percent > t.last_percent
                    &&& is_share(next.last_percent as int, read, size->0 as int)
                    &&& is_progress_line(
                        reaction.lines[0],
                        next.last_percent as int,
                        read,
                        size->0 as int,
                    )
                }
                &&& reaction.lines.len() == 0 ==> {
                    &&& next.last_percent == t.last_percent
                    &&& size is Some && size->0 > 0 ==> forall|p: int| #[trigger]
                        is_share(p, read, size->0 as int) ==> p <= t.last_percent
                }
            }
        }),
{
    let before = events.drop_last();
    lemma_run_remembers(args, before);
    lemma_run_remembers(args, events);
    let stage = run_after(args, before).0.stage;
    assert(answers(stage, events.last()));
    if let StageView::Writing(t, pending) = stage {
        let copied = (t.copied + pending) as u64;
        law_report_is_the_share(copied, t.last_percent, t.size);
        if let Some(percent) = due_percent(copied, t.last_percent, t.size) {
            law_lines_tell_what_happens(Seq::empty(), percent, copied, t.size->0);
        }
    }
}

/// Of everything else, nothing is said.
pub proof fn law_silent_steps(args: Seq<Seq<char>>, events: Seq<Event>)
    requires
        all_answer(args, events),
        events.len() > 0,
        !(events.last() is CacheMeasured),
        !(events.last() matches Event::Flushed(Ok(_))),
        !(events.last() matches Event::ChunkWritten(Ok(_))),
    ensures
        run_after(args, events).1.lines.len() == 0,
{
    assert(answers(run_after(args, events.drop_last()).0.stage, events.last()));
}

/// A document is an argument that begins with `content://`, and no other is.
pub proof fn law_documents_are_content_uris(arg: Seq<char>)
    ensures
        is_document(arg) <==> {
            &&& arg.len() >= 10
            &&& arg[0] == 'c' && arg[1] == 'o' && arg[2] == 'n' && arg[3] == 't' && arg[4] == 'e'
            &&& arg[5] == 'n' && arg[6] == 't' && arg[7] == ':' && arg[8] == '/' && arg[9] == '/'
        },
{
    reveal_strlit("content://");
    if is_document(arg) {
        assert forall|i: int| 0 <= i < 10 implies #[trigger] arg[i] == "content://"@[i] by {
            assert(arg.take(10)[i] == arg[i]);
        }
    }
    if arg.len() >= 10 && arg[0] == 'c' && arg[1] == 'o' && arg[2] == 'n' && arg[3] == 't' && arg[4]
        == 'e' && arg[5] == 'n' && arg[6] == 't' && arg[7] == ':' && arg[8] == '/' && arg[9]
        == '/' {
        assert(arg.take(10) =~= "content://"@);
    }
}

/// What an operation asks for and says is seen in full: no part of an action or of a line
/// is left out of what it stands for.
pub proof fn law_reaction_is_seen_in_full(reaction: Reaction)
    ensures
        reaction@.lines.len() == reaction.lines@.len(),
        forall|i: int|
            0 <= i < reaction.lines@.len() ==> #[trigger] reaction@.lines[i]
                == reaction.lines@[i]@,
        reaction@.action matches ActionView::Dispatch(argv) ==> {
            &&& reaction.action matches Action::Dispatch(given)
            &&& argv.len() == given@.len()
            &&& forall|i: int| 0 <= i < argv.len() ==> #[trigger] argv[i] == given@[i]@
        },
        reaction@.action matches ActionView::WriteChunk(count) ==> (
        reaction.action matches Action::WriteChunk(given) && given == count),
        reaction@.action matches ActionView::OpenDocument(uri) ==> (
        reaction.action matches Action::OpenDocument(given) && given@ == uri),
        reaction@.action matches ActionView::LocateCache(name) ==> (
        reaction.action matches Action::LocateCache(given) && given@ == name),
        reaction@.action matches ActionView::Finish(Err(message)) ==> (
        reaction.action matches Action::Finish(Err(given)) && given@ == message),
        reaction@.action matches ActionView::Finish(Ok(_)) <==> (
        reaction.action matches Action::Finish(Ok(_))),
        reaction@.action is CreateFolder <==> reaction.action is CreateFolder,
        reaction@.action is MeasureCache <==> reaction.action is MeasureCache,
        reaction@.action is SeekStart <==> reaction.action is SeekStart,
        reaction@.action is CreateFile <==> reaction.action is CreateFile,
        reaction@.action is ReadChunk <==> reaction.action is ReadChunk,
        reaction@.action is Flush <==> reaction.action is Flush,
{
}

/// An operation that begins, and goes on with each event that it waited for, is where its
/// arguments and the events put it: `runs` and `reactions` are those that it goes through.
pub proof fn law_arguments_and_events_decide(
    args: Seq<Seq<char>>,
    events: Seq<Event>,
    runs: Seq<RunView>,
    reactions: Seq<ReactionView>,
)
    requires
        runs.len() == events.len() + 1,
        reactions.len() == events.len() + 1,
        run_begins(args, runs[0], reactions[0]),
        forall|i: int|
            0 <= i < events.len() ==> {
                &&& tells_if_awaited(runs[i], #[trigger] events[i], true)
                &&& run_goes_on(runs[i], events[i], runs[i + 1], reactions[i + 1])
            },
    ensures
        all_answer(args, events),
        runs.last() == run_after(args, events).0,
        reactions.last() == run_after(args, events).1,
    decreases events.len(),
{
    if events.len() > 0 {
        let k = events.len() - 1;
        let before = events.drop_last();
        let earlier = runs.drop_last();
        let said = reactions.drop_last();
        assert forall|i: int| 0 <= i < before.len() implies {
            &&& tells_if_awaited(earlier[i], #[trigger] before[i], true)
            &&& run_goes_on(earlier[i], before[i], earlier[i + 1], said[i + 1])
        } by {
            assert(before[i] == events[i]);
        }
        law_arguments_and_events_decide(args, before, earlier, said);
        assert(earlier.last() == runs[k]);
        assert(events[k] == events.last());
    }
}

/// A document is read in pieces of sixteen mebibytes, and a backend that works gives a
/// sign of life every ten seconds.
pub proof fn law_measures()
    ensures
        CHUNK_SIZE == 16 * MIB,
        MIB == 1024 * 1024,
        HEARTBEAT_SECONDS == 10,
{
}

} // verus!
