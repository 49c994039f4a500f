use nscb_desktop::documents::{
    cache_file_name, document_name, hashed_file_name, progress_percent, safe_document_name,
};
use nscb_desktop::embedded::{Action, EmbeddedRun, Event, Reaction};
use std::hash::{DefaultHasher, Hash, Hasher};

const START: &str = "[START] Running embedded Android backend";
const PROCESSING: &str = "[PROCESSING] NSCB is reading and analyzing the prepared file...";
const MIB: u64 = 1_048_576;

fn args(list: &[&str]) -> Vec<String> {
    list.iter().map(|arg| arg.to_string()).collect()
}

fn step(run: EmbeddedRun, event: Event) -> (EmbeddedRun, Reaction) {
    assert!(run.expects(&event));
    run.step(event)
}

fn failure(reaction: Reaction) -> String {
    assert!(reaction.lines.is_empty());
    match reaction.action {
        Action::Finish(Err(message)) => message,
        _ => panic!("the operation goes on"),
    }
}

const URI: &str = "content://docs/tree/primary%3AGames%2FMy%20Game.nsp";

fn opened(size: Option<u64>) -> EmbeddedRun {
    let (run, reaction) = EmbeddedRun::begin(args(&["-v", URI, "-x"]));
    assert_eq!(reaction.lines, args(&[START]));
    match reaction.action {
        Action::OpenDocument(uri) => assert_eq!(uri, URI),
        _ => panic!("the document is not opened"),
    }
    let (run, reaction) = step(run, Event::Opened(Ok(size)));
    assert!(reaction.lines.is_empty());
    match reaction.action {
        Action::LocateCache(name) => assert_eq!(name, cache_file_name(URI)),
        _ => panic!("the cache is not looked for"),
    }
    run
}

fn located(size: Option<u64>) -> EmbeddedRun {
    let (run, reaction) = step(opened(size), Event::CacheLocated(Ok("/cache/copy".to_string())));
    assert!(matches!(reaction.action, Action::CreateFolder));
    run
}

fn measured(size: Option<u64>) -> EmbeddedRun {
    let (run, reaction) = step(located(size), Event::FolderCreated(Ok(())));
    assert!(matches!(reaction.action, Action::MeasureCache));
    run
}

fn seeking(size: Option<u64>) -> EmbeddedRun {
    let (run, reaction) = step(measured(size), Event::CacheMeasured(None));
    assert_eq!(reaction.lines, args(&["[ANDROID] Preparing My_Game.nsp with native I/O"]));
    assert!(matches!(reaction.action, Action::SeekStart));
    run
}

fn creating(size: Option<u64>) -> EmbeddedRun {
    let (run, reaction) = step(seeking(size), Event::Sought(Ok(())));
    assert!(matches!(reaction.action, Action::CreateFile));
    run
}

fn reading(size: Option<u64>) -> EmbeddedRun {
    let (run, reaction) = step(creating(size), Event::FileCreated(Ok(())));
    assert!(matches!(reaction.action, Action::ReadChunk));
    run
}

fn copy(run: EmbeddedRun, count: u64) -> (EmbeddedRun, Vec<String>) {
    let (run, reaction) = step(run, Event::ChunkRead(Ok(count)));
    match reaction.action {
        Action::WriteChunk(len) => assert_eq!(len, count),
        _ => panic!("the chunk is not written"),
    }
    let (run, reaction) = step(run, Event::ChunkWritten(Ok(())));
    assert!(matches!(reaction.action, Action::ReadChunk));
    (run, reaction.lines)
}

#[test]
fn ordinary_arguments_pass() {
    let (run, reaction) = EmbeddedRun::begin(args(&["-v", "/sdcard/game.nsp"]));
    assert_eq!(reaction.lines, args(&[START, PROCESSING]));
    match reaction.action {
        Action::Dispatch(argv) => assert_eq!(argv, args(&["nscb", "-v", "/sdcard/game.nsp"])),
        _ => panic!("the backend is not run"),
    }
    let (run, reaction) = step(run, Event::Dispatched(Ok(())));
    assert!(matches!(reaction.action, Action::Finish(Ok(()))));
    assert!(!run.expects(&Event::Dispatched(Ok(()))));
}

#[test]
fn no_arguments() {
    let (run, reaction) = EmbeddedRun::begin(Vec::new());
    match reaction.action {
        Action::Dispatch(argv) => assert_eq!(argv, args(&["nscb"])),
        _ => panic!("the backend is not run"),
    }
    let (_, reaction) = step(run, Event::Dispatched(Err("usage".to_string())));
    assert_eq!(failure(reaction), "usage");
}

#[test]
fn an_invalid_uri_ends_the_operation() {
    let bad = "content://a b/c";
    let cause = url::Url::parse(bad).unwrap_err().to_string();
    let (run, reaction) = EmbeddedRun::begin(args(&["-v", bad, URI]));
    assert_eq!(reaction.lines, args(&[START]));
    match reaction.action {
        Action::Finish(Err(message)) => {
            assert_eq!(message, format!("Invalid Android document URI: {}", cause))
        }
        _ => panic!("the operation goes on"),
    }
    assert!(!run.expects(&Event::Opened(Ok(None))));
}

#[test]
fn a_uri_is_opened_as_it_is_parsed() {
    let (_, reaction) = EmbeddedRun::begin(args(&["content://host/a b"]));
    match reaction.action {
        Action::OpenDocument(uri) => assert_eq!(uri, "content://host/a%20b"),
        _ => panic!("the document is not opened"),
    }
}

#[test]
fn a_whole_copy() {
    let run = reading(Some(4 * MIB));
    let (run, lines) = copy(run, MIB);
    assert_eq!(lines, args(&["[ANDROID] Native preparation: 25% (1 / 4 MiB)"]));
    let (run, lines) = copy(run, 1);
    assert!(lines.is_empty());
    let (run, lines) = copy(run, 3 * MIB - 1);
    assert_eq!(lines, args(&["[ANDROID] Native preparation: 99% (4 / 4 MiB)"]));
    let (run, lines) = copy(run, MIB);
    assert!(lines.is_empty());
    let (run, reaction) = step(run, Event::ChunkRead(Ok(0)));
    assert!(matches!(reaction.action, Action::Flush));
    let (run, reaction) = step(run, Event::Flushed(Ok(())));
    assert_eq!(
        reaction.lines,
        args(&[
            "[ANDROID] Native preparation complete: 99% (5 MiB). Starting NSCB processing...",
            PROCESSING
        ])
    );
    match reaction.action {
        Action::Dispatch(argv) => assert_eq!(argv, args(&["nscb", "-v", "/cache/copy", "-x"])),
        _ => panic!("the backend is not run"),
    }
    let (_, reaction) = step(run, Event::Dispatched(Ok(())));
    assert!(matches!(reaction.action, Action::Finish(Ok(()))));
}

#[test]
fn a_copy_of_unknown_size_reports_nothing() {
    for size in [None, Some(0)] {
        let (run, lines) = copy(reading(size), 64 * MIB);
        assert!(lines.is_empty());
        let (_, lines) = copy(run, 64 * MIB);
        assert!(lines.is_empty());
    }
}

#[test]
fn reports_rise() {
    let mut run = reading(Some(1000 * MIB));
    let mut percents: Vec<u64> = Vec::new();
    for _ in 0..250 {
        let (next, lines) = copy(run, 4 * MIB);
        run = next;
        for line in lines {
            let rest = line.strip_prefix("[ANDROID] Native preparation: ").unwrap().to_string();
            percents.push(rest.split('%').next().unwrap().parse().unwrap());
        }
    }
    assert_eq!(percents, (1..=99).collect::<Vec<u64>>());
}

#[test]
fn a_copy_of_the_right_size_is_used_again() {
    let (run, reaction) = step(measured(Some(7)), Event::CacheMeasured(Some(7)));
    assert_eq!(
        reaction.lines,
        args(&[
            "[ANDROID] Reusing native cached copy of My_Game.nsp: 99%. Starting NSCB processing...",
            PROCESSING
        ])
    );
    match reaction.action {
        Action::Dispatch(argv) => assert_eq!(argv, args(&["nscb", "-v", "/cache/copy", "-x"])),
        _ => panic!("the backend is not run"),
    }
    assert!(run.expects(&Event::Dispatched(Ok(()))));
}

#[test]
fn a_copy_of_another_size_is_not_used() {
    for (size, cached) in [(Some(7), Some(8)), (Some(7), None), (None, None), (None, Some(7))] {
        let (_, reaction) = step(measured(size), Event::CacheMeasured(cached));
        assert!(matches!(reaction.action, Action::SeekStart));
    }
}

#[test]
fn two_documents() {
    let other = "content://docs/document/other.xci";
    let (run, reaction) = EmbeddedRun::begin(args(&[URI, other]));
    assert!(matches!(reaction.action, Action::OpenDocument(_)));
    let (run, _) = step(run, Event::Opened(Ok(Some(1))));
    let (run, _) = step(run, Event::CacheLocated(Ok("/c/one".to_string())));
    let (run, _) = step(run, Event::FolderCreated(Ok(())));
    let (run, reaction) = step(run, Event::CacheMeasured(Some(1)));
    assert_eq!(reaction.lines.len(), 1);
    match reaction.action {
        Action::OpenDocument(uri) => assert_eq!(uri, other),
        _ => panic!("the other document is not opened"),
    }
    let (run, reaction) = step(run, Event::Opened(Ok(Some(2))));
    match reaction.action {
        Action::LocateCache(name) => assert_eq!(name, cache_file_name(other)),
        _ => panic!("the cache is not looked for"),
    }
    let (run, _) = step(run, Event::CacheLocated(Ok("/c/two".to_string())));
    let (run, _) = step(run, Event::FolderCreated(Ok(())));
    let (_, reaction) = step(run, Event::CacheMeasured(Some(2)));
    match reaction.action {
        Action::Dispatch(argv) => assert_eq!(argv, args(&["nscb", "/c/one", "/c/two"])),
        _ => panic!("the backend is not run"),
    }
}

#[test]
fn each_failure_ends_the_operation() {
    let e = || "e".to_string();
    let (run, _) = EmbeddedRun::begin(args(&[URI]));
    let (_, reaction) = step(run, Event::Opened(Err(e())));
    assert_eq!(failure(reaction), "Failed to open Android document: e");
    let (_, reaction) = step(opened(None), Event::CacheLocated(Err(e())));
    assert_eq!(failure(reaction), "e");
    let (_, reaction) = step(located(None), Event::FolderCreated(Err(e())));
    assert_eq!(failure(reaction), "Failed to create Android input cache: e");
    let (_, reaction) = step(seeking(None), Event::Sought(Err(e())));
    assert_eq!(failure(reaction), "Failed to seek Android document: e");
    let (_, reaction) = step(creating(None), Event::FileCreated(Err(e())));
    assert_eq!(failure(reaction), "Failed to create Android input cache file: e");
    let (_, reaction) = step(reading(None), Event::ChunkRead(Err(e())));
    assert_eq!(failure(reaction), "Failed to read Android document: e");
    let (run, _) = step(reading(None), Event::ChunkRead(Ok(3)));
    let (_, reaction) = step(run, Event::ChunkWritten(Err(e())));
    assert_eq!(failure(reaction), "Failed to cache Android document: e");
    let (run, _) = step(reading(None), Event::ChunkRead(Ok(0)));
    let (run, reaction) = step(run, Event::Flushed(Err(e())));
    assert_eq!(failure(reaction), "Failed to finish Android input cache: e");
    assert!(!run.expects(&Event::Flushed(Ok(()))));
}

#[test]
fn only_answers_are_expected() {
    let run = reading(None);
    assert!(run.expects(&Event::ChunkRead(Ok(1))));
    assert!(!run.expects(&Event::ChunkWritten(Ok(()))));
    assert!(!run.expects(&Event::Opened(Ok(None))));
    let (run, _) = copy(run, u64::MAX);
    let (run, _) = step(run, Event::ChunkRead(Ok(1)));
    assert!(!run.expects(&Event::ChunkWritten(Ok(()))));
    assert!(run.expects(&Event::ChunkWritten(Err(String::new()))));
}

#[test]
fn names_of_documents() {
    assert_eq!(document_name("content://a/b%2Fc%2Fd.nsp"), "d.nsp");
    assert_eq!(document_name("content://a/b%2fc/d%2fe"), "e");
    assert_eq!(document_name("content://a/x%2Fy%2fz/w"), "y%2fz/w");
    assert_eq!(document_name("content://a/b/c"), "c");
    assert_eq!(document_name("content://"), "");
    assert_eq!(document_name("nothing"), "android-input.bin");
}

#[test]
fn safe_names_of_documents() {
    assert_eq!(safe_document_name("content://a/My%20Game%20%5Bv0%5D.nsp"), "My_Game__5Bv0_5D.nsp");
    assert_eq!(safe_document_name("content://a/\u{e9}-1_2.x"), "_-1_2.x");
    assert_eq!(safe_document_name("content://a/%20%20"), "__");
    assert_eq!(safe_document_name("content://a/%2%20"), "_2_");
    for uri in ["content://a/b c%20", "content://x/%%2020", "content://x/%2", "content://x/%20"] {
        let raw = uri.rsplit_once('/').unwrap().1;
        let expected: String = raw
            .replace("%20", "_")
            .chars()
            .map(|ch| {
                if ch.is_ascii_alphanumeric() || matches!(ch, '.' | '_' | '-') {
                    ch
                } else {
                    '_'
                }
            })
            .collect();
        assert_eq!(safe_document_name(uri), expected);
    }
}

#[test]
fn names_of_copies() {
    assert_eq!(hashed_file_name(0xab, "content://a/b.nsp"), "00000000000000ab-b.nsp");
    let uri = "content://a/b.nsp".to_string();
    let mut hasher = DefaultHasher::new();
    uri.hash(&mut hasher);
    assert_eq!(cache_file_name(&uri), format!("{:016x}-b.nsp", hasher.finish()));
    assert_ne!(cache_file_name("content://a/b"), cache_file_name("content://c/b"));
}

#[test]
fn percentages() {
    assert_eq!(progress_percent(0, 0, Some(100)), None);
    assert_eq!(progress_percent(1, 0, Some(100)), Some(1));
    assert_eq!(progress_percent(50, 50, Some(100)), None);
    assert_eq!(progress_percent(100, 50, Some(100)), Some(99));
    assert_eq!(progress_percent(500, 0, Some(100)), Some(99));
    assert_eq!(progress_percent(500, 99, Some(100)), None);
    assert_eq!(progress_percent(u64::MAX, 0, Some(u64::MAX)), Some(1));
    assert_eq!(progress_percent(5, 0, None), None);
    assert_eq!(progress_percent(5, 0, Some(0)), None);
}
