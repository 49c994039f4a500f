use nscb_desktop::runner::{
    cancel_nscb, cancel_outcome, done_event, embedded_done, embedded_report, finish_embedded,
    finish_process, heartbeat, lock_failed, relay_chunk, relay_line, relay_text, run_embedded, run_nscb, running_pid, Cancel, Launch, LaunchAction,
    LaunchEvent, Relay, Runner,
};
use nscb_desktop::target::Target;

fn target(os: &str) -> Target {
    Target { os: os.to_string(), arch: "x86_64".to_string() }
}

fn fail_message<P>(action: LaunchAction<P>) -> String {
    match action {
        LaunchAction::Fail(message) => message,
        _ => panic!("the start went on"),
    }
}

fn started(runner: &Runner) -> Launch<String> {
    match run_nscb::<String>(runner, vec!["-v".to_string(), "file".to_string()]) {
        Ok((launch, action)) => {
            assert!(matches!(action, LaunchAction::ResolveExecutable));
            launch
        }
        Err(message) => panic!("{}", message),
    }
}

fn advance(
    launch: Launch<String>,
    runner: &mut Runner,
    event: LaunchEvent<String>,
) -> (Launch<String>, LaunchAction<String>) {
    assert!(launch.expects(&event));
    launch.step(runner, &target("linux"), event)
}

fn at_spawn(runner: &mut Runner) -> Launch<String> {
    let launch = started(runner);
    let (launch, action) =
        advance(launch, runner, LaunchEvent::ExecutableResolved(Ok("/exe".to_string())));
    assert!(matches!(action, LaunchAction::ResolveRoot));
    let (launch, action) = advance(launch, runner, LaunchEvent::RootResolved(Ok("/root".to_string())));
    match action {
        LaunchAction::Spawn { executable, args, work_dir } => {
            assert_eq!(executable, "/exe");
            assert_eq!(args, vec!["-v".to_string(), "file".to_string()]);
            assert_eq!(work_dir, "/root");
        }
        _ => panic!("no process is started"),
    }
    launch
}

#[test]
fn a_new_place_is_free() {
    assert_eq!(running_pid(&Runner::new()), None);
}

#[test]
fn a_start_takes_the_place() {
    let mut runner = Runner::new();
    let launch = at_spawn(&mut runner);
    assert_eq!(running_pid(&runner), None);
    let (launch, action) = advance(launch, &mut runner, LaunchEvent::Spawned(Ok(42)));
    assert!(matches!(action, LaunchAction::CaptureOutput));
    assert_eq!(running_pid(&runner), Some(42));
    let (launch, action) =
        advance(launch, &mut runner, LaunchEvent::Captured { stdout: true, stderr: true });
    assert!(matches!(action, LaunchAction::Follow));
    assert!(!launch.expects(&LaunchEvent::Spawned(Ok(43))));
    assert_eq!(running_pid(&runner), Some(42));
}

#[test]
fn a_second_start_is_refused() {
    let mut runner = Runner::new();
    let launch = at_spawn(&mut runner);
    let _ = advance(launch, &mut runner, LaunchEvent::Spawned(Ok(42)));
    match run_nscb::<String>(&runner, Vec::new()) {
        Ok(_) => panic!("two operations at a time"),
        Err(message) => assert_eq!(message, "A process is already running"),
    }
    assert_eq!(running_pid(&runner), Some(42));
    runner.clear();
    assert!(run_nscb::<String>(&runner, Vec::new()).is_ok());
}

#[test]
fn a_missing_executable_ends_the_start() {
    let mut runner = Runner::new();
    let launch = started(&runner);
    let (launch, action) =
        advance(launch, &mut runner, LaunchEvent::ExecutableResolved(Err("gone".to_string())));
    assert_eq!(fail_message(action), "gone");
    assert!(!launch.expects(&LaunchEvent::RootResolved(Ok(String::new()))));
    assert_eq!(running_pid(&runner), None);
}

#[test]
fn a_missing_directory_ends_the_start() {
    let mut runner = Runner::new();
    let launch = started(&runner);
    let (launch, _) =
        advance(launch, &mut runner, LaunchEvent::ExecutableResolved(Ok("/exe".to_string())));
    let (_, action) =
        advance(launch, &mut runner, LaunchEvent::RootResolved(Err("no root".to_string())));
    assert_eq!(fail_message(action), "no root");
    assert_eq!(running_pid(&runner), None);
}

#[test]
fn a_process_that_does_not_start_leaves_the_place_free() {
    let mut runner = Runner::new();
    let launch = at_spawn(&mut runner);
    let (_, action) = advance(launch, &mut runner, LaunchEvent::Spawned(Err("denied".to_string())));
    assert_eq!(fail_message(action), "Failed to start nscb_rust-linux-amd64: denied");
    assert_eq!(running_pid(&runner), None);
}

#[test]
fn output_that_cannot_be_captured_leaves_the_place_taken() {
    for (stdout, stderr, expected) in [
        (false, true, "Failed to capture stdout"),
        (false, false, "Failed to capture stdout"),
        (true, false, "Failed to capture stderr"),
    ] {
        let mut runner = Runner::new();
        let launch = at_spawn(&mut runner);
        let (launch, _) = advance(launch, &mut runner, LaunchEvent::Spawned(Ok(7)));
        let (_, action) = advance(launch, &mut runner, LaunchEvent::Captured { stdout, stderr });
        assert_eq!(fail_message(action), expected);
        assert_eq!(running_pid(&runner), Some(7));
    }
}

#[test]
fn a_place_that_cannot_be_looked_at() {
    assert_eq!(lock_failed(), "Failed to lock runner state");
}

#[test]
fn lines_are_trimmed() {
    match relay_line("verify", Some(9), "\t 50% \u{3000}\r\n") {
        Relay::Emit(event) => {
            assert_eq!(event.op, "verify");
            assert_eq!(event.line, "50%");
        }
        _ => panic!("the line is lost"),
    }
    assert!(matches!(relay_line("verify", Some(3), " \r\n"), Relay::Skip));
    assert!(matches!(relay_line("verify", Some(0), ""), Relay::Stop));
    assert!(matches!(relay_line("verify", None, "text"), Relay::Stop));
}

#[test]
fn trimming_follows_unicode_white_space() {
    let listed = |c: char| {
        let code = c as u32;
        (0x09..=0x0d).contains(&code)
            || (0x2000..=0x200a).contains(&code)
            || [0x20, 0x85, 0xa0, 0x1680, 0x2028, 0x2029, 0x202f, 0x205f, 0x3000].contains(&code)
    };
    for c in (0u32..0x11_0000).filter_map(char::from_u32) {
        assert_eq!(c.is_whitespace(), listed(c));
    }
    for c in (0u32..0x3100).filter_map(char::from_u32) {
        let line = format!("{}x{}", c, c);
        match relay_line("op", Some(1), &line) {
            Relay::Emit(event) => {
                assert_eq!(event.line, if listed(c) { "x".to_string() } else { line.clone() })
            }
            _ => panic!("the line is lost"),
        }
    }
}

#[test]
fn a_trimmed_line_stays_as_it_is() {
    let first = match relay_line("op", Some(1), "  a b  ") {
        Relay::Emit(event) => event.line,
        _ => panic!("the line is lost"),
    };
    match relay_line("op", Some(1), &first) {
        Relay::Emit(event) => assert_eq!(event.line, first),
        _ => panic!("the line is lost"),
    }
}

#[test]
fn error_output_is_passed_on_whole() {
    match relay_chunk("verify", Some(" warn \n".as_bytes())) {
        Relay::Emit(event) => {
            assert_eq!(event.op, "verify");
            assert_eq!(event.chunk, " warn \n");
        }
        _ => panic!("the output is lost"),
    }
    assert!(matches!(relay_chunk("verify", Some(" \n".as_bytes())), Relay::Skip));
    assert!(matches!(relay_chunk("verify", Some(&[])), Relay::Stop));
    assert!(matches!(relay_chunk("verify", None), Relay::Stop));
    assert!(matches!(relay_text("verify", "\u{a0}".to_string()), Relay::Skip));
}

#[test]
fn broken_error_output_is_shown_as_far_as_it_goes() {
    match relay_chunk("verify", Some(&[b'a', 0xff, b'b'])) {
        Relay::Emit(event) => assert_eq!(event.chunk, "a\u{fffd}b"),
        _ => panic!("the output is lost"),
    }
    match relay_chunk("verify", Some("\u{e9}\u{1f600}".as_bytes())) {
        Relay::Emit(event) => assert_eq!(event.chunk, "\u{e9}\u{1f600}"),
        _ => panic!("the output is lost"),
    }
}

#[test]
fn exit_codes() {
    assert_eq!(done_event("op", Ok(Some(0))).code, 0);
    assert_eq!(done_event("op", Ok(Some(101))).code, 101);
    assert_eq!(done_event("op", Ok(None)).code, -1);
    assert_eq!(done_event("op", Err("no child".to_string())).code, -1);
    assert_eq!(done_event("op", Ok(None)).op, "op");
}

fn holding(pid: u32) -> Runner {
    let mut runner = Runner::new();
    let launch = at_spawn(&mut runner);
    let _ = advance(launch, &mut runner, LaunchEvent::Spawned(Ok(pid)));
    runner
}

#[test]
fn nothing_to_cancel() {
    let mut runner = Runner::new();
    assert!(matches!(cancel_nscb(&mut runner, &target("linux")), Cancel::Idle));
    assert!(matches!(cancel_nscb(&mut runner, &target("android")), Cancel::Idle));
}

#[test]
fn cancel_on_unix() {
    let mut runner = holding(1234);
    match cancel_nscb(&mut runner, &target("macos")) {
        Cancel::Kill { program, args } => {
            assert_eq!(program, "kill");
            assert_eq!(args, vec!["-9".to_string(), "1234".to_string()]);
        }
        _ => panic!("the process goes on"),
    }
    assert_eq!(running_pid(&runner), None);
}

#[test]
fn cancel_on_windows() {
    let mut runner = holding(4_294_967_295);
    match cancel_nscb(&mut runner, &target("windows")) {
        Cancel::Kill { program, args } => {
            assert_eq!(program, "taskkill");
            assert_eq!(
                args,
                vec![
                    "/PID".to_string(),
                    "4294967295".to_string(),
                    "/T".to_string(),
                    "/F".to_string()
                ]
            );
        }
        _ => panic!("the process goes on"),
    }
    assert_eq!(running_pid(&runner), None);
}

#[test]
fn cancel_of_the_embedded_backend_is_refused_and_frees_the_place() {
    let mut runner = Runner::new();
    assert!(run_embedded(&mut runner).is_ok());
    match cancel_nscb(&mut runner, &target("android")) {
        Cancel::Refused(message) => assert_eq!(
            message,
            "The embedded Android backend cannot be interrupted safely yet"
        ),
        _ => panic!("not refused"),
    }
    assert_eq!(running_pid(&runner), None);
}

#[test]
fn outcome_of_a_cancel() {
    assert_eq!(cancel_outcome(&target("linux"), Ok(true)), Ok(()));
    assert_eq!(cancel_outcome(&target("linux"), Ok(false)), Ok(()));
    assert_eq!(cancel_outcome(&target("windows"), Ok(true)), Ok(()));
    assert_eq!(
        cancel_outcome(&target("windows"), Ok(false)),
        Err("Failed to stop running process".to_string())
    );
    assert_eq!(
        cancel_outcome(&target("linux"), Err("no kill".to_string())),
        Err("Failed to stop process: no kill".to_string())
    );
}

#[test]
fn one_embedded_operation_at_a_time() {
    let mut runner = Runner::new();
    assert_eq!(run_embedded(&mut runner), Ok(()));
    assert_eq!(running_pid(&runner), Some(0));
    assert_eq!(run_embedded(&mut runner), Err("An operation is already running".to_string()));
    assert_eq!(running_pid(&runner), Some(0));
    runner.clear();
    assert_eq!(run_embedded(&mut runner), Ok(()));
}

#[test]
fn reports_of_the_embedded_backend() {
    let report = embedded_report("info", &Ok(()));
    match report.stdout {
        Some(event) => {
            assert_eq!(event.op, "info");
            assert_eq!(event.line, "[DONE] Android operation completed");
        }
        None => panic!("nothing is said"),
    }
    assert!(report.stderr.is_none());

    let report = embedded_report("info", &Err("bad file".to_string()));
    match report.stderr {
        Some(event) => assert_eq!((event.op.as_str(), event.chunk.as_str()), ("info", "bad file")),
        None => panic!("nothing is said"),
    }
    assert!(report.stdout.is_none());
}

#[test]
fn heartbeats_while_processing() {
    match heartbeat("info", true) {
        Some(event) => {
            assert_eq!(event.op, "info");
            assert_eq!(event.line, "[PROCESSING] NSCB is still working...");
        }
        None => panic!("nothing is said"),
    }
    assert!(heartbeat("info", false).is_none());
}

#[test]
fn the_end_of_a_process_frees_the_place() {
    for (waited, code) in [
        (Ok(Some(0)), 0),
        (Ok(Some(3)), 3),
        (Ok(None), -1),
        (Err("no child".to_string()), -1),
    ] {
        let mut runner = holding(42);
        let event = finish_process(&mut runner, "verify", waited);
        assert_eq!((event.op.as_str(), event.code), ("verify", code));
        assert_eq!(running_pid(&runner), None);
        assert!(run_nscb::<String>(&runner, Vec::new()).is_ok());
    }
}

#[test]
fn the_end_of_an_embedded_operation_frees_the_place() {
    for (outcome, code) in [(Ok(()), 0), (Err("bad file".to_string()), 1)] {
        let mut runner = Runner::new();
        assert!(run_embedded(&mut runner).is_ok());
        let event = finish_embedded(&mut runner, "info", &outcome);
        assert_eq!((event.op.as_str(), event.code), ("info", code));
        assert_eq!(running_pid(&runner), None);
        assert!(run_embedded(&mut runner).is_ok());
        let told = embedded_done("info", &outcome);
        assert_eq!((told.op.as_str(), told.code), ("info", code));
    }
}

fn passed_on(op: &str, output: &[u8]) -> Vec<String> {
    let mut reader = std::io::BufReader::new(output);
    let mut lines = Vec::new();
    let mut line = String::new();
    loop {
        line.clear();
        let count = std::io::BufRead::read_line(&mut reader, &mut line).ok();
        match relay_line(op, count, &line) {
            Relay::Stop => return lines,
            Relay::Skip => {}
            Relay::Emit(event) => {
                assert_eq!(event.op, op);
                lines.push(event.line);
            }
        }
    }
}

#[test]
fn an_output_is_passed_on_line_by_line() {
    assert_eq!(
        passed_on("verify", b"\n  10%\r\n\n\t\n20% \n20% \nlast"),
        vec!["10%".to_string(), "20%".to_string(), "20%".to_string(), "last".to_string()]
    );
    assert_eq!(passed_on("verify", b""), Vec::<String>::new());
    for output in ["", "\n", "\n\n", "a", "a\n", "a\nb", " a \n\n b\rc \n", "\r\n\u{e9}\r\n \u{3000}"] {
        let expected: Vec<String> = output
            .split('\n')
            .map(|line| line.trim().to_string())
            .filter(|line| !line.is_empty())
            .collect();
        assert_eq!(passed_on("op", output.as_bytes()), expected);
    }
}

#[test]
fn output_after_broken_text_is_not_passed_on() {
    assert_eq!(passed_on("op", b"one\ntw\xffo\nthree\n"), vec!["one".to_string()]);
}
