use nscb_desktop::backend::{
    backend_file, download_backend, download_step, has_backend, has_keys, import_nscb_binary,
    judge_import, nscb_exe_path, refusal_text, DownloadAction, DownloadEvent, BACKEND_MODE,
};
use nscb_desktop::dirs::{app_root_dir, app_tools_dir, Place, RootSource};
use nscb_desktop::failure::Failure;
use nscb_desktop::filelist::{create_verify_filelist, filelist};
use nscb_desktop::target::{nscb_binary_name, Target};

fn target(os: &str, arch: &str) -> Target {
    Target { os: os.to_string(), arch: arch.to_string() }
}

fn not_a_backend() -> Result<(), String> {
    Err("Please select an nscb_rust backend binary".to_string())
}

#[test]
fn import_by_name() {
    assert_eq!(import_nscb_binary("/opt/tools/nscb_rust-linux-amd64", true), Ok(()));
    assert_eq!(import_nscb_binary("NSCB_RUST.EXE", true), Ok(()));
    assert_eq!(import_nscb_binary("/opt/Nscb_Rust/", true), Ok(()));
    assert_eq!(import_nscb_binary("/opt/nscb_rust/other", true), not_a_backend());
    assert_eq!(import_nscb_binary("/opt/nscb", true), not_a_backend());
    assert_eq!(import_nscb_binary("/", true), not_a_backend());
    assert_eq!(import_nscb_binary("nscb_rust/..", true), not_a_backend());
}

#[test]
fn import_of_nothing() {
    let expected = Err("Selected file does not exist".to_string());
    assert_eq!(import_nscb_binary("nscb_rust", false), expected);
    assert_eq!(import_nscb_binary("other", false), expected);
}

#[test]
fn judging_a_name() {
    assert_eq!(judge_import(true, Some("nScB_rUsT".to_string())), Ok(()));
    assert_eq!(judge_import(true, Some("xnscb_rust".to_string())), not_a_backend());
    assert_eq!(judge_import(true, None), not_a_backend());
    assert_eq!(
        judge_import(false, None),
        Err("Selected file does not exist".to_string())
    );
}

#[test]
fn an_installed_backend_can_be_imported() {
    for (os, arch) in
        [("windows", "x86_64"), ("macos", "aarch64"), ("macos", "x86_64"), ("linux", "x86_64")]
    {
        let name = nscb_binary_name(&target(os, arch));
        assert_eq!(import_nscb_binary(name, true), Ok(()));
        assert_eq!(import_nscb_binary(&name.to_ascii_uppercase(), true), Ok(()));
    }
}

#[test]
fn portable_paths_are_split_at_slashes() {
    fn expected(path: &str) -> Option<String> {
        let (dir, part) = match path.rsplit_once('/') {
            Some((dir, part)) => (Some(dir), part),
            None => (None, path),
        };
        if part.is_empty() || part == "." {
            dir.and_then(expected)
        } else if part == ".." {
            None
        } else {
            Some(part.to_string())
        }
    }
    for path in [
        "", ".", "..", "/", "a", "a/", "a/.", "a/./", "a//", "./.", "./a", "../a", "a/..", "/a/b c",
        "a/.b", "/.", "/..", ".../", "a/b/../c", "a//b///", "..a", "\u{e9}/\u{1f600}", "/a:b/c",
        "/a/b: c", "a/b:c", "C:/a/b", "C:/a/", "a:b/..", "1:/x", "/C:/x",
    ] {
        let found = std::path::Path::new(path)
            .file_name()
            .and_then(|name| name.to_str())
            .map(|name| name.to_string());
        assert_eq!(found, expected(path));
    }
}

#[test]
fn import_by_a_path_with_a_colon() {
    assert_eq!(
        import_nscb_binary(
            "/run/user/1000/gvfs/smb-share:server=nas,share=g/nscb_rust-linux-amd64",
            true
        ),
        Ok(())
    );
    assert_eq!(import_nscb_binary("/opt/nscb_rust:2", true), Ok(()));
    assert_eq!(import_nscb_binary("C:/tools/nscb_rust.exe", true), Ok(()));
    assert_eq!(import_nscb_binary("C:/nscb_rust/other", true), not_a_backend());
    assert_eq!(import_nscb_binary("/opt/x:nscb_rust", true), not_a_backend());
    assert_eq!(import_nscb_binary("//server/share/nscb_rust", true), Ok(()));
}

#[test]
fn backslashes_and_drives_go_by_the_system() {
    let windows = std::path::MAIN_SEPARATOR == '\\';
    let by_system = if windows { Ok(()) } else { not_a_backend() };
    assert_eq!(import_nscb_binary("C:\\tools\\nscb_rust.exe", true), by_system);
    assert_eq!(import_nscb_binary("tools\\nscb_rust.exe", true), by_system);
    assert_eq!(import_nscb_binary("c:nscb_rust", true), by_system);
    assert_eq!(import_nscb_binary("/opt/a\\nscb_rust", true), by_system);
    let by_system = if windows { not_a_backend() } else { Ok(()) };
    assert_eq!(import_nscb_binary("/opt/nscb_rust\\other", true), by_system);
    let list_name = create_verify_filelist("C:\\a\\x.nsp").list_name;
    assert_eq!(list_name, if windows { "x-vflist.txt" } else { "C__a_x-vflist.txt" });
}

#[test]
fn where_the_backend_is() {
    assert_eq!(backend_file(&target("android", "aarch64")), None);
    assert_eq!(backend_file(&target("windows", "x86_64")), Some("nscb_rust.exe"));
    assert_eq!(has_backend(&target("android", "aarch64"), Ok(false)), Ok(true));
    assert_eq!(has_backend(&target("linux", "x86_64"), Ok(false)), Ok(false));
    assert_eq!(has_backend(&target("linux", "x86_64"), Ok(true)), Ok(true));
    assert_eq!(
        has_backend(&target("linux", "x86_64"), Err("no dir".to_string())),
        Err("no dir".to_string())
    );
    assert_eq!(BACKEND_MODE, 0o755);
}

#[test]
fn where_the_keys_are() {
    assert!(has_keys(true, false));
    assert!(has_keys(false, true));
    assert!(!has_keys(false, false));
}

#[test]
fn a_backend_that_is_not_there() {
    let linux = target("linux", "x86_64");
    assert_eq!(nscb_exe_path(&linux, 5u8, true, "/t"), Ok(5u8));
    assert_eq!(
        nscb_exe_path(&linux, 5u8, false, "/t/x"),
        Err("nscb_rust-linux-amd64 not found at /t/x".to_string())
    );
}

fn given_up(action: DownloadAction<Vec<u8>>) -> String {
    match action {
        DownloadAction::Finish(Err(message)) => message,
        _ => panic!("the download goes on"),
    }
}

#[test]
fn a_download_that_works() {
    match download_backend::<Vec<u8>>(&target("macos", "aarch64")) {
        DownloadAction::Fetch(name) => assert_eq!(name, "nscb_rust-macos-arm64"),
        _ => panic!("nothing is fetched"),
    }
    assert!(matches!(
        download_step(DownloadEvent::<Vec<u8>>::Replied(Ok(200))),
        DownloadAction::ReadBody
    ));
    assert!(matches!(
        download_step(DownloadEvent::<Vec<u8>>::Replied(Ok(299))),
        DownloadAction::ReadBody
    ));
    match download_step(DownloadEvent::BodyRead(Ok(vec![1u8, 2]))) {
        DownloadAction::Save(body) => assert_eq!(body, vec![1u8, 2]),
        _ => panic!("nothing is saved"),
    }
    assert!(matches!(
        download_step(DownloadEvent::<Vec<u8>>::Saved(Ok(()))),
        DownloadAction::Finish(Ok(()))
    ));
}

#[test]
fn a_download_of_what_is_built_in() {
    assert!(matches!(
        download_backend::<Vec<u8>>(&target("android", "aarch64")),
        DownloadAction::Finish(Ok(()))
    ));
}

#[test]
fn a_download_that_fails() {
    assert_eq!(
        given_up(download_step(DownloadEvent::Replied(Err("no route".to_string())))),
        "Download failed: no route"
    );
    assert_eq!(
        given_up(download_step(DownloadEvent::Replied(Ok(404)))),
        "Download returned HTTP 404 Not Found"
    );
    assert_eq!(
        given_up(download_step(DownloadEvent::Replied(Ok(199)))),
        "Download returned HTTP 199 <unknown status code>"
    );
    assert_eq!(
        given_up(download_step(DownloadEvent::Replied(Ok(300)))),
        "Download returned HTTP 300 Multiple Choices"
    );
    assert_eq!(
        given_up(download_step(DownloadEvent::BodyRead(Err("cut off".to_string())))),
        "Failed to read response body: cut off"
    );
    assert_eq!(
        given_up(download_step(DownloadEvent::Saved(Err("full".to_string())))),
        "Failed to save backend binary: full"
    );
    assert_eq!(refusal_text("503"), "Download returned HTTP 503");
}

#[test]
fn a_list_for_a_file() {
    let list = create_verify_filelist("/games/My Game [v1].nsp");
    assert_eq!(list.list_name, "My_Game__v1_-vflist.txt");
    assert_eq!(list.contents, "/games/My Game [v1].nsp\n");
    assert_eq!(
        list.cached,
        vec![
            "INFO".to_string(),
            "MASSVERIFY".to_string(),
            "My_Game__v1_-vflist-verify.txt".to_string()
        ]
    );
}

#[test]
fn stems_of_files() {
    for (path, stem) in [
        ("a.b.c", "a_b"),
        (".hidden", "_hidden"),
        (".hidden.txt", "_hidden"),
        ("plain", "plain"),
        ("dir/x-y_z.xci", "x-y_z"),
        ("\u{e9}\u{4e2d}!.nsp", "\u{e9}\u{4e2d}_"),
        ("/", "verify"),
        ("a/..", "verify"),
        ("end.", "end"),
        ("/games/Zelda: X.nsp", "Zelda__X"),
        ("/games:old/x.nsp", "x"),
        ("C:/a/x.nsp", "x"),
        ("//server/share/x.nsp", "x"),
    ] {
        assert_eq!(create_verify_filelist(path).list_name, format!("{}-vflist.txt", stem));
    }
}

#[test]
fn a_list_without_a_stem() {
    let list = filelist(None, "/");
    assert_eq!(list.list_name, "verify-vflist.txt");
    assert_eq!(list.contents, "/\n");
    let again = filelist(Some("verify".to_string()), "/");
    assert_eq!(again.list_name, list.list_name);
}

#[test]
fn a_list_name_is_stable_and_has_no_separator() {
    let list = filelist(Some("a/b\\c d".to_string()), "x");
    assert_eq!(list.list_name, "a_b_c_d-vflist.txt");
    let again = filelist(Some("a_b_c_d".to_string()), "x");
    assert_eq!(again.list_name, list.list_name);
}

#[test]
fn the_root_directory() {
    assert_eq!(app_root_dir(RootSource::Manifest { dir: "/a/b", parent: Some("/a") }), Ok("/a"));
    assert_eq!(app_root_dir(RootSource::Manifest { dir: "/", parent: None }), Ok("/"));
    assert_eq!(app_root_dir(RootSource::Executable(Ok(Some("/opt")))), Ok("/opt"));
    assert_eq!(
        app_root_dir::<&str>(RootSource::Executable(Ok(None))),
        Err("Failed to resolve executable directory".to_string())
    );
    assert_eq!(
        app_root_dir::<&str>(RootSource::Executable(Err("gone".to_string()))),
        Err("Failed to resolve current executable path: gone".to_string())
    );
}

#[test]
fn the_tools_directory() {
    assert_eq!(app_tools_dir(Ok("/tmp/t"), Ok(())), Ok("/tmp/t"));
    assert_eq!(
        app_tools_dir(Ok("/tmp/t"), Err("full".to_string())),
        Err("Failed to create tools dir: full".to_string())
    );
    assert_eq!(
        app_tools_dir::<&str>(Err("none".to_string()), Ok(())),
        Err("Failed to resolve temp dir: none".to_string())
    );
}

#[test]
fn names_of_places() {
    let names: Vec<&str> = [
        Place::Tools,
        Place::ProdKeys,
        Place::OldKeys,
        Place::Settings,
        Place::OldVersion,
        Place::InputCache,
    ]
    .into_iter()
    .map(|place| place.name())
    .collect();
    assert_eq!(
        names,
        vec![
            "nscb-desktop-tools",
            "prod.keys",
            "keys.txt",
            "settings.json",
            "version.txt",
            "android-native-inputs"
        ]
    );
}

#[test]
fn messages_of_failures() {
    for (failure, message) in [
        (Failure::ResolveExecutable, "Failed to resolve current executable path: x"),
        (Failure::ResolveTempDir, "Failed to resolve temp dir: x"),
        (Failure::CreateToolsDir, "Failed to create tools dir: x"),
        (Failure::WriteKeys, "Failed to write prod.keys: x"),
        (Failure::CopyBackend, "Failed to copy backend binary: x"),
        (Failure::ReadVersion, "Failed to read version: x"),
        (Failure::Download, "Download failed: x"),
        (Failure::ReadResponse, "Failed to read response body: x"),
        (Failure::SaveBackend, "Failed to save backend binary: x"),
        (Failure::CreateFilelist, "Failed to create verify filelist: x"),
        (Failure::ReadFile, "Failed to read file: x"),
        (Failure::StopProcess, "Failed to stop process: x"),
        (Failure::ReadSettings, "Failed to read settings: x"),
        (Failure::ParseSettings, "Failed to parse settings: x"),
        (Failure::SerializeSettings, "Failed to serialize settings: x"),
        (Failure::WriteSettings, "Failed to write settings: x"),
        (Failure::ParseDocumentUri, "Invalid Android document URI: x"),
        (Failure::OpenDocument, "Failed to open Android document: x"),
        (Failure::CreateInputCache, "Failed to create Android input cache: x"),
        (Failure::SeekDocument, "Failed to seek Android document: x"),
        (Failure::CreateCacheFile, "Failed to create Android input cache file: x"),
        (Failure::ReadDocument, "Failed to read Android document: x"),
        (Failure::CacheDocument, "Failed to cache Android document: x"),
        (Failure::FinishCache, "Failed to finish Android input cache: x"),
    ] {
        assert_eq!(failure.describe("x"), message);
        assert_eq!(failure.explain::<u8>(Err("x".to_string())), Err(message.to_string()));
        assert_eq!(failure.explain(Ok(3u8)), Ok(3u8));
    }
}

fn bodies_saved(status: u16, body: Result<Vec<u8>, String>) -> (Vec<Vec<u8>>, usize) {
    let mut action = download_backend::<Vec<u8>>(&target("linux", "x86_64"));
    let mut saved = Vec::new();
    let mut asked = 0;
    loop {
        let event = match action {
            DownloadAction::Fetch(_) => DownloadEvent::Replied(Ok(status)),
            DownloadAction::ReadBody => DownloadEvent::BodyRead(body.clone()),
            DownloadAction::Save(body) => {
                saved.push(body);
                DownloadEvent::Saved(Ok(()))
            }
            DownloadAction::Finish(_) => return (saved, asked),
        };
        asked += 1;
        action = download_step(event);
    }
}

#[test]
fn only_an_accepted_body_is_saved() {
    for status in 100u16..=999 {
        let (saved, asked) = bodies_saved(status, Ok(vec![7]));
        if (200..300).contains(&status) {
            assert_eq!((saved, asked), (vec![vec![7]], 3));
        } else {
            assert_eq!((saved, asked), (Vec::new(), 1));
        }
    }
    assert_eq!(bodies_saved(200, Err("cut off".to_string())), (Vec::new(), 2));
}

#[test]
fn ascii_in_the_name_of_a_list() {
    for c in (0u32..0x80).filter_map(char::from_u32) {
        let kept = c.is_ascii_alphanumeric() || c == '-' || c == '_';
        let expected = format!("a{}b-vflist.txt", if kept { c } else { '_' });
        assert_eq!(filelist(Some(format!("a{}b", c)), "x").list_name, expected);
    }
}
