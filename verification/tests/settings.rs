use nscb_desktop::settings::{
    get_setting, parsed_settings, read_settings, save_setting, setting, updated, write_settings,
    Settings,
};
use nscb_desktop::version::{
    get_backend_version, migrate_version, save_backend_version, version_written, VersionAction,
};

fn file(text: &str) -> Option<Result<String, String>> {
    Some(Ok(text.to_string()))
}

fn read(text: &str) -> Settings {
    match read_settings(file(text)) {
        Ok(settings) => settings,
        Err(message) => panic!("{}", message),
    }
}

fn saved(text: Option<Result<String, String>>, key: &str, value: &str) -> String {
    match save_setting(text, key, value) {
        Ok(text) => text,
        Err(message) => panic!("{}", message),
    }
}

#[test]
fn no_file_means_no_settings() {
    assert_eq!(get_setting(None, "theme"), Ok(String::new()));
}

#[test]
fn settings_of_a_file() {
    let text = "{\"theme\": \"dark\", \"lang\": \"\\u0065n\"}";
    assert_eq!(get_setting(file(text), "theme"), Ok("dark".to_string()));
    assert_eq!(get_setting(file(text), "lang"), Ok("en".to_string()));
    assert_eq!(get_setting(file(text), "other"), Ok(String::new()));
}

#[test]
fn the_last_of_two_entries_counts() {
    assert_eq!(get_setting(file("{\"a\":\"1\",\"a\":\"2\"}"), "a"), Ok("2".to_string()));
}

#[test]
fn a_file_that_cannot_be_read() {
    let unreadable = || Some(Err("denied".to_string()));
    let expected = "Failed to read settings: denied".to_string();
    assert_eq!(get_setting(unreadable(), "a"), Err(expected.clone()));
    assert_eq!(save_setting(unreadable(), "a", "b"), Err(expected));
}

#[test]
fn a_file_that_cannot_be_parsed() {
    for text in ["", "[]", "{\"a\":1}", "{\"a\":\"1\""] {
        let cause = serde_json::from_str::<std::collections::HashMap<String, String>>(text)
            .unwrap_err()
            .to_string();
        let expected = format!("Failed to parse settings: {}", cause);
        assert_eq!(get_setting(file(text), "a"), Err(expected.clone()));
        assert_eq!(save_setting(file(text), "a", "b"), Err(expected));
    }
}

#[test]
fn what_is_saved_reads_back() {
    let awkward = "\"quoted\" \\ \n\t\u{0}\u{1f}\u{7f}\u{e9}\u{1f600} {}[],:";
    for value in ["dark", " ", awkward] {
        for key in ["theme", "", awkward] {
            let text = saved(file("{\"lang\":\"en\"}"), key, value);
            assert_eq!(get_setting(file(&text), key), Ok(value.to_string()));
            assert_eq!(get_setting(file(&text), "lang"), Ok("en".to_string()));
        }
    }
}

#[test]
fn saving_into_no_file() {
    assert_eq!(saved(None, "theme", "dark"), "{\n  \"theme\": \"dark\"\n}");
}

#[test]
fn saving_nothing_removes() {
    let text = saved(file("{\"theme\":\"dark\"}"), "theme", "");
    assert_eq!(text, "{}");
    assert_eq!(read(&text).get("theme"), None);
    assert_eq!(saved(file("{}"), "theme", ""), "{}");
}

#[test]
fn the_last_save_counts() {
    let once = saved(None, "theme", "dark");
    let twice = saved(file(&once), "theme", "light");
    assert_eq!(twice, saved(None, "theme", "light"));
}

#[test]
fn saves_under_different_keys_commute() {
    let settings = read("{\"a\":\"1\"}");
    let one = updated(&updated(&settings, "b", "2"), "a", "");
    let other = updated(&updated(&settings, "a", ""), "b", "2");
    for key in ["a", "b", "c"] {
        assert_eq!(one.get(key), other.get(key));
    }
    assert_eq!(one.get("b"), Some("2".to_string()));
}

#[test]
fn settings_as_values() {
    let settings = Settings::new().with("a", "1").with("b", "2").with("a", "3");
    assert_eq!(settings.get("a"), Some("3".to_string()));
    assert_eq!(settings.get("b"), Some("2".to_string()));
    assert_eq!(setting(&settings, "c"), "");
    assert_eq!(settings.without("a").get("a"), None);
    assert_eq!(settings.without("a").get("b"), Some("2".to_string()));
    match write_settings(&settings) {
        Ok(text) => assert_eq!(read(&text).get("a"), Some("3".to_string())),
        Err(message) => panic!("{}", message),
    }
}

#[test]
fn parsed_entries() {
    match parsed_settings(Ok(vec![("a".to_string(), "1".to_string())])) {
        Ok(settings) => assert_eq!(settings.get("a"), Some("1".to_string())),
        Err(message) => panic!("{}", message),
    }
    match parsed_settings(Err("eof".to_string())) {
        Ok(_) => panic!("settings out of nothing"),
        Err(message) => assert_eq!(message, "Failed to parse settings: eof"),
    }
}

#[test]
fn a_recorded_version_is_answered() {
    match get_backend_version(file("{\"backendVersion\":\"v1.2\"}")) {
        Ok(VersionAction::Answer(version)) => assert_eq!(version, "v1.2"),
        _ => panic!("the version is not found"),
    }
    match get_backend_version(file("{\"backendVersion\":\"\"}")) {
        Ok(VersionAction::Answer(version)) => assert_eq!(version, ""),
        _ => panic!("the version is not found"),
    }
    match get_backend_version(Some(Err("denied".to_string()))) {
        Err(message) => assert_eq!(message, "Failed to read settings: denied"),
        Ok(_) => panic!("the failure is lost"),
    }
}

fn without_version() -> Settings {
    match get_backend_version(file("{\"theme\":\"dark\"}")) {
        Ok(VersionAction::ReadOldFile(settings)) => settings,
        _ => panic!("a version out of nothing"),
    }
}

#[test]
fn no_version_anywhere() {
    match migrate_version(&without_version(), None) {
        Ok(VersionAction::Answer(version)) => assert_eq!(version, ""),
        _ => panic!("not answered"),
    }
}

#[test]
fn an_old_version_file_that_cannot_be_read() {
    match migrate_version(&without_version(), Some(Err("denied".to_string()))) {
        Err(message) => assert_eq!(message, "Failed to read version: denied"),
        Ok(_) => panic!("the failure is lost"),
    }
}

#[test]
fn an_old_version_moves_into_the_settings() {
    match migrate_version(&without_version(), file(" v1.0.3\n")) {
        Ok(VersionAction::WriteSettings { text, version }) => {
            assert_eq!(version, "v1.0.3");
            match get_backend_version(file(&text)) {
                Ok(VersionAction::Answer(found)) => assert_eq!(found, "v1.0.3"),
                _ => panic!("the version is lost"),
            }
            assert_eq!(get_setting(file(&text), "theme"), Ok("dark".to_string()));
        }
        _ => panic!("the version is not moved"),
    }
}

#[test]
fn a_blank_old_version_is_dropped() {
    match migrate_version(&without_version(), file(" \n")) {
        Ok(VersionAction::RemoveOldFile { version }) => assert_eq!(version, ""),
        _ => panic!("the blank file stays"),
    }
}

#[test]
fn the_old_file_goes_only_after_the_settings_are_written() {
    match version_written("v2".to_string(), Ok(())) {
        Ok(VersionAction::RemoveOldFile { version }) => assert_eq!(version, "v2"),
        _ => panic!("the old file stays"),
    }
    match version_written("v2".to_string(), Err("full".to_string())) {
        Err(message) => assert_eq!(message, "Failed to write settings: full"),
        Ok(_) => panic!("the old file goes"),
    }
}

#[test]
fn a_saved_version_is_found() {
    let text = match save_backend_version(file("{}"), "v3") {
        Ok(text) => text,
        Err(message) => panic!("{}", message),
    };
    assert_eq!(text, "{\n  \"backendVersion\": \"v3\"\n}");
    match get_backend_version(file(&text)) {
        Ok(VersionAction::Answer(version)) => assert_eq!(version, "v3"),
        _ => panic!("the version is lost"),
    }
}

fn written(text: &str) -> String {
    let mut json = "\"".to_string();
    for c in text.chars() {
        match c {
            '"' => json.push_str("\\\""),
            '\\' => json.push_str("\\\\"),
            '\u{8}' => json.push_str("\\b"),
            '\t' => json.push_str("\\t"),
            '\n' => json.push_str("\\n"),
            '\u{c}' => json.push_str("\\f"),
            '\r' => json.push_str("\\r"),
            c if (c as u32) < 0x20 => json.push_str(&format!("\\u{:04x}", c as u32)),
            c => json.push(c),
        }
    }
    json.push('"');
    json
}

#[test]
fn every_character_of_a_file_is_as_stated() {
    for c in (0u32..0x3000).chain(0x1_f600..0x1_f610).filter_map(char::from_u32) {
        let text = format!("a{}b", c);
        let file_text = saved(None, &text, &text);
        assert_eq!(file_text, format!("{{\n  {}: {}\n}}", written(&text), written(&text)));
        assert_eq!(file_text.matches('\n').count(), 2);
    }
    assert_eq!(saved(None, "k", "\u{1}\n\u{1f}\u{7f}"), "{\n  \"k\": \"\\u0001\\n\\u001f\u{7f}\"\n}");
}

#[test]
fn the_file_of_no_settings_is_an_empty_object() {
    assert_eq!(write_settings(&Settings::new()), Ok("{}".to_string()));
    assert_eq!(saved(file("{\n  \"theme\": \"dark\"\n}"), "theme", ""), "{}");
}

#[test]
fn a_file_has_one_entry_a_line() {
    let text = saved(file("{\"lang\":\"en\"}"), "theme", "dark");
    let one = "{\n  \"lang\": \"en\",\n  \"theme\": \"dark\"\n}";
    let other = "{\n  \"theme\": \"dark\",\n  \"lang\": \"en\"\n}";
    assert!(text == one || text == other);
}
