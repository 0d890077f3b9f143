use opencrust::{applescript_escape, build_send_script, core_data_ns_to_unix, ChatDb};

#[test]
fn applescript_escape_handles_quotes() {
    assert_eq!(applescript_escape(r#"say "hello""#), r#"say \"hello\""#);
}

#[test]
fn applescript_escape_handles_backslashes() {
    assert_eq!(applescript_escape(r"path\to\file"), r"path\\to\\file");
}

#[test]
fn applescript_escape_handles_newlines() {
    assert_eq!(applescript_escape("line1\nline2"), r"line1\nline2");
}

#[test]
fn applescript_escape_handles_carriage_returns() {
    assert_eq!(applescript_escape("a\rb"), r"a\rb");
}

#[test]
fn applescript_escape_combined() {
    let input = "He said \"hi\"\nand\\left";
    let expected = r#"He said \"hi\"\nand\\left"#;
    assert_eq!(applescript_escape(input), expected);
}

#[test]
fn applescript_escape_empty_string() {
    assert_eq!(applescript_escape(""), "");
}

#[test]
fn applescript_escape_no_special_chars() {
    assert_eq!(applescript_escape("hello world"), "hello world");
}

#[test]
fn timestamp_conversion() {
    let core_data_ns: i64 = 725_760_000 * 1_000_000_000;
    let unix = core_data_ns_to_unix(core_data_ns);
    assert_eq!(unix, 1_704_067_200);
}

#[test]
fn timestamp_zero_is_apple_epoch() {
    assert_eq!(core_data_ns_to_unix(0), opencrust::CORE_DATA_EPOCH_OFFSET);
}

#[test]
fn timestamp_conversion_truncates_toward_zero() {
    assert_eq!(core_data_ns_to_unix(1_999_999_999), 978_307_201);
    assert_eq!(core_data_ns_to_unix(-1), 978_307_200);
    assert_eq!(core_data_ns_to_unix(-2_000_000_000), 978_307_198);
}

#[test]
fn send_script_embeds_escaped_values() {
    let script = build_send_script("+1 555 0100", "say \"hi\"\nnow");
    assert!(script.starts_with("tell application \"Messages\""));
    assert!(script.contains("handle \"+1 555 0100\""));
    assert!(script.contains("send \"say \\\"hi\\\"\\nnow\" to targetBuddy"));
    assert!(script.ends_with("end tell"));
}

#[test]
fn chatdb_open_reports_missing_file() {
    let err = match ChatDb::open("/this/path/does/not/exist/chat.db") {
        Ok(_) => panic!("opening a missing database should fail"),
        Err(e) => e,
    };
    assert!(err.contains("failed to open chat.db"));
}
