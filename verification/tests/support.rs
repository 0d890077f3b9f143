use opencrust::{
    apply_vault_outcome, channels_label, config_format_for, decide_key_storage,
    env_hint_for_provider, event_touches_config, format_rfc3339, gateway_url, mcp_label,
    pad_right_string, parse_timestamp, provider_label, repeat_string, skills_label, ConfigFormat,
    Error, KeyStorage, MessageDirection,
};

#[test]
fn error_display_includes_context() {
    let e = Error::Config("bad yaml".into());
    assert_eq!(e.display_string(), "configuration error: bad yaml");

    let e = Error::Plugin("timeout".into());
    assert_eq!(e.display_string(), "plugin error: timeout");

    let e = Error::Security("blocked".into());
    assert_eq!(e.display_string(), "security error: blocked");

    let e = Error::Other("misc".into());
    assert_eq!(e.display_string(), "misc");
}

#[test]
fn rfc3339_formatting_hits_known_instants() {
    assert_eq!(format_rfc3339(0), "1970-01-01T00:00:00Z");
    assert_eq!(format_rfc3339(1_704_067_200), "2024-01-01T00:00:00Z");
    assert_eq!(format_rfc3339(951_827_696), "2000-02-29T12:34:56Z");
    assert_eq!(format_rfc3339(253_402_300_799), "9999-12-31T23:59:59Z");
}

#[test]
fn parsing_accepts_both_stored_shapes() {
    assert_eq!(parse_timestamp("2024-01-01T00:00:00Z"), Some(1_704_067_200));
    assert_eq!(parse_timestamp("2024-01-01 00:00:00"), Some(1_704_067_200));
    assert_eq!(parse_timestamp("2000-02-29T12:34:56Z"), Some(951_827_696));
    assert_eq!(parse_timestamp("not a timestamp"), None);
    assert_eq!(parse_timestamp("2024-13-01T00:00:00Z"), None);
    assert_eq!(parse_timestamp("2024-01-01T00:00:00"), None);
}

#[test]
fn formatting_then_parsing_round_trips() {
    for t in [0i64, 1, 86_399, 86_400, 951_827_696, 1_704_067_200, 253_402_300_799] {
        assert_eq!(parse_timestamp(&format_rfc3339(t)), Some(t));
    }
}

#[test]
fn config_format_follows_the_extension() {
    assert_eq!(config_format_for("/etc/app/config.yml"), ConfigFormat::Yaml);
    assert_eq!(config_format_for("config.yaml"), ConfigFormat::Yaml);
    assert_eq!(config_format_for("dir/config.toml"), ConfigFormat::Toml);
    assert_eq!(config_format_for("config.json"), ConfigFormat::Unsupported);
    assert_eq!(config_format_for(".yml"), ConfigFormat::Unsupported);
    assert_eq!(config_format_for("config"), ConfigFormat::Unsupported);
}

#[test]
fn watcher_reacts_to_its_file_only() {
    let paths = vec!["/home/u/.app/config.yml~".to_string(), "/home/u/.app/config.yml".to_string()];
    assert!(event_touches_config(true, &paths, "config.yml"));
    assert!(!event_touches_config(false, &paths, "config.yml"));
    let others = vec!["/home/u/.app/other.yml".to_string()];
    assert!(!event_touches_config(true, &others, "config.yml"));
}

#[test]
fn banner_labels_cover_the_edge_counts() {
    assert_eq!(provider_label(Some("anthropic"), Some("x")), "anthropic");
    assert_eq!(provider_label(None, Some("openai")), "openai");
    assert_eq!(provider_label(None, None), "none");

    assert_eq!(channels_label(&vec![]), "none");
    assert_eq!(
        channels_label(&vec!["imessage".to_string(), "web".to_string()]),
        "imessage, web"
    );

    assert_eq!(skills_label(0), "none");
    assert_eq!(skills_label(3), "3 loaded");

    assert_eq!(mcp_label(0), "none");
    assert_eq!(mcp_label(1), "1 server");
    assert_eq!(mcp_label(4), "4 servers");

    assert_eq!(gateway_url("localhost", 3000), "http://localhost:3000");
    assert_eq!(repeat_string('-', 4), "----");
    assert_eq!(pad_right_string("ab", 5), "ab   ");
    assert_eq!(pad_right_string("abcdef", 5), "abcdef");
}

#[test]
fn wizard_decisions_follow_the_prompts() {
    assert_eq!(env_hint_for_provider("anthropic"), "ANTHROPIC_API_KEY");
    assert_eq!(env_hint_for_provider("openai"), "OPENAI_API_KEY");
    assert_eq!(env_hint_for_provider("sansa"), "SANSA_API_KEY");
    assert_eq!(env_hint_for_provider("somebody"), "API_KEY");

    assert_eq!(decide_key_storage(true, 0), KeyStorage::Skip);
    assert_eq!(decide_key_storage(false, 0), KeyStorage::Vault);
    assert_eq!(decide_key_storage(false, 1), KeyStorage::Plaintext);
    assert_eq!(decide_key_storage(false, 2), KeyStorage::Skip);

    assert_eq!(apply_vault_outcome(KeyStorage::Vault, true), KeyStorage::Vault);
    assert_eq!(apply_vault_outcome(KeyStorage::Vault, false), KeyStorage::Plaintext);
    assert_eq!(apply_vault_outcome(KeyStorage::Skip, false), KeyStorage::Skip);
}

#[test]
fn message_direction_distinguishes_flow() {
    assert_eq!(MessageDirection::Incoming, MessageDirection::Incoming);
    assert_ne!(MessageDirection::Incoming, MessageDirection::Outgoing);
}
