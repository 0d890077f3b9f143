use opencrust::{
    assemble_mounts, capabilities, check_canonical_inside_root, classify_outcome,
    effective_output_limit, epoch_deadline, filter_env, is_private_ip, memory_limit_bytes,
    plan_domain_queries, plan_mounts, screen_resolutions, socket_use_allowed,
    validate_relative_path, Capability, GuestOutcome, IpAddress, PluginInfo, PluginLimits,
    PluginManifest, PluginPermissions, SocketUse, VectorStore,
};

fn manifest(
    filesystem: bool,
    read_paths: Vec<String>,
    write_paths: Vec<String>,
    network: Vec<String>,
    env_vars: Vec<String>,
) -> PluginManifest {
    PluginManifest {
        plugin: PluginInfo {
            name: "demo".to_string(),
            description: "a demo plugin".to_string(),
            version: "0.1.0".to_string(),
        },
        permissions: PluginPermissions {
            filesystem,
            filesystem_read_paths: read_paths,
            filesystem_write_paths: write_paths,
            network,
            env_vars,
        },
        limits: PluginLimits { max_memory_mb: 64, timeout_secs: 5, max_output_bytes: 4096 },
    }
}

#[test]
fn private_ip_rejected() {
    assert!(is_private_ip(&IpAddress::V4(127, 0, 0, 1)));
    assert!(is_private_ip(&IpAddress::V4(10, 0, 0, 1)));
    assert!(is_private_ip(&IpAddress::V4(172, 16, 0, 1)));
    assert!(is_private_ip(&IpAddress::V4(192, 168, 1, 1)));
    assert!(is_private_ip(&IpAddress::V4(169, 254, 1, 1)));
    assert!(is_private_ip(&IpAddress::V6(0, 0, 0, 0, 0, 0, 0, 1)));
    assert!(is_private_ip(&IpAddress::V6(0xfd00, 0, 0, 0, 0, 0, 0, 1)));
    assert!(is_private_ip(&IpAddress::V6(0xfe80, 0, 0, 0, 0, 0, 0, 1)));
    assert!(!is_private_ip(&IpAddress::V4(8, 8, 8, 8)));
    assert!(!is_private_ip(&IpAddress::V6(0x2001, 0x4860, 0x4860, 0, 0, 0, 0, 0x8888)));
}

#[test]
fn resolve_allowlisted_ips_rejects_localhost() {
    let results = vec![("localhost".to_string(), vec![IpAddress::V4(127, 0, 0, 1)])];
    let result = screen_resolutions(&results);
    assert!(result.is_err());
    let err = result.unwrap_err().display_string();
    assert!(err.contains("private/loopback") || err.contains("SSRF"));
}

#[test]
fn screening_requires_every_domain_to_resolve() {
    let results = vec![("dead.example".to_string(), vec![])];
    let err = screen_resolutions(&results).unwrap_err().display_string();
    assert!(err.contains("resolved to no addresses"));

    let err = screen_resolutions(&vec![]).unwrap_err().display_string();
    assert!(err.contains("no allowlisted domains were resolved"));

    let results = vec![(
        "good.example".to_string(),
        vec![IpAddress::V4(8, 8, 8, 8), IpAddress::V4(1, 1, 1, 1)],
    )];
    let ips = screen_resolutions(&results).unwrap();
    assert_eq!(ips, vec![IpAddress::V4(8, 8, 8, 8), IpAddress::V4(1, 1, 1, 1)]);
}

#[test]
fn socket_checks_allow_outgoing_to_screened_ips_only() {
    let allowed = vec![IpAddress::V4(8, 8, 8, 8)];
    let ip = IpAddress::V4(8, 8, 8, 8);
    let other = IpAddress::V4(9, 9, 9, 9);
    assert!(socket_use_allowed(SocketUse::TcpConnect, &ip, &allowed));
    assert!(socket_use_allowed(SocketUse::UdpConnect, &ip, &allowed));
    assert!(socket_use_allowed(SocketUse::UdpOutgoingDatagram, &ip, &allowed));
    assert!(!socket_use_allowed(SocketUse::TcpConnect, &other, &allowed));
    assert!(!socket_use_allowed(SocketUse::TcpBind, &ip, &allowed));
    assert!(!socket_use_allowed(SocketUse::UdpBind, &ip, &allowed));
}

#[test]
fn domain_queries_are_trimmed_and_nonempty() {
    let domains = vec![
        " example.com ".to_string(),
        "".to_string(),
        "   ".to_string(),
        "rust-lang.org".to_string(),
    ];
    let queries = plan_domain_queries(&domains);
    assert_eq!(queries, vec!["example.com".to_string(), "rust-lang.org".to_string()]);
}

#[test]
fn paths_with_filesystem_disabled_are_refused() {
    let err = plan_mounts(false, &vec!["data".to_string()], &vec![], "/plug")
        .unwrap_err()
        .display_string();
    assert!(err.contains("filesystem=false"));

    let mounts = plan_mounts(false, &vec![], &vec![], "/plug").unwrap();
    assert!(mounts.is_empty());
}

#[test]
fn default_mount_is_the_plugin_root_read_only() {
    let mounts = plan_mounts(true, &vec![], &vec![], "/plug/root").unwrap();
    assert_eq!(mounts.len(), 1);
    assert_eq!(mounts[0].host_path, "/plug/root");
    assert!(!mounts[0].writable);
    assert!(!mounts[0].create_if_missing);
}

#[test]
fn mounts_join_under_the_root_with_flags() {
    let mounts = plan_mounts(
        true,
        &vec![" data ".to_string()],
        &vec!["out".to_string()],
        "/plug",
    )
    .unwrap();
    assert_eq!(mounts.len(), 2);
    assert_eq!(mounts[0].host_path, "/plug/data");
    assert!(!mounts[0].writable);
    assert_eq!(mounts[1].host_path, "/plug/out");
    assert!(mounts[1].writable);
    assert!(mounts[1].create_if_missing);
}

#[test]
fn empty_and_absolute_path_entries_are_refused() {
    let err = validate_relative_path("   ").unwrap_err().display_string();
    assert!(err.contains("cannot be empty"));
    let err = validate_relative_path("/etc/passwd").unwrap_err().display_string();
    assert!(err.contains("absolute filesystem paths are not allowed"));
    assert_eq!(validate_relative_path(" ../etc ").unwrap(), "../etc");
}

#[test]
fn path_traversal_blocked() {
    let result = check_canonical_inside_root("/plug/root", "/etc/passwd");
    assert!(result.is_err());
    let err = result.unwrap_err().display_string();
    assert!(err.contains("escapes plugin root"));
}

#[test]
fn canonical_boundary_compares_whole_components() {
    assert!(check_canonical_inside_root("/plug", "/plug").is_ok());
    assert!(check_canonical_inside_root("/plug", "/plug/sub/dir").is_ok());
    assert!(check_canonical_inside_root("/", "/etc").is_ok());
    assert!(check_canonical_inside_root("/plug", "/plugevil").is_err());
}

#[test]
fn assembled_mounts_are_deduplicated_and_named_in_order() {
    let cands = vec![
        ("/plug/a".to_string(), false),
        ("/plug/b".to_string(), true),
        ("/plug/a".to_string(), true),
        ("/plug/c".to_string(), false),
    ];
    let mounts = assemble_mounts(&cands, "/plug").unwrap();
    assert_eq!(mounts.len(), 3);
    assert_eq!(mounts[0].0, "mnt0");
    assert_eq!(mounts[0].1, "/plug/a");
    // A later writable listing of the same host path overrides read-only.
    assert!(mounts[0].2);
    assert_eq!(mounts[1].0, "mnt1");
    assert_eq!(mounts[1].1, "/plug/b");
    assert!(mounts[1].2);
    assert_eq!(mounts[2].0, "mnt2");
    assert_eq!(mounts[2].1, "/plug/c");
    assert!(!mounts[2].2);

    let escaping = vec![("/plug/a".to_string(), false), ("/else".to_string(), false)];
    let err = assemble_mounts(&escaping, "/plug").unwrap_err().display_string();
    assert!(err.contains("escapes plugin root"));
}

#[test]
fn limits_are_floored_and_clamped() {
    assert_eq!(effective_output_limit(0), 1);
    assert_eq!(effective_output_limit(4096), 4096);
    assert_eq!(epoch_deadline(0), 1);
    assert_eq!(epoch_deadline(30), 30);
    assert_eq!(memory_limit_bytes(64), 64 * 1024 * 1024);
    assert_eq!(memory_limit_bytes(u64::MAX), usize::MAX);
}

#[test]
fn environment_is_stripped_to_the_allowlist() {
    let env = vec![
        ("HOME".to_string(), "/root".to_string()),
        ("API_KEY".to_string(), "SECRET-REDACTED".to_string()),
        ("PATH".to_string(), "/usr/bin".to_string()),
    ];
    let allow = vec!["API_KEY".to_string()];
    let kept = filter_env(&env, &allow);
    assert_eq!(kept.len(), 1);
    assert_eq!(kept[0].0, "API_KEY");
}

#[test]
fn guest_outcomes_classify_by_root_cause() {
    let out = classify_outcome(GuestOutcome::Completed, vec![1], vec![2], 4096).unwrap();
    assert_eq!(out.status, 0);
    assert_eq!(out.stdout, vec![1]);
    assert_eq!(out.stderr, vec![2]);

    let out = classify_outcome(GuestOutcome::Exited(3), vec![], vec![], 4096).unwrap();
    assert_eq!(out.status, 3);

    let err = classify_outcome(
        GuestOutcome::Trapped("wasm trap: interrupted by epoch deadline".to_string()),
        vec![],
        vec![],
        4096,
    )
    .unwrap_err();
    assert_eq!(err.display_string(), "plugin error: execution timed out");

    let err = classify_outcome(
        GuestOutcome::Trapped("write beyond capacity of MemoryOutputPipe".to_string()),
        vec![],
        vec![],
        4096,
    )
    .unwrap_err();
    assert_eq!(
        err.display_string(),
        "plugin error: plugin output exceeded limit (4096 bytes per stream)"
    );

    let err = classify_outcome(
        GuestOutcome::Trapped("some other trap".to_string()),
        vec![],
        vec![],
        4096,
    )
    .unwrap_err();
    assert_eq!(err.display_string(), "plugin error: execution error: some other trap");
}

#[test]
fn capabilities_project_the_manifest() {
    let m = manifest(
        true,
        vec!["data".to_string()],
        vec!["out".to_string()],
        vec!["example.com".to_string()],
        vec!["API_KEY".to_string()],
    );
    let caps = capabilities(&m);
    assert_eq!(caps.len(), 3);
    match &caps[0] {
        Capability::Filesystem { read_paths, write_paths } => {
            assert_eq!(read_paths, &vec!["data".to_string()]);
            assert_eq!(write_paths, &vec!["out".to_string()]);
        }
        _ => panic!("expected the filesystem capability first"),
    }
    match &caps[1] {
        Capability::Network(domains) => assert_eq!(domains, &vec!["example.com".to_string()]),
        _ => panic!("expected the network capability"),
    }
    match &caps[2] {
        Capability::EnvVars(vars) => assert_eq!(vars, &vec!["API_KEY".to_string()]),
        _ => panic!("expected the env capability"),
    }

    let bare = manifest(false, vec![], vec![], vec![], vec![]);
    assert!(capabilities(&bare).is_empty());
}

#[test]
fn in_memory_creates_embeddings_table() {
    let store = VectorStore::in_memory().expect("should open in-memory vector store");
    assert!(store.table_exists("embeddings").unwrap());
    assert!(store.table_exists("vec_id_map").unwrap());
    assert!(!store.table_exists("no_such_table").unwrap());
}

fn floats_to_blob(values: &[f32]) -> Vec<u8> {
    let mut bytes = Vec::new();
    for v in values {
        bytes.extend(v.to_le_bytes());
    }
    bytes
}

#[test]
fn vec_table_lifecycle() {
    let mut store = VectorStore::in_memory().expect("should open in-memory vector store");
    if !store.vec_enabled() {
        // The KNN extension is registered by the embedding process; a
        // bare store falls back to no-op inserts and empty searches.
        store.ensure_vec_table(3).unwrap();
        store
            .insert_embedding("id-1", &floats_to_blob(&[1.0, 0.0, 0.0]), 3)
            .unwrap();
        let results = store.search_nearest(&floats_to_blob(&[0.9, 0.1, 0.0]), 3, 2).unwrap();
        assert!(results.is_empty());
        return;
    }

    store.ensure_vec_table(3).unwrap();
    store
        .insert_embedding("id-1", &floats_to_blob(&[1.0, 0.0, 0.0]), 3)
        .unwrap();
    store
        .insert_embedding("id-2", &floats_to_blob(&[0.0, 1.0, 0.0]), 3)
        .unwrap();

    let results = store.search_nearest(&floats_to_blob(&[0.9, 0.1, 0.0]), 3, 2).unwrap();
    assert_eq!(results.len(), 2);
    assert_eq!(results[0], "id-1");
}
