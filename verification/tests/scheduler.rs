use opencrust::{ScheduleHeartbeat, SessionStore, ToolContext, MAX_DELAY_SECONDS};

fn test_context(session_id: &str) -> ToolContext {
    ToolContext {
        session_id: session_id.to_string(),
        user_id: Some("u-1".to_string()),
        is_heartbeat: false,
    }
}

fn setup_store(session_id: &str) -> SessionStore {
    let mut store = SessionStore::in_memory().expect("in-memory store should open");
    store
        .upsert_session(session_id, Some("web"), Some("u-1"))
        .expect("session upsert should succeed");
    store
}

#[test]
fn schedules_task_in_store() {
    let mut store = setup_store("sess-1");
    let tool = ScheduleHeartbeat::new();

    let out = tool
        .execute(&mut store, &test_context("sess-1"), 1, "ping me later")
        .expect("tool execution should succeed");

    assert!(!out.is_error);
    assert!(out.content.contains("Task ID:"));
}

#[test]
fn rejects_negative_delay() {
    let mut store = setup_store("sess-1");
    let tool = ScheduleHeartbeat::new();

    let err = tool.execute(&mut store, &test_context("sess-1"), -5, "bad");

    assert!(err.is_err());
    assert!(err.unwrap_err().display_string().contains("must be positive"));
}

#[test]
fn rejects_excessive_delay() {
    let mut store = setup_store("sess-1");
    let tool = ScheduleHeartbeat::new();

    let err = tool.execute(
        &mut store,
        &test_context("sess-1"),
        MAX_DELAY_SECONDS + 1,
        "way too long",
    );

    assert!(err.is_err());
    assert!(err.unwrap_err().display_string().contains("30 days"));
}

#[test]
fn rejects_scheduling_from_heartbeat_context() {
    let mut store = setup_store("sess-1");
    let tool = ScheduleHeartbeat::new();

    let context = ToolContext {
        session_id: "sess-1".to_string(),
        user_id: Some("u-1".to_string()),
        is_heartbeat: true,
    };

    let err = tool.execute(&mut store, &context, 60, "recursive");

    assert!(err.is_err());
    assert!(err
        .unwrap_err()
        .display_string()
        .contains("cannot schedule a heartbeat from within"));
}

#[test]
fn rejects_when_too_many_pending() {
    let mut store = setup_store("sess-1");
    let tool = ScheduleHeartbeat::new();

    for i in 0..5 {
        tool.execute(
            &mut store,
            &test_context("sess-1"),
            3600,
            &format!("task {}", i),
        )
        .expect("should succeed under limit");
    }

    let err = tool.execute(&mut store, &test_context("sess-1"), 3600, "one too many");

    assert!(err.is_err());
    assert!(err.unwrap_err().display_string().contains("pending heartbeats"));
}

#[test]
fn pending_limit_is_per_session() {
    let mut store = SessionStore::in_memory().expect("in-memory store should open");
    store.upsert_session("s1", Some("web"), Some("u1")).unwrap();
    store.upsert_session("s2", Some("web"), Some("u2")).unwrap();

    let tool = ScheduleHeartbeat::new();

    for i in 0..5 {
        tool.execute(
            &mut store,
            &ToolContext {
                session_id: "s1".to_string(),
                user_id: Some("u1".to_string()),
                is_heartbeat: false,
            },
            3600,
            &format!("s1-{}", i),
        )
        .unwrap();
    }

    let out = tool
        .execute(
            &mut store,
            &ToolContext {
                session_id: "s2".to_string(),
                user_id: Some("u2".to_string()),
                is_heartbeat: false,
            },
            60,
            "s2 ok",
        )
        .unwrap();

    assert!(!out.is_error);
}

#[test]
fn recorded_fire_at_is_call_time_plus_delay() {
    let mut store = setup_store("sess-t");
    let tool = ScheduleHeartbeat::new();
    let now: i64 = 1_704_067_200;
    let delay: i64 = 3600;

    let out = tool
        .execute_at(&mut store, &test_context("sess-t"), delay, "x", now)
        .unwrap();
    assert!(out.content.contains("2024-01-01T01:00:00Z"));
    assert!(out.content.contains("(in 3600 seconds)"));

    let due = store.due_tasks(now + delay).unwrap();
    assert_eq!(due.len(), 1);
    assert_eq!(due[0].fire_at, now + delay);
    assert_eq!(due[0].reason, "x");

    let not_yet = store.due_tasks(now + delay - 1).unwrap();
    assert!(not_yet.is_empty());
}

#[test]
fn check_args_demands_both_arguments() {
    let tool = ScheduleHeartbeat::new();
    assert_eq!(tool.check_args(Some(60), true).unwrap(), 60);
    let err = tool.check_args(None, true).unwrap_err();
    assert!(err.display_string().contains("delay_seconds"));
    let err = tool.check_args(Some(60), false).unwrap_err();
    assert!(err.display_string().contains("reason"));
}

#[test]
fn schedule_tool_reports_identity() {
    let tool = ScheduleHeartbeat::new();
    assert_eq!(tool.name(), "schedule_heartbeat");
    assert!(tool.description().contains("wake-up call"));
    assert!(tool.input_schema_json().contains("\"delay_seconds\""));
    assert!(tool.input_schema_json().contains("\"required\":[\"delay_seconds\",\"reason\"]"));
}
