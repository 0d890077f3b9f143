use opencrust::SessionStore;

#[test]
fn create_and_get_session_round_trip() {
    let mut store = SessionStore::in_memory().unwrap();
    store
        .create_session("sess-1", Some("user-1"), Some("web"))
        .unwrap();

    let session = store.get_session("sess-1").unwrap().unwrap();
    assert_eq!(session.id, "sess-1");
    assert_eq!(session.user_id.as_deref(), Some("user-1"));
    assert_eq!(session.channel_id.as_deref(), Some("web"));
}

#[test]
fn create_session_with_no_user_or_channel() {
    let mut store = SessionStore::in_memory().unwrap();
    store.create_session("sess-2", None, None).unwrap();

    let session = store.get_session("sess-2").unwrap().unwrap();
    assert_eq!(session.id, "sess-2");
    assert!(session.user_id.is_none());
    assert!(session.channel_id.is_none());
}

#[test]
fn get_missing_session_returns_none() {
    let store = SessionStore::in_memory().unwrap();
    assert!(store.get_session("nonexistent").unwrap().is_none());
}

#[test]
fn append_and_retrieve_messages() {
    let mut store = SessionStore::in_memory().unwrap();
    store.create_session("sess-3", None, None).unwrap();

    store.append_message("sess-3", "user", "Hello").unwrap();
    store
        .append_message("sess-3", "assistant", "Hi there!")
        .unwrap();
    store
        .append_message("sess-3", "user", "How are you?")
        .unwrap();

    let messages = store.get_messages("sess-3", 100).unwrap();
    assert_eq!(messages.len(), 3);
    assert_eq!(messages[0].role, "user");
    assert_eq!(messages[0].content, "Hello");
    assert_eq!(messages[1].role, "assistant");
    assert_eq!(messages[1].content, "Hi there!");
    assert_eq!(messages[2].role, "user");
    assert_eq!(messages[2].content, "How are you?");
}

#[test]
fn get_messages_respects_limit() {
    let mut store = SessionStore::in_memory().unwrap();
    store.create_session("sess-4", None, None).unwrap();

    for i in 0..10 {
        store
            .append_message("sess-4", "user", &format!("msg {i}"))
            .unwrap();
    }

    let messages = store.get_messages("sess-4", 3).unwrap();
    assert_eq!(messages.len(), 3);
    assert_eq!(messages[0].content, "msg 0");
}

#[test]
fn delete_session_cascades_to_messages() {
    let mut store = SessionStore::in_memory().unwrap();
    store.create_session("sess-5", None, None).unwrap();
    store.append_message("sess-5", "user", "Hello").unwrap();

    store.delete_session("sess-5").unwrap();

    assert!(store.get_session("sess-5").unwrap().is_none());
    let messages = store.get_messages("sess-5", 100).unwrap();
    assert!(messages.is_empty());
}

#[test]
fn session_count_tracks_correctly() {
    let mut store = SessionStore::in_memory().unwrap();
    assert_eq!(store.session_count().unwrap(), 0);

    store.create_session("a", None, None).unwrap();
    store.create_session("b", None, None).unwrap();
    assert_eq!(store.session_count().unwrap(), 2);

    store.delete_session("a").unwrap();
    assert_eq!(store.session_count().unwrap(), 1);
}

#[test]
fn delete_session_cascades_to_scheduled_tasks() {
    let mut store = SessionStore::in_memory().unwrap();
    store.create_session("sess-6", Some("u"), None).unwrap();
    store
        .schedule_task("sess-6", "u", 1_700_000_000, "check in")
        .unwrap();
    assert_eq!(store.count_pending_tasks_for_session("sess-6").unwrap(), 1);

    store.delete_session("sess-6").unwrap();
    assert_eq!(store.count_pending_tasks_for_session("sess-6").unwrap(), 0);
}

#[test]
fn upsert_creates_then_updates_in_place() {
    let mut store = SessionStore::in_memory().unwrap();
    store
        .upsert_session_at("sess-u", Some("web"), Some("u-1"), 1_704_067_200)
        .unwrap();
    let session = store.get_session("sess-u").unwrap().unwrap();
    assert_eq!(session.channel_id.as_deref(), Some("web"));
    assert_eq!(session.user_id.as_deref(), Some("u-1"));
    assert_eq!(session.created_at, 1_704_067_200);

    store
        .upsert_session_at("sess-u", Some("imessage"), Some("u-2"), 1_704_067_260)
        .unwrap();
    let session = store.get_session("sess-u").unwrap().unwrap();
    assert_eq!(session.channel_id.as_deref(), Some("imessage"));
    assert_eq!(session.user_id.as_deref(), Some("u-2"));
    assert_eq!(session.created_at, 1_704_067_200);
    assert_eq!(session.updated_at, 1_704_067_260);
    assert_eq!(store.session_count().unwrap(), 1);
}

#[test]
fn duplicate_session_id_is_refused() {
    let mut store = SessionStore::in_memory().unwrap();
    store.create_session("dup", None, None).unwrap();
    let err = store.create_session("dup", None, None).unwrap_err();
    assert!(err.display_string().starts_with("database error: "));
}

#[test]
fn append_to_missing_session_is_refused() {
    let mut store = SessionStore::in_memory().unwrap();
    assert!(store.append_message("ghost", "user", "hi").is_err());
}

#[test]
fn timestamps_round_trip_through_storage() {
    let mut store = SessionStore::in_memory().unwrap();
    store
        .create_session_at("sess-7", None, None, 1_704_067_200)
        .unwrap();
    let session = store.get_session("sess-7").unwrap().unwrap();
    assert_eq!(session.created_at, 1_704_067_200);
    assert_eq!(session.updated_at, 1_704_067_200);

    store
        .append_message_at("sess-7", "user", "hello", 1_704_067_260)
        .unwrap();
    let session = store.get_session("sess-7").unwrap().unwrap();
    assert_eq!(session.created_at, 1_704_067_200);
    assert_eq!(session.updated_at, 1_704_067_260);
    let messages = store.get_messages("sess-7", 10).unwrap();
    assert_eq!(messages[0].created_at, 1_704_067_260);
}

#[test]
fn due_tasks_returns_only_ripe_pending_tasks() {
    let mut store = SessionStore::in_memory().unwrap();
    store.create_session("s", Some("u"), None).unwrap();
    let early = store.schedule_task("s", "u", 1_000_000_000, "early").unwrap();
    let late = store.schedule_task("s", "u", 2_000_000_000, "late").unwrap();

    let due = store.due_tasks(1_500_000_000).unwrap();
    assert_eq!(due.len(), 1);
    assert_eq!(due[0].id, early);
    assert_eq!(due[0].fire_at, 1_000_000_000);
    assert_eq!(due[0].status, "pending");

    store.mark_task_fired(&early).unwrap();
    let due = store.due_tasks(1_500_000_000).unwrap();
    assert!(due.is_empty());

    let due = store.due_tasks(2_000_000_000).unwrap();
    assert_eq!(due.len(), 1);
    assert_eq!(due[0].id, late);
}
