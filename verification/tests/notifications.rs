use chat_room::http::Status;
use chat_room::interop::Timestamp;
use chat_room::notifications::{
    check_notification_id, list_query, mark_read_status, message_summary, notification_page,
    record_notification, record_notification_once, split_cursor, summary, NotificationActor, NotificationCursor,
    NotificationError, NotificationEvent, NotificationKind, NotificationParams, NotificationRow,
};

const AT: Timestamp = Timestamp { secs: 1_787_652_000, nanos: 0 };

#[test]
fn kinds_read_back_from_their_names() {
    for kind in [
        NotificationKind::FriendRequest,
        NotificationKind::RoomJoinRequest,
        NotificationKind::Mention,
        NotificationKind::Reply,
        NotificationKind::AiRunCompleted,
    ] {
        assert_eq!(NotificationKind::from_str(kind.as_str()), Ok(kind));
    }
    assert_eq!(NotificationKind::Mention.as_str(), "mention");
    assert_eq!(NotificationKind::AiRunCompleted.as_str(), "ai_run_completed");
    assert_eq!(NotificationKind::from_str("Mention"), Err(()));
}

#[test]
fn cursors_split_at_the_last_bar() {
    assert_eq!(
        split_cursor("a|b|c"),
        Some(("a|b".to_string(), "c".to_string()))
    );
    assert_eq!(split_cursor("no-bar"), None);
    assert_eq!(split_cursor("time|"), None);
    assert_eq!(split_cursor(&format!("t|{}", "x".repeat(301))), None);
    assert!(split_cursor(&format!("t|{}", "x".repeat(300))).is_some());
}

#[test]
fn notification_cursor_reads_back() {
    let cursor = NotificationCursor { created_at: AT, id: "n-1".into() };
    let text = cursor.to_text().unwrap();
    assert_eq!(text, "2026-08-25T10:00:00Z|n-1");
    let back = NotificationCursor::from_str(&text).ok().unwrap();
    assert_eq!(back.created_at, AT);
    assert_eq!(back.id, "n-1");
    assert!(NotificationCursor::from_str("later|n-1").is_err());
}

fn params(cursor: Option<&str>, limit: Option<i64>) -> NotificationParams {
    NotificationParams { kind: Some(NotificationKind::Reply), cursor: cursor.map(str::to_owned), limit }
}

#[test]
fn list_parameters_are_checked() {
    let q = list_query(params(None, None)).ok().unwrap();
    assert_eq!(q.limit, 30);
    assert_eq!(q.kind, Some(NotificationKind::Reply));
    assert!(q.cursor.is_none());
    assert_eq!(list_query(params(None, Some(0))).err(), Some(Status::BadRequest));
    assert_eq!(list_query(params(None, Some(51))).err(), Some(Status::BadRequest));
    assert!(list_query(params(None, Some(50))).is_ok());
    let long = format!("2026-08-25T10:00:00Z|{}", "x".repeat(480));
    assert_eq!(list_query(params(Some(&long), None)).err(), Some(Status::BadRequest));
    assert_eq!(list_query(params(Some("bad"), None)).err(), Some(Status::BadRequest));
    let q = list_query(params(Some("2026-08-25T10:00:00Z|n-9"), Some(5))).ok().unwrap();
    let c = q.cursor.unwrap();
    assert_eq!((c.created_at, c.id.as_str(), q.limit), (AT, "n-9", 5));
}

#[test]
fn mark_read_checks_the_id() {
    assert_eq!(check_notification_id(""), Err(Status::NotFound));
    assert_eq!(check_notification_id(&"i".repeat(301)), Err(Status::NotFound));
    assert_eq!(check_notification_id("abc"), Ok(()));
    assert_eq!(mark_read_status(true), Status::NoContent);
    assert_eq!(mark_read_status(false), Status::NotFound);
}

fn event(summary: &str, key: &str) -> NotificationEvent {
    NotificationEvent {
        recipient_id: 1,
        kind: NotificationKind::FriendRequest,
        actor_id: Some(2),
        room_id: None,
        message_id: None,
        run_id: None,
        summary: summary.into(),
        dedupe_key: key.into(),
        created_at: AT,
    }
}

#[test]
fn recorded_notifications_need_a_dedupe_key_and_keep_160_characters() {
    assert_eq!(record_notification(&event("hi", "k")), Ok("hi".to_string()));
    assert_eq!(record_notification(&event("hi", "")), Err(NotificationError::InvalidDedupeKey));
    assert_eq!(
        record_notification(&event("hi", &"k".repeat(301))),
        Err(NotificationError::InvalidDedupeKey)
    );
    let long = "é".repeat(200);
    assert_eq!(record_notification(&event(&long, "k")), Ok("é".repeat(160)));
}

#[test]
fn message_summaries_are_trimmed_and_cut() {
    assert_eq!(message_summary(None, "Mentioned you"), "Mentioned you");
    assert_eq!(message_summary(Some("   "), "Replied to you"), "Replied to you");
    assert_eq!(message_summary(Some("  hello "), "x"), "hello");
    assert_eq!(message_summary(Some(&"a".repeat(121)), "x"), format!("{}...", "a".repeat(120)));
    assert_eq!(message_summary(Some(&"a".repeat(120)), "x"), "a".repeat(120));
}

fn actor(display: &str) -> Option<NotificationActor> {
    Some(NotificationActor { id: 2, username: "ada".into(), display_name: display.into(), avatar_emoji: "*".into() })
}

#[test]
fn summaries_follow_kind_and_availability() {
    assert_eq!(summary(NotificationKind::Mention, &None, None, None, true, "stored"), "stored");
    assert_eq!(
        summary(NotificationKind::FriendRequest, &actor(" "), None, None, true, " "),
        "ada sent you a friend request"
    );
    assert_eq!(
        summary(NotificationKind::FriendRequest, &None, None, None, true, ""),
        "Someone sent you a friend request"
    );
    assert_eq!(
        summary(NotificationKind::RoomJoinRequest, &actor("Ada L."), Some("Lab"), None, true, ""),
        "Ada L. requested to join Lab"
    );
    assert_eq!(
        summary(NotificationKind::RoomJoinRequest, &None, None, None, true, ""),
        "Someone requested to join a room"
    );
    assert_eq!(summary(NotificationKind::Reply, &None, None, Some("ok"), true, ""), "ok");
    assert_eq!(summary(NotificationKind::AiRunCompleted, &None, None, None, true, ""), "AI run completed");
    assert_eq!(
        summary(NotificationKind::FriendRequest, &None, None, None, false, "stored"),
        "Friend request activity"
    );
    assert_eq!(
        summary(NotificationKind::AiRunCompleted, &None, None, None, false, "stored"),
        "AI run is no longer available"
    );
    assert_eq!(
        summary(NotificationKind::Mention, &None, None, Some("x"), false, "stored"),
        "Source is no longer available"
    );
}

fn row(id: &str, kind: &str, available: bool) -> NotificationRow {
    NotificationRow {
        id: id.into(),
        kind: kind.into(),
        actor_id: Some(2),
        actor_username: Some("ada".into()),
        actor_display_name: Some("".into()),
        actor_avatar_emoji: Some("*".into()),
        room_id: Some(3),
        room_name: Some("Lab".into()),
        message_id: Some(4),
        message_content: Some("hello there".into()),
        run_id: None,
        stored_summary: "".into(),
        source_available: available,
        created_at: AT,
        read_at: None,
    }
}

#[test]
fn unavailable_sources_hide_room_message_and_actor() {
    let v = row("n1", "mention", false).into_view().ok().unwrap();
    assert!(v.actor.is_none());
    assert_eq!((v.room_id, v.room_name.as_deref(), v.message_id), (None, None, None));
    assert_eq!(v.summary, "Source is no longer available");
    let v = row("n2", "friend_request", false).into_view().ok().unwrap();
    assert_eq!(v.actor.unwrap().username, "ada");
    let v = row("n3", "mention", true).into_view().ok().unwrap();
    assert_eq!((v.room_id, v.room_name.as_deref(), v.message_id), (Some(3), Some("Lab"), Some(4)));
    assert_eq!(v.summary, "hello there");
    assert_eq!(v.kind, NotificationKind::Mention);
    assert!(matches!(row("n4", "poke", true).into_view(), Err(NotificationError::InvalidKind)));
}

#[test]
fn pages_drop_the_probe_row_and_point_after_the_last_item() {
    let page = notification_page(vec![row("a", "reply", true), row("b", "reply", true), row("c", "reply", true)], 2)
        .ok()
        .unwrap();
    assert_eq!(page.items.len(), 2);
    assert_eq!(page.items[1].id, "b");
    assert_eq!(page.next_cursor.as_deref(), Some("2026-08-25T10:00:00Z|b"));
    let page = notification_page(vec![row("a", "reply", true)], 2).ok().unwrap();
    assert_eq!(page.items.len(), 1);
    assert_eq!(page.next_cursor, None);
    assert!(matches!(
        notification_page(vec![row("a", "reply", true), row("b", "unknown", true)], 5),
        Err(NotificationError::InvalidKind)
    ));
}

#[test]
fn recording_twice_stores_once() {
    assert_eq!(record_notification_once(&event("hi", "k"), false), Ok(("hi".to_string(), true)));
    assert_eq!(record_notification_once(&event("hi", "k"), true), Ok(("hi".to_string(), false)));
    assert_eq!(record_notification_once(&event("hi", ""), false), Err(NotificationError::InvalidDedupeKey));
}
