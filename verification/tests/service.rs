use chat_room::http::Status;
use chat_room::global_search::SearchCursor;
use chat_room::interop::{is_before, Timestamp};
use chat_room::membership::role_seeds;
use chat_room::messages::attachment_download_url;
use chat_room::notifications::NotificationCursor;
use chat_room::realtime::{extract_mentions, RoomMember};
use chat_room::rooms::hash_password;
use chat_room::observability::{
    counts_for_readiness, dependency_metric_line, dependency_status, dependency_up, incoming_request_id, readiness,
    Readiness,
};
use chat_room::startup::{check_maintenance, database_type, postgres_url, DatabaseType, StartupError};
use chat_room::text::{rsplit_once, split_once, starts_with, trim_str};

const ID: u128 = 0x0123_4567_89ab_cdef_0123_4567_89ab_cdef;

#[test]
fn identifiers_are_written_and_read() {
    assert_eq!(
        attachment_download_url(ID, 2),
        "/api/attachments/01234567-89ab-cdef-0123-456789abcdef?key=00000000-0000-0000-0000-000000000002"
    );
    assert_eq!(role_seeds(ID)[0].role_id, "0123456789abcdef0123456789abcdef:owner");
    let read = |id: &str| SearchCursor::from_str(&format!("2026-08-25T10:00:00Z|{id}")).map(|c| c.message_id);
    assert_eq!(read("01234567-89ab-cdef-0123-456789abcdef"), Ok(ID));
    assert_eq!(read("0123456789abcdef0123456789abcdef"), Ok(ID));
    assert_eq!(read("not-an-id"), Err(()));
}

#[test]
fn times_are_written_and_read() {
    let at = Timestamp { secs: 1_787_652_000, nanos: 0 };
    let read = |t: &str| NotificationCursor::from_str(&format!("{t}|n")).ok().map(|c| c.created_at);
    let write = |created_at: Timestamp| NotificationCursor { created_at, id: "n".into() }.to_text();
    assert_eq!(read("2026-08-25T10:00:00Z"), Some(at));
    assert_eq!(read("2026-08-25T12:00:00+02:00"), Some(at));
    assert_eq!(read("2026-08-25 10:00"), None);
    assert_eq!(write(at).as_deref(), Some("2026-08-25T10:00:00Z|n"));
    let half = Timestamp { secs: 1_787_652_000, nanos: 500_000_000 };
    assert_eq!(write(half).as_deref(), Some("2026-08-25T10:00:00.500Z|n"));
    assert_eq!(read("2026-08-25T10:00:00.500Z"), Some(half));
    assert_eq!(write(Timestamp { secs: i64::MAX, nanos: 0 }), None);
    assert!(is_before(at, half));
    assert!(!is_before(half, at));
}

#[test]
fn room_passwords_are_stored_as_hex_sha256() {
    assert_eq!(hash_password("secret"), "2bb80d537b1da3e38bd30361aa855686bde0eacd7162fef6a25fe97bf527a25b");
    assert_eq!(hash_password(""), "e3b0c44298fc1c149afbf4c8996fb92427ae41e4649b934ca495991b7852b855");
}

#[test]
fn mentions_end_at_characters_that_are_not_letters_or_digits() {
    let roster = vec![RoomMember { user_id: 1, username: "bob".into(), avatar_emoji: String::new() }];
    assert_eq!(extract_mentions("@bobé", &roster, 9), Vec::<u128>::new());
    assert_eq!(extract_mentions("@bob7", &roster, 9), Vec::<u128>::new());
    assert_eq!(extract_mentions("@bob-", &roster, 9), vec![1]);
    assert_eq!(extract_mentions("@bob\u{3000}", &roster, 9), vec![1]);
}

#[test]
fn text_helpers() {
    assert_eq!(trim_str("\u{3000} x \u{a0}"), "x");
    assert_eq!(split_once("image/svg+xml", '/'), Some(("image".to_string(), "svg+xml".to_string())));
    assert_eq!(rsplit_once("a/b/c", '/'), Some(("a/b".to_string(), "c".to_string())));
    assert_eq!(split_once("abc", '/'), None);
    assert!(starts_with("mailto:x", "mailto:"));
    assert!(!starts_with("mail", "mailto:"));
}

#[test]
fn readiness_follows_required_and_optional_dependencies() {
    let dep = |id: &str, state: &str, required: bool| dependency_status(id.into(), state.into(), required);
    assert!(dep("database", "down", false).required);
    assert!(!dep("redis", "down", false).required);
    assert!(dependency_up("healthy") && dependency_up("configured") && !dependency_up("degraded"));
    assert!(!counts_for_readiness("embedding"));
    assert!(counts_for_readiness("database"));
    assert_eq!(readiness(&vec![dep("database", "healthy", false)]), (Status::Success, Readiness::Ready));
    assert_eq!(
        readiness(&vec![dep("database", "healthy", false), dep("redis", "degraded", false)]),
        (Status::Success, Readiness::Degraded)
    );
    assert_eq!(
        readiness(&vec![dep("database", "down", false), dep("redis", "degraded", false)]),
        (Status::ServiceUnavailable, Readiness::NotReady)
    );
    assert_eq!(readiness(&vec![]), (Status::Success, Readiness::Ready));
    assert_eq!(Readiness::NotReady.as_str(), "not_ready");
    assert_eq!(Status::ServiceUnavailable.code(), 503);
    assert_eq!(Status::Accepted.code(), 202);
}

#[test]
fn request_ids_are_kept_only_when_well_formed() {
    assert_eq!(incoming_request_id(Some("abc-1_2.3:4")).as_deref(), Some("abc-1_2.3:4"));
    assert_eq!(incoming_request_id(Some("")), None);
    assert_eq!(incoming_request_id(Some("has space")), None);
    assert_eq!(incoming_request_id(Some(&"r".repeat(65))), None);
    assert_eq!(incoming_request_id(Some(&"r".repeat(64))).map(|s| s.len()), Some(64));
    assert_eq!(incoming_request_id(None), None);
}

#[test]
fn database_choice_at_start_up() {
    assert_eq!(database_type(Some(DatabaseType::Sqlite), "postgres"), DatabaseType::Sqlite);
    assert_eq!(database_type(None, "postgres"), DatabaseType::Postgres);
    assert_eq!(database_type(None, "sqlite"), DatabaseType::Sqlite);
    assert_eq!(check_maintenance(DatabaseType::Sqlite), Err(StartupError::MaintenanceNeedsPostgres));
    assert_eq!(check_maintenance(DatabaseType::Postgres), Ok(()));
    assert_eq!(
        postgres_url(Some("postgres://a".into()), Some("postgres://b".into()), "postgres://c"),
        Ok("postgres://a".to_string())
    );
    assert_eq!(postgres_url(None, Some("postgres://b".into()), "postgres://c"), Ok("postgres://b".to_string()));
    assert_eq!(postgres_url(None, None, "postgres://c"), Ok("postgres://c".to_string()));
    assert_eq!(postgres_url(Some("  ".into()), Some("postgres://b".into()), "c"), Err(StartupError::MissingPostgresUrl));
    assert_eq!(
        StartupError::MissingPostgresUrl.message(),
        "PostgreSQL requires --database URL, CHAT_ROOM_DATABASE_URL, or database.postgres_url"
    );
}

#[test]
fn dependency_gauges_report_up_as_one() {
    let db = dependency_status("database".into(), "healthy".into(), false);
    assert_eq!(dependency_metric_line(&db), "chat_room_dependency_up{dependency=\"database\",required=\"true\"} 1\n");
    let graph = dependency_status("graph".into(), "degraded".into(), false);
    assert_eq!(dependency_metric_line(&graph), "chat_room_dependency_up{dependency=\"graph\",required=\"false\"} 0\n");
}
