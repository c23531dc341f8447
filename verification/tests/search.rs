use chat_room::global_search::{
    excerpt, normalize, search_page, GlobalMessageSearchParams, SearchContentType, SearchCursor,
    SearchRow,
};
use chat_room::history::{
    before_cursor, catch_up_limit, catch_up_window, context_limits, context_window, history_limit,
    newer_limit, page_limit, pin_permission, pin_status, room_search_text, search_limit,
    unpin_status, MessageContextQuery,
};
use chat_room::http::Status;
use chat_room::interop::Timestamp;
use chat_room::messages::like_pattern;

#[test]
fn excerpt_is_trimmed_and_bounded_by_characters() {
    assert_eq!(excerpt("  hello  ", 5), "hello");
    assert_eq!(excerpt("你好世界", 2), "你好...");
}

#[test]
fn search_pattern_escapes_sql_wildcards() {
    assert_eq!(like_pattern(r"50%_done\ok"), r"%50\%\_done\\ok%");
}

#[test]
fn escapes_sql_wildcards() {
    assert_eq!(like_pattern(r"50%_done\ok"), r"%50\%\_done\\ok%");
}

#[test]
fn like_pattern_of_plain_text_only_wraps_it() {
    assert_eq!(like_pattern("release"), "%release%");
    assert_eq!(like_pattern(""), "%%");
}

#[test]
fn excerpt_keeps_short_text_and_cuts_long_text() {
    assert_eq!(excerpt("\t short \n", 10), "short");
    assert_eq!(excerpt("abcdef", 6), "abcdef");
    assert_eq!(excerpt("abcdefg", 6), "abcdef...");
    assert_eq!(excerpt("   ", 3), "");
}

#[test]
fn content_type_follows_the_mime_type_prefix() {
    assert_eq!(SearchContentType::from_mime_type(None), SearchContentType::Text);
    assert_eq!(SearchContentType::from_mime_type(Some("image/png")), SearchContentType::Image);
    assert_eq!(SearchContentType::from_mime_type(Some("video/mp4")), SearchContentType::Video);
    assert_eq!(SearchContentType::from_mime_type(Some("audio/ogg")), SearchContentType::Audio);
    assert_eq!(SearchContentType::from_mime_type(Some("application/pdf")), SearchContentType::File);
    assert_eq!(SearchContentType::from_mime_type(Some("image")), SearchContentType::Text);
    assert_eq!(SearchContentType::from_mime_type(Some("imagex/png")), SearchContentType::File);
}

#[test]
fn content_type_names() {
    assert_eq!(SearchContentType::All.as_str(), "all");
    assert_eq!(SearchContentType::Text.as_str(), "text");
    assert_eq!(SearchContentType::File.as_str(), "file");
    assert_eq!(SearchContentType::Image.as_str(), "image");
    assert_eq!(SearchContentType::Video.as_str(), "video");
    assert_eq!(SearchContentType::Audio.as_str(), "audio");
    assert_eq!(SearchContentType::default(), SearchContentType::All);
}

const AT: Timestamp = Timestamp { secs: 1_787_652_000, nanos: 0 };
const ID: u128 = 0x0123_4567_89ab_cdef_0123_4567_89ab_cdef;

#[test]
fn search_cursor_text_reads_back() {
    let cursor = SearchCursor { created_at: AT, message_id: ID };
    let text = cursor.to_text().unwrap();
    assert_eq!(text, "2026-08-25T10:00:00Z|01234567-89ab-cdef-0123-456789abcdef");
    assert_eq!(SearchCursor::from_str(&text), Ok(cursor));
}

#[test]
fn malformed_search_cursors_are_refused() {
    assert_eq!(SearchCursor::from_str("no separator"), Err(()));
    assert_eq!(SearchCursor::from_str("2026-08-25T10:00:00Z|not-an-id"), Err(()));
    assert_eq!(SearchCursor::from_str("yesterday|01234567-89ab-cdef-0123-456789abcdef"), Err(()));
}

fn params(q: &str) -> GlobalMessageSearchParams {
    GlobalMessageSearchParams {
        q: q.into(),
        room_id: None,
        sender_id: None,
        from: None,
        to: None,
        content_type: SearchContentType::All,
        cursor: None,
        limit: None,
    }
}

#[test]
fn normalize_trims_the_query_and_defaults_the_limit() {
    let search = normalize(params("  release  ")).ok().unwrap();
    assert_eq!(search.text, "release");
    assert_eq!(search.limit, 30);
    assert!(search.cursor.is_none());
}

#[test]
fn normalize_refuses_bad_parameters() {
    assert_eq!(normalize(params("   ")).err(), Some(Status::BadRequest));
    assert_eq!(normalize(params(&"x".repeat(201))).err(), Some(Status::BadRequest));
    assert!(normalize(params(&"x".repeat(200))).is_ok());
    let mut p = params("q");
    p.limit = Some(0);
    assert_eq!(normalize(p).err(), Some(Status::BadRequest));
    let mut p = params("q");
    p.limit = Some(51);
    assert_eq!(normalize(p).err(), Some(Status::BadRequest));
    let mut p = params("q");
    p.from = Some(Timestamp { secs: 10, nanos: 0 });
    p.to = Some(Timestamp { secs: 9, nanos: 999 });
    assert_eq!(normalize(p).err(), Some(Status::BadRequest));
    let mut p = params("q");
    p.cursor = Some("garbage".into());
    assert_eq!(normalize(p).err(), Some(Status::BadRequest));
}

#[test]
fn normalize_reads_a_cursor_and_keeps_filters() {
    let mut p = params("q");
    p.cursor = Some("2026-08-25T10:00:00Z|01234567-89ab-cdef-0123-456789abcdef".into());
    p.from = Some(AT);
    p.to = Some(AT);
    p.room_id = Some(7);
    p.content_type = SearchContentType::Image;
    p.limit = Some(50);
    let search = normalize(p).ok().unwrap();
    assert_eq!(search.cursor, Some(SearchCursor { created_at: AT, message_id: ID }));
    assert_eq!(search.room_id, Some(7));
    assert_eq!(search.content_type, SearchContentType::Image);
    assert_eq!(search.limit, 50);
}

fn row(id: u128, content: &str) -> SearchRow {
    SearchRow {
        message_id: id,
        room_id: 1,
        conversation_kind: "group".into(),
        conversation_title: "Team".into(),
        sender_id: Some(2),
        sender: "ada".into(),
        content: content.into(),
        attachment_file_name: None,
        attachment_mime_type: Some("image/png".into()),
        context_before: Some(format!("  {}  ", "b".repeat(101))),
        context_after: None,
        created_at: AT,
    }
}

#[test]
fn search_page_keeps_the_limit_and_points_after_the_last_hit() {
    let page = search_page(vec![row(ID, " one "), row(2, "two"), row(3, "three")], 2);
    assert_eq!(page.items.len(), 2);
    assert_eq!(page.items[0].excerpt, "one");
    assert_eq!(page.items[0].content_type, SearchContentType::Image);
    assert_eq!(page.items[0].context_before.as_deref(), Some(format!("{}...", "b".repeat(100)).as_str()));
    assert_eq!(page.items[0].context_after, None);
    assert_eq!(
        page.next_cursor.as_deref(),
        Some("2026-08-25T10:00:00Z|00000000-0000-0000-0000-000000000002")
    );
    let last = search_page(vec![row(ID, "one")], 2);
    assert_eq!(last.items.len(), 1);
    assert_eq!(last.next_cursor, None);
}

#[test]
fn room_search_limits_and_text() {
    assert_eq!(search_limit(None), 50);
    assert_eq!(search_limit(Some(0)), 1);
    assert_eq!(search_limit(Some(1000)), 100);
    assert_eq!(history_limit(-5), 1);
    assert_eq!(history_limit(501), 500);
    assert_eq!(page_limit(None), 100);
    assert_eq!(page_limit(Some(700)), 500);
    assert_eq!(room_search_text("  hi "), Ok("hi".to_string()));
    assert_eq!(room_search_text(" "), Err(Status::BadRequest));
    assert_eq!(room_search_text(&"y".repeat(201)), Err(Status::BadRequest));
}

#[test]
fn before_cursor_needs_the_message_in_the_room() {
    assert_eq!(before_cursor(None, None), Ok(None));
    assert!(matches!(before_cursor(Some(ID), Some(AT)), Ok(Some(c)) if c.id == ID && c.created_at == AT));
    assert_eq!(before_cursor(Some(ID), None).err(), Some(Status::BadRequest));
}

#[test]
fn context_window_sizes() {
    assert_eq!(context_limits(&MessageContextQuery { limit: None }), (60, 31));
    assert_eq!(context_limits(&MessageContextQuery { limit: Some(1) }), (1, 1));
    assert_eq!(context_limits(&MessageContextQuery { limit: Some(1000) }), (100, 51));
    assert_eq!(newer_limit(60, 31), 29);
    assert_eq!(newer_limit(60, 80), 0);
    assert_eq!(context_window(vec![5, 4, 3], vec![6, 7]), vec![3, 4, 5, 6, 7]);
    assert_eq!(context_window(Vec::<u8>::new(), vec![1]), vec![1]);
}

#[test]
fn catch_up_needs_unread_messages() {
    assert_eq!(catch_up_limit(0), 1);
    assert_eq!(catch_up_limit(20), 20);
    assert_eq!(catch_up_limit(10_000), 500);
    assert_eq!(catch_up_window(Some(1), None, 4), None);
    assert_eq!(catch_up_window(Some(1), Some(9), 0), None);
    let window = catch_up_window(None, Some(9), 3).unwrap();
    assert_eq!(window.after_message_id, None);
    assert_eq!(window.through_message_id, 9);
    assert_eq!(window.unread_message_count, 3);
}

#[test]
fn pins_follow_room_kind() {
    assert_eq!(pin_permission(true, true, false), Ok(()));
    assert_eq!(pin_permission(true, false, true), Err(Status::Forbidden));
    assert_eq!(pin_permission(false, true, true), Ok(()));
    assert_eq!(pin_permission(false, true, false), Err(Status::Forbidden));
    assert_eq!(pin_status(true), Status::Created);
    assert_eq!(pin_status(false), Status::NotFound);
    assert_eq!(unpin_status(true), Status::NoContent);
    assert_eq!(unpin_status(false), Status::NotFound);
}
