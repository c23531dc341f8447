//! Notification kinds, paging cursors, list parameters and the projection of a
//! stored notification into what its recipient is shown.
use vstd::prelude::*;
use crate::http::Status;
use crate::interop::{format_rfc3339, parse_rfc3339, rfc3339_instant, rfc3339_text, Timestamp};
use crate::messages::opt_text;
use crate::text::{
    copy_str, from_chars, lemma_last_index_prefix, rsplit_once, rsplit_text, shorten, shorten_chars,
    str_eq, to_chars, trim, trim_bounds,
};

verus! {

broadcast use vstd::string::group_string_axioms;

/// What a notification is about.
#[derive(Clone, Copy, Debug, PartialEq, Eq, Structural)]
pub enum NotificationKind {
    FriendRequest,
    RoomJoinRequest,
    Mention,
    Reply,
    AiRunCompleted,
}

/// The stored (snake case) name of a kind.
pub open spec fn kind_text(k: NotificationKind) -> Seq<char> {
    match k {
        NotificationKind::FriendRequest => "friend_request"@,
        NotificationKind::RoomJoinRequest => "room_join_request"@,
        NotificationKind::Mention => "mention"@,
        NotificationKind::Reply => "reply"@,
        NotificationKind::AiRunCompleted => "ai_run_completed"@,
    }
}

/// The kind whose stored name is `t`, if any.
pub open spec fn kind_from_text(t: Seq<char>) -> Option<NotificationKind> {
    if t == "friend_request"@ {
        Some(NotificationKind::FriendRequest)
    } else if t == "room_join_request"@ {
        Some(NotificationKind::RoomJoinRequest)
    } else if t == "mention"@ {
        Some(NotificationKind::Mention)
    } else if t == "reply"@ {
        Some(NotificationKind::Reply)
    } else if t == "ai_run_completed"@ {
        Some(NotificationKind::AiRunCompleted)
    } else {
        None
    }
}

impl NotificationKind {
    /// The stored name of the kind.
    pub fn as_str(self) -> (s: &'static str)
        ensures
            s@ == kind_text(self),
    {
        match self {
            NotificationKind::FriendRequest => "friend_request",
            NotificationKind::RoomJoinRequest => "room_join_request",
            NotificationKind::Mention => "mention",
            NotificationKind::Reply => "reply",
            NotificationKind::AiRunCompleted => "ai_run_completed",
        }
    }

    /// Reads a stored kind name; any other text is refused.
    pub fn from_str(value: &str) -> (r: Result<NotificationKind, ()>)
        ensures
            match r {
                Ok(k) => kind_from_text(value@) == Some(k),
                Err(_) => kind_from_text(value@) is None,
            },
    {
        if str_eq(value, "friend_request") {
            Ok(NotificationKind::FriendRequest)
        } else if str_eq(value, "room_join_request") {
            Ok(NotificationKind::RoomJoinRequest)
        } else if str_eq(value, "mention") {
            Ok(NotificationKind::Mention)
        } else if str_eq(value, "reply") {
            Ok(NotificationKind::Reply)
        } else if str_eq(value, "ai_run_completed") {
            Ok(NotificationKind::AiRunCompleted)
        } else {
            Err(())
        }
    }
}

/// Every kind reads back from its stored name, and no two kinds share a name.
pub proof fn law_kind_name_reads_back(k: NotificationKind)
    ensures
        kind_from_text(kind_text(k)) == Some(k),
{
    reveal_strlit("friend_request");
    reveal_strlit("room_join_request");
    reveal_strlit("mention");
    reveal_strlit("reply");
    reveal_strlit("ai_run_completed");
    assert("friend_request"@.len() == 14);
    assert("room_join_request"@.len() == 17);
    assert("mention"@.len() == 7);
    assert("reply"@.len() == 5);
    assert("ai_run_completed"@.len() == 16);
}

/// A cursor text split at its last `|`: the time text and a non-empty
/// identifier of at most 300 characters.
pub open spec fn cursor_split(s: Seq<char>) -> Option<(Seq<char>, Seq<char>)> {
    match rsplit_text(s, '|') {
        Some((t, id)) => if id.len() == 0 || id.len() > 300 {
            None
        } else {
            Some((t, id))
        },
        None => None,
    }
}

/// The cursor a text stands for: the split parts, with the time read as RFC 3339.
pub open spec fn cursor_parse(s: Seq<char>) -> Option<(Timestamp, Seq<char>)> {
    match cursor_split(s) {
        Some((t, id)) => match rfc3339_instant(t) {
            Some(at) => Some((at, id)),
            None => None,
        },
        None => None,
    }
}

/// Splits a cursor text into its time text and identifier.
pub fn split_cursor(value: &str) -> (r: Option<(String, String)>)
    ensures
        match r {
            Some((t, id)) => cursor_split(value@) == Some((t@, id@)),
            None => cursor_split(value@) is None,
        },
{
    match rsplit_once(value, '|') {
        Some((time_text, id)) => {
            let n = id.as_str().unicode_len();
            if n == 0 || n > 300 {
                None
            } else {
                Some((time_text, id))
            }
        },
        None => None,
    }
}

/// A position in a recipient's notification list: creation time, then id.
pub struct NotificationCursor {
    pub created_at: Timestamp,
    pub id: String,
}

/// `<RFC 3339 time>|<id>`, where chrono can write the time.
pub open spec fn cursor_text(created_at: Timestamp, id: Seq<char>) -> Option<Seq<char>> {
    match rfc3339_text(created_at) {
        Some(t) => Some(t + seq!['|'] + id),
        None => None,
    }
}

impl NotificationCursor {
    /// Reads a cursor written by `to_text`: the text after the last `|` is the
    /// identifier (1 to 300 characters) and the text before it an RFC 3339 time.
    pub fn from_str(value: &str) -> (r: Result<NotificationCursor, ()>)
        ensures
            match r {
                Ok(c) => cursor_parse(value@) == Some((c.created_at, c.id@)),
                Err(_) => cursor_parse(value@) is None,
            },
    {
        match split_cursor(value) {
            Some((time_text, id)) => match parse_rfc3339(time_text.as_str()) {
                Some(created_at) => Ok(NotificationCursor { created_at, id }),
                None => Err(()),
            },
            None => Err(()),
        }
    }

    /// The cursor's text, `None` where chrono has no such instant.
    pub fn to_text(&self) -> (r: Option<String>)
        ensures
            match r {
                Some(s) => cursor_text(self.created_at, self.id@) == Some(s@),
                None => cursor_text(self.created_at, self.id@) is None,
            },
    {
        match format_rfc3339(self.created_at) {
            Some(mut s) => {
                proof {
                    reveal_strlit("|");
                }
                s.append("|");
                s.append(self.id.as_str());
                Some(s)
            },
            None => None,
        }
    }
}

/// A cursor's text splits back into the time text and the identifier, whenever
/// the identifier is 1 to 300 characters long and holds no `|`.
pub proof fn law_cursor_text_reads_back(created_at: Timestamp, id: Seq<char>)
    requires
        0 < id.len() <= 300,
        !id.contains('|'),
        rfc3339_text(created_at) is Some,
    ensures
        cursor_split(cursor_text(created_at, id)->0) == Some((rfc3339_text(created_at)->0, id)),
        cursor_parse(cursor_text(created_at, id)->0) == match rfc3339_instant(
            rfc3339_text(created_at)->0,
        ) {
            Some(at) => Some((at, id)),
            None => None,
        },
{
    let t = rfc3339_text(created_at)->0;
    let s = t + seq!['|'] + id;
    let n: int = t.len() as int + 1;
    assert forall|k: int| n <= k < s.len() implies s[k] != '|' by {
        assert(s[k] == id[k - n]);
    }
    lemma_last_index_prefix(s, '|', n);
    assert(s.subrange(0, n).last() == '|');
    assert(s.subrange(n, s.len() as int) =~= id);
    assert(s.subrange(0, n - 1) =~= t);
}

/// The page size used when none is asked for.
pub const DEFAULT_NOTIFICATION_LIMIT: i64 = 30;

/// The largest page size.
pub const MAX_NOTIFICATION_LIMIT: i64 = 50;

/// Query parameters of the notification list.
pub struct NotificationParams {
    pub kind: Option<NotificationKind>,
    pub cursor: Option<String>,
    pub limit: Option<i64>,
}

/// A validated notification list query.
pub struct NotificationQuery {
    pub kind: Option<NotificationKind>,
    pub cursor: Option<NotificationCursor>,
    pub limit: i64,
}

/// The page size a request asks for.
pub open spec fn requested_limit(limit: Option<i64>) -> i64 {
    match limit {
        Some(l) => l,
        None => DEFAULT_NOTIFICATION_LIMIT,
    }
}

/// Whether list parameters pass the checks made before the cursor is read.
pub open spec fn list_params_ok(params: NotificationParams) -> bool {
    &&& 1 <= requested_limit(params.limit) <= MAX_NOTIFICATION_LIMIT
    &&& match params.cursor {
        Some(c) => c@.len() <= 500,
        None => true,
    }
}

/// Validates list parameters: the limit defaults to 30 and must lie in 1..=50, a
/// cursor must have at most 500 characters and read as a cursor; anything else
/// is a bad request.
pub fn list_query(params: NotificationParams) -> (r: Result<NotificationQuery, Status>)
    ensures
        r is Ok <==> list_params_ok(params) && match params.cursor {
            Some(c) => cursor_parse(c@) is Some,
            None => true,
        },
        r matches Err(e) ==> e == Status::BadRequest,
        r matches Ok(q) ==> {
            &&& q.kind == params.kind
            &&& q.limit == requested_limit(params.limit)
            &&& match (q.cursor, params.cursor) {
                (Some(c), Some(t)) => cursor_parse(t@) == Some((c.created_at, c.id@)),
                (None, None) => true,
                _ => false,
            }
        },
{
    let limit = match params.limit {
        Some(l) => l,
        None => DEFAULT_NOTIFICATION_LIMIT,
    };
    if limit < 1 || limit > MAX_NOTIFICATION_LIMIT {
        return Err(Status::BadRequest);
    }
    let cursor = match params.cursor {
        Some(text) => {
            if text.as_str().unicode_len() > 500 {
                return Err(Status::BadRequest);
            }
            match NotificationCursor::from_str(text.as_str()) {
                Ok(c) => Some(c),
                Err(_) => {
                    return Err(Status::BadRequest);
                },
            }
        },
        None => None,
    };
    Ok(NotificationQuery { kind: params.kind, cursor, limit })
}

/// Whether a notification id in a request path can name a notification.
pub open spec fn notification_id_ok(id: Seq<char>) -> bool {
    0 < id.len() <= 300
}

/// Checks the id of a notification to mark read: an empty id or one over 300
/// characters is answered as not found.
pub fn check_notification_id(id: &str) -> (r: Result<(), Status>)
    ensures
        r is Ok <==> notification_id_ok(id@),
        r matches Err(e) ==> e == Status::NotFound,
{
    let n = id.unicode_len();
    if n == 0 || n > 300 {
        Err(Status::NotFound)
    } else {
        Ok(())
    }
}

/// The answer to marking one notification read, from whether a row of the
/// recipient's was found.
pub fn mark_read_status(found: bool) -> (s: Status)
    ensures
        s == if found {
            Status::NoContent
        } else {
            Status::NotFound
        },
{
    if found {
        Status::NoContent
    } else {
        Status::NotFound
    }
}

/// Number of unread notifications of an account.
pub struct UnreadCount {
    pub unread_count: i64,
}

/// A notification to record.
pub struct NotificationEvent {
    pub recipient_id: u128,
    pub kind: NotificationKind,
    pub actor_id: Option<u128>,
    pub room_id: Option<u128>,
    pub message_id: Option<u128>,
    pub run_id: Option<u128>,
    pub summary: String,
    pub dedupe_key: String,
    pub created_at: Timestamp,
}

/// Why a notification cannot be recorded or shown.
#[derive(Clone, Copy, Debug, PartialEq, Eq, Structural)]
pub enum NotificationError {
    InvalidDedupeKey,
    InvalidKind,
}

/// The first `n` characters of `s`.
pub open spec fn prefix_chars(s: Seq<char>, n: int) -> Seq<char> {
    if s.len() <= n {
        s
    } else {
        s.subrange(0, n)
    }
}

/// Checks an event before it is stored and gives the summary to store: the
/// dedupe key must have 1 to 300 characters, and the summary keeps its first 160.
pub fn record_notification(event: &NotificationEvent) -> (r: Result<String, NotificationError>)
    ensures
        r is Ok <==> 0 < event.dedupe_key@.len() <= 300,
        r matches Err(e) ==> e == NotificationError::InvalidDedupeKey,
        r matches Ok(s) ==> s@ == prefix_chars(event.summary@, 160),
{
    let n = event.dedupe_key.as_str().unicode_len();
    if n == 0 || n > 300 {
        return Err(NotificationError::InvalidDedupeKey);
    }
    let v = to_chars(event.summary.as_str());
    let end = if v.len() <= 160 {
        v.len()
    } else {
        160
    };
    let s = from_chars(&v, 0, end);
    proof {
        if v@.len() <= 160 {
            assert(v@.subrange(0, v@.len() as int) =~= v@);
        }
    }
    Ok(s)
}

/// The dedupe keys of the stored notifications after recording an event whose
/// key was `key`: the key is added when the event was stored.
pub open spec fn keys_after(keys: Set<Seq<char>>, key: Seq<char>, stored: bool) -> Set<Seq<char>> {
    if stored {
        keys.insert(key)
    } else {
        keys
    }
}

/// The outcome of recording an event against the stored notifications, given
/// whether its dedupe key is already among them: the summary to store (cut to
/// 160 characters) and `true` when it is new, `false` when an earlier event
/// with the same key was stored (nothing is stored again), and the key error
/// for a key that is empty or longer than 300 characters.
pub fn record_notification_once(event: &NotificationEvent, key_stored: bool) -> (r: Result<(String, bool), NotificationError>)
    ensures
        r is Ok <==> 0 < event.dedupe_key@.len() <= 300,
        r matches Err(e) ==> e == NotificationError::InvalidDedupeKey,
        r matches Ok((summary, stored)) ==> summary@ == prefix_chars(event.summary@, 160) && stored == !key_stored,
{
    match record_notification(event) {
        Ok(summary) => Ok((summary, !key_stored)),
        Err(e) => Err(e),
    }
}

/// Recording is idempotent per dedupe key: recording an event stores it only
/// when its key is new; afterwards its key is stored, so recording it again
/// (`record_notification_once` with `key_stored` true) reports `false` and
/// leaves the stored keys as they were.
pub proof fn law_recording_is_idempotent_per_key(keys: Set<Seq<char>>, key: Seq<char>)
    ensures
        keys_after(keys, key, !keys.contains(key)).contains(key),
        keys_after(
            keys_after(keys, key, !keys.contains(key)),
            key,
            !keys_after(keys, key, !keys.contains(key)).contains(key),
        ) == keys_after(keys, key, !keys.contains(key)),
        keys.contains(key) ==> keys_after(keys, key, !keys.contains(key)) == keys,
{
    if !keys.contains(key) {
        assert(keys.insert(key).contains(key));
    }
}

/// Who caused a notification, as its recipient sees them.
pub struct NotificationActor {
    pub id: u128,
    pub username: String,
    pub display_name: String,
    pub avatar_emoji: String,
}

/// A stored notification with what the list query joins to it.
pub struct NotificationRow {
    pub id: String,
    pub kind: String,
    pub actor_id: Option<u128>,
    pub actor_username: Option<String>,
    pub actor_display_name: Option<String>,
    pub actor_avatar_emoji: Option<String>,
    pub room_id: Option<u128>,
    pub room_name: Option<String>,
    pub message_id: Option<u128>,
    pub message_content: Option<String>,
    pub run_id: Option<u128>,
    pub stored_summary: String,
    pub source_available: bool,
    pub created_at: Timestamp,
    pub read_at: Option<Timestamp>,
}

/// A notification as shown to its recipient.
pub struct NotificationView {
    pub id: String,
    pub kind: NotificationKind,
    pub actor: Option<NotificationActor>,
    pub room_id: Option<u128>,
    pub room_name: Option<String>,
    pub message_id: Option<u128>,
    pub run_id: Option<u128>,
    pub summary: String,
    pub source_available: bool,
    pub created_at: Timestamp,
    pub read_at: Option<Timestamp>,
}

/// The name shown for an actor: the display name unless it is blank.
pub open spec fn actor_name(a: NotificationActor) -> Seq<char> {
    if trim(a.display_name@).len() == 0 {
        a.username@
    } else {
        a.display_name@
    }
}

/// The actor's shown name, or `Someone`.
pub open spec fn actor_name_or_someone(actor: Option<NotificationActor>) -> Seq<char> {
    match actor {
        Some(a) => actor_name(a),
        None => "Someone"@,
    }
}

/// The text shown for a message notification: the trimmed content cut to 120
/// characters (with `...` when cut), or the fallback when there is no content.
pub open spec fn message_summary_text(content: Option<Seq<char>>, fallback: Seq<char>) -> Seq<char> {
    let c = trim(
        match content {
            Some(c) => c,
            None => Seq::empty(),
        },
    );
    if c.len() == 0 {
        fallback
    } else {
        shorten(c, 120)
    }
}

/// The summary a recipient reads.
pub open spec fn summary_text(
    kind: NotificationKind,
    actor: Option<NotificationActor>,
    room_name: Option<Seq<char>>,
    content: Option<Seq<char>>,
    source_available: bool,
    stored: Seq<char>,
) -> Seq<char> {
    if source_available && trim(stored).len() > 0 {
        stored
    } else if source_available {
        match kind {
            NotificationKind::FriendRequest => actor_name_or_someone(actor)
                + " sent you a friend request"@,
            NotificationKind::RoomJoinRequest => actor_name_or_someone(actor)
                + " requested to join "@ + match room_name {
                Some(r) => r,
                None => "a room"@,
            },
            NotificationKind::Mention => message_summary_text(content, "Mentioned you"@),
            NotificationKind::Reply => message_summary_text(content, "Replied to you"@),
            NotificationKind::AiRunCompleted => "AI run completed"@,
        }
    } else {
        match kind {
            NotificationKind::FriendRequest => "Friend request activity"@,
            NotificationKind::AiRunCompleted => "AI run is no longer available"@,
            _ => "Source is no longer available"@,
        }
    }
}

/// The summary of a mention or reply: its trimmed content cut to 120 characters
/// (`...` marks a cut), or the fallback when there is none.
pub fn message_summary(content: Option<&str>, fallback: &str) -> (r: String)
    ensures
        r@ == message_summary_text(
            match content {
                Some(c) => Some(c@),
                None => None,
            },
            fallback@,
        ),
{
    let v = match content {
        Some(c) => to_chars(c),
        None => Vec::new(),
    };
    let (a, b) = trim_bounds(&v);
    if a == b {
        copy_str(fallback)
    } else {
        shorten_chars(&v, a, b, 120)
    }
}

fn shown_name(actor: &Option<NotificationActor>) -> (r: String)
    ensures
        r@ == actor_name_or_someone(*actor),
{
    match actor {
        Some(a) => {
            let v = to_chars(a.display_name.as_str());
            let (s, e) = trim_bounds(&v);
            if s == e {
                copy_str(a.username.as_str())
            } else {
                copy_str(a.display_name.as_str())
            }
        },
        None => copy_str("Someone"),
    }
}

/// The summary shown for a notification: the stored summary while the source is
/// available and the summary is not blank, else a text made from the kind, the
/// actor, the room name and the message content.
pub fn summary(
    kind: NotificationKind,
    actor: &Option<NotificationActor>,
    room_name: Option<&str>,
    message_content: Option<&str>,
    source_available: bool,
    stored_summary: &str,
) -> (r: String)
    ensures
        r@ == summary_text(
            kind,
            *actor,
            match room_name {
                Some(x) => Some(x@),
                None => None,
            },
            match message_content {
                Some(x) => Some(x@),
                None => None,
            },
            source_available,
            stored_summary@,
        ),
{
    if source_available {
        let v = to_chars(stored_summary);
        let (a, b) = trim_bounds(&v);
        if a < b {
            return copy_str(stored_summary);
        }
    }
    if source_available {
        match kind {
            NotificationKind::FriendRequest => {
                let mut s = shown_name(actor);
                s.append(" sent you a friend request");
                s
            },
            NotificationKind::RoomJoinRequest => {
                let mut s = shown_name(actor);
                s.append(" requested to join ");
                match room_name {
                    Some(r) => s.append(r),
                    None => s.append("a room"),
                }
                s
            },
            NotificationKind::Mention => message_summary(message_content, "Mentioned you"),
            NotificationKind::Reply => message_summary(message_content, "Replied to you"),
            NotificationKind::AiRunCompleted => copy_str("AI run completed"),
        }
    } else {
        match kind {
            NotificationKind::FriendRequest => copy_str("Friend request activity"),
            NotificationKind::AiRunCompleted => copy_str("AI run is no longer available"),
            _ => copy_str("Source is no longer available"),
        }
    }
}

/// The actor a row shows: only while the source is available (or for a friend
/// request), and only when the joined account is complete.
pub open spec fn row_actor(row: NotificationRow, kind: NotificationKind) -> Option<NotificationActor> {
    if (row.source_available || kind == NotificationKind::FriendRequest) && row.actor_id is Some
        && row.actor_username is Some && row.actor_display_name is Some
        && row.actor_avatar_emoji is Some {
        Some(
            NotificationActor {
                id: row.actor_id->0,
                username: row.actor_username->0,
                display_name: row.actor_display_name->0,
                avatar_emoji: row.actor_avatar_emoji->0,
            },
        )
    } else {
        None
    }
}

/// A value that is shown only while the source is available.
pub open spec fn while_available<T>(available: bool, v: Option<T>) -> Option<T> {
    if available {
        v
    } else {
        None
    }
}

/// What a row is shown as, given its kind.
pub open spec fn view_of_row(row: NotificationRow, kind: NotificationKind, v: NotificationView) -> bool {
    &&& v.id@ == row.id@
    &&& v.kind == kind
    &&& v.actor == row_actor(row, kind)
    &&& v.room_id == while_available(row.source_available, row.room_id)
    &&& opt_text(v.room_name) == while_available(row.source_available, opt_text(row.room_name))
    &&& v.message_id == while_available(row.source_available, row.message_id)
    &&& v.run_id == while_available(row.source_available, row.run_id)
    &&& v.summary@ == summary_text(
        kind,
        row_actor(row, kind),
        opt_text(row.room_name),
        opt_text(row.message_content),
        row.source_available,
        row.stored_summary@,
    )
    &&& v.source_available == row.source_available
    &&& v.created_at == row.created_at
    &&& v.read_at == row.read_at
}

fn opt_as_str(o: &Option<String>) -> (r: Option<&str>)
    ensures
        match r {
            Some(x) => opt_text(*o) == Some(x@),
            None => o is None,
        },
{
    match o {
        Some(s) => Some(s.as_str()),
        None => None,
    }
}

impl NotificationRow {
    /// The list position of the row.
    pub fn cursor(&self) -> (c: NotificationCursor)
        ensures
            c.created_at == self.created_at,
            c.id@ == self.id@,
    {
        NotificationCursor { created_at: self.created_at, id: copy_str(self.id.as_str()) }
    }

    /// Projects a row into what its recipient sees. A row whose kind is not a
    /// known name is refused. While the source is unavailable the room, message
    /// and run are hidden, and so is the actor unless it is a friend request.
    pub fn into_view(self) -> (r: Result<NotificationView, NotificationError>)
        ensures
            r is Ok <==> kind_from_text(self.kind@) is Some,
            r matches Err(e) ==> e == NotificationError::InvalidKind,
            r matches Ok(v) ==> view_of_row(self, kind_from_text(self.kind@)->0, v),
    {
        let ghost row = self;
        let kind = match NotificationKind::from_str(self.kind.as_str()) {
            Ok(k) => k,
            Err(_) => {
                return Err(NotificationError::InvalidKind);
            },
        };
        let show_actor = self.source_available || kind == NotificationKind::FriendRequest;
        let actor = if show_actor {
            match (
                self.actor_id,
                self.actor_username,
                self.actor_display_name,
                self.actor_avatar_emoji,
            ) {
                (Some(id), Some(username), Some(display_name), Some(avatar_emoji)) => Some(
                    NotificationActor { id, username, display_name, avatar_emoji },
                ),
                _ => None,
            }
        } else {
            None
        };
        let text = summary(
            kind,
            &actor,
            opt_as_str(&self.room_name),
            opt_as_str(&self.message_content),
            self.source_available,
            self.stored_summary.as_str(),
        );
        let available = self.source_available;
        Ok(
            NotificationView {
                id: self.id,
                kind,
                actor,
                room_id: if available {
                    self.room_id
                } else {
                    None
                },
                room_name: if available {
                    self.room_name
                } else {
                    None
                },
                message_id: if available {
                    self.message_id
                } else {
                    None
                },
                run_id: if available {
                    self.run_id
                } else {
                    None
                },
                summary: text,
                source_available: available,
                created_at: self.created_at,
                read_at: self.read_at,
            },
        )
    }
}

/// A page of notifications and, when more follow, the cursor after its last item.
pub struct NotificationPage {
    pub items: Vec<NotificationView>,
    pub next_cursor: Option<String>,
}

/// The rows a page keeps: the list query asks for one row more than the limit,
/// and that extra row only tells that more follow.
pub open spec fn kept_rows(rows: Seq<NotificationRow>, limit: usize) -> Seq<NotificationRow> {
    if rows.len() > limit {
        rows.drop_last()
    } else {
        rows
    }
}

/// Builds a page from the rows fetched for it (at most `limit + 1`, newest
/// first). Every kept row is projected; one with an unknown kind fails the page.
pub fn notification_page(rows: Vec<NotificationRow>, limit: usize) -> (r: Result<NotificationPage, NotificationError>)
    ensures
        r is Ok <==> forall|i: int|
            0 <= i < kept_rows(rows@, limit).len() ==> (#[trigger] kind_from_text(
                kept_rows(rows@, limit)[i].kind@,
            )) is Some,
        r matches Err(e) ==> e == NotificationError::InvalidKind,
        r matches Ok(p) ==> {
            let kept = kept_rows(rows@, limit);
            &&& p.items@.len() == kept.len()
            &&& forall|i: int|
                0 <= i < kept.len() ==> view_of_row(
                    kept[i],
                    kind_from_text(kept[i].kind@)->0,
                    #[trigger] p.items@[i],
                )
            &&& if rows@.len() > limit && kept.len() > 0 {
                match p.next_cursor {
                    Some(t) => cursor_text(kept.last().created_at, kept.last().id@) == Some(t@),
                    None => cursor_text(kept.last().created_at, kept.last().id@) is None,
                }
            } else {
                p.next_cursor is None
            }
        },
{
    let ghost original = rows@;
    let mut fetched = rows;
    let has_more = fetched.len() > limit;
    if has_more {
        fetched.pop();
    }
    let ghost kept = fetched@;
    assert(kept == kept_rows(original, limit));
    let next_cursor = if has_more && fetched.len() > 0 {
        let last = fetched.len() - 1;
        fetched[last].cursor().to_text()
    } else {
        None
    };
    let mut items: Vec<NotificationView> = Vec::new();
    let mut i: usize = 0;
    let n = fetched.len();
    let mut rest = fetched;
    while i < n
        invariant
            n == kept.len(),
            kept == kept_rows(original, limit),
            original == rows@,
            i <= n,
            rest@ == kept.subrange(i as int, n as int),
            items@.len() == i,
            forall|j: int| 0 <= j < i ==> kind_from_text(#[trigger] kept[j].kind@) is Some,
            forall|j: int|
                0 <= j < i ==> view_of_row(kept[j], kind_from_text(kept[j].kind@)->0, #[trigger] items@[j]),
        decreases n - i,
    {
        let row = rest.remove(0);
        assert(row == kept[i as int]);
        match row.into_view() {
            Ok(v) => {
                items.push(v);
            },
            Err(e) => {
                assert(kind_from_text(kept[i as int].kind@) is None);
                assert(kept_rows(original, limit)[i as int] == kept[i as int]);
                return Err(e);
            },
        }
        i += 1;
        assert(rest@ =~= kept.subrange(i as int, n as int));
    }
    Ok(NotificationPage { items, next_cursor })
}

} // verus!
