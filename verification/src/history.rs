//! Room history paging: page sizes, search text, the context window around a
//! message, and the catch-up window of unread messages.
use vstd::prelude::*;
use crate::http::Status;
use crate::interop::Timestamp;
use crate::messages::{cursor_before, MessageCursor, StoredMessage};
use crate::text::{trim, trim_str};

verus! {

broadcast use vstd::string::group_string_axioms;

/// `x` held inside `lo..=hi`.
pub open spec fn clamp(x: int, lo: int, hi: int) -> int {
    if x < lo {
        lo
    } else if x > hi {
        hi
    } else {
        x
    }
}

fn clamp_i64(x: i64, lo: i64, hi: i64) -> (r: i64)
    requires
        lo <= hi,
    ensures
        r == clamp(x as int, lo as int, hi as int),
{
    if x < lo {
        lo
    } else if x > hi {
        hi
    } else {
        x
    }
}

/// History and incremental pages hold 1 to 500 messages.
pub fn history_limit(limit: i64) -> (r: i64)
    ensures
        r == clamp(limit as int, 1, 500),
{
    clamp_i64(limit, 1, 500)
}

/// The size of a history page: 100 unless asked otherwise, held in 1..=500.
pub fn page_limit(limit: Option<i64>) -> (r: i64)
    ensures
        r == clamp(
            match limit {
                Some(l) => l as int,
                None => 100,
            },
            1,
            500,
        ),
{
    let l = match limit {
        Some(l) => l,
        None => 100,
    };
    clamp_i64(l, 1, 500)
}

/// Query parameters of a room message search.
pub struct MessageSearchQuery {
    pub q: String,
    pub before: Option<u128>,
    pub limit: Option<i64>,
}

/// Query parameters of the context around a message.
pub struct MessageContextQuery {
    pub limit: Option<i64>,
}

/// Search pages default to 50 and hold 1 to 100 messages.
pub fn search_limit(limit: Option<i64>) -> (r: i64)
    ensures
        r == clamp(
            match limit {
                Some(l) => l as int,
                None => 50,
            },
            1,
            100,
        ),
{
    let l = match limit {
        Some(l) => l,
        None => 50,
    };
    clamp_i64(l, 1, 100)
}

/// The text a room search looks for: trimmed, non-blank and at most 200
/// characters; anything else is a bad request.
pub fn room_search_text(q: &str) -> (r: Result<String, Status>)
    ensures
        r is Ok <==> 0 < trim(q@).len() <= 200,
        r matches Ok(t) ==> t@ == trim(q@),
        r matches Err(e) ==> e == Status::BadRequest,
{
    let t = trim_str(q);
    let n = t.as_str().unicode_len();
    if n == 0 || n > 200 {
        Err(Status::BadRequest)
    } else {
        Ok(t)
    }
}

/// Resolves the `before` message of a search into a history position; a message
/// that is not in the room (no creation time found) is a bad request.
pub fn before_cursor(before: Option<u128>, created_at: Option<Timestamp>) -> (r: Result<Option<MessageCursor>, Status>)
    ensures
        before is None ==> r == Ok::<Option<MessageCursor>, Status>(None),
        before matches Some(id) ==> match created_at {
            Some(t) => r == Ok::<Option<MessageCursor>, Status>(Some(MessageCursor { created_at: t, id })),
            None => r == Err::<Option<MessageCursor>, Status>(Status::BadRequest),
        },
{
    match before {
        None => Ok(None),
        Some(id) => match created_at {
            Some(t) => Ok(Some(MessageCursor { created_at: t, id })),
            None => Err(Status::BadRequest),
        },
    }
}

/// The sizes of a context window: the whole window (default 60, held in
/// 1..=100) and how many messages up to and including the target are loaded.
pub open spec fn context_sizes(limit: Option<i64>) -> (int, int) {
    let total = clamp(
        match limit {
            Some(l) => l as int,
            None => 60,
        },
        1,
        100,
    );
    (total, total / 2 + 1)
}

/// The window size and the number of older messages (target included) to load.
pub fn context_limits(query: &MessageContextQuery) -> (r: (i64, i64))
    ensures
        r.0 == context_sizes(query.limit).0,
        r.1 == context_sizes(query.limit).1,
        1 <= r.1 <= r.0 + 1,
{
    let l = match query.limit {
        Some(l) => l,
        None => 60,
    };
    let total = clamp_i64(l, 1, 100);
    (total, total / 2 + 1)
}

/// How many newer messages fill the rest of a window once `older` were loaded
/// (never below zero).
pub fn newer_limit(total: i64, older: usize) -> (r: i64)
    requires
        0 <= total,
    ensures
        r == if older as int >= total as int {
            0
        } else {
            total as int - older as int
        },
{
    if older as u64 >= total as u64 {
        0
    } else {
        total - older as i64
    }
}

/// The context window in reading order: the older messages (loaded newest
/// first) reversed, then the newer ones.
pub fn context_window<T>(older: Vec<T>, newer: Vec<T>) -> (r: Vec<T>)
    ensures
        r@ == older@.reverse() + newer@,
{
    let ghost o = older@;
    let mut older = older;
    let mut r: Vec<T> = Vec::new();
    while older.len() > 0
        invariant
            older@ == o.subrange(0, older@.len() as int),
            r@.len() == o.len() - older@.len(),
            forall|k: int| 0 <= k < r@.len() ==> r@[k] == o[o.len() - 1 - k],
        decreases older.len(),
    {
        let x = older.pop().unwrap();
        r.push(x);
    }
    assert(r@ =~= o.reverse());
    let mut newer = newer;
    r.append(&mut newer);
    r
}

/// The largest catch-up batch.
pub const MAX_CATCH_UP: usize = 500;

/// A catch-up batch holds 1 to 500 messages.
pub fn catch_up_limit(limit: usize) -> (r: i64)
    ensures
        r == clamp(limit as int, 1, 500),
{
    let l: usize = if limit > MAX_CATCH_UP {
        MAX_CATCH_UP
    } else {
        limit
    };
    if l < 1 {
        1
    } else {
        l as i64
    }
}

/// Unread messages of a room for one member: after their read position, up to
/// and including the newest visible message.
#[derive(Clone, Copy, Debug, PartialEq, Eq, Structural)]
pub struct CatchUpWindow {
    pub after_message_id: Option<u128>,
    pub through_message_id: u128,
    pub unread_message_count: i64,
}

/// There is something to catch up on only when the room has a visible message
/// and some of its messages from others are unread.
pub fn catch_up_window(after_message_id: Option<u128>, through_message_id: Option<u128>, unread_message_count: i64) -> (r: Option<CatchUpWindow>)
    ensures
        r is Some <==> through_message_id is Some && unread_message_count > 0,
        r matches Some(w) ==> w == (CatchUpWindow {
            after_message_id,
            through_message_id: through_message_id->0,
            unread_message_count,
        }),
{
    match through_message_id {
        Some(through) => if unread_message_count > 0 {
            Some(
                CatchUpWindow {
                    after_message_id,
                    through_message_id: through,
                    unread_message_count,
                },
            )
        } else {
            None
        },
        None => None,
    }
}

/// Who may pin or unpin in a room: in a direct conversation any active member,
/// elsewhere a member whose role grants `message.pin`.
pub fn pin_permission(direct: bool, active_member: bool, may_pin: bool) -> (r: Result<(), Status>)
    ensures
        r is Ok <==> if direct {
            active_member
        } else {
            may_pin
        },
        r is Err ==> r == Err::<(), Status>(Status::Forbidden),
{
    let allowed = if direct {
        active_member
    } else {
        may_pin
    };
    if allowed {
        Ok(())
    } else {
        Err(Status::Forbidden)
    }
}

/// The answer to pinning: created, or not found when the message is not a
/// visible message of the room.
pub fn pin_status(pinned: bool) -> (s: Status)
    ensures
        s == if pinned {
            Status::Created
        } else {
            Status::NotFound
        },
{
    if pinned {
        Status::Created
    } else {
        Status::NotFound
    }
}

/// A pinned message as the room shows it.
pub struct RoomPin {
    pub message: StoredMessage,
    pub pinned_by: u128,
    pub pinned_at: Timestamp,
}

/// One stored pin: the pinned message's id, who pinned it, and when.
pub type PinRow = (u128, u128, Timestamp);

/// The pins a viewer sees from the first `n` stored pins, in their order: each
/// pin whose message the viewer can still see (`found[i]` is the message looked
/// up for `rows[i]`), and none of the others.
pub open spec fn visible_pins(rows: Seq<PinRow>, found: Seq<Option<StoredMessage>>, n: int) -> Seq<(StoredMessage, u128, Timestamp)>
    decreases n,
{
    if n <= 0 {
        seq![]
    } else {
        let earlier = visible_pins(rows, found, n - 1);
        match found[n - 1] {
            Some(m) => earlier.push((m, rows[n - 1].1, rows[n - 1].2)),
            None => earlier,
        }
    }
}

/// What a pin shows of itself.
pub open spec fn pin_parts(pin: RoomPin) -> (StoredMessage, u128, Timestamp) {
    (pin.message, pin.pinned_by, pin.pinned_at)
}

/// Builds a room's pin list from its stored pins (newest first) and the message
/// looked up for each one; a pin whose message the viewer cannot see is left out.
pub fn gather_pins(rows: Vec<PinRow>, found: Vec<Option<StoredMessage>>) -> (pins: Vec<RoomPin>)
    requires
        rows.len() == found.len(),
    ensures
        pins@.map_values(|p: RoomPin| pin_parts(p)) == visible_pins(rows@, found@, rows@.len() as int),
{
    let ghost all_rows = rows@;
    let ghost all_found = found@;
    let n = rows.len();
    let mut rest = found;
    let mut pins: Vec<RoomPin> = Vec::new();
    let mut i: usize = 0;
    while i < n
        invariant
            n == all_rows.len(),
            n == all_found.len(),
            rows@ == all_rows,
            i <= n,
            rest@ == all_found.subrange(i as int, n as int),
            pins@.map_values(|p: RoomPin| pin_parts(p)) == visible_pins(all_rows, all_found, i as int),
        decreases n - i,
    {
        let looked_up = rest.remove(0);
        assert(looked_up == all_found[i as int]);
        let ghost before = pins@;
        match looked_up {
            Some(message) => {
                let (_, pinned_by, pinned_at) = rows[i];
                pins.push(RoomPin { message, pinned_by, pinned_at });
                assert(pins@.map_values(|p: RoomPin| pin_parts(p)) =~= before.map_values(|p: RoomPin| pin_parts(p)).push(
                    (all_found[i as int]->Some_0, all_rows[i as int].1, all_rows[i as int].2),
                ));
            },
            None => {},
        }
        i += 1;
        assert(rest@ =~= all_found.subrange(i as int, n as int));
    }
    pins
}

/// The pin a successful pin request answers with: none when nothing was stored
/// (the message is not a live message of the room), else the stored message as
/// the pinner sees it, pinned by them at `pinned_at`.
pub fn pinned_result(inserted: bool, message: Option<StoredMessage>, user_id: u128, pinned_at: Timestamp) -> (r: Option<RoomPin>)
    ensures
        r is Some <==> inserted && message is Some,
        r is Some ==> pin_parts(r->Some_0) == (message->Some_0, user_id, pinned_at),
{
    if !inserted {
        return None;
    }
    match message {
        Some(message) => Some(RoomPin { message, pinned_by: user_id, pinned_at }),
        None => None,
    }
}

/// The answer to unpinning: no content, or not found when nothing was pinned.
pub fn unpin_status(removed: bool) -> (s: Status)
    ensures
        s == if removed {
            Status::NoContent
        } else {
            Status::NotFound
        },
{
    if removed {
        Status::NoContent
    } else {
        Status::NotFound
    }
}

/// Where a member's read position moves when they report reading a message:
/// to that message when it is in the room (`candidate`) and later than the
/// current position (or there is none); otherwise nowhere. The second value
/// tells whether it moved.
pub open spec fn next_read_position(current: Option<MessageCursor>, candidate: Option<MessageCursor>) -> (Option<MessageCursor>, bool) {
    match candidate {
        None => (current, false),
        Some(c) => match current {
            None => (Some(c), true),
            Some(p) => if cursor_before(p, c) {
                (Some(c), true)
            } else {
                (current, false)
            },
        },
    }
}

/// Moves a member's read position as `next_read_position` says.
pub fn store_read_cursor(current: Option<MessageCursor>, candidate: Option<MessageCursor>) -> (r: (Option<MessageCursor>, bool))
    ensures
        r == next_read_position(current, candidate),
{
    match candidate {
        None => (current, false),
        Some(c) => match current {
            None => (Some(c), true),
            Some(p) => {
                let later = p.created_at.secs < c.created_at.secs || (p.created_at.secs == c.created_at.secs
                    && p.created_at.nanos < c.created_at.nanos) || (p.created_at == c.created_at && p.id < c.id);
                if later {
                    (Some(c), true)
                } else {
                    (current, false)
                }
            },
        },
    }
}

/// A read position only moves forward: whatever is reported, the new position is
/// never before the old one, and it moves exactly when it changes.
pub proof fn law_read_position_only_moves_forward(current: Option<MessageCursor>, candidate: Option<MessageCursor>)
    ensures
        current matches Some(p) ==> (next_read_position(current, candidate).0 matches Some(n) && !cursor_before(n, p)),
        next_read_position(current, candidate).1 <==> next_read_position(current, candidate).0 != current,
{
}

/// The read position moves to a message exactly when that message is strictly
/// later than the current position, at full precision (seconds, then
/// nanoseconds, then id), or when there is no position yet; a message at or
/// before the position, or none at all, leaves it where it was. Two reports of
/// the same message move it at most once.
pub proof fn law_read_position_moves_to_later_messages(current: Option<MessageCursor>, candidate: MessageCursor)
    ensures
        current is None ==> next_read_position(current, Some(candidate)) == (Some(candidate), true),
        current matches Some(p) ==> next_read_position(current, Some(candidate)) == if p.created_at.secs
            < candidate.created_at.secs || (p.created_at.secs == candidate.created_at.secs && p.created_at.nanos
            < candidate.created_at.nanos) || (p.created_at.secs == candidate.created_at.secs && p.created_at.nanos
            == candidate.created_at.nanos && p.id < candidate.id) {
            (Some(candidate), true)
        } else {
            (current, false)
        },
        next_read_position(current, None) == (current, false),
        !next_read_position(next_read_position(current, Some(candidate)).0, Some(candidate)).1,
{
}

} // verus!
