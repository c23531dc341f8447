//! A room connection from start to end: the frames sent when it opens, what each
//! client frame asks for and what is broadcast once it is done, and the frames
//! that polling the store sends.
use vstd::prelude::*;
use crate::interop::Timestamp;
use crate::messages::{cursor_before, MessageCursor, StoredMessage};
use crate::realtime::{broadcasts, stored_message_to_chat, ChatMessage, ReadReceipt, RoomMember};
use crate::text::copy_str;

verus! {

broadcast use vstd::string::group_string_axioms;

/// Why a connection is refused before it joins the room.
#[derive(Clone, Copy, Debug, PartialEq, Eq, Structural)]
pub enum AuthFailure {
    RoomNotFound,
    Timeout,
    InvalidJson,
    Unavailable,
}

/// The reason text of a refusal.
pub open spec fn auth_failure_text(f: AuthFailure) -> Seq<char> {
    match f {
        AuthFailure::RoomNotFound => "room not found"@,
        AuthFailure::Timeout => "authentication timeout"@,
        AuthFailure::InvalidJson => "invalid json"@,
        AuthFailure::Unavailable => "authentication unavailable"@,
    }
}

/// The frame that refuses a connection.
pub fn auth_fail(failure: AuthFailure) -> (c: ChatMessage)
    ensures
        c matches ChatMessage::AuthFail { reason } && reason@ == auth_failure_text(failure),
{
    let reason = match failure {
        AuthFailure::RoomNotFound => copy_str("room not found"),
        AuthFailure::Timeout => copy_str("authentication timeout"),
        AuthFailure::InvalidJson => copy_str("invalid json"),
        AuthFailure::Unavailable => copy_str("authentication unavailable"),
    };
    ChatMessage::AuthFail { reason }
}

/// The frame that accepts a connection: the room's name as this viewer sees it
/// (a direct conversation's own title), the rosters and the read receipts.
pub fn auth_ok(
    room_name: &str,
    conversation_title: Option<String>,
    members: Vec<RoomMember>,
    participants: Vec<RoomMember>,
    read_receipts: Vec<ReadReceipt>,
) -> (c: ChatMessage)
    ensures
        c matches ChatMessage::AuthOk { room_name: name, members: m, participants: p, read_receipts: r }
            && name@ == (match conversation_title {
            Some(t) => t@,
            None => room_name@,
        }) && m@ == members@ && p@ == participants@ && r@ == read_receipts@,
{
    let name = match conversation_title {
        Some(t) => t,
        None => copy_str(room_name),
    };
    ChatMessage::AuthOk { room_name: name, members, participants, read_receipts }
}

/// The replay sent to a new connection: every message of the history, oldest
/// first, then the end-of-history marker.
pub fn history_frames(history: Vec<StoredMessage>) -> (r: Vec<ChatMessage>)
    ensures
        r@.len() == history@.len() + 1,
        forall|i: int| 0 <= i < history@.len() ==> broadcasts(#[trigger] r@[i], history@[i]),
        r@[history@.len() as int] matches ChatMessage::HistoryComplete,
{
    let ghost all = history@;
    let n = history.len();
    let mut rest = history;
    let mut out: Vec<ChatMessage> = Vec::new();
    let mut i: usize = 0;
    while i < n
        invariant
            n == all.len(),
            i <= n,
            rest@ == all.subrange(i as int, n as int),
            out@.len() == i,
            forall|k: int| 0 <= k < i ==> broadcasts(#[trigger] out@[k], all[k]),
        decreases n - i,
    {
        let m = rest.remove(0);
        assert(m == all[i as int]);
        out.push(stored_message_to_chat(m));
        i += 1;
        assert(rest@ =~= all.subrange(i as int, n as int));
    }
    out.push(ChatMessage::HistoryComplete);
    out
}

/// What a client frame asks for. Only members who may post are heard at all.
pub enum ClientAction {
    Ignore,
    StoreMessage { content: String, reply_to: Option<u128>, client_message_id: Option<u128> },
    EditMessage { message_id: u128, content: String },
    Typing { content: String },
    MarkRead { message_id: u128 },
    Poke { target_user_id: u128 },
    RecallMessage { message_id: u128 },
    SetReaction { message_id: u128, emoji: String, active: bool },
}

/// The action a client frame asks for: nothing for a member who may not post or
/// for frames a client does not send; the matching store change or broadcast
/// otherwise.
pub fn client_action(may_send: bool, frame: ChatMessage) -> (a: ClientAction)
    ensures
        !may_send ==> a matches ClientAction::Ignore,
        may_send ==> match frame {
            ChatMessage::Message { content, reply_to, client_message_id } => a matches ClientAction::StoreMessage {
                content: c,
                reply_to: r,
                client_message_id: k,
            } && c == content && r == reply_to && k == client_message_id,
            ChatMessage::Edit { message_id, content } => a matches ClientAction::EditMessage {
                message_id: m,
                content: c,
            } && m == message_id && c == content,
            ChatMessage::Typing { content, .. } => a matches ClientAction::Typing { content: c } && c
                == content,
            ChatMessage::Read { message_id } => a matches ClientAction::MarkRead { message_id: m } && m
                == message_id,
            ChatMessage::Poke { target_user_id } => a matches ClientAction::Poke { target_user_id: t }
                && t == target_user_id,
            ChatMessage::Recall { message_id } => a matches ClientAction::RecallMessage {
                message_id: m,
            } && m == message_id,
            ChatMessage::Reaction { message_id, emoji, active } => a matches ClientAction::SetReaction {
                message_id: m,
                emoji: e,
                active: x,
            } && m == message_id && e == emoji && x == active,
            _ => a matches ClientAction::Ignore,
        },
{
    if !may_send {
        return ClientAction::Ignore;
    }
    match frame {
        ChatMessage::Message { content, reply_to, client_message_id } => ClientAction::StoreMessage {
            content,
            reply_to,
            client_message_id,
        },
        ChatMessage::Edit { message_id, content } => ClientAction::EditMessage { message_id, content },
        ChatMessage::Typing { content, .. } => ClientAction::Typing { content },
        ChatMessage::Read { message_id } => ClientAction::MarkRead { message_id },
        ChatMessage::Poke { target_user_id } => ClientAction::Poke { target_user_id },
        ChatMessage::Recall { message_id } => ClientAction::RecallMessage { message_id },
        ChatMessage::Reaction { message_id, emoji, active } => ClientAction::SetReaction {
            message_id,
            emoji,
            active,
        },
        _ => ClientAction::Ignore,
    }
}

/// The typing frame broadcast for a member's draft.
pub fn typing_frame(content: String, user_id: u128, username: &str) -> (c: ChatMessage)
    ensures
        c matches ChatMessage::Typing { content: t, user_id: Some(u), username: Some(n) } && t
            == content && u == user_id && n@ == username@,
{
    ChatMessage::Typing { content, user_id: Some(user_id), username: Some(copy_str(username)) }
}

/// The broadcast after an edit: only when the edit was applied (its time is known).
pub fn edited_notice(message_id: u128, content: String, edited_at: Option<Timestamp>) -> (r: Option<ChatMessage>)
    ensures
        r is Some <==> edited_at is Some,
        r matches Some(c) ==> c matches ChatMessage::MessageEdited { message_id: m, content: t, edited_at: e }
            && m == message_id && t == content && Some(e) == edited_at,
{
    match edited_at {
        Some(e) => Some(ChatMessage::MessageEdited { message_id, content, edited_at: e }),
        None => None,
    }
}

/// The broadcast after a recall: only when the recall was applied.
pub fn recalled_notice(message_id: u128, recalled_at: Option<Timestamp>) -> (r: Option<ChatMessage>)
    ensures
        r is Some <==> recalled_at is Some,
        r matches Some(c) ==> c matches ChatMessage::MessageRecalled { message_id: m, recalled_at: e }
            && m == message_id && Some(e) == recalled_at,
{
    match recalled_at {
        Some(e) => Some(ChatMessage::MessageRecalled { message_id, recalled_at: e }),
        None => None,
    }
}

/// The read receipt broadcast after a read position was stored.
pub fn read_notice(user_id: u128, username: &str, message_id: u128, stored: bool) -> (r: Option<ChatMessage>)
    ensures
        r is Some <==> stored,
        r matches Some(c) ==> c matches ChatMessage::ReadReceipt { user_id: u, username: n, message_id: m }
            && u == user_id && n@ == username@ && m == message_id,
{
    if stored {
        Some(ChatMessage::ReadReceipt { user_id, username: copy_str(username), message_id })
    } else {
        None
    }
}

/// The broadcast after a reaction was set or cleared.
pub fn reaction_notice(message_id: u128, emoji: String, user_id: u128, active: bool, changed: bool) -> (r:
    Option<ChatMessage>)
    ensures
        r is Some <==> changed,
        r matches Some(c) ==> c matches ChatMessage::ReactionChanged {
            message_id: m,
            emoji: e,
            user_id: u,
            active: a,
        } && m == message_id && e == emoji && u == user_id && a == active,
{
    if changed {
        Some(ChatMessage::ReactionChanged { message_id, emoji, user_id, active })
    } else {
        None
    }
}

/// The newest recall a connection has seen.
#[derive(Clone, Copy, Debug, PartialEq, Eq, Structural)]
pub struct RecallCursor {
    pub recalled_at: Timestamp,
    pub id: u128,
}

/// The newest edit a connection has seen, with the content it left.
pub struct EditCursor {
    pub edited_at: Timestamp,
    pub id: u128,
    pub content: String,
}

/// Where a message stands in the history.
pub open spec fn position(m: StoredMessage) -> MessageCursor {
    MessageCursor { created_at: m.created_at, id: m.id }
}

/// The delivered-message cursor after a poll found `messages`: the last of
/// them, or where it was when there are none.
pub open spec fn polled_cursor(cursor: Option<MessageCursor>, messages: Seq<StoredMessage>) -> Option<MessageCursor> {
    if messages.len() == 0 {
        cursor
    } else {
        Some(position(messages.last()))
    }
}

/// What a poll asks the store for: messages strictly after the cursor, in
/// strictly increasing history order.
pub open spec fn found_after(cursor: Option<MessageCursor>, messages: Seq<StoredMessage>) -> bool {
    &&& forall|i: int| 0 <= i < messages.len() ==> (cursor matches Some(c) ==> cursor_before(c, position(#[trigger] messages[i])))
    &&& forall|i: int, j: int| 0 <= i < j < messages.len() ==> cursor_before(position(#[trigger] messages[i]), position(#[trigger] messages[j]))
}

/// Polling never moves the cursor back and never sends a message twice: when
/// the store answers with messages strictly after the cursor in increasing
/// order, the new cursor is the old one or later, no two frames of the poll are
/// for the same message, and every message sent is at or before the new cursor,
/// so a later poll (which asks for messages after it) cannot send it again.
pub proof fn law_polling_moves_forward_without_repeats(cursor: Option<MessageCursor>, messages: Seq<StoredMessage>)
    requires
        found_after(cursor, messages),
    ensures
        cursor matches Some(c) ==> (polled_cursor(cursor, messages) == cursor || cursor_before(
            c,
            polled_cursor(cursor, messages)->Some_0,
        )),
        forall|i: int, j: int| 0 <= i < j < messages.len() ==> position(#[trigger] messages[i]) != position(#[trigger] messages[j]),
        forall|i: int|
            0 <= i < messages.len() ==> !cursor_before(polled_cursor(cursor, messages)->Some_0, position(#[trigger] messages[i])),
{
    if messages.len() > 0 {
        let last = messages.len() - 1;
        assert(cursor matches Some(c) ==> cursor_before(c, position(messages[last])));
        assert forall|i: int| 0 <= i < messages.len() implies !cursor_before(polled_cursor(cursor, messages)->Some_0, position(#[trigger] messages[i])) by {
            if i < last {
                assert(cursor_before(position(messages[i]), position(messages[last])));
            }
        }
    }
}

/// The frames for messages found by polling, oldest first; the cursor ends at
/// the last of them (and stays where it was when there are none).
pub fn polled_message_frames(messages: Vec<StoredMessage>, cursor: &mut Option<MessageCursor>) -> (r: Vec<ChatMessage>)
    ensures
        r@.len() == messages@.len(),
        forall|i: int| 0 <= i < messages@.len() ==> broadcasts(#[trigger] r@[i], messages@[i]),
        *final(cursor) == polled_cursor(*old(cursor), messages@),
{
    let ghost all = messages@;
    let n = messages.len();
    let mut rest = messages;
    let mut out: Vec<ChatMessage> = Vec::new();
    let mut i: usize = 0;
    while i < n
        invariant
            n == all.len(),
            i <= n,
            rest@ == all.subrange(i as int, n as int),
            out@.len() == i,
            forall|k: int| 0 <= k < i ==> broadcasts(#[trigger] out@[k], all[k]),
            *cursor == if i == 0 {
                *old(cursor)
            } else {
                Some(MessageCursor { created_at: all[i - 1].created_at, id: all[i - 1].id })
            },
        decreases n - i,
    {
        let m = rest.remove(0);
        assert(m == all[i as int]);
        *cursor = Some(MessageCursor { created_at: m.created_at, id: m.id });
        out.push(stored_message_to_chat(m));
        i += 1;
        assert(rest@ =~= all.subrange(i as int, n as int));
    }
    out
}

/// The frames for recalls found by polling; the cursor ends at the last of them.
pub fn polled_recall_frames(recalls: Vec<RecallCursor>, cursor: &mut Option<RecallCursor>) -> (r: Vec<ChatMessage>)
    ensures
        r@.len() == recalls@.len(),
        forall|i: int|
            0 <= i < recalls@.len() ==> (#[trigger] r@[i] matches ChatMessage::MessageRecalled {
                message_id,
                recalled_at,
            } && message_id == recalls@[i].id && recalled_at == recalls@[i].recalled_at),
        *final(cursor) == if recalls@.len() == 0 {
            *old(cursor)
        } else {
            Some(recalls@.last())
        },
{
    let mut out: Vec<ChatMessage> = Vec::new();
    let mut i: usize = 0;
    while i < recalls.len()
        invariant
            i <= recalls@.len(),
            out@.len() == i,
            forall|k: int|
                0 <= k < i ==> (#[trigger] out@[k] matches ChatMessage::MessageRecalled {
                    message_id,
                    recalled_at,
                } && message_id == recalls@[k].id && recalled_at == recalls@[k].recalled_at),
            *cursor == if i == 0 {
                *old(cursor)
            } else {
                Some(recalls@[i - 1])
            },
        decreases recalls.len() - i,
    {
        let r = recalls[i];
        *cursor = Some(r);
        out.push(ChatMessage::MessageRecalled { message_id: r.id, recalled_at: r.recalled_at });
        i += 1;
    }
    out
}

/// The frames for edits found by polling; the cursor ends at the last of them.
pub fn polled_edit_frames(edits: Vec<EditCursor>, cursor: &mut Option<EditCursor>) -> (r: Vec<ChatMessage>)
    ensures
        r@.len() == edits@.len(),
        forall|i: int|
            0 <= i < edits@.len() ==> (#[trigger] r@[i] matches ChatMessage::MessageEdited {
                message_id,
                content,
                edited_at,
            } && message_id == edits@[i].id && content@ == edits@[i].content@ && edited_at
                == edits@[i].edited_at),
        edits@.len() == 0 ==> *final(cursor) == *old(cursor),
        edits@.len() > 0 ==> (*final(cursor) matches Some(c) && c.id == edits@.last().id && c.edited_at
            == edits@.last().edited_at && c.content@ == edits@.last().content@),
{
    let ghost all = edits@;
    let n = edits.len();
    let mut rest = edits;
    let mut out: Vec<ChatMessage> = Vec::new();
    let mut i: usize = 0;
    while i < n
        invariant
            n == all.len(),
            i <= n,
            rest@ == all.subrange(i as int, n as int),
            out@.len() == i,
            forall|k: int|
                0 <= k < i ==> (#[trigger] out@[k] matches ChatMessage::MessageEdited {
                    message_id,
                    content,
                    edited_at,
                } && message_id == all[k].id && content@ == all[k].content@ && edited_at
                    == all[k].edited_at),
            i == 0 ==> *cursor == *old(cursor),
            i > 0 ==> (*cursor matches Some(c) && c.id == all[i - 1].id && c.edited_at == all[i
                - 1].edited_at && c.content@ == all[i - 1].content@),
        decreases n - i,
    {
        let e = rest.remove(0);
        assert(e == all[i as int]);
        out.push(ChatMessage::MessageEdited { message_id: e.id, content: e.content.clone(), edited_at: e.edited_at });
        *cursor = Some(e);
        i += 1;
        assert(rest@ =~= all.subrange(i as int, n as int));
    }
    out
}

/// What a new connection is told when the chat may be locked: the lock's reason
/// when the room is locked, "authentication unavailable" when the lock could not
/// be read, nothing when it is open.
pub fn locked_auth_frame(lock: Result<Option<String>, ()>) -> (r: Option<ChatMessage>)
    ensures
        match lock {
            Ok(None) => r is None,
            Ok(Some(reason)) => r matches Some(ChatMessage::AuthFail { reason: x }) && x == reason,
            Err(_) => r matches Some(ChatMessage::AuthFail { reason: x }) && x@ == "authentication unavailable"@,
        },
{
    match lock {
        Ok(None) => None,
        Ok(Some(reason)) => Some(ChatMessage::AuthFail { reason }),
        Err(_) => Some(ChatMessage::AuthFail { reason: copy_str("authentication unavailable") }),
    }
}

/// What an open connection does at a heartbeat when the chat may be locked: a
/// locked room sends the reason and closes; an open room, or a lock that could
/// not be read, keeps the connection.
pub fn locked_heartbeat_frame(lock: Result<Option<String>, ()>) -> (r: Option<ChatMessage>)
    ensures
        match lock {
            Ok(Some(reason)) => r matches Some(ChatMessage::System { content, members: None, participants: None })
                && content == reason,
            _ => r is None,
        },
{
    match lock {
        Ok(Some(reason)) => Some(ChatMessage::System { content: reason, members: None, participants: None }),
        _ => None,
    }
}

} // verus!
