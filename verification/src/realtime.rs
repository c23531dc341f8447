//! The WebSocket protocol: frames, mention detection, and the decisions the
//! connection loops take on each event.
use vstd::prelude::*;
use crate::interop::{instant_before, is_before, Timestamp, alphanumeric, char_is_alphanumeric, uuid_string, uuid_text};
use crate::messages::{
    cursor_before, Attachment, ForwardedFrom, MessageCursor, MessageReaction, ReplyPreview,
    StoredMessage,
};
use crate::text::{copy_str, is_ascii_alphanumeric, push_char, to_chars};

verus! {

broadcast use vstd::string::group_string_axioms;

/// A signed-in account connected to, or participating in, a room.
pub struct RoomMember {
    pub user_id: u128,
    pub username: String,
    pub avatar_emoji: String,
}

/// The newest message a participant has viewed.
pub struct ReadReceipt {
    pub user_id: u128,
    pub username: String,
    pub message_id: u128,
}

/// One WebSocket frame.
#[allow(inconsistent_fields)]
pub enum ChatMessage {
    Join { token: u128 },
    Auth { token: u128, password: String },
    AuthOk {
        room_name: String,
        members: Vec<RoomMember>,
        participants: Vec<RoomMember>,
        read_receipts: Vec<ReadReceipt>,
    },
    AuthFail { reason: String },
    Message { content: String, reply_to: Option<u128>, client_message_id: Option<u128> },
    Edit { message_id: u128, content: String },
    Typing { content: String, user_id: Option<u128>, username: Option<String> },
    Read { message_id: u128 },
    Recall { message_id: u128 },
    Poke { target_user_id: u128 },
    Reaction { message_id: u128, emoji: String, active: bool },
    Broadcast {
        message_id: u128,
        client_message_id: Option<u128>,
        sender_id: Option<u128>,
        sender: String,
        sender_avatar: String,
        content: String,
        attachment: Option<Attachment>,
        reply_to: Option<ReplyPreview>,
        recalled_at: Option<Timestamp>,
        edited_at: Option<Timestamp>,
        timestamp: Timestamp,
        forwarded_from: Option<ForwardedFrom>,
        reactions: Vec<MessageReaction>,
    },
    MessageEdited { message_id: u128, content: String, edited_at: Timestamp },
    MessageRecalled { message_id: u128, recalled_at: Timestamp },
    Presence { members: Vec<RoomMember>, participants: Vec<RoomMember> },
    ReadReceipt { user_id: u128, username: String, message_id: u128 },
    ReactionChanged { message_id: u128, emoji: String, user_id: u128, active: bool },
    System {
        content: String,
        members: Option<Vec<RoomMember>>,
        participants: Option<Vec<RoomMember>>,
    },
    HistoryComplete,
}

/// Whether a frame is the broadcast of a given stored message: every field of
/// the message is carried over as it is.
pub open spec fn broadcasts(frame: ChatMessage, m: StoredMessage) -> bool {
    frame matches ChatMessage::Broadcast {
        message_id,
        client_message_id,
        sender_id,
        sender,
        sender_avatar,
        content,
        attachment,
        reply_to,
        recalled_at,
        edited_at,
        timestamp,
        forwarded_from,
        reactions,
    } && message_id == m.id && client_message_id == m.client_message_id && sender_id == m.sender_id
        && sender@ == m.sender@ && sender_avatar@ == m.sender_avatar@ && content@ == m.content@
        && attachment == m.attachment && reply_to == m.reply_to && recalled_at == m.recalled_at
        && edited_at == m.edited_at && timestamp == m.created_at && forwarded_from == m.forwarded_from
        && reactions@ == m.reactions@
}

/// The broadcast frame for a stored message.
pub fn stored_message_to_chat(message: StoredMessage) -> (c: ChatMessage)
    ensures
        broadcasts(c, message),
{
    ChatMessage::Broadcast {
        message_id: message.id,
        client_message_id: message.client_message_id,
        sender_id: message.sender_id,
        sender: message.sender,
        sender_avatar: message.sender_avatar,
        content: message.content,
        attachment: message.attachment,
        reply_to: message.reply_to,
        recalled_at: message.recalled_at,
        edited_at: message.edited_at,
        timestamp: message.created_at,
        forwarded_from: message.forwarded_from,
        reactions: message.reactions,
    }
}

/// The cursor after a frame was delivered: a broadcast newer than the cursor
/// moves it there; anything else leaves it.
pub open spec fn advanced_cursor(cursor: Option<MessageCursor>, frame: ChatMessage) -> Option<MessageCursor> {
    match frame {
        ChatMessage::Broadcast { message_id, timestamp, .. } => {
            let next = MessageCursor { created_at: timestamp, id: message_id };
            match cursor {
                None => Some(next),
                Some(current) => if cursor_before(current, next) {
                    Some(next)
                } else {
                    cursor
                },
            }
        },
        _ => cursor,
    }
}

/// Advances the delivered-message cursor past a broadcast frame.
pub fn advance_message_cursor(cursor: &mut Option<MessageCursor>, message: &ChatMessage)
    ensures
        *final(cursor) == advanced_cursor(*old(cursor), *message),
{
    match message {
        ChatMessage::Broadcast { message_id, timestamp, .. } => {
            let next = MessageCursor { created_at: *timestamp, id: *message_id };
            let advance = match cursor {
                None => true,
                Some(current) => is_before(current.created_at, next.created_at) || (
                current.created_at == next.created_at && current.id < next.id),
            };
            if advance {
                *cursor = Some(next);
            }
        },
        _ => {},
    }
}

/// The delivered-message cursor never moves backwards, and after a broadcast it
/// is at least that broadcast's position.
pub proof fn law_cursor_only_advances(cursor: Option<MessageCursor>, frame: ChatMessage)
    ensures
        cursor matches Some(c) ==> advanced_cursor(cursor, frame) matches Some(n) && !cursor_before(
            n,
            c,
        ),
        frame matches ChatMessage::Broadcast { message_id, timestamp, .. } ==> advanced_cursor(
            cursor,
            frame,
        ) matches Some(n) && !cursor_before(
            n,
            MessageCursor { created_at: timestamp, id: message_id },
        ),
{
}

/// Whether a character continues a name: an alphanumeric character (for ASCII,
/// a letter or digit) or `_`.
pub open spec fn continues_name(c: char) -> bool {
    (if c <= '\u{7f}' {
        is_ascii_alphanumeric(c)
    } else {
        alphanumeric(c)
    }) || c == '_'
}

/// A mention must end at the end of the text or before a character that does
/// not continue a name.
pub open spec fn mention_boundary(content: Seq<char>, end: int) -> bool {
    end >= content.len() || !continues_name(content[end])
}

/// Scanning `content` from `i` for non-overlapping occurrences of `needle` (as
/// `str::match_indices` finds them), whether one ends at a mention boundary.
pub open spec fn mentioned_from(content: Seq<char>, needle: Seq<char>, i: int) -> bool
    decreases content.len() - i,
{
    if needle.len() == 0 || i < 0 || i + needle.len() > content.len() {
        false
    } else if content.subrange(i, i + needle.len()) == needle {
        mention_boundary(content, i + needle.len()) || mentioned_from(
            content,
            needle,
            i + needle.len(),
        )
    } else {
        mentioned_from(content, needle, i + 1)
    }
}

/// Whether `content` mentions `@username`.
pub open spec fn mentions(content: Seq<char>, username: Seq<char>) -> bool {
    mentioned_from(content, seq!['@'] + username, 0)
}

/// The participants that `content` mentions, in roster order, without `exclude`
/// and without accounts with an empty username.
pub open spec fn mention_targets(participants: Seq<RoomMember>, content: Seq<char>, exclude: u128) -> Seq<u128>
    decreases participants.len(),
{
    if participants.len() == 0 {
        Seq::empty()
    } else {
        let last = participants.last();
        let rest = mention_targets(participants.drop_last(), content, exclude);
        if last.user_id != exclude && last.username@.len() > 0 && mentions(content, last.username@) {
            rest.push(last.user_id)
        } else {
            rest
        }
    }
}

fn needle_matches_at(content: &Vec<char>, needle: &Vec<char>, i: usize) -> (b: bool)
    requires
        i + needle.len() <= content.len(),
    ensures
        b == (content@.subrange(i as int, i + needle.len()) == needle@),
{
    let mut k: usize = 0;
    while k < needle.len()
        invariant
            k <= needle.len(),
            i + needle.len() <= content.len(),
            forall|j: int| 0 <= j < k ==> content@[i + j] == needle@[j],
        decreases needle.len() - k,
    {
        if content[i + k] != needle[k] {
            assert(content@.subrange(i as int, i + needle.len())[k as int] != needle@[k as int]);
            return false;
        }
        k += 1;
    }
    assert(content@.subrange(i as int, i + needle.len()) =~= needle@);
    true
}

fn boundary_at(content: &Vec<char>, end: usize) -> (b: bool)
    ensures
        b == mention_boundary(content@, end as int),
{
    if end >= content.len() {
        true
    } else {
        let c = content[end];
        !(char_is_alphanumeric(c) || c == '_')
    }
}

fn mentioned(content: &Vec<char>, needle: &Vec<char>) -> (b: bool)
    ensures
        b == mentioned_from(content@, needle@, 0),
{
    if needle.len() == 0 || needle.len() > content.len() {
        return false;
    }
    let mut i: usize = 0;
    while i <= content.len() - needle.len()
        invariant
            needle.len() > 0,
            needle.len() <= content.len(),
            i <= content.len(),
            mentioned_from(content@, needle@, 0) == mentioned_from(content@, needle@, i as int),
        decreases content.len() - i,
    {
        if needle_matches_at(content, needle, i) {
            if boundary_at(content, i + needle.len()) {
                return true;
            }
            i = i + needle.len();
        } else {
            i = i + 1;
        }
    }
    false
}

/// The participants that `content` mentions as `@username`, in roster order,
/// never `exclude` (the sender) and never an account with an empty username. A
/// mention must be followed by the end of the text or by a character that is
/// neither alphanumeric nor `_`, so `@bob` does not match `@bobby`.
pub fn extract_mentions(content: &str, participants: &Vec<RoomMember>, exclude: u128) -> (r: Vec<u128>)
    ensures
        r@ == mention_targets(participants@, content@, exclude),
{
    let text = to_chars(content);
    let mut out: Vec<u128> = Vec::new();
    let mut i: usize = 0;
    while i < participants.len()
        invariant
            i <= participants.len(),
            text@ == content@,
            out@ == mention_targets(participants@.subrange(0, i as int), content@, exclude),
        decreases participants.len() - i,
    {
        let member = &participants[i];
        let name = to_chars(member.username.as_str());
        proof {
            assert(participants@.subrange(0, i + 1).drop_last() =~= participants@.subrange(
                0,
                i as int,
            ));
        }
        if member.user_id != exclude && name.len() > 0 {
            let mut needle: Vec<char> = Vec::new();
            needle.push('@');
            let mut k: usize = 0;
            while k < name.len()
                invariant
                    k <= name.len(),
                    needle@ == seq!['@'] + name@.subrange(0, k as int),
                decreases name.len() - k,
            {
                needle.push(name[k]);
                k += 1;
                assert(needle@ =~= seq!['@'] + name@.subrange(0, k as int));
            }
            assert(name@.subrange(0, name.len() as int) =~= name@);
            if mentioned(&text, &needle) {
                out.push(member.user_id);
            }
        }
        i += 1;
    }
    assert(participants@.subrange(0, participants.len() as int) =~= participants@);
    out
}

/// Every mentioned account is a participant, and the sender is never among them.
pub proof fn law_mentions_are_participants_other_than_sender(
    participants: Seq<RoomMember>,
    content: Seq<char>,
    exclude: u128,
)
    ensures
        forall|k: int|
            0 <= k < mention_targets(participants, content, exclude).len() ==> {
                &&& #[trigger] mention_targets(participants, content, exclude)[k] != exclude
                &&& exists|j: int|
                    0 <= j < participants.len() && participants[j].user_id == mention_targets(
                        participants,
                        content,
                        exclude,
                    )[k]
            },
    decreases participants.len(),
{
    if participants.len() > 0 {
        let init = participants.drop_last();
        law_mentions_are_participants_other_than_sender(init, content, exclude);
        let t = mention_targets(participants, content, exclude);
        let r = mention_targets(init, content, exclude);
        assert forall|k: int| 0 <= k < t.len() implies {
            &&& #[trigger] t[k] != exclude
            &&& exists|j: int| 0 <= j < participants.len() && participants[j].user_id == t[k]
        } by {
            if k < r.len() {
                assert(t[k] == r[k]);
                let j = choose|j: int| 0 <= j < init.len() && init[j].user_id == r[k];
                assert(participants[j].user_id == t[k]);
            } else {
                assert(participants[participants.len() - 1].user_id == t[k]);
            }
        }
    }
}

pub open spec fn joined_text(username: Seq<char>) -> Seq<char> {
    username + " joined the room"@
}

/// The room notice that an account joined, carrying the current rosters.
pub fn publish_membership_joined(username: &str, members: Vec<RoomMember>, participants: Vec<RoomMember>) -> (c:
    ChatMessage)
    ensures
        c matches ChatMessage::System { content, members: Some(m), participants: Some(p) }
            && content@ == joined_text(username@) && m@ == members@ && p@ == participants@,
{
    let mut content = copy_str(username);
    content.append(" joined the room");
    ChatMessage::System { content, members: Some(members), participants: Some(participants) }
}

/// What a new connection announces: a join notice when the connection activated
/// the membership, a presence update when it is the account's first connection,
/// otherwise nothing.
pub fn connection_announcement(
    joined: bool,
    first_connection: bool,
    username: &str,
    members: Vec<RoomMember>,
    participants: Vec<RoomMember>,
) -> (r: Option<ChatMessage>)
    ensures
        joined ==> (r matches Some(ChatMessage::System { content, members: Some(m), participants: Some(p) })
            && content@ == joined_text(username@) && m@ == members@ && p@ == participants@),
        !joined && first_connection ==> (r matches Some(ChatMessage::Presence { members: m, participants: p })
            && m@ == members@ && p@ == participants@),
        !joined && !first_connection ==> r is None,
{
    if joined {
        Some(publish_membership_joined(username, members, participants))
    } else if first_connection {
        Some(ChatMessage::Presence { members, participants })
    } else {
        None
    }
}

/// What an account's last closing connection broadcasts: an empty typing frame
/// that clears its draft, then the new presence. Other connections broadcast nothing.
pub fn departure_frames(
    last_connection: bool,
    user_id: u128,
    username: &str,
    members: Vec<RoomMember>,
    participants: Vec<RoomMember>,
) -> (r: Vec<ChatMessage>)
    ensures
        !last_connection ==> r@.len() == 0,
        last_connection ==> r@.len() == 2 && (r@[0] matches ChatMessage::Typing {
            content,
            user_id: Some(u),
            username: Some(n),
        } && content@.len() == 0 && u == user_id && n@ == username@) && (r@[1] matches ChatMessage::Presence {
            members: m,
            participants: p,
        } && m@ == members@ && p@ == participants@),
{
    let mut frames: Vec<ChatMessage> = Vec::new();
    if last_connection {
        frames.push(
            ChatMessage::Typing {
                content: String::new(),
                user_id: Some(user_id),
                username: Some(copy_str(username)),
            },
        );
        frames.push(ChatMessage::Presence { members, participants });
    }
    frames
}

pub open spec fn store_failure_text(username: Seq<char>) -> Seq<char> {
    "message from "@ + username + " was not saved or broadcast"@
}

/// The room notice when a chat message could not be stored.
pub fn store_failure_notice(username: &str) -> (c: ChatMessage)
    ensures
        c matches ChatMessage::System { content, members: None, participants: None } && content@
            == store_failure_text(username@),
{
    let mut content = copy_str("message from ");
    content.append(username);
    content.append(" was not saved or broadcast");
    ChatMessage::System { content, members: None, participants: None }
}

/// What follows a store attempt of a chat message.
pub struct StoredMessageFollowUp {
    /// Record the mentions (only for a newly inserted message that mentions someone).
    pub record_mentions: bool,
    /// Re-send the already stored copy (the client retried a message it had sent).
    pub replay: bool,
}

pub fn stored_message_follow_up(inserted: bool, mention_count: usize) -> (r: StoredMessageFollowUp)
    ensures
        r.record_mentions == (inserted && mention_count > 0),
        r.replay == !inserted,
{
    StoredMessageFollowUp { record_mentions: inserted && mention_count > 0, replay: !inserted }
}

pub open spec fn is_connected(members: Seq<RoomMember>, user_id: u128) -> bool {
    exists|i: int| 0 <= i < members.len() && members[i].user_id == user_id
}

/// A poke may target another account that is connected to the room.
pub fn poke_target_allowed(actor_id: u128, target_id: u128, connected: &Vec<RoomMember>) -> (b: bool)
    ensures
        b == (target_id != actor_id && is_connected(connected@, target_id)),
{
    if target_id == actor_id {
        return false;
    }
    let mut i: usize = 0;
    while i < connected.len()
        invariant
            i <= connected.len(),
            target_id != actor_id,
            forall|k: int| 0 <= k < i ==> connected@[k].user_id != target_id,
        decreases connected.len() - i,
    {
        if connected[i].user_id == target_id {
            assert(connected@[i as int].user_id == target_id);
            return true;
        }
        i += 1;
    }
    false
}

pub open spec fn poke_text(actor_id: u128, target_id: u128) -> Seq<char> {
    "poke:"@ + uuid_text(actor_id) + ":"@ + uuid_text(target_id)
}

/// The room notice of a poke: `poke:<actor id>:<target id>`.
pub fn poke_notice(actor_id: u128, target_id: u128) -> (c: ChatMessage)
    ensures
        c matches ChatMessage::System { content, members: None, participants: None } && content@
            == poke_text(actor_id, target_id),
{
    let mut content = copy_str("poke:");
    let actor = uuid_string(actor_id);
    content.append(actor.as_str());
    content.append(":");
    let target = uuid_string(target_id);
    content.append(target.as_str());
    ChatMessage::System { content, members: None, participants: None }
}

/// What a poke broadcasts: the poke notice exactly when the target is another
/// account connected to the room and the sender's cooldown for that target has
/// passed (`cooldown_passed`, the cooldown's answer, asked only once
/// `poke_target_allowed` holds, since asking starts a new cooldown); otherwise
/// nothing.
pub fn poke_broadcast(actor_id: u128, target_id: u128, connected: &Vec<RoomMember>, cooldown_passed: bool) -> (r: Option<ChatMessage>)
    ensures
        r is Some <==> (target_id != actor_id && is_connected(connected@, target_id) && cooldown_passed),
        r matches Some(c) ==> (c matches ChatMessage::System { content, members: None, participants: None }
            && content@ == poke_text(actor_id, target_id)),
{
    if poke_target_allowed(actor_id, target_id, connected) && cooldown_passed {
        Some(poke_notice(actor_id, target_id))
    } else {
        None
    }
}

/// An event published to the connections of a room.
pub enum RoomEvent {
    Message(ChatMessage),
    Disconnect { reason: String },
    DisconnectUser { user_id: u128, reason: String },
}

/// What a connection's forwarder does with a room event.
pub enum ForwarderStep {
    /// Send the frame (advancing the delivered-message cursor).
    Deliver,
    /// Send a system notice with this reason, then close the socket.
    Close(String),
    /// Nothing to do for this connection.
    Skip,
}

/// A room-wide disconnect closes every connection; a per-account disconnect
/// closes only that account's connections; messages are delivered.
pub fn forward_room_event(event: &RoomEvent, user_id: u128) -> (r: ForwarderStep)
    ensures
        event matches RoomEvent::Message(_) ==> r matches ForwarderStep::Deliver,
        event matches RoomEvent::Disconnect { reason } ==> r matches ForwarderStep::Close(c) && c@
            == reason@,
        event matches RoomEvent::DisconnectUser { user_id: target, reason } ==> if target
            == user_id {
            r matches ForwarderStep::Close(c) && c@ == reason@
        } else {
            r matches ForwarderStep::Skip
        },
{
    match event {
        RoomEvent::Message(_) => ForwarderStep::Deliver,
        RoomEvent::Disconnect { reason } => ForwarderStep::Close(reason.clone()),
        RoomEvent::DisconnectUser { user_id: target, reason } => {
            if *target == user_id {
                ForwarderStep::Close(reason.clone())
            } else {
                ForwarderStep::Skip
            }
        },
    }
}

/// Before polling the store, a connection whose session was revoked closes with
/// "session revoked" and one whose account left the room with "membership left";
/// a check that failed (`None`) does not close it.
pub fn poll_database_updates(session_active: Option<bool>, participant: Option<bool>) -> (r: Option<
    &'static str,
>)
    ensures
        session_active == Some(false) ==> (r matches Some(x) && x@ == "session revoked"@),
        session_active != Some(false) && participant == Some(false) ==> (r matches Some(x) && x@
            == "membership left"@),
        session_active != Some(false) && participant != Some(false) ==> r is None,
{
    if session_active == Some(false) {
        Some("session revoked")
    } else if participant == Some(false) {
        Some("membership left")
    } else {
        None
    }
}

} // verus!
